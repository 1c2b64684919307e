//! Handling one request, step by step. Whatever has to be done outside
//! (asking, writing, copying, running `vagrant`) is handed out as an action;
//! what came of it is handed back in as an event.

use vstd::prelude::*;
use vstd::string::*;
use crate::args::args_error_text;
use crate::args::ArgsError;
use crate::args::SubCommand;
use crate::args::SubCommandView;
use crate::config::Config;
use crate::config::Info;
use crate::entries::InfoView;
use crate::error::error_text;
use crate::error::VmError;
use crate::path::is_absolute;
use crate::path::is_absolute_path;
use crate::process::exit_code_of;
use crate::process::ExitStatus;
use crate::process::RunVagrant;
use crate::process::EXIT_FAILURE;
use crate::process::EXIT_SUCCESS;
use crate::process::EXIT_USAGE;
use crate::stamp::stamp_text;
use crate::stamp::Timestamp;
use crate::text::texts;
use crate::vm::added;
use crate::vm::backup_path;
use crate::vm::Vm;

verus! {

/// How far a request has come.
#[derive(Debug, PartialEq, Eq)]
pub enum State {
    /// Nothing has happened yet.
    Ready,
    /// The user was asked whether the entry `name` shall go.
    Confirming { name: String },
    /// Outside work is under way, and the request ends when it is done.
    Finishing,
    /// `vagrant` is running.
    Running,
    /// The request has ended.
    Finished,
}

/// What a `State` holds, as character sequences.
pub enum StateView {
    Ready,
    Confirming { name: Seq<char> },
    Finishing,
    Running,
    Finished,
}

impl View for State {
    type V = StateView;

    open spec fn view(&self) -> StateView {
        match self {
            State::Ready => StateView::Ready,
            State::Confirming { name } => StateView::Confirming { name: name@ },
            State::Finishing => StateView::Finishing,
            State::Running => StateView::Running,
            State::Finished => StateView::Finished,
        }
    }
}

/// What happened outside.
#[derive(Debug, PartialEq, Eq)]
pub enum Event {
    /// The request `command` came in, while the working directory was `cwd`
    /// and the local time was `now`.
    Start { command: SubCommand, cwd: String, now: Timestamp },
    /// The user answered with `byte`, or with nothing at all.
    Answer { byte: Option<u8> },
    /// The work that was asked for is done.
    Done,
    /// `vagrant` ended with `status`.
    Exited { status: ExitStatus },
    /// The work that was asked for failed with `error`.
    Failed { error: VmError },
}

/// What to do outside.
#[derive(Debug, PartialEq, Eq)]
pub enum Action {
    /// Print `notice` and write the registry to its file.
    Save { notice: Vec<String> },
    /// Print `prompt` and read one byte of the user's answer.
    Confirm { prompt: String },
    /// Copy the file `from` to `to`, and fail where `to` is there already.
    Copy { from: String, to: String },
    /// Print the path of each file called `Vagrantfile` below `base_path`.
    Find { base_path: String },
    /// Change into `dir` and run `vagrant` with `options`.
    Run { dir: String, options: Vec<String> },
    /// Print `out`, print `err` as errors, and end with `code`.
    Exit { code: i32, out: Vec<String>, err: Vec<String> },
}

/// What an `Action` holds, as character sequences.
pub enum ActionView {
    Save { notice: Seq<Seq<char>> },
    Confirm { prompt: Seq<char> },
    Copy { from: Seq<char>, to: Seq<char> },
    Find { base_path: Seq<char> },
    Run { dir: Seq<char>, options: Seq<Seq<char>> },
    Exit { code: i32, out: Seq<Seq<char>>, err: Seq<Seq<char>> },
}

impl View for Action {
    type V = ActionView;

    open spec fn view(&self) -> ActionView {
        match self {
            Action::Save { notice } => ActionView::Save { notice: texts(notice@) },
            Action::Confirm { prompt } => ActionView::Confirm { prompt: prompt@ },
            Action::Copy { from, to } => ActionView::Copy { from: from@, to: to@ },
            Action::Find { base_path } => ActionView::Find { base_path: base_path@ },
            Action::Run { dir, options } => ActionView::Run { dir: dir@, options: texts(options@) },
            Action::Exit { code, out, err } => ActionView::Exit {
                code: *code,
                out: texts(out@),
                err: texts(err@),
            },
        }
    }
}

/// The line that shows an entry in a listing.
pub open spec fn line_text(e: InfoView) -> Seq<char> {
    e.name + ": "@ + e.path
}

/// A listing: one line for each entry, in the entries' order.
pub open spec fn list_lines(s: Seq<InfoView>) -> Seq<Seq<char>> {
    Seq::new(s.len(), |i: int| line_text(s[i]))
}

/// The question whether an entry shall go.
pub open spec fn prompt_text(e: InfoView) -> Seq<char> {
    "Delete this entry { name: "@ + e.name + ", path: "@ + e.path + " } (y/N)"@
}

/// The notice that an entry gave way to a new one of its name.
pub open spec fn replaced_text(e: InfoView) -> Seq<char> {
    "Replaced entry { name: "@ + e.name + ", path: "@ + e.path + " }"@
}

/// The report that the registry has no entry called `name`.
pub open spec fn missing_text(name: Seq<char>) -> Seq<char> {
    name + " is not found in vm_list"@
}

/// The report of a working directory that cannot serve as a base.
pub open spec fn base_text(cwd: Seq<char>) -> Seq<char> {
    "Working directory is not an absolute path: "@ + cwd
}

/// The report of an event that the state does not wait for.
pub open spec fn unexpected_text() -> Seq<char> {
    "Unexpected event"@
}

/// Whether an answer agrees: it is the byte `y` or the byte `Y`.
pub open spec fn confirms(byte: Option<u8>) -> bool {
    byte == Some(0x79u8) || byte == Some(0x59u8)
}

/// What a step leads to: the entries after it, the new state, and what to
/// do outside.
pub struct Outcome {
    pub entries: Map<Seq<char>, InfoView>,
    pub state: StateView,
    pub action: ActionView,
}

/// The end of a request, with nothing changed.
pub open spec fn finish(
    entries: Map<Seq<char>, InfoView>,
    code: i32,
    out: Seq<Seq<char>>,
    err: Seq<Seq<char>>,
) -> Outcome {
    Outcome { entries, state: StateView::Finished, action: ActionView::Exit { code, out, err } }
}

/// The entry called `name` goes, and the registry is to be written; or, if
/// there is no such entry, the request ends with a report of that.
pub open spec fn take_out(entries: Map<Seq<char>, InfoView>, name: Seq<char>) -> Outcome {
    if entries.contains_key(name) {
        Outcome {
            entries: entries.remove(name),
            state: StateView::Finishing,
            action: ActionView::Save { notice: Seq::empty() },
        }
    } else {
        finish(entries, EXIT_SUCCESS, Seq::empty(), seq![missing_text(name)])
    }
}

/// What a new request leads to.
pub open spec fn start(
    registry: Config,
    file: Seq<char>,
    command: SubCommandView,
    cwd: Seq<char>,
    now: Timestamp,
) -> Outcome {
    let entries = registry@.vm_list;
    match command {
        SubCommandView::List => finish(
            entries,
            EXIT_SUCCESS,
            list_lines(registry.entries()),
            Seq::empty(),
        ),
        SubCommandView::Add { name, path } => {
            if name.len() == 0 {
                finish(entries, EXIT_USAGE, Seq::empty(), seq![args_error_text(ArgsError::NoVmName)])
            } else if !is_absolute(cwd) {
                finish(entries, EXIT_FAILURE, Seq::empty(), seq![base_text(cwd)])
            } else {
                Outcome {
                    entries: added(entries, name, path, cwd),
                    state: StateView::Finishing,
                    action: ActionView::Save {
                        notice: if entries.contains_key(name) {
                            seq![replaced_text(entries[name])]
                        } else {
                            Seq::empty()
                        },
                    },
                }
            }
        },
        SubCommandView::Remove { name, force } => {
            if !entries.contains_key(name) || force {
                take_out(entries, name)
            } else {
                Outcome {
                    entries,
                    state: StateView::Confirming { name },
                    action: ActionView::Confirm { prompt: prompt_text(entries[name]) },
                }
            }
        },
        SubCommandView::BackupConfigFile => Outcome {
            entries,
            state: StateView::Finishing,
            action: ActionView::Copy { from: file, to: backup_path(file, stamp_text(now@)) },
        },
        SubCommandView::FindVagrantfiles { base_path } => Outcome {
            entries,
            state: StateView::Finishing,
            action: ActionView::Find { base_path },
        },
        SubCommandView::Raw { vm_name, options } => {
            if entries.contains_key(vm_name) {
                Outcome {
                    entries,
                    state: StateView::Running,
                    action: ActionView::Run { dir: entries[vm_name].path, options },
                }
            } else {
                finish(entries, EXIT_FAILURE, Seq::empty(), seq![missing_text(vm_name)])
            }
        },
    }
}

/// What an event leads to in a state. A failure of outside work ends the
/// request with the error in words and `EXIT_FAILURE`; so does an event
/// that the state does not wait for.
pub open spec fn next(registry: Config, file: Seq<char>, state: StateView, event: Event) -> Outcome {
    let entries = registry@.vm_list;
    match (state, event) {
        (StateView::Ready, Event::Start { command, cwd, now }) => start(
            registry,
            file,
            command@,
            cwd@,
            now,
        ),
        (StateView::Confirming { name }, Event::Answer { byte }) => {
            if confirms(byte) {
                take_out(entries, name)
            } else {
                finish(entries, EXIT_SUCCESS, Seq::empty(), Seq::empty())
            }
        },
        (StateView::Finishing, Event::Done) => finish(
            entries,
            EXIT_SUCCESS,
            Seq::empty(),
            Seq::empty(),
        ),
        (StateView::Running, Event::Exited { status }) => finish(
            entries,
            exit_code_of(status.spec_code()),
            Seq::empty(),
            Seq::empty(),
        ),
        (StateView::Confirming { .. }, Event::Failed { error })
        | (StateView::Finishing, Event::Failed { error })
        | (StateView::Running, Event::Failed { error }) => finish(
            entries,
            EXIT_FAILURE,
            Seq::empty(),
            seq![error_text(error)],
        ),
        _ => finish(entries, EXIT_FAILURE, Seq::empty(), seq![unexpected_text()]),
    }
}

/// How many steps a request may still take from a state.
pub open spec fn steps_left(state: StateView) -> nat {
    match state {
        StateView::Ready => 3,
        StateView::Confirming { .. } => 2,
        StateView::Finishing => 1,
        StateView::Running => 1,
        StateView::Finished => 0,
    }
}

/// Every request ends: each step leaves fewer steps to take, the request
/// has ended exactly when the action is to exit, and an ended request stays
/// ended.
pub proof fn law_every_step_gets_closer(
    registry: Config,
    file: Seq<char>,
    state: StateView,
    event: Event,
)
    ensures
        !(state is Finished) ==> steps_left(next(registry, file, state, event).state) < steps_left(
            state,
        ),
        next(registry, file, state, event).state is Finished <==> next(
            registry,
            file,
            state,
            event,
        ).action is Exit,
        state is Finished ==> next(registry, file, state, event).state is Finished,
{
}

/// The registry is written whenever its entries change, and only for a
/// request to add or after an entry has gone.
pub proof fn law_changes_are_saved(registry: Config, file: Seq<char>, state: StateView, event: Event)
    ensures
        next(registry, file, state, event).entries != registry@.vm_list ==> next(
            registry,
            file,
            state,
            event,
        ).action is Save,
        (next(registry, file, state, event).action is Save ==> next(
            registry,
            file,
            state,
            event,
        ).entries != registry@.vm_list || (event matches Event::Start { command, .. }
            && command is Add)),
{
    let entries = registry@.vm_list;
    let o = next(registry, file, state, event);
    if o.action is Save && !(event matches Event::Start { command, .. } && command is Add) {
        let name = match (state, event) {
            (StateView::Confirming { name }, _) => name,
            (_, Event::Start { command: SubCommand::Remove { name, .. }, .. }) => name@,
            _ => Seq::empty(),
        };
        assert(o == take_out(entries, name));
        assert(entries.contains_key(name));
        assert(!o.entries.contains_key(name));
    }
}

/// An answer other than `y` or `Y`, or no answer, keeps the entry: the
/// entries stay as they are, nothing is written, and the request ends well.
pub proof fn law_declined_removal_keeps_entry(
    registry: Config,
    file: Seq<char>,
    name: Seq<char>,
    byte: Option<u8>,
)
    requires
        !confirms(byte),
    ensures
        next(registry, file, StateView::Confirming { name }, Event::Answer { byte }) == finish(
            registry@.vm_list,
            EXIT_SUCCESS,
            Seq::empty(),
            Seq::empty(),
        ),
{
}

/// The answer `y` or `Y` takes the entry out and has the registry written.
pub proof fn law_confirmed_removal_takes_entry(
    registry: Config,
    file: Seq<char>,
    name: Seq<char>,
    byte: Option<u8>,
)
    requires
        confirms(byte),
        registry@.vm_list.contains_key(name),
    ensures
        next(registry, file, StateView::Confirming { name }, Event::Answer { byte }).entries
            == registry@.vm_list.remove(name),
        !next(
            registry,
            file,
            StateView::Confirming { name },
            Event::Answer { byte },
        ).entries.contains_key(name),
        next(registry, file, StateView::Confirming { name }, Event::Answer { byte }).action
            == (ActionView::Save { notice: Seq::empty() }),
{
}

/// A request to remove asks first exactly when the entry is there and
/// `force` is not set; the question shows the entry.
pub proof fn law_removal_asks_unless_forced(
    registry: Config,
    file: Seq<char>,
    name: String,
    force: bool,
    cwd: String,
    now: Timestamp,
)
    ensures
        ({
            let o = next(
                registry,
                file,
                StateView::Ready,
                Event::Start { command: SubCommand::Remove { name, force }, cwd, now },
            );
            let there = registry@.vm_list.contains_key(name@);
            &&& o.action is Confirm <==> there && !force
            &&& there && !force ==> o.entries == registry@.vm_list && o.action
                == (ActionView::Confirm { prompt: prompt_text(registry@.vm_list[name@]) })
            &&& there && force ==> o.entries == registry@.vm_list.remove(name@) && o.action is Save
            &&& !there ==> o == finish(
                registry@.vm_list,
                EXIT_SUCCESS,
                Seq::empty(),
                seq![missing_text(name@)],
            )
        }),
{
}

/// `vagrant` is run only for a name that the registry holds, in that
/// entry's directory and with the request's options as they came.
pub proof fn law_only_known_names_are_run(
    registry: Config,
    file: Seq<char>,
    state: StateView,
    event: Event,
)
    ensures
        (next(registry, file, state, event).action matches ActionView::Run { dir, options } ==> {
            &&& state is Ready
            &&& event matches Event::Start { command: SubCommand::Raw { vm_name, options: asked }, .. }
            &&& registry@.vm_list.contains_key(vm_name@)
            &&& dir == registry@.vm_list[vm_name@].path
            &&& options == texts(asked@)
        }),
{
}

/// A request to run `vagrant` for a name that the registry does not hold
/// ends at once, with `EXIT_FAILURE` and a report; nothing is run.
pub proof fn law_unknown_name_is_not_run(
    registry: Config,
    file: Seq<char>,
    vm_name: String,
    options: Vec<String>,
    cwd: String,
    now: Timestamp,
)
    requires
        !registry@.vm_list.contains_key(vm_name@),
    ensures
        next(
            registry,
            file,
            StateView::Ready,
            Event::Start { command: SubCommand::Raw { vm_name, options }, cwd, now },
        ) == finish(registry@.vm_list, EXIT_FAILURE, Seq::empty(), seq![missing_text(vm_name@)]),
        EXIT_FAILURE != EXIT_SUCCESS,
{
}

/// When `vagrant` has ended, the request ends with its exit code, and with
/// a code other than `EXIT_SUCCESS` where it has none.
pub proof fn law_exit_code_passes_on(registry: Config, file: Seq<char>, status: ExitStatus)
    ensures
        next(registry, file, StateView::Running, Event::Exited { status }) == finish(
            registry@.vm_list,
            exit_code_of(status.spec_code()),
            Seq::empty(),
            Seq::empty(),
        ),
        status.spec_code() matches Some(code) ==> exit_code_of(status.spec_code()) == code,
        status.spec_code() is None ==> exit_code_of(status.spec_code()) != EXIT_SUCCESS,
{
}

/// A failure of outside work is never passed over: the request ends with
/// `EXIT_FAILURE` and the error in words.
pub proof fn law_failures_are_reported(
    registry: Config,
    file: Seq<char>,
    state: StateView,
    error: VmError,
)
    requires
        !(state is Ready),
        !(state is Finished),
    ensures
        next(registry, file, state, Event::Failed { error }) == finish(
            registry@.vm_list,
            EXIT_FAILURE,
            Seq::empty(),
            seq![error_text(error)],
        ),
{
}

/// No lines.
fn no_lines() -> (r: Vec<String>)
    ensures
        texts(r@) == Seq::<Seq<char>>::empty(),
{
    let r: Vec<String> = Vec::new();
    assert(texts(r@) =~= Seq::<Seq<char>>::empty());
    r
}

/// One line.
fn one_line(line: String) -> (r: Vec<String>)
    ensures
        texts(r@) == seq![line@],
{
    let mut r: Vec<String> = Vec::new();
    r.push(line);
    assert(texts(r@) =~= seq![line@]);
    r
}

/// The line that shows `info` in a listing.
pub fn line(info: &Info) -> (r: String)
    ensures
        r@ == line_text(info@),
{
    let mut out: String = String::from_str(info.name());
    out.append(": ");
    out.append(info.path());
    out
}

/// The question whether `info` shall go.
pub fn prompt(info: &Info) -> (r: String)
    ensures
        r@ == prompt_text(info@),
{
    let mut out: String = String::from_str("Delete this entry { name: ");
    out.append(info.name());
    out.append(", path: ");
    out.append(info.path());
    out.append(" } (y/N)");
    out
}

/// The notice that `info` gave way to a new entry of its name.
pub fn replaced(info: &Info) -> (r: String)
    ensures
        r@ == replaced_text(info@),
{
    let mut out: String = String::from_str("Replaced entry { name: ");
    out.append(info.name());
    out.append(", path: ");
    out.append(info.path());
    out.append(" }");
    out
}

/// The report that the registry has no entry called `name`.
pub fn missing(name: &str) -> (r: String)
    ensures
        r@ == missing_text(name@),
{
    let mut out: String = String::from_str(name);
    out.append(" is not found in vm_list");
    out
}

/// Whether an answer agrees.
pub fn is_yes(byte: Option<u8>) -> (r: bool)
    ensures
        r == confirms(byte),
{
    match byte {
        Some(b) => b == 0x79u8 || b == 0x59u8,
        None => false,
    }
}

/// The end of a request.
fn finished(code: i32, out: Vec<String>, err: Vec<String>) -> (r: (State, Action))
    ensures
        r.0@ == StateView::Finished,
        r.1@ == (ActionView::Exit { code, out: texts(out@), err: texts(err@) }),
{
    (State::Finished, Action::Exit { code, out, err })
}

/// The listing of the registry.
fn listing<V: RunVagrant>(vm: &Vm<V>) -> (r: Vec<String>)
    requires
        vm.wf(),
    ensures
        texts(r@) == list_lines(vm.registry().entries()),
{
    let entries = vm.list();
    let mut out: Vec<String> = Vec::new();
    let n: usize = entries.len();
    let mut i: usize = 0;
    while i < n
        invariant
            n == entries@.len(),
            n == vm.registry().entries().len(),
            i <= n,
            out@.len() == i,
            forall|j: int| 0 <= j < n ==> (#[trigger] entries@[j])@ == vm.registry().entries()[j],
            forall|j: int| 0 <= j < i ==> (#[trigger] out@[j])@ == line_text(vm.registry().entries()[j]),
        decreases n - i,
    {
        out.push(line(entries[i]));
        i = i + 1;
    }
    assert(texts(out@) =~= list_lines(vm.registry().entries()));
    out
}

/// Takes the entry called `name` out and asks for the registry to be
/// written, or reports that there is no such entry.
fn take_out_of<V: RunVagrant>(vm: &mut Vm<V>, name: &str) -> (r: (State, Action))
    requires
        old(vm).wf(),
    ensures
        final(vm).wf(),
        final(vm).file() == old(vm).file(),
        final(vm).runner() == old(vm).runner(),
        final(vm).registry()@.vagrant_path == old(vm).registry()@.vagrant_path,
        final(vm).entries() == take_out(old(vm).entries(), name@).entries,
        r.0@ == take_out(old(vm).entries(), name@).state,
        r.1@ == take_out(old(vm).entries(), name@).action,
{
    match vm.remove(name) {
        Some(_) => (State::Finishing, Action::Save { notice: no_lines() }),
        None => finished(EXIT_SUCCESS, no_lines(), one_line(missing(name))),
    }
}

/// Takes up a new request.
fn begin<V: RunVagrant>(
    vm: &mut Vm<V>,
    command: SubCommand,
    cwd: String,
    now: Timestamp,
) -> (r: (State, Action))
    requires
        old(vm).wf(),
    ensures
        final(vm).wf(),
        final(vm).file() == old(vm).file(),
        final(vm).runner() == old(vm).runner(),
        final(vm).registry()@.vagrant_path == old(vm).registry()@.vagrant_path,
        final(vm).entries() == start(old(vm).registry(), old(vm).file(), command@, cwd@, now).entries,
        r.0@ == start(old(vm).registry(), old(vm).file(), command@, cwd@, now).state,
        r.1@ == start(old(vm).registry(), old(vm).file(), command@, cwd@, now).action,
{
    match command {
        SubCommand::List => {
            let out = listing(vm);
            finished(EXIT_SUCCESS, out, no_lines())
        },
        SubCommand::Add { name, path } => {
            if name.as_str().unicode_len() == 0 {
                finished(EXIT_USAGE, no_lines(), one_line(ArgsError::NoVmName.message()))
            } else if !is_absolute_path(cwd.as_str()) {
                let mut report: String = String::from_str(
                    "Working directory is not an absolute path: ",
                );
                report.append(cwd.as_str());
                finished(EXIT_FAILURE, no_lines(), one_line(report))
            } else {
                let notice = match vm.add(name.as_str(), path.as_str(), cwd.as_str()) {
                    Some(previous) => one_line(replaced(&previous)),
                    None => no_lines(),
                };
                (State::Finishing, Action::Save { notice })
            }
        },
        SubCommand::Remove { name, force } => {
            let ask: Option<String> = match vm.get_info(name.as_str()) {
                Some(info) => if force {
                    None
                } else {
                    Some(prompt(info))
                },
                None => None,
            };
            match ask {
                Some(prompt) => (State::Confirming { name }, Action::Confirm { prompt }),
                None => take_out_of(vm, name.as_str()),
            }
        },
        SubCommand::BackupConfigFile => {
            let stamp = now.stamp();
            let copy = vm.backup_config_file(stamp.as_str());
            (State::Finishing, Action::Copy { from: copy.from, to: copy.to })
        },
        SubCommand::FindVagrantfiles { base_path } => (State::Finishing, Action::Find { base_path }),
        SubCommand::Raw { vm_name, options } => {
            let found: Option<String> = match vm.get_info(vm_name.as_str()) {
                Some(info) => Some(String::from_str(info.path())),
                None => None,
            };
            match found {
                Some(dir) => (State::Running, Action::Run { dir, options }),
                None => finished(EXIT_FAILURE, no_lines(), one_line(missing(vm_name.as_str()))),
            }
        },
    }
}

/// Takes one step: from `state`, on `event`, to the state and the action
/// that `next` gives, with the registry changed as `next` says.
pub fn step<V: RunVagrant>(vm: &mut Vm<V>, state: State, event: Event) -> (r: (State, Action))
    requires
        old(vm).wf(),
    ensures
        final(vm).wf(),
        final(vm).file() == old(vm).file(),
        final(vm).runner() == old(vm).runner(),
        final(vm).registry()@.vagrant_path == old(vm).registry()@.vagrant_path,
        final(vm).entries() == next(old(vm).registry(), old(vm).file(), state@, event).entries,
        r.0@ == next(old(vm).registry(), old(vm).file(), state@, event).state,
        r.1@ == next(old(vm).registry(), old(vm).file(), state@, event).action,
{
    match state {
        State::Ready => match event {
            Event::Start { command, cwd, now } => begin(vm, command, cwd, now),
            _ => finished(EXIT_FAILURE, no_lines(), one_line(String::from_str("Unexpected event"))),
        },
        State::Confirming { name } => match event {
            Event::Answer { byte } => if is_yes(byte) {
                take_out_of(vm, name.as_str())
            } else {
                finished(EXIT_SUCCESS, no_lines(), no_lines())
            },
            Event::Failed { error } => finished(EXIT_FAILURE, no_lines(), one_line(error.message())),
            _ => finished(EXIT_FAILURE, no_lines(), one_line(String::from_str("Unexpected event"))),
        },
        State::Finishing => match event {
            Event::Done => finished(EXIT_SUCCESS, no_lines(), no_lines()),
            Event::Failed { error } => finished(EXIT_FAILURE, no_lines(), one_line(error.message())),
            _ => finished(EXIT_FAILURE, no_lines(), one_line(String::from_str("Unexpected event"))),
        },
        State::Running => match event {
            Event::Exited { status } => finished(status.exit_code(), no_lines(), no_lines()),
            Event::Failed { error } => finished(EXIT_FAILURE, no_lines(), one_line(error.message())),
            _ => finished(EXIT_FAILURE, no_lines(), one_line(String::from_str("Unexpected event"))),
        },
        State::Finished => finished(
            EXIT_FAILURE,
            no_lines(),
            one_line(String::from_str("Unexpected event")),
        ),
    }
}

} // verus!
