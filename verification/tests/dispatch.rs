use vm::step;
use vm::Action;
use vm::Config;
use vm::Event;
use vm::ExitStatus;
use vm::Info;
use vm::PersistenceError;
use vm::ProcessError;
use vm::RunVagrant;
use vm::State;
use vm::SubCommand;
use vm::Timestamp;
use vm::Vm;
use vm::VmError;
use vm::VmInfoFindError;

/// A runner that must not be used: these tests only decide.
struct Unused;

impl RunVagrant for Unused {
    fn subcommand(&self, _command: &str, _options: &Vec<String>) -> Result<ExitStatus, ProcessError> {
        panic!("nothing is run here")
    }

    fn raw(&self, _options: &Vec<String>) -> Result<ExitStatus, ProcessError> {
        panic!("nothing is run here")
    }
}

const FILE: &str = "/home/u/.config/vm/config.toml";

fn vm_with(entries: &[(&str, &str)]) -> Vm<Unused> {
    let mut config = Config::from_file(None, false).unwrap();
    for (name, path) in entries {
        config.insert(Info::new(name.to_string(), path.to_string()));
    }
    Vm::new(FILE, config, Unused).unwrap()
}

fn start(command: SubCommand) -> Event {
    Event::Start {
        command,
        cwd: String::from("/home/u"),
        now: Timestamp::new(2024, 3, 5, 7, 8, 9).unwrap(),
    }
}

fn exit(code: i32, out: &[&str], err: &[&str]) -> Action {
    Action::Exit {
        code,
        out: out.iter().map(|s| s.to_string()).collect(),
        err: err.iter().map(|s| s.to_string()).collect(),
    }
}

fn stored_names(vm: &Vm<Unused>) -> Vec<String> {
    vm.config().save_to_file().vm_list.into_iter().map(|(key, _)| key).collect()
}

#[test]
fn removal_confirmed_with_y_takes_the_entry_out_and_saves() {
    let mut vm = vm_with(&[("web", "/srv/web")]);
    let command = SubCommand::Remove { name: String::from("web"), force: false };
    let (state, action) = step(&mut vm, State::Ready, start(command));
    assert_eq!(state, State::Confirming { name: String::from("web") });
    assert_eq!(
        action,
        Action::Confirm { prompt: String::from("Delete this entry { name: web, path: /srv/web } (y/N)") }
    );
    assert!(vm.get_info("web").is_some());
    let (state, action) = step(&mut vm, state, Event::Answer { byte: Some(b'y') });
    assert_eq!(state, State::Finishing);
    assert_eq!(action, Action::Save { notice: vec![] });
    assert!(vm.get_info("web").is_none());
    assert!(stored_names(&vm).is_empty());
    let (state, action) = step(&mut vm, state, Event::Done);
    assert_eq!(state, State::Finished);
    assert_eq!(action, exit(0, &[], &[]));
}

#[test]
fn removal_confirmed_with_capital_y_takes_the_entry_out() {
    let mut vm = vm_with(&[("web", "/srv/web"), ("db", "/srv/db")]);
    let state = State::Confirming { name: String::from("web") };
    let (state, action) = step(&mut vm, state, Event::Answer { byte: Some(b'Y') });
    assert_eq!(state, State::Finishing);
    assert_eq!(action, Action::Save { notice: vec![] });
    assert_eq!(stored_names(&vm), vec!["db"]);
}

#[test]
fn removal_answered_with_n_keeps_the_entry_and_writes_nothing() {
    let mut vm = vm_with(&[("web", "/srv/web")]);
    let before = vm.config().save_to_file();
    let command = SubCommand::Remove { name: String::from("web"), force: false };
    let (state, action) = step(&mut vm, State::Ready, start(command));
    assert!(matches!(action, Action::Confirm { .. }));
    let (state, action) = step(&mut vm, state, Event::Answer { byte: Some(b'n') });
    assert_eq!(state, State::Finished);
    assert_eq!(action, exit(0, &[], &[]));
    assert_eq!(vm.get_info("web").unwrap().path(), "/srv/web");
    assert_eq!(vm.config().save_to_file(), before);
}

#[test]
fn removal_is_off_for_any_other_answer_and_for_none() {
    for byte in [None, Some(b'N'), Some(b'\n'), Some(b' '), Some(0), Some(b'z'), Some(0xF9), Some(b'1')] {
        let mut vm = vm_with(&[("web", "/srv/web")]);
        let state = State::Confirming { name: String::from("web") };
        let (state, action) = step(&mut vm, state, Event::Answer { byte });
        assert_eq!(state, State::Finished);
        assert_eq!(action, exit(0, &[], &[]));
        assert_eq!(stored_names(&vm), vec!["web"]);
    }
}

#[test]
fn forced_removal_does_not_ask() {
    let mut vm = vm_with(&[("web", "/srv/web"), ("db", "/srv/db")]);
    let command = SubCommand::Remove { name: String::from("db"), force: true };
    let (state, action) = step(&mut vm, State::Ready, start(command));
    assert_eq!(state, State::Finishing);
    assert_eq!(action, Action::Save { notice: vec![] });
    assert_eq!(stored_names(&vm), vec!["web"]);
}

#[test]
fn removal_of_an_unknown_name_is_reported_and_ends_well() {
    for force in [false, true] {
        let mut vm = vm_with(&[("web", "/srv/web")]);
        let command = SubCommand::Remove { name: String::from("db"), force };
        let (state, action) = step(&mut vm, State::Ready, start(command));
        assert_eq!(state, State::Finished);
        assert_eq!(action, exit(0, &[], &["db is not found in vm_list"]));
        assert_eq!(stored_names(&vm), vec!["web"]);
    }
}

#[test]
fn adding_to_a_new_registry_stores_the_entry_and_saves() {
    let config = Config::from_file(None, false).unwrap();
    let mut vm = Vm::new(FILE, config, Unused).unwrap();
    let command = SubCommand::Add { name: String::from("db"), path: String::from("/home/u/proj") };
    let (state, action) = step(&mut vm, State::Ready, start(command));
    assert_eq!(state, State::Finishing);
    assert_eq!(action, Action::Save { notice: vec![] });
    let stored = vm.config().save_to_file();
    assert_eq!(stored.vagrant_path, "vagrant");
    assert_eq!(
        stored.vm_list,
        vec![(String::from("db"), Info::new(String::from("db"), String::from("/home/u/proj")))]
    );
    let (state, action) = step(&mut vm, state, Event::Done);
    assert_eq!(state, State::Finished);
    assert_eq!(action, exit(0, &[], &[]));
}

#[test]
fn adding_a_relative_path_resolves_it_against_the_working_directory() {
    let mut vm = vm_with(&[]);
    let command = SubCommand::Add { name: String::from("db"), path: String::from("proj") };
    let (_, action) = step(&mut vm, State::Ready, start(command));
    assert_eq!(action, Action::Save { notice: vec![] });
    assert_eq!(vm.get_info("db").unwrap().path(), "/home/u/proj");
}

#[test]
fn adding_over_an_entry_reports_the_one_that_went() {
    let mut vm = vm_with(&[("web", "/srv/web")]);
    let command = SubCommand::Add { name: String::from("web"), path: String::from("/srv/new") };
    let (state, action) = step(&mut vm, State::Ready, start(command));
    assert_eq!(state, State::Finishing);
    assert_eq!(
        action,
        Action::Save { notice: vec![String::from("Replaced entry { name: web, path: /srv/web }")] }
    );
    assert_eq!(vm.get_info("web").unwrap().path(), "/srv/new");
}

#[test]
fn adding_without_a_name_is_a_usage_error() {
    let mut vm = vm_with(&[("web", "/srv/web")]);
    let command = SubCommand::Add { name: String::new(), path: String::from("/srv/new") };
    let (state, action) = step(&mut vm, State::Ready, start(command));
    assert_eq!(state, State::Finished);
    assert_eq!(action, exit(2, &[], &["Not specified a VM name"]));
    assert_eq!(stored_names(&vm), vec!["web"]);
}

#[test]
fn adding_from_a_working_directory_that_is_not_absolute_fails() {
    let mut vm = vm_with(&[]);
    let event = Event::Start {
        command: SubCommand::Add { name: String::from("db"), path: String::from("proj") },
        cwd: String::from("somewhere"),
        now: Timestamp::new(2024, 3, 5, 7, 8, 9).unwrap(),
    };
    let (state, action) = step(&mut vm, State::Ready, event);
    assert_eq!(state, State::Finished);
    assert_eq!(action, exit(1, &[], &["Working directory is not an absolute path: somewhere"]));
    assert!(stored_names(&vm).is_empty());
}

#[test]
fn forwarding_to_an_unknown_name_fails_and_runs_nothing() {
    let mut vm = vm_with(&[("web", "/srv/web")]);
    let command = SubCommand::Raw { vm_name: String::from("db"), options: vec![String::from("up")] };
    let (state, action) = step(&mut vm, State::Ready, start(command));
    assert_eq!(state, State::Finished);
    assert_eq!(action, exit(1, &[], &["db is not found in vm_list"]));
}

#[test]
fn forwarding_runs_in_the_entry_s_directory_with_the_options_as_they_came() {
    let mut vm = vm_with(&[("web", "/srv/web")]);
    let options = vec![String::from("ssh"), String::from("--"), String::from("-L 8080:localhost:8080")];
    let command = SubCommand::Raw { vm_name: String::from("web"), options: options.clone() };
    let (state, action) = step(&mut vm, State::Ready, start(command));
    assert_eq!(state, State::Running);
    assert_eq!(action, Action::Run { dir: String::from("/srv/web"), options });
    let (state, action) = step(&mut vm, state, Event::Exited { status: ExitStatus::new(Some(7)) });
    assert_eq!(state, State::Finished);
    assert_eq!(action, exit(7, &[], &[]));
}

#[test]
fn a_run_without_an_exit_code_ends_in_failure() {
    let mut vm = vm_with(&[]);
    let (state, action) = step(&mut vm, State::Running, Event::Exited { status: ExitStatus::new(None) });
    assert_eq!(state, State::Finished);
    assert_eq!(action, exit(1, &[], &[]));
    let (_, action) = step(&mut vm, State::Running, Event::Exited { status: ExitStatus::new(Some(0)) });
    assert_eq!(action, exit(0, &[], &[]));
    let (_, action) = step(&mut vm, State::Running, Event::Exited { status: ExitStatus::new(Some(-1)) });
    assert_eq!(action, exit(-1, &[], &[]));
}

#[test]
fn listing_prints_each_entry_in_order_of_name() {
    let mut vm = vm_with(&[("web", "/srv/web"), ("db", "/home/u/proj"), ("cache", "/var/cache")]);
    let (state, action) = step(&mut vm, State::Ready, start(SubCommand::List));
    assert_eq!(state, State::Finished);
    assert_eq!(action, exit(0, &["cache: /var/cache", "db: /home/u/proj", "web: /srv/web"], &[]));
    let mut empty = vm_with(&[]);
    let (_, action) = step(&mut empty, State::Ready, start(SubCommand::List));
    assert_eq!(action, exit(0, &[], &[]));
}

#[test]
fn a_backup_goes_to_a_sibling_named_after_the_time() {
    let mut vm = vm_with(&[("web", "/srv/web")]);
    let (state, action) = step(&mut vm, State::Ready, start(SubCommand::BackupConfigFile));
    assert_eq!(state, State::Finishing);
    assert_eq!(
        action,
        Action::Copy {
            from: String::from(FILE),
            to: String::from("/home/u/.config/vm/config.toml.2024-03-05-070809"),
        }
    );
    let (state, action) = step(&mut vm, state, Event::Done);
    assert_eq!(state, State::Finished);
    assert_eq!(action, exit(0, &[], &[]));
}

#[test]
fn a_backup_that_cannot_be_made_ends_in_failure() {
    let mut vm = vm_with(&[]);
    let (state, _) = step(&mut vm, State::Ready, start(SubCommand::BackupConfigFile));
    let error = VmError::Persistence(PersistenceError::new("the backup exists already"));
    let (state, action) = step(&mut vm, state, Event::Failed { error });
    assert_eq!(state, State::Finished);
    assert_eq!(action, exit(1, &[], &["the backup exists already"]));
}

#[test]
fn a_search_is_handed_out_with_its_base() {
    let mut vm = vm_with(&[]);
    let command = SubCommand::FindVagrantfiles { base_path: String::from("/home/u/work") };
    let (state, action) = step(&mut vm, State::Ready, start(command));
    assert_eq!(state, State::Finishing);
    assert_eq!(action, Action::Find { base_path: String::from("/home/u/work") });
}

#[test]
fn every_failure_is_reported_in_words() {
    let errors = vec![
        (VmError::Process(ProcessError::new("vagrant: not found")), "vagrant: not found"),
        (VmError::Persistence(PersistenceError::new("disk full")), "disk full"),
        (VmError::NotFound(VmInfoFindError::new("web")), "cannot find web from vm list in config file"),
    ];
    for (error, words) in errors {
        assert_eq!(error.message(), words);
        assert_eq!(error.clone(), error);
        for state in [State::Running, State::Finishing, State::Confirming { name: String::from("web") }] {
            let mut vm = vm_with(&[("web", "/srv/web")]);
            let (state, action) = step(&mut vm, state, Event::Failed { error: error.clone() });
            assert_eq!(state, State::Finished);
            assert_eq!(action, exit(1, &[], &[words]));
            assert_eq!(stored_names(&vm), vec!["web"]);
        }
    }
}

#[test]
fn an_event_that_is_not_waited_for_ends_the_request() {
    let cases = vec![
        (State::Ready, Event::Done),
        (State::Ready, Event::Answer { byte: Some(b'y') }),
        (State::Ready, Event::Failed { error: VmError::Process(ProcessError::new("x")) }),
        (State::Confirming { name: String::from("web") }, Event::Done),
        (State::Confirming { name: String::from("web") }, start(SubCommand::List)),
        (State::Finishing, Event::Answer { byte: Some(b'y') }),
        (State::Finishing, Event::Exited { status: ExitStatus::new(Some(0)) }),
        (State::Running, Event::Done),
        (State::Finished, Event::Done),
        (State::Finished, start(SubCommand::List)),
        (State::Finished, Event::Failed { error: VmError::Process(ProcessError::new("x")) }),
    ];
    for (state, event) in cases {
        let mut vm = vm_with(&[("web", "/srv/web")]);
        let (state, action) = step(&mut vm, state, event);
        assert_eq!(state, State::Finished);
        assert_eq!(action, exit(1, &[], &["Unexpected event"]));
        assert_eq!(stored_names(&vm), vec!["web"]);
    }
}

#[test]
fn a_confirmed_removal_of_a_name_that_has_gone_is_reported() {
    let mut vm = vm_with(&[("web", "/srv/web")]);
    let state = State::Confirming { name: String::from("db") };
    let (state, action) = step(&mut vm, state, Event::Answer { byte: Some(b'y') });
    assert_eq!(state, State::Finished);
    assert_eq!(action, exit(0, &[], &["db is not found in vm_list"]));
}

#[test]
fn the_texts_of_a_request_are_as_printed() {
    let info = Info::new(String::from("web"), String::from("/srv/web"));
    assert_eq!(vm::dispatch::line(&info), "web: /srv/web");
    assert_eq!(vm::dispatch::prompt(&info), "Delete this entry { name: web, path: /srv/web } (y/N)");
    assert_eq!(vm::dispatch::replaced(&info), "Replaced entry { name: web, path: /srv/web }");
    assert_eq!(vm::dispatch::missing("web"), "web is not found in vm_list");
    assert!(vm::dispatch::is_yes(Some(b'y')));
    assert!(vm::dispatch::is_yes(Some(b'Y')));
    assert!(!vm::dispatch::is_yes(Some(b'n')));
    assert!(!vm::dispatch::is_yes(None));
}
