//! The registry together with the file it is kept in and the runner that
//! starts `vagrant`.

use vstd::prelude::*;
use vstd::string::*;
use crate::config::Config;
use crate::config::Info;
use crate::entries::InfoView;
use crate::entries::storable;
use crate::error::ProcessError;
use crate::error::VmError;
use crate::error::VmInfoFindError;
use crate::path::absolutize;
use crate::path::is_absolute;
use crate::path::lemma_resolve_absolute;
use crate::path::resolve;
use crate::process::ExitStatus;
use crate::process::RunVagrant;
use crate::stamp::law_stamps_differ;
use crate::stamp::on_calendar;
use crate::stamp::stamp_text;
use crate::stamp::Moment;
use crate::text::lex_lt;

verus! {

/// The registry, the path of its file, and a runner for `vagrant`.
pub struct Vm<V: RunVagrant> {
    config_file_path: String,
    config: Config,
    vagrant: V,
}

/// A source and a destination for a copy that must not replace a file
/// that is already there.
#[derive(Debug, PartialEq, Eq)]
pub struct FileCopy {
    pub from: String,
    pub to: String,
}

/// The name of a backup of the file `path` that carries `stamp`.
pub open spec fn backup_path(path: Seq<char>, stamp: Seq<char>) -> Seq<char> {
    path + seq!['.'] + stamp
}

/// The entries after an entry for `name` was added: it stands for `path`
/// where that is absolute, and otherwise for `path` as seen from `cwd`.
pub open spec fn added(
    entries: Map<Seq<char>, InfoView>,
    name: Seq<char>,
    path: Seq<char>,
    cwd: Seq<char>,
) -> Map<Seq<char>, InfoView> {
    entries.insert(name, InfoView { name, path: resolve(cwd, path) })
}

/// After an entry was added, its name leads to an entry of that name with
/// an absolute path, whether the path that was given was absolute or not.
pub proof fn law_added_path_is_absolute(
    entries: Map<Seq<char>, InfoView>,
    name: Seq<char>,
    path: Seq<char>,
    cwd: Seq<char>,
)
    requires
        is_absolute(cwd),
    ensures
        added(entries, name, path, cwd).contains_key(name),
        added(entries, name, path, cwd)[name].name == name,
        is_absolute(added(entries, name, path, cwd)[name].path),
        is_absolute(path) ==> added(entries, name, path, cwd)[name].path == path,
{
    lemma_resolve_absolute(cwd, path);
}

/// Adding twice under one name: the second call finds the first call's
/// entry in its way, and afterwards the name leads to the second entry
/// alone, as if the first had never been added.
pub proof fn law_second_add_replaces_first(
    entries: Map<Seq<char>, InfoView>,
    name: Seq<char>,
    first: Seq<char>,
    second: Seq<char>,
    cwd: Seq<char>,
)
    ensures
        added(entries, name, first, cwd).contains_key(name),
        added(entries, name, first, cwd)[name] == (InfoView { name, path: resolve(cwd, first) }),
        added(added(entries, name, first, cwd), name, second, cwd)[name] == (InfoView {
            name,
            path: resolve(cwd, second),
        }),
        added(added(entries, name, first, cwd), name, second, cwd) == added(
            entries,
            name,
            second,
            cwd,
        ),
{
    assert(added(added(entries, name, first, cwd), name, second, cwd) =~= added(
        entries,
        name,
        second,
        cwd,
    ));
}

/// Removing a name that is not there changes nothing, and removing a name
/// twice is the same as removing it once.
pub proof fn law_remove_absent_changes_nothing(entries: Map<Seq<char>, InfoView>, name: Seq<char>)
    ensures
        !entries.contains_key(name) ==> entries.remove(name) == entries,
        !entries.remove(name).contains_key(name),
        entries.remove(name).remove(name) == entries.remove(name),
{
    if !entries.contains_key(name) {
        assert(entries.remove(name) =~= entries);
    }
    assert(entries.remove(name).remove(name) =~= entries.remove(name));
}

/// Entries of different names do not get in each other's way: in
/// whichever order two are added, the entries are the same afterwards.
pub proof fn law_adds_commute(
    entries: Map<Seq<char>, InfoView>,
    name1: Seq<char>,
    path1: Seq<char>,
    name2: Seq<char>,
    path2: Seq<char>,
    cwd: Seq<char>,
)
    requires
        name1 != name2,
    ensures
        added(added(entries, name1, path1, cwd), name2, path2, cwd) == added(
            added(entries, name2, path2, cwd),
            name1,
            path1,
            cwd,
        ),
{
    assert(added(added(entries, name1, path1, cwd), name2, path2, cwd) =~= added(
        added(entries, name2, path2, cwd),
        name1,
        path1,
        cwd,
    ));
}

/// Backups of one file made at different moments get different names, and
/// none of them is the file itself.
pub proof fn law_backups_differ(path: Seq<char>, m1: Moment, m2: Moment)
    requires
        on_calendar(m1),
        on_calendar(m2),
        m1 != m2,
    ensures
        backup_path(path, stamp_text(m1)) != backup_path(path, stamp_text(m2)),
        backup_path(path, stamp_text(m1)) != path,
{
    let a = backup_path(path, stamp_text(m1));
    let b = backup_path(path, stamp_text(m2));
    let n = path.len() + 1;
    assert(a.skip(n as int) =~= stamp_text(m1));
    assert(b.skip(n as int) =~= stamp_text(m2));
    if a == b {
        law_stamps_differ(m1, m2);
    }
}

impl<V: RunVagrant> Vm<V> {
    /// The path of the file that the registry is kept in.
    pub closed spec fn file(&self) -> Seq<char> {
        self.config_file_path@
    }

    /// The registry.
    pub closed spec fn registry(&self) -> Config {
        self.config
    }

    /// The runner.
    pub closed spec fn runner(&self) -> V {
        self.vagrant
    }

    /// The registry is well-formed.
    pub open spec fn wf(&self) -> bool {
        self.registry().wf()
    }

    /// The mapping from name to entry.
    pub open spec fn entries(&self) -> Map<Seq<char>, InfoView> {
        self.registry()@.vm_list
    }

    pub fn new(path: &str, config: Config, vagrant: V) -> (r: Result<Vm<V>, VmError>)
        requires
            config.wf(),
        ensures
            r matches Ok(vm) && vm.wf() && vm.file() == path@ && vm.registry() == config
                && vm.runner() == vagrant,
    {
        Ok(Vm { config_file_path: String::from_str(path), config, vagrant })
    }

    pub fn config_file_path(&self) -> (r: &str)
        ensures
            r@ == self.file(),
    {
        self.config_file_path.as_str()
    }

    pub fn config(&self) -> (r: &Config)
        ensures
            *r == self.registry(),
    {
        &self.config
    }

    /// The directory to change into for `name`, or the error that names
    /// what was asked for where the registry has no such entry.
    pub fn cd(&self, name: &str) -> (r: Result<&str, VmInfoFindError>)
        requires
            self.wf(),
        ensures
            r is Ok <==> self.entries().contains_key(name@),
            r matches Ok(dir) ==> dir@ == self.entries()[name@].path && is_absolute(dir@),
            r matches Err(e) ==> e.spec_name() == name@,
    {
        match self.config.get(name) {
            Some(info) => {
                proof {
                    self.config.lemma_entry_storable(name@);
                }
                Ok(info.path())
            },
            None => Err(VmInfoFindError::new(name)),
        }
    }

    /// The entries in ascending order of name.
    pub fn list(&self) -> (r: Vec<&Info>)
        requires
            self.wf(),
        ensures
            r@.len() == self.registry().entries().len(),
            forall|i: int| 0 <= i < r@.len() ==> (#[trigger] r@[i])@ == self.registry().entries()[i],
            forall|i: int, j: int|
                0 <= i < j < r@.len() ==> lex_lt((#[trigger] r@[i])@.name, (#[trigger] r@[j])@.name),
    {
        self.config.list()
    }

    /// Stores an entry for `name` and hands back the entry that it replaces,
    /// if there was one of that name. The entry's path is `path` where that
    /// is absolute, and otherwise `path` as seen from the directory `cwd`.
    pub fn add(&mut self, name: &str, path: &str, cwd: &str) -> (r: Option<Info>)
        requires
            old(self).wf(),
            name@.len() > 0,
            is_absolute(cwd@),
        ensures
            final(self).wf(),
            final(self).file() == old(self).file(),
            final(self).runner() == old(self).runner(),
            final(self).registry()@.vagrant_path == old(self).registry()@.vagrant_path,
            final(self).entries() == added(old(self).entries(), name@, path@, cwd@),
            r is Some <==> old(self).entries().contains_key(name@),
            r matches Some(e) ==> e@ == old(self).entries()[name@],
    {
        let info = Info::new(String::from_str(name), absolutize(cwd, path));
        proof {
            lemma_resolve_absolute(cwd@, path@);
        }
        self.config.insert(info)
    }

    /// Takes the entry called `name` out and hands it back, if there is one.
    pub fn remove(&mut self, name: &str) -> (r: Option<Info>)
        requires
            old(self).wf(),
        ensures
            final(self).wf(),
            final(self).file() == old(self).file(),
            final(self).runner() == old(self).runner(),
            final(self).registry()@.vagrant_path == old(self).registry()@.vagrant_path,
            final(self).entries() == old(self).entries().remove(name@),
            r is Some <==> old(self).entries().contains_key(name@),
            r matches Some(e) ==> e@ == old(self).entries()[name@],
            r is None ==> final(self).entries() == old(self).entries(),
    {
        let r = self.config.remove(name);
        proof {
            if r is None {
                assert(old(self).entries().remove(name@) =~= old(self).entries());
            }
        }
        r
    }

    /// The copy that backs the registry's file up under `stamp`: from the
    /// file to its sibling whose name is the file's, a dot, and `stamp`.
    pub fn backup_config_file(&self, stamp: &str) -> (r: FileCopy)
        ensures
            r.from@ == self.file(),
            r.to@ == backup_path(self.file(), stamp@),
    {
        let mut to: String = self.config_file_path.clone();
        proof {
            reveal_strlit(".");
            assert("."@ =~= seq!['.']);
        }
        to.append(".");
        to.append(stamp);
        FileCopy { from: self.config_file_path.clone(), to }
    }

    /// Has the runner run `command` with `options`, and hands back what the
    /// runner gave.
    pub fn vagrant(
        &self,
        command: &str,
        options: &Vec<String>,
    ) -> (r: Result<ExitStatus, ProcessError>)
        ensures
            call_ensures(V::subcommand, (&self.runner(), command, options), r),
    {
        self.vagrant.subcommand(command, options)
    }

    /// Has the runner run `options` as they are, and hands back what the
    /// runner gave.
    pub fn vagrant_raw(&self, options: &Vec<String>) -> (r: Result<ExitStatus, ProcessError>)
        ensures
            call_ensures(V::raw, (&self.runner(), options), r),
    {
        self.vagrant.raw(options)
    }

    /// The entry called `name`, if there is one.
    pub fn get_info(&self, name: &str) -> (r: Option<&Info>)
        requires
            self.wf(),
        ensures
            r is Some <==> self.entries().contains_key(name@),
            r matches Some(e) ==> e@ == self.entries()[name@] && storable(e@) && e@.name == name@,
    {
        proof {
            if self.entries().contains_key(name@) {
                self.config.lemma_entry_storable(name@);
            }
        }
        self.config.get(name)
    }
}

/// `add`, then `get_info`: where the entries are those that `add` leaves
/// for `name`, `get_info` finds an entry of that name whose path is
/// absolute, and is the path that was given where that was absolute.
pub proof fn law_get_after_add<V: RunVagrant>(
    before: Map<Seq<char>, InfoView>,
    vm: Vm<V>,
    name: &str,
    path: Seq<char>,
    cwd: Seq<char>,
    got: Option<&Info>,
)
    requires
        is_absolute(cwd),
        vm.wf(),
        vm.entries() == added(before, name@, path, cwd),
        call_ensures(Vm::<V>::get_info, (&vm, name), got),
    ensures
        got matches Some(e) && e@.name == name@ && e@.path == resolve(cwd, path) && is_absolute(
            e@.path,
        ),
        is_absolute(path) ==> (got matches Some(e) && e@.path == path),
{
    law_added_path_is_absolute(before, name@, path, cwd);
}

/// `remove`, then `get_info`: where the entries are those that `remove`
/// leaves for `name`, `get_info` finds nothing under that name.
pub proof fn law_get_after_remove<V: RunVagrant>(
    before: Map<Seq<char>, InfoView>,
    vm: Vm<V>,
    name: &str,
    got: Option<&Info>,
)
    requires
        vm.wf(),
        vm.entries() == before.remove(name@),
        call_ensures(Vm::<V>::get_info, (&vm, name), got),
    ensures
        got is None,
{
}

} // verus!
