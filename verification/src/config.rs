//! The registry: the path of the `vagrant` executable and the named
//! entries, kept in order of name so that no name occurs twice.

use vstd::prelude::*;
use vstd::string::*;
use crate::entries::acceptable;
use crate::entries::as_map;
use crate::entries::has_name;
use crate::entries::index_of_name;
use crate::entries::keyed;
use crate::entries::law_listing_is_determined;
use crate::entries::law_stored_entries_load_back;
use crate::entries::lemma_as_map_at;
use crate::entries::lemma_as_map_keys_are_names;
use crate::entries::lemma_as_map_push;
use crate::entries::lemma_insert_at;
use crate::entries::lemma_remove_at;
use crate::entries::lemma_replace_at;
use crate::entries::names_distinct;
use crate::entries::rejected_text;
use crate::entries::storable;
use crate::entries::unkeyed;
use crate::entries::well_formed;
use crate::entries::InfoView;
use crate::error::PersistenceError;
use crate::path::is_absolute_path;
use crate::text::lex_lt;
use crate::text::lemma_lex_lt_irreflexive;
use crate::text::lemma_lex_lt_total;
use crate::text::lemma_lex_lt_transitive;
use crate::text::str_eq;
use crate::text::str_lt;

verus! {

/// One alias: a name and the directory it stands for.
#[derive(Debug, PartialEq, Eq)]
pub struct Info {
    name: String,
    path: String,
}

impl View for Info {
    type V = InfoView;

    closed spec fn view(&self) -> InfoView {
        InfoView { name: self.name@, path: self.path@ }
    }
}

impl Clone for Info {
    fn clone(&self) -> (r: Info)
        ensures
            r@ == self@,
    {
        Info { name: self.name.clone(), path: self.path.clone() }
    }
}

impl Info {
    /// An entry for `name` that stands for `path`.
    pub fn new(name: String, path: String) -> (r: Info)
        ensures
            r@ == (InfoView { name: name@, path: path@ }),
    {
        Info { name, path }
    }

    pub fn name(&self) -> (r: &str)
        ensures
            r@ == self@.name,
    {
        self.name.as_str()
    }

    pub fn path(&self) -> (r: &str)
        ensures
            r@ == self@.path,
    {
        self.path.as_str()
    }
}

/// The entries of a registry's file, each with the key it is kept under.
pub open spec fn keyed_views(v: Seq<(String, Info)>) -> Seq<(Seq<char>, InfoView)> {
    Seq::new(v.len(), |i: int| (v[i].0@, v[i].1@))
}

/// The name of the `vagrant` executable where nothing else is configured.
pub const VAGRANT: &'static str = "vagrant";

/// The same on Windows.
pub const VAGRANT_WINDOWS: &'static str = "vagrant.exe";

/// What the registry's file holds: the executable's path, and the entries,
/// each with the key it is kept under.
#[derive(Debug, PartialEq, Eq)]
pub struct Stored {
    pub vagrant_path: String,
    pub vm_list: Vec<(String, Info)>,
}

/// The registry: where `vagrant` is, and the entries by name.
#[derive(Debug, PartialEq, Eq)]
pub struct Config {
    vagrant_path: String,
    vm_list: Vec<Info>,
}

/// What a `Config` holds: the executable's path and the mapping from name
/// to entry.
pub struct ConfigView {
    pub vagrant_path: Seq<char>,
    pub vm_list: Map<Seq<char>, InfoView>,
}

/// The views of a list of entries, in the same order.
pub open spec fn views(v: Seq<Info>) -> Seq<InfoView> {
    Seq::new(v.len(), |i: int| v[i]@)
}

impl View for Config {
    type V = ConfigView;

    closed spec fn view(&self) -> ConfigView {
        ConfigView { vagrant_path: self.vagrant_path@, vm_list: as_map(views(self.vm_list@)) }
    }
}

impl Config {
    /// The entries in the order in which they are listed.
    pub closed spec fn entries(&self) -> Seq<InfoView> {
        views(self.vm_list@)
    }

    /// The entries are ordered by name and storable, and the mapping is the
    /// one they stand for.
    pub open spec fn wf(&self) -> bool {
        &&& well_formed(self.entries())
        &&& self@.vm_list == as_map(self.entries())
    }

    /// A registry without entries, with the executable's default name for
    /// the platform.
    pub fn new(windows: bool) -> (r: Config)
        ensures
            r.wf(),
            r.entries() == Seq::<InfoView>::empty(),
            r@.vm_list == Map::<Seq<char>, InfoView>::empty(),
            r@.vagrant_path == (if windows {
                VAGRANT_WINDOWS@
            } else {
                VAGRANT@
            }),
    {
        let name: &str = if windows {
            VAGRANT_WINDOWS
        } else {
            VAGRANT
        };
        let r = Config { vagrant_path: String::from_str(name), vm_list: Vec::new() };
        assert(r.entries() =~= Seq::<InfoView>::empty());
        assert(r@.vm_list =~= Map::<Seq<char>, InfoView>::empty());
        r
    }

    /// The registry of a file: where there is no file yet, `stored` is
    /// `None`, and the registry is a new one; where there is one, the
    /// registry holds what the file holds, unless an entry of the file may
    /// not be stored: the first such entry is reported.
    pub fn from_file(stored: Option<Stored>, windows: bool) -> (r: Result<Config, PersistenceError>)
        ensures
            stored is None ==> (r matches Ok(c) && c.wf() && c.entries() == Seq::<InfoView>::empty()
                && c@.vm_list == Map::<Seq<char>, InfoView>::empty() && c@.vagrant_path == (
            if windows {
                VAGRANT_WINDOWS@
            } else {
                VAGRANT@
            })),
            (stored matches Some(s) ==> {
                &&& r is Ok <==> forall|i: int|
                    0 <= i < s.vm_list@.len() ==> acceptable(keyed_views(s.vm_list@), i)
                &&& r matches Ok(c) ==> c.wf() && c@.vagrant_path == s.vagrant_path@ && c@.vm_list
                    == as_map(unkeyed(keyed_views(s.vm_list@)))
                &&& r matches Err(e) ==> exists|i: int|
                    0 <= i < s.vm_list@.len() && !acceptable(keyed_views(s.vm_list@), i) && (
                    forall|j: int| 0 <= j < i ==> acceptable(keyed_views(s.vm_list@), j))
                        && e.spec_message() == rejected_text(
                        #[trigger] keyed_views(s.vm_list@)[i].0,
                    )
            }),
    {
        match stored {
            None => Ok(Config::new(windows)),
            Some(s) => Config::from_entries(s.vagrant_path, s.vm_list),
        }
    }

    /// What to write to the registry's file: the executable's path, and the
    /// entries in order of name, each under its name as key.
    pub fn save_to_file(&self) -> (r: Stored)
        ensures
            r.vagrant_path@ == self@.vagrant_path,
            keyed_views(r.vm_list@) == keyed(self.entries()),
    {
        let mut vm_list: Vec<(String, Info)> = Vec::new();
        let n: usize = self.vm_list.len();
        let mut i: usize = 0;
        while i < n
            invariant
                n == self.vm_list@.len(),
                i <= n,
                vm_list@.len() == i,
                forall|j: int|
                    0 <= j < i ==> (#[trigger] vm_list@[j]).0@ == self.vm_list@[j]@.name
                        && vm_list@[j].1@ == self.vm_list@[j]@,
            decreases n - i,
        {
            let info: Info = self.vm_list[i].clone();
            let key: String = String::from_str(info.name());
            vm_list.push((key, info));
            i = i + 1;
        }
        assert(keyed_views(vm_list@) =~= keyed(self.entries()));
        Stored { vagrant_path: self.vagrant_path.clone(), vm_list }
    }

    /// The registry of the executable's path and the entries with their
    /// keys; or the report of the first entry that may not be stored.
    fn from_entries(
        vagrant_path: String,
        entries: Vec<(String, Info)>,
    ) -> (r: Result<Config, PersistenceError>)
        ensures
            r is Ok <==> forall|i: int|
                0 <= i < entries@.len() ==> acceptable(keyed_views(entries@), i),
            r matches Ok(c) ==> c.wf() && c@.vagrant_path == vagrant_path@ && c@.vm_list
                == as_map(unkeyed(keyed_views(entries@))),
            r matches Err(e) ==> exists|i: int|
                0 <= i < entries@.len() && !acceptable(keyed_views(entries@), i) && (forall|j: int|
                    0 <= j < i ==> acceptable(keyed_views(entries@), j)) && e.spec_message()
                    == rejected_text(#[trigger] keyed_views(entries@)[i].0),
    {
        let ghost kv = keyed_views(entries@);
        let ghost all = unkeyed(kv);
        let mut config = Config { vagrant_path, vm_list: Vec::new() };
        let n: usize = entries.len();
        let mut i: usize = 0;
        proof {
            assert(config.entries() =~= Seq::<InfoView>::empty());
            assert(all.take(0) =~= Seq::<InfoView>::empty());
            assert(config@.vm_list =~= as_map(all.take(0)));
        }
        while i < n
            invariant
                n == entries@.len(),
                kv == keyed_views(entries@),
                all == unkeyed(kv),
                i <= n,
                config.wf(),
                config@.vagrant_path == vagrant_path@,
                config@.vm_list == as_map(all.take(i as int)),
                names_distinct(all.take(i as int)),
                forall|j: int| 0 <= j < i ==> acceptable(kv, j),
            decreases n - i,
        {
            let key: &str = entries[i].0.as_str();
            let info: &Info = &entries[i].1;
            let ghost seen = all.take(i as int);
            let known: bool = config.get(key).is_some();
            proof {
                assert(kv[i as int] == (key@, info@));
                if known {
                    let a = index_of_name(seen, key@);
                    assert(seen[a] == kv[a].1);
                    assert(acceptable(kv, a));
                    assert(kv[a].0 == key@);
                } else if exists|j: int| 0 <= j < i && (#[trigger] kv[j]).0 == key@ {
                    let j = choose|j: int| 0 <= j < i && (#[trigger] kv[j]).0 == key@;
                    assert(acceptable(kv, j));
                    assert(seen[j] == kv[j].1);
                    assert(has_name(seen, key@));
                }
            }
            if known || !str_eq(key, info.name()) || key.unicode_len() == 0 || !is_absolute_path(
                info.path(),
            ) {
                let mut report: String = String::from_str("invalid entry in vm_list: ");
                report.append(key);
                let e = PersistenceError::new(report.as_str());
                proof {
                    let at = i as int;
                    assert(!acceptable(kv, at));
                    assert(e.spec_message() == rejected_text(keyed_views(entries@)[at].0));
                }
                return Err(e);
            }
            config.insert(info.clone());
            proof {
                assert(acceptable(kv, i as int));
                assert(all.take(i + 1) =~= seen.push(info@));
                lemma_as_map_push(seen, info@);
            }
            i = i + 1;
        }
        proof {
            assert(all.take(n as int) =~= all);
        }
        Ok(config)
    }

    pub fn vagrant_path(&self) -> (r: &str)
        ensures
            r@ == self@.vagrant_path,
    {
        self.vagrant_path.as_str()
    }

    pub fn vm_list(&self) -> (r: &Vec<Info>)
        ensures
            views(r@) == self.entries(),
    {
        &self.vm_list
    }

    /// Where `name` stands in the order of names, and whether an entry of
    /// that name is there.
    fn position(&self, name: &str) -> (r: (usize, bool))
        requires
            self.wf(),
        ensures
            r.0 <= self.entries().len(),
            forall|j: int| 0 <= j < r.0 ==> lex_lt(#[trigger] self.entries()[j].name, name@),
            r.1 ==> r.0 < self.entries().len() && self.entries()[r.0 as int].name == name@,
            !r.1 ==> forall|j: int|
                r.0 <= j < self.entries().len() ==> lex_lt(name@, #[trigger] self.entries()[j].name),
    {
        let n: usize = self.vm_list.len();
        let mut i: usize = 0;
        while i < n && str_lt(self.vm_list[i].name(), name)
            invariant
                n == self.vm_list@.len(),
                i <= n,
                forall|j: int| 0 <= j < i ==> lex_lt(#[trigger] self.entries()[j].name, name@),
            decreases n - i,
        {
            i = i + 1;
        }
        let found: bool = i < n && str_eq(self.vm_list[i].name(), name);
        proof {
            if !found && i < n {
                let s = self.entries();
                lemma_lex_lt_total(s[i as int].name, name@);
                assert forall|j: int| i <= j < s.len() implies lex_lt(
                    name@,
                    #[trigger] s[j].name,
                ) by {
                    if i < j {
                        assert(lex_lt(s[i as int].name, s[j].name));
                        lemma_lex_lt_transitive(name@, s[i as int].name, s[j].name);
                    }
                }
            }
        }
        (i, found)
    }

    /// The entry called `name`, if there is one.
    pub fn get(&self, name: &str) -> (r: Option<&Info>)
        requires
            self.wf(),
        ensures
            r is Some <==> self@.vm_list.contains_key(name@),
            r matches Some(e) ==> e@ == self@.vm_list[name@],
    {
        let (i, found) = self.position(name);
        proof {
            self.lemma_position(name@, i as int, found);
        }
        if found {
            Some(&self.vm_list[i])
        } else {
            None
        }
    }

    /// What a position found by `position` says of the mapping.
    proof fn lemma_position(&self, name: Seq<char>, i: int, found: bool)
        requires
            self.wf(),
            0 <= i <= self.entries().len(),
            forall|j: int| 0 <= j < i ==> lex_lt(#[trigger] self.entries()[j].name, name),
            found ==> i < self.entries().len() && self.entries()[i].name == name,
            !found ==> forall|j: int|
                i <= j < self.entries().len() ==> lex_lt(name, #[trigger] self.entries()[j].name),
        ensures
            found <==> self@.vm_list.contains_key(name),
            found ==> self@.vm_list[name] == self.entries()[i],
    {
        let s = self.entries();
        if found {
            lemma_as_map_at(s, i);
        } else {
            if has_name(s, name) {
                let j = index_of_name(s, name);
                lemma_lex_lt_irreflexive(name);
                if j < i {
                    assert(lex_lt(s[j].name, name));
                } else {
                    assert(lex_lt(name, s[j].name));
                }
            }
        }
    }

    /// Stores `info` under its name and hands back the entry that it
    /// replaces, if there was one of that name.
    pub fn insert(&mut self, info: Info) -> (r: Option<Info>)
        requires
            old(self).wf(),
            storable(info@),
        ensures
            final(self).wf(),
            final(self)@.vagrant_path == old(self)@.vagrant_path,
            final(self)@.vm_list == old(self)@.vm_list.insert(info@.name, info@),
            r is Some <==> old(self)@.vm_list.contains_key(info@.name),
            r matches Some(e) ==> e@ == old(self)@.vm_list[info@.name],
    {
        let (i, found) = self.position(info.name());
        let ghost before = self.entries();
        let ghost e = info@;
        proof {
            self.lemma_position(e.name, i as int, found);
        }
        if found {
            let prev: Info = self.vm_list.remove(i);
            self.vm_list.insert(i, info);
            proof {
                assert(self.entries() =~= before.update(i as int, e));
                lemma_replace_at(before, i as int, e);
            }
            Some(prev)
        } else {
            self.vm_list.insert(i, info);
            proof {
                assert(self.entries() =~= before.insert(i as int, e));
                lemma_insert_at(before, i as int, e);
            }
            None
        }
    }

    /// Takes the entry called `name` out and hands it back, if there is one.
    pub fn remove(&mut self, name: &str) -> (r: Option<Info>)
        requires
            old(self).wf(),
        ensures
            final(self).wf(),
            final(self)@.vagrant_path == old(self)@.vagrant_path,
            final(self)@.vm_list == old(self)@.vm_list.remove(name@),
            r is Some <==> old(self)@.vm_list.contains_key(name@),
            r matches Some(e) ==> e@ == old(self)@.vm_list[name@],
    {
        let (i, found) = self.position(name);
        let ghost before = self.entries();
        proof {
            self.lemma_position(name@, i as int, found);
        }
        if found {
            let prev: Info = self.vm_list.remove(i);
            proof {
                assert(self.entries() =~= before.remove(i as int));
                lemma_remove_at(before, i as int);
            }
            Some(prev)
        } else {
            assert(self@.vm_list.remove(name@) =~= self@.vm_list);
            None
        }
    }

    /// Every entry of a well-formed registry is storable and is kept under
    /// its own name.
    pub proof fn lemma_entry_storable(&self, name: Seq<char>)
        requires
            self.wf(),
            self@.vm_list.contains_key(name),
        ensures
            storable(self@.vm_list[name]),
            self@.vm_list[name].name == name,
    {
        lemma_as_map_keys_are_names(self.entries(), name);
    }

    /// The entries in ascending order of name.
    pub fn list(&self) -> (r: Vec<&Info>)
        requires
            self.wf(),
        ensures
            r@.len() == self.entries().len(),
            forall|i: int| 0 <= i < r@.len() ==> (#[trigger] r@[i])@ == self.entries()[i],
            forall|i: int, j: int|
                0 <= i < j < r@.len() ==> lex_lt((#[trigger] r@[i])@.name, (#[trigger] r@[j])@.name),
    {
        let mut out: Vec<&Info> = Vec::new();
        let n: usize = self.vm_list.len();
        let mut i: usize = 0;
        while i < n
            invariant
                n == self.vm_list@.len(),
                i <= n,
                out@.len() == i,
                forall|j: int| 0 <= j < i ==> (#[trigger] out@[j])@ == self.entries()[j],
            decreases n - i,
        {
            out.push(&self.vm_list[i]);
            i = i + 1;
        }
        proof {
            let s = self.entries();
            assert forall|a: int, b: int| 0 <= a < b < out@.len() implies lex_lt(
                (#[trigger] out@[a])@.name,
                (#[trigger] out@[b])@.name,
            ) by {
                assert(lex_lt(s[a].name, s[b].name));
            }
        }
        out
    }
}

/// What `save_to_file` gives, `from_file` takes back: the registry that
/// loads is the one that was saved, with the same path of the executable
/// and the same entries in the same order.
pub proof fn law_saved_registry_loads_back(
    config: Config,
    stored: Stored,
    windows: bool,
    loaded: Result<Config, PersistenceError>,
)
    requires
        config.wf(),
        call_ensures(Config::save_to_file, (&config,), stored),
        call_ensures(Config::from_file, (Some(stored), windows), loaded),
    ensures
        loaded matches Ok(again) && again.wf() && again@ == config@ && again.entries()
            == config.entries(),
{
    let s = config.entries();
    law_stored_entries_load_back(s);
    assert(keyed_views(stored.vm_list@).len() == s.len());
    let again = loaded->Ok_0;
    assert(again@.vm_list == config@.vm_list);
    law_listing_is_determined(again.entries(), s);
}

/// Two registries of the same entries list them alike, in whichever order
/// the entries came to each.
pub proof fn law_listing_ignores_order(
    one: Config,
    other: Config,
    listed: Vec<&Info>,
    other_listed: Vec<&Info>,
)
    requires
        one.wf(),
        other.wf(),
        one@.vm_list == other@.vm_list,
        call_ensures(Config::list, (&one,), listed),
        call_ensures(Config::list, (&other,), other_listed),
    ensures
        listed@.len() == other_listed@.len(),
        forall|i: int| 0 <= i < listed@.len() ==> (#[trigger] listed@[i])@ == other_listed@[i]@,
{
    law_listing_is_determined(one.entries(), other.entries());
}

} // verus!
