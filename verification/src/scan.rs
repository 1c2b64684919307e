//! Looking for `Vagrantfile`s: what to do with the entries of a directory.

use vstd::prelude::*;
use vstd::string::*;
use crate::path::child;
use crate::path::join;
use crate::text::str_eq;

verus! {

/// The name of the file that marks a Vagrant project.
pub const VAGRANTFILE: &'static str = "Vagrantfile";

/// What to do with an entry of a directory.
#[derive(Debug, Clone, Copy, PartialEq, Eq)]
pub enum Visit {
    /// Print its path.
    Report,
    /// Look through the directory that it is.
    Descend,
    /// Pass it by.
    Skip,
}

/// An entry called `Vagrantfile` is reported; any other is looked through
/// if it is a directory and no symbolic link, and passed by if not.
pub open spec fn visit_of(file_name: Seq<char>, is_dir: bool, is_symlink: bool) -> Visit {
    if file_name == VAGRANTFILE@ {
        Visit::Report
    } else if is_dir && !is_symlink {
        Visit::Descend
    } else {
        Visit::Skip
    }
}

/// What to do with the entry `file_name` of a directory.
pub fn visit(file_name: &str, is_dir: bool, is_symlink: bool) -> (r: Visit)
    ensures
        r == visit_of(file_name@, is_dir, is_symlink),
{
    if str_eq(file_name, VAGRANTFILE) {
        Visit::Report
    } else if is_dir && !is_symlink {
        Visit::Descend
    } else {
        Visit::Skip
    }
}

/// A symbolic link is never followed.
pub proof fn law_links_are_not_followed(file_name: Seq<char>, is_dir: bool)
    ensures
        !(visit_of(file_name, is_dir, true) is Descend),
{
}

/// An entry of a directory: its name, whether it is (or leads to) a
/// directory, and whether it is a symbolic link.
#[derive(Debug, PartialEq, Eq)]
pub struct DirEntry {
    pub file_name: String,
    pub is_dir: bool,
    pub is_symlink: bool,
}

/// Something to do after a directory was read.
#[derive(Debug, PartialEq, Eq)]
pub enum Found {
    /// Print `path`: it is called `Vagrantfile`.
    Report { path: String },
    /// Read the directory `path` and look through it in turn.
    Descend { path: String },
}

/// What a `Found` holds, as character sequences.
pub enum FoundView {
    Report { path: Seq<char> },
    Descend { path: Seq<char> },
}

impl View for Found {
    type V = FoundView;

    open spec fn view(&self) -> FoundView {
        match self {
            Found::Report { path } => FoundView::Report { path: path@ },
            Found::Descend { path } => FoundView::Descend { path: path@ },
        }
    }
}

/// The views of a list of things to do, in the same order.
pub open spec fn found_views(v: Seq<Found>) -> Seq<FoundView> {
    Seq::new(v.len(), |i: int| v[i]@)
}

/// What there is to do for one entry of the directory `dir`: nothing, or
/// one thing with the entry's path in `dir`.
pub open spec fn found_for(dir: Seq<char>, e: DirEntry) -> Seq<FoundView> {
    match visit_of(e.file_name@, e.is_dir, e.is_symlink) {
        Visit::Report => seq![FoundView::Report { path: child(dir, e.file_name@) }],
        Visit::Descend => seq![FoundView::Descend { path: child(dir, e.file_name@) }],
        Visit::Skip => Seq::empty(),
    }
}

/// What there is to do for the entries of the directory `dir`, in the
/// entries' order.
pub open spec fn found_in(dir: Seq<char>, entries: Seq<DirEntry>) -> Seq<FoundView>
    decreases entries.len(),
{
    if entries.len() == 0 {
        Seq::empty()
    } else {
        found_in(dir, entries.drop_last()) + found_for(dir, entries.last())
    }
}

/// What to do after the directory `dir` was read and held `entries`: which
/// paths to print and which directories to read next, in the entries'
/// order.
pub fn find_vagrantfiles(dir: &str, entries: &Vec<DirEntry>) -> (r: Vec<Found>)
    ensures
        found_views(r@) == found_in(dir@, entries@),
{
    let mut out: Vec<Found> = Vec::new();
    let n: usize = entries.len();
    let mut i: usize = 0;
    assert(entries@.take(0) =~= Seq::<DirEntry>::empty());
    assert(found_views(out@) =~= Seq::<FoundView>::empty());
    while i < n
        invariant
            n == entries@.len(),
            i <= n,
            found_views(out@) == found_in(dir@, entries@.take(i as int)),
        decreases n - i,
    {
        let entry: &DirEntry = &entries[i];
        let ghost before = found_views(out@);
        proof {
            assert(entries@.take(i + 1).drop_last() =~= entries@.take(i as int));
            assert(entries@.take(i + 1).last() == entries@[i as int]);
        }
        match visit(entry.file_name.as_str(), entry.is_dir, entry.is_symlink) {
            Visit::Report => {
                out.push(Found::Report { path: join(dir, entry.file_name.as_str()) });
                assert(found_views(out@) =~= before + found_for(dir@, *entry));
            },
            Visit::Descend => {
                out.push(Found::Descend { path: join(dir, entry.file_name.as_str()) });
                assert(found_views(out@) =~= before + found_for(dir@, *entry));
            },
            Visit::Skip => {
                assert(found_views(out@) =~= before + found_for(dir@, *entry));
            },
        }
        i = i + 1;
    }
    assert(entries@.take(n as int) =~= entries@);
    out
}

/// Nothing is printed but a `Vagrantfile`, and no directory is read that
/// is a symbolic link or no directory: each thing to do comes from an entry
/// of the directory that asks for it.
pub proof fn law_finds_come_from_entries(dir: Seq<char>, entries: Seq<DirEntry>, k: int)
    requires
        0 <= k < found_in(dir, entries).len(),
    ensures
        exists|i: int|
            0 <= i < entries.len() && found_for(dir, #[trigger] entries[i]) == seq![
                found_in(dir, entries)[k],
            ],
    decreases entries.len(),
{
    let all = found_in(dir, entries);
    let head = found_in(dir, entries.drop_last());
    let tail = found_for(dir, entries.last());
    assert(all == head + tail);
    if k < head.len() {
        law_finds_come_from_entries(dir, entries.drop_last(), k);
        let i = choose|i: int|
            0 <= i < entries.drop_last().len() && found_for(
                dir,
                #[trigger] entries.drop_last()[i],
            ) == seq![head[k]];
        assert(entries[i] == entries.drop_last()[i]);
        assert(all[k] == head[k]);
    } else {
        let i = entries.len() - 1;
        assert(all[k] == tail[k - head.len()]);
        assert(tail.len() == 1);
        assert(tail =~= seq![all[k]]);
        assert(found_for(dir, entries[i]) == seq![all[k]]);
    }
}

} // verus!
