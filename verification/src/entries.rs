//! Lists of entries and the mapping from name to entry that they stand
//! for.

use vstd::prelude::*;
use crate::path::is_absolute;
use crate::text::lex_lt;
use crate::text::lemma_lex_lt_irreflexive;
use crate::text::lemma_lex_lt_total;

verus! {

/// What an `Info` holds, as character sequences.
pub struct InfoView {
    pub name: Seq<char>,
    pub path: Seq<char>,
}

/// An entry that may be stored: it has a name, and its path is absolute.
pub open spec fn storable(e: InfoView) -> bool {
    e.name.len() > 0 && is_absolute(e.path)
}

/// Entries in strictly ascending order of name.
pub open spec fn names_ascend(s: Seq<InfoView>) -> bool {
    forall|i: int, j: int| 0 <= i < j < s.len() ==> lex_lt(#[trigger] s[i].name, #[trigger] s[j].name)
}

/// A list of entries as a registry holds it: ordered by name, so that no
/// name occurs twice, and every entry storable.
pub open spec fn well_formed(s: Seq<InfoView>) -> bool {
    &&& names_ascend(s)
    &&& forall|i: int| 0 <= i < s.len() ==> storable(#[trigger] s[i])
}

/// Whether some entry of `s` is called `name`.
pub open spec fn has_name(s: Seq<InfoView>, name: Seq<char>) -> bool {
    exists|i: int| 0 <= i < s.len() && (#[trigger] s[i]).name == name
}

/// The position of an entry of `s` called `name`.
pub open spec fn index_of_name(s: Seq<InfoView>, name: Seq<char>) -> int {
    choose|i: int| 0 <= i < s.len() && (#[trigger] s[i]).name == name
}

/// The mapping from name to entry that a list of entries stands for.
pub open spec fn as_map(s: Seq<InfoView>) -> Map<Seq<char>, InfoView> {
    Map::new(|k: Seq<char>| has_name(s, k), |k: Seq<char>| s[index_of_name(s, k)])
}

/// In an ordered list, each entry is the one its name maps to.
pub proof fn lemma_as_map_at(s: Seq<InfoView>, i: int)
    requires
        names_ascend(s),
        0 <= i < s.len(),
    ensures
        as_map(s).contains_key(s[i].name),
        as_map(s)[s[i].name] == s[i],
{
    let k = s[i].name;
    assert(has_name(s, k));
    let j = index_of_name(s, k);
    assert(0 <= j < s.len() && s[j].name == k);
    if j < i {
        lemma_lex_lt_irreflexive(k);
        assert(lex_lt(s[j].name, s[i].name));
    } else if i < j {
        lemma_lex_lt_irreflexive(k);
        assert(lex_lt(s[i].name, s[j].name));
    }
}

/// Every key of the mapping is the name of the entry it maps to.
pub proof fn lemma_as_map_keys_are_names(s: Seq<InfoView>, k: Seq<char>)
    requires
        as_map(s).contains_key(k),
    ensures
        as_map(s)[k].name == k,
        exists|i: int| 0 <= i < s.len() && #[trigger] s[i] == as_map(s)[k],
{
    let j = index_of_name(s, k);
    assert(0 <= j < s.len() && s[j].name == k);
    assert(s[j] == as_map(s)[k]);
}

/// What holds of the mapping when `e` is put into the list at `i`, between
/// the names before it and the names after it.
pub proof fn lemma_insert_at(s: Seq<InfoView>, i: int, e: InfoView)
    requires
        well_formed(s),
        storable(e),
        0 <= i <= s.len(),
        forall|j: int| 0 <= j < i ==> lex_lt(#[trigger] s[j].name, e.name),
        forall|j: int| i <= j < s.len() ==> lex_lt(e.name, #[trigger] s[j].name),
    ensures
        well_formed(s.insert(i, e)),
        as_map(s.insert(i, e)) == as_map(s).insert(e.name, e),
{
    let t = s.insert(i, e);
    assert forall|a: int, b: int| 0 <= a < b < t.len() implies lex_lt(
        #[trigger] t[a].name,
        #[trigger] t[b].name,
    ) by {
        if b < i {
            assert(t[a] == s[a] && t[b] == s[b]);
        } else if b == i {
            assert(t[a] == s[a]);
        } else if a < i {
            assert(t[a] == s[a] && t[b] == s[b - 1]);
            if a < b - 1 {
            } else {
                assert(false);
            }
        } else if a == i {
            assert(t[b] == s[b - 1]);
        } else {
            assert(t[a] == s[a - 1] && t[b] == s[b - 1]);
        }
    }
    assert forall|a: int| 0 <= a < t.len() implies storable(#[trigger] t[a]) by {
        if a < i {
            assert(t[a] == s[a]);
        } else if a > i {
            assert(t[a] == s[a - 1]);
        }
    }
    let m1 = as_map(t);
    let m2 = as_map(s).insert(e.name, e);
    assert forall|k: Seq<char>| m1.contains_key(k) <==> m2.contains_key(k) by {
        if m1.contains_key(k) {
            let a = index_of_name(t, k);
            if a < i {
                assert(t[a] == s[a]);
                assert(has_name(s, k));
            } else if a > i {
                assert(t[a] == s[a - 1]);
                assert(has_name(s, k));
            }
        }
        if m2.contains_key(k) {
            if k == e.name {
                assert(t[i] == e);
                assert(has_name(t, k));
            } else {
                let a = index_of_name(s, k);
                if a < i {
                    assert(t[a] == s[a]);
                } else {
                    assert(t[a + 1] == s[a]);
                }
                assert(has_name(t, k));
            }
        }
    }
    assert forall|k: Seq<char>| m1.contains_key(k) implies m1[k] == m2[k] by {
        let a = index_of_name(t, k);
        lemma_as_map_at(t, a);
        if a < i {
            assert(t[a] == s[a]);
            lemma_as_map_at(s, a);
            lemma_lex_lt_irreflexive(k);
        } else if a > i {
            assert(t[a] == s[a - 1]);
            lemma_as_map_at(s, a - 1);
            lemma_lex_lt_irreflexive(k);
        }
    }
    assert(m1 =~= m2);
}

/// What holds of the mapping when the entry at `i` gives way to another of
/// the same name.
pub proof fn lemma_replace_at(s: Seq<InfoView>, i: int, e: InfoView)
    requires
        well_formed(s),
        storable(e),
        0 <= i < s.len(),
        s[i].name == e.name,
    ensures
        well_formed(s.update(i, e)),
        as_map(s.update(i, e)) == as_map(s).insert(e.name, e),
{
    let t = s.update(i, e);
    assert forall|a: int, b: int| 0 <= a < b < t.len() implies lex_lt(
        #[trigger] t[a].name,
        #[trigger] t[b].name,
    ) by {
        assert(t[a].name == s[a].name && t[b].name == s[b].name);
    }
    let m1 = as_map(t);
    let m2 = as_map(s).insert(e.name, e);
    assert forall|k: Seq<char>| m1.contains_key(k) <==> m2.contains_key(k) by {
        if m1.contains_key(k) {
            let a = index_of_name(t, k);
            assert(t[a].name == s[a].name);
            assert(has_name(s, k));
        }
        if m2.contains_key(k) {
            if k == e.name {
                assert(t[i] == e);
                assert(has_name(t, k));
            } else {
                let a = index_of_name(s, k);
                assert(t[a] == s[a]);
                assert(has_name(t, k));
            }
        }
    }
    assert forall|k: Seq<char>| m1.contains_key(k) implies m1[k] == m2[k] by {
        let a = index_of_name(t, k);
        lemma_as_map_at(t, a);
        if a != i {
            assert(t[a] == s[a]);
            lemma_as_map_at(s, a);
            lemma_lex_lt_irreflexive(k);
            if a < i {
                assert(lex_lt(s[a].name, s[i].name));
            } else {
                assert(lex_lt(s[i].name, s[a].name));
            }
        } else {
            assert(t[i] == e);
        }
    }
    assert(m1 =~= m2);
}

/// What holds of the mapping when the entry at `i` leaves the list.
pub proof fn lemma_remove_at(s: Seq<InfoView>, i: int)
    requires
        well_formed(s),
        0 <= i < s.len(),
    ensures
        well_formed(s.remove(i)),
        as_map(s.remove(i)) == as_map(s).remove(s[i].name),
{
    let t = s.remove(i);
    let gone = s[i].name;
    assert forall|a: int, b: int| 0 <= a < b < t.len() implies lex_lt(
        #[trigger] t[a].name,
        #[trigger] t[b].name,
    ) by {
        let a0 = if a < i { a } else { a + 1 };
        let b0 = if b < i { b } else { b + 1 };
        assert(t[a] == s[a0] && t[b] == s[b0]);
    }
    assert forall|a: int| 0 <= a < t.len() implies storable(#[trigger] t[a]) by {
        let a0 = if a < i { a } else { a + 1 };
        assert(t[a] == s[a0]);
    }
    let m1 = as_map(t);
    let m2 = as_map(s).remove(gone);
    assert forall|k: Seq<char>| m1.contains_key(k) <==> m2.contains_key(k) by {
        if m1.contains_key(k) {
            let a = index_of_name(t, k);
            let a0 = if a < i { a } else { a + 1 };
            assert(t[a] == s[a0]);
            assert(has_name(s, k));
            lemma_lex_lt_irreflexive(k);
            if a0 < i {
                assert(lex_lt(s[a0].name, s[i].name));
            } else {
                assert(lex_lt(s[i].name, s[a0].name));
            }
        }
        if m2.contains_key(k) {
            let a = index_of_name(s, k);
            assert(a != i);
            if a < i {
                assert(t[a] == s[a]);
            } else {
                assert(t[a - 1] == s[a]);
            }
            assert(has_name(t, k));
        }
    }
    assert forall|k: Seq<char>| m1.contains_key(k) implies m1[k] == m2[k] by {
        let a = index_of_name(t, k);
        let a0 = if a < i { a } else { a + 1 };
        lemma_as_map_at(t, a);
        assert(t[a] == s[a0]);
        lemma_as_map_at(s, a0);
    }
    assert(m1 =~= m2);
}

/// No two entries of `s` have the same name.
pub open spec fn names_distinct(s: Seq<InfoView>) -> bool {
    forall|i: int, j: int| 0 <= i < j < s.len() ==> (#[trigger] s[i]).name != (#[trigger] s[j]).name
}

/// What holds of the mapping when an entry with a new name joins a list of
/// entries with distinct names.
pub proof fn lemma_as_map_push(s: Seq<InfoView>, e: InfoView)
    requires
        names_distinct(s),
        !has_name(s, e.name),
    ensures
        names_distinct(s.push(e)),
        as_map(s.push(e)) == as_map(s).insert(e.name, e),
{
    let t = s.push(e);
    assert forall|i: int, j: int| 0 <= i < j < t.len() implies (#[trigger] t[i]).name != (
    #[trigger] t[j]).name by {
        assert(t[i] == s[i]);
        if j < s.len() {
            assert(t[j] == s[j]);
        }
    }
    let m1 = as_map(t);
    let m2 = as_map(s).insert(e.name, e);
    assert forall|k: Seq<char>| m1.contains_key(k) <==> m2.contains_key(k) by {
        if m1.contains_key(k) {
            let a = index_of_name(t, k);
            if a < s.len() {
                assert(t[a] == s[a]);
                assert(has_name(s, k));
            }
        }
        if m2.contains_key(k) {
            if k == e.name {
                assert(t[s.len() as int] == e);
                assert(has_name(t, k));
            } else {
                let a = index_of_name(s, k);
                assert(t[a] == s[a]);
                assert(has_name(t, k));
            }
        }
    }
    assert forall|k: Seq<char>| m1.contains_key(k) implies m1[k] == m2[k] by {
        let a = index_of_name(t, k);
        if a < s.len() {
            assert(t[a] == s[a]);
            assert(has_name(s, k));
            let b = index_of_name(s, k);
            assert(t[b] == s[b]);
            if a != b {
                assert(t[a].name != t[b].name);
            }
        }
    }
    assert(m1 =~= m2);
}

/// The entries without their keys.
pub open spec fn unkeyed(s: Seq<(Seq<char>, InfoView)>) -> Seq<InfoView> {
    Seq::new(s.len(), |i: int| s[i].1)
}

/// The entry at `i` may be stored: its key is its name, it is storable, and
/// no entry before it has its key.
pub open spec fn acceptable(s: Seq<(Seq<char>, InfoView)>, i: int) -> bool {
    &&& s[i].0 == s[i].1.name
    &&& storable(s[i].1)
    &&& forall|j: int| 0 <= j < i ==> (#[trigger] s[j]).0 != s[i].0
}

/// The report of an entry that may not be stored.
pub open spec fn rejected_text(key: Seq<char>) -> Seq<char> {
    "invalid entry in vm_list: "@ + key
}

/// In a well-formed list no name occurs twice.
pub proof fn law_names_are_distinct(s: Seq<InfoView>)
    requires
        names_ascend(s),
    ensures
        names_distinct(s),
{
    assert forall|i: int, j: int| 0 <= i < j < s.len() implies (#[trigger] s[i]).name != (
    #[trigger] s[j]).name by {
        assert(lex_lt(s[i].name, s[j].name));
        lemma_lex_lt_irreflexive(s[i].name);
    }
}

/// A listing shows every entry of the mapping once: the mapping has as
/// many names as the list has entries, each entry of the list is the one
/// its name maps to, and each entry of the mapping is in the list.
pub proof fn law_listing_is_complete(s: Seq<InfoView>)
    requires
        names_ascend(s),
    ensures
        as_map(s).dom().finite(),
        as_map(s).dom().len() == s.len(),
        forall|i: int|
            0 <= i < s.len() ==> as_map(s).contains_key((#[trigger] s[i]).name) && as_map(s)[s[i].name]
                == s[i],
        forall|k: Seq<char>| #[trigger]
            as_map(s).contains_key(k) ==> as_map(s)[k].name == k && s.contains(as_map(s)[k]),
    decreases s.len(),
{
    assert forall|i: int| 0 <= i < s.len() implies as_map(s).contains_key((#[trigger] s[i]).name)
        && as_map(s)[s[i].name] == s[i] by {
        lemma_as_map_at(s, i);
    }
    assert forall|k: Seq<char>| #[trigger] as_map(s).contains_key(k) implies as_map(s)[k].name == k
        && s.contains(as_map(s)[k]) by {
        lemma_as_map_keys_are_names(s, k);
    }
    if s.len() == 0 {
        assert(as_map(s).dom() =~= Set::<Seq<char>>::empty());
    } else {
        let t = s.drop_last();
        let e = s.last();
        law_listing_is_complete(t);
        law_names_are_distinct(s);
        assert(names_distinct(t));
        if has_name(t, e.name) {
            let j = index_of_name(t, e.name);
            assert(s[j] == t[j]);
            assert(s[j].name != s[s.len() - 1].name);
        }
        lemma_as_map_push(t, e);
        assert(s =~= t.push(e));
        assert(as_map(s).dom() =~= as_map(t).dom().insert(e.name));
    }
}

/// The entries of a list, each under its own name as key.
pub open spec fn keyed(s: Seq<InfoView>) -> Seq<(Seq<char>, InfoView)> {
    Seq::new(s.len(), |i: int| (s[i].name, s[i]))
}

/// The order of a listing depends on the entries alone, not on the order
/// in which they came: two well-formed lists that stand for the same
/// mapping are the same list.
pub proof fn law_listing_is_determined(s1: Seq<InfoView>, s2: Seq<InfoView>)
    requires
        well_formed(s1),
        well_formed(s2),
        as_map(s1) == as_map(s2),
    ensures
        s1 == s2,
    decreases s1.len(),
{
    if s1.len() == 0 || s2.len() == 0 {
        if s1.len() > 0 {
            lemma_as_map_at(s1, 0);
            assert(has_name(s2, s1[0].name));
        }
        if s2.len() > 0 {
            lemma_as_map_at(s2, 0);
            assert(has_name(s1, s2[0].name));
        }
        assert(s1 =~= s2);
    } else {
        let n1 = s1.len() - 1;
        let n2 = s2.len() - 1;
        let a = s1[n1];
        let b = s2[n2];
        lemma_as_map_at(s1, n1);
        lemma_as_map_at(s2, n2);
        let j = index_of_name(s2, a.name);
        assert(has_name(s2, a.name));
        let i = index_of_name(s1, b.name);
        assert(has_name(s1, b.name));
        lemma_lex_lt_total(a.name, b.name);
        if a.name != b.name {
            if j < n2 {
                assert(lex_lt(s2[j].name, s2[n2].name));
            }
            if i < n1 {
                assert(lex_lt(s1[i].name, s1[n1].name));
            }
            assert(false);
        }
        assert(a == b);
        lemma_remove_at(s1, n1);
        lemma_remove_at(s2, n2);
        assert(s1.remove(n1) =~= s1.drop_last());
        assert(s2.remove(n2) =~= s2.drop_last());
        law_listing_is_determined(s1.drop_last(), s2.drop_last());
        assert(s1 =~= s1.drop_last().push(a));
        assert(s2 =~= s2.drop_last().push(b));
    }
}

/// What is written to the file can be read back: every entry of a
/// well-formed list, kept under its name, is acceptable, and the entries
/// without their keys are the list again. So `from_file` of what
/// `save_to_file` gave is a registry of the same mapping, which by
/// `law_listing_is_determined` lists the same entries in the same order.
pub proof fn law_stored_entries_load_back(s: Seq<InfoView>)
    requires
        well_formed(s),
    ensures
        forall|i: int| 0 <= i < s.len() ==> acceptable(keyed(s), i),
        unkeyed(keyed(s)) == s,
{
    let kv = keyed(s);
    assert forall|i: int| 0 <= i < s.len() implies acceptable(kv, i) by {
        assert(storable(s[i]));
        assert forall|j: int| 0 <= j < i implies (#[trigger] kv[j]).0 != kv[i].0 by {
            assert(lex_lt(s[j].name, s[i].name));
            lemma_lex_lt_irreflexive(s[i].name);
        }
    }
    assert(unkeyed(kv) =~= s);
}

} // verus!
