//! Paths as text. A path is absolute when it starts at the root `/`;
//! any other path is relative and is read against a base directory.

use vstd::prelude::*;
use vstd::string::*;

verus! {

/// A path that starts at the root.
pub open spec fn is_absolute(p: Seq<char>) -> bool {
    p.len() > 0 && p[0] == '/'
}

/// The path of `name` in the directory `dir`: `dir`, one separator unless
/// `dir` ends in one, and `name`.
pub open spec fn child(dir: Seq<char>, name: Seq<char>) -> Seq<char> {
    if dir.len() > 0 && dir.last() == '/' {
        dir + name
    } else {
        dir + seq!['/'] + name
    }
}

/// `p` as seen from the directory `base`: `p` itself when it is absolute,
/// otherwise the path of `p` in `base`.
pub open spec fn resolve(base: Seq<char>, p: Seq<char>) -> Seq<char> {
    if is_absolute(p) {
        p
    } else {
        child(base, p)
    }
}

/// Whether `p` starts at the root.
pub fn is_absolute_path(p: &str) -> (r: bool)
    ensures
        r == is_absolute(p@),
{
    let n: usize = p.unicode_len();
    n > 0 && p.get_char(0) == '/'
}

/// The path of `name` in the directory `dir`.
pub fn join(dir: &str, name: &str) -> (r: String)
    ensures
        r@ == child(dir@, name@),
{
    let n: usize = dir.unicode_len();
    let mut out: String = String::from_str(dir);
    if n == 0 || dir.get_char(n - 1) != '/' {
        proof {
            reveal_strlit("/");
            assert("/"@ =~= seq!['/']);
        }
        out.append("/");
    }
    out.append(name);
    out
}

/// Resolves `p` against the directory `base`.
pub fn absolutize(base: &str, p: &str) -> (r: String)
    ensures
        r@ == resolve(base@, p@),
{
    if is_absolute_path(p) {
        String::from_str(p)
    } else {
        join(base, p)
    }
}

/// Resolving against an absolute base always gives an absolute path.
pub proof fn lemma_resolve_absolute(base: Seq<char>, p: Seq<char>)
    requires
        is_absolute(base),
    ensures
        is_absolute(resolve(base, p)),
{
}

/// An absolute path resolves to itself, whatever the base; and resolving
/// twice against one absolute base is the same as resolving once.
pub proof fn law_resolve_settles(base: Seq<char>, p: Seq<char>)
    ensures
        is_absolute(p) ==> resolve(base, p) == p,
        is_absolute(base) ==> resolve(base, resolve(base, p)) == resolve(base, p),
{
}

/// A path in a directory starts with the directory and ends with the
/// name; in an absolute directory it is absolute.
pub proof fn law_child_is_below(dir: Seq<char>, name: Seq<char>)
    ensures
        dir.is_prefix_of(child(dir, name)),
        name.is_suffix_of(child(dir, name)),
        is_absolute(dir) ==> is_absolute(child(dir, name)),
{
    let c = child(dir, name);
    assert(c.subrange(0, dir.len() as int) =~= dir);
    assert(c.subrange(c.len() - name.len(), c.len() as int) =~= name);
}

} // verus!
