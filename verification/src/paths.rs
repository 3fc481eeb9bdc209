//! Paths are byte strings. The rules by which they are joined and trimmed.

use vstd::prelude::*;
use vstd::slice::{slice_subrange, slice_to_vec};

use crate::ascii::{DOT, NUL, SLASH};
use crate::format::append;

verus! {

/// `b` holds a NUL byte and so is no path that a system call can take.
pub open spec fn has_nul_byte(b: Seq<u8>) -> bool {
    exists|i: int| 0 <= i < b.len() && #[trigger] b[i] == NUL
}

/// `b` ends in a slash.
pub open spec fn ends_in_slash(b: Seq<u8>) -> bool {
    b.len() > 0 && b.last() == SLASH
}

/// `dir`, a slash unless `dir` ends in one, and `name`.
pub open spec fn joined(dir: Seq<u8>, name: Seq<u8>) -> Seq<u8> {
    if ends_in_slash(dir) {
        dir + name
    } else {
        dir + seq![SLASH] + name
    }
}

/// `base` itself for an empty `rel`, else the two joined.
pub open spec fn composed(base: Seq<u8>, rel: Seq<u8>) -> Seq<u8> {
    if rel.len() == 0 {
        base
    } else {
        joined(base, rel)
    }
}

/// `prefix`, a slash in any case, and `rel`.
pub open spec fn under_prefix(prefix: Seq<u8>, rel: Seq<u8>) -> Seq<u8> {
    prefix + seq![SLASH] + rel
}

/// `rel` extended by one path component.
pub open spec fn descended(rel: Seq<u8>, name: Seq<u8>) -> Seq<u8> {
    if rel.len() == 0 {
        name
    } else {
        rel + seq![SLASH] + name
    }
}

/// Number of bytes that remain of `b` without its trailing slashes.
pub open spec fn trimmed_len(b: Seq<u8>) -> nat
    decreases b.len(),
{
    if ends_in_slash(b) {
        trimmed_len(b.drop_last())
    } else {
        b.len()
    }
}

/// `b` without its trailing slashes; nothing remains of slashes alone.
pub open spec fn trimmed(b: Seq<u8>) -> Seq<u8> {
    b.take(trimmed_len(b) as int)
}

/// `b` with at most one of its trailing slashes.
pub open spec fn squeezed(b: Seq<u8>) -> Seq<u8> {
    if ends_in_slash(b) {
        trimmed(b).push(SLASH)
    } else {
        b
    }
}

/// `name` is `.` or `..`.
pub open spec fn is_dot_entry(name: Seq<u8>) -> bool {
    name == seq![DOT] || name == seq![DOT, DOT]
}

/// `name` starts with a dot.
pub open spec fn is_hidden(name: Seq<u8>) -> bool {
    name.len() > 0 && name[0] == DOT
}

/// Whether `b` holds a NUL byte.
pub fn has_nul(b: &[u8]) -> (found: bool)
    ensures
        found == has_nul_byte(b@),
{
    let mut i: usize = 0;
    while i < b.len()
        invariant
            i <= b@.len(),
            forall|k: int| 0 <= k < i ==> #[trigger] b@[k] != NUL,
        decreases b@.len() - i,
    {
        if b[i] == NUL {
            return true;
        }
        i += 1;
    }
    false
}

/// Whether `name` is `.` or `..`.
pub fn is_dot(name: &[u8]) -> (dot: bool)
    ensures
        dot == is_dot_entry(name@),
{
    let dot = (name.len() == 1 && name[0] == DOT) || (name.len() == 2 && name[0] == DOT && name[1]
        == DOT);
    proof {
        if dot && name@.len() == 1 {
            assert(name@ =~= seq![DOT]);
        }
        if dot && name@.len() == 2 {
            assert(name@ =~= seq![DOT, DOT]);
        }
    }
    dot
}

/// Whether `name` starts with a dot.
pub fn starts_with_dot(name: &[u8]) -> (dot: bool)
    ensures
        dot == is_hidden(name@),
{
    name.len() > 0 && name[0] == DOT
}

/// The path of the entry `name` in the directory `dir`.
pub fn child_path(dir: &[u8], name: &[u8]) -> (path: Vec<u8>)
    ensures
        path@ == joined(dir@, name@),
{
    let mut path = slice_to_vec(dir);
    if !(dir.len() > 0 && dir[dir.len() - 1] == SLASH) {
        path.push(SLASH);
    }
    append(&mut path, name);
    assert(path@ =~= joined(dir@, name@));
    path
}

/// `base`, a slash if needed, and `rel`; `base` alone for an empty `rel`.
pub fn compose_path(base: &[u8], rel: &[u8]) -> (path: Vec<u8>)
    ensures
        path@ == composed(base@, rel@),
{
    if rel.len() == 0 {
        slice_to_vec(base)
    } else {
        child_path(base, rel)
    }
}

/// `prefix`, a slash and `rel`.
pub fn prefixed(prefix: &[u8], rel: &[u8]) -> (path: Vec<u8>)
    ensures
        path@ == under_prefix(prefix@, rel@),
{
    let mut path = slice_to_vec(prefix);
    path.push(SLASH);
    append(&mut path, rel);
    assert(path@ =~= under_prefix(prefix@, rel@));
    path
}

/// The relative path `rel` extended by the component `name`.
pub fn descend(rel: &[u8], name: &[u8]) -> (path: Vec<u8>)
    ensures
        path@ == descended(rel@, name@),
{
    if rel.len() == 0 {
        slice_to_vec(name)
    } else {
        let mut path = slice_to_vec(rel);
        path.push(SLASH);
        append(&mut path, name);
        assert(path@ =~= descended(rel@, name@));
        path
    }
}

/// Strip trailing slashes; nothing remains of slashes alone.
pub fn trim_trailing_slashes(b: &[u8]) -> (t: &[u8])
    ensures
        t@ == trimmed(b@),
{
    let mut end: usize = b.len();
    assert(b@.take(end as int) =~= b@);
    while end > 0 && b[end - 1] == SLASH
        invariant
            end <= b@.len(),
            trimmed_len(b@.take(end as int)) == trimmed_len(b@),
        decreases end,
    {
        assert(b@.take(end as int).drop_last() =~= b@.take(end - 1));
        end -= 1;
    }
    slice_subrange(b, 0, end)
}

/// Keep at most one trailing slash. A path that names a directory by its slash
/// still does, and no other slash is lost.
pub fn squeeze_trailing_slashes(b: &[u8]) -> (t: Vec<u8>)
    ensures
        t@ == squeezed(b@),
{
    if b.len() > 0 && b[b.len() - 1] == SLASH {
        let mut t = slice_to_vec(trim_trailing_slashes(b));
        t.push(SLASH);
        t
    } else {
        slice_to_vec(b)
    }
}

/// Squeezing keeps what is before the trailing slashes and whether there are
/// any, and squeezing twice changes nothing more. It brings in no NUL byte.
pub proof fn law_squeeze(b: Seq<u8>)
    ensures
        trimmed(squeezed(b)) == trimmed(b),
        ends_in_slash(squeezed(b)) == ends_in_slash(b),
        squeezed(squeezed(b)) == squeezed(b),
        squeezed(b) == trimmed(b) || squeezed(b) == trimmed(b).push(SLASH),
        has_nul_byte(squeezed(b)) == has_nul_byte(b),
{
    law_trim(b);
    let t = trimmed(b);
    let s = squeezed(b);
    if ends_in_slash(b) {
        assert(s.drop_last() =~= t);
        assert(trimmed_len(t) == t.len());
        assert(trimmed(s) =~= t);
        if has_nul_byte(s) {
            let i = choose|i: int| 0 <= i < s.len() && #[trigger] s[i] == NUL;
            assert(b[i] == NUL);
        }
        if has_nul_byte(b) {
            let i = choose|i: int| 0 <= i < b.len() && #[trigger] b[i] == NUL;
            assert(i < t.len());
            assert(s[i] == NUL);
        }
    } else {
        assert(t =~= b);
    }
}

/// What `trimmed` keeps is the longest prefix that does not end in a slash:
/// all that is cut off is slashes, and trimming twice changes nothing more.
pub proof fn law_trim(b: Seq<u8>)
    ensures
        trimmed_len(b) <= b.len(),
        !ends_in_slash(trimmed(b)),
        forall|i: int| trimmed_len(b) <= i < b.len() ==> #[trigger] b[i] == SLASH,
        trimmed(trimmed(b)) == trimmed(b),
    decreases b.len(),
{
    if ends_in_slash(b) {
        law_trim(b.drop_last());
        assert(trimmed(b) =~= trimmed(b.drop_last()));
        assert forall|i: int| trimmed_len(b) <= i < b.len() implies #[trigger] b[i] == SLASH by {
            if i < b.len() - 1 {
                assert(b.drop_last()[i] == SLASH);
            }
        }
    } else {
        assert(trimmed(b) =~= b);
    }
}

/// The path of a directory entry starts with the directory's path and ends with
/// the name. Between them stands a slash, unless the directory's path ends in
/// one.
pub proof fn law_joined_path(dir: Seq<u8>, name: Seq<u8>)
    ensures
        ({
            let path = joined(dir, name);
            let slashed = dir.len() > 0 && dir[dir.len() - 1] == 0x2f;
            &&& path.take(dir.len() as int) == dir
            &&& path.skip(path.len() - name.len()) == name
            &&& slashed ==> path.len() == dir.len() + name.len()
            &&& !slashed ==> path.len() == dir.len() + 1 + name.len() && path[dir.len() as int]
                == 0x2f
        }),
{
    let path = joined(dir, name);
    assert(path.take(dir.len() as int) =~= dir);
    assert(path.skip(path.len() - name.len()) =~= name);
}

/// A path is printed below a prefix with exactly one slash between them,
/// whatever the prefix ends in.
pub proof fn law_prefixed_path(prefix: Seq<u8>, rel: Seq<u8>)
    ensures
        ({
            let path = under_prefix(prefix, rel);
            &&& path.len() == prefix.len() + 1 + rel.len()
            &&& path.take(prefix.len() as int) == prefix
            &&& path[prefix.len() as int] == 0x2f
            &&& path.skip(path.len() - rel.len()) == rel
        }),
{
    let path = under_prefix(prefix, rel);
    assert(path.take(prefix.len() as int) =~= prefix);
    assert(path.skip(path.len() - rel.len()) =~= rel);
}

/// Going down by one component and then composing is composing and then going
/// down; an empty relative path is the base itself.
pub proof fn law_composing_goes_down(base: Seq<u8>, rel: Seq<u8>, name: Seq<u8>)
    requires
        name.len() > 0,
        rel.len() > 0 ==> rel[rel.len() - 1] != 0x2f,
    ensures
        composed(base, seq![]) == base,
        descended(seq![], name) == name,
        composed(base, descended(rel, name)) == joined(composed(base, rel), name),
{
    assert(composed(base, descended(rel, name)) =~= joined(composed(base, rel), name));
}

/// Names are told by their bytes: `.` and `..` are special, a leading dot
/// hides, and no system call takes a zero byte.
pub proof fn law_names_by_bytes(name: Seq<u8>)
    ensures
        is_dot_entry(name) <==> 1 <= name.len() <= 2 && forall|i: int|
            0 <= i < name.len() ==> #[trigger] name[i] == 0x2e,
        is_hidden(name) <==> name.len() > 0 && name[0] == 0x2e,
        has_nul_byte(name) <==> name.contains(0u8),
        is_dot_entry(name) ==> is_hidden(name),
{
    if 1 <= name.len() <= 2 && forall|i: int|
        0 <= i < name.len() ==> #[trigger] name[i] == 0x2e {
        assert(name[0] == 0x2e);
        if name.len() == 1 {
            assert(name =~= seq![DOT]);
        } else {
            assert(name =~= seq![DOT, DOT]);
        }
    }
}

/// Trimming takes off slashes only and all of them; squeezing puts one back
/// where there was any.
pub proof fn law_trimmed_bytes(b: Seq<u8>)
    ensures
        ({
            let t = trimmed(b);
            &&& t.len() <= b.len()
            &&& t == b.take(t.len() as int)
            &&& t.len() == 0 || t[t.len() - 1] != 0x2f
            &&& forall|i: int| t.len() <= i < b.len() ==> #[trigger] b[i] == 0x2f
            &&& b.len() == t.len() ==> squeezed(b) == b
            &&& b.len() > t.len() ==> squeezed(b) == t.push(0x2f)
        }),
{
    law_trim(b);
    if b.len() == trimmed(b).len() {
        assert(trimmed(b) =~= b);
    } else {
        assert(b[b.len() - 1] == SLASH);
    }
}

} // verus!
