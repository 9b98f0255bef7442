//! Paths as text.
//!
//! The library never touches the file system; it only computes where things
//! live. Paths are `/`-separated strings, joined the way `std::path` joins
//! them on Unix.

use vstd::prelude::*;
use crate::text::{chars_of, push_all, push_str, string_of};

verus! {

/// `rel` appended to `base`: an absolute `rel` replaces `base`; otherwise the
/// two are separated by exactly one `/` unless `base` is empty or already
/// ends with one.
pub open spec fn joined_path(base: Seq<char>, rel: Seq<char>) -> Seq<char> {
    if rel.len() > 0 && rel[0] == '/' {
        rel
    } else if base.len() > 0 && base.last() != '/' {
        base + seq!['/'] + rel
    } else {
        base + rel
    }
}

/// Joins two paths.
pub fn join_path(base: &str, rel: &str) -> (out: String)
    ensures
        out@ == joined_path(base@, rel@),
{
    let b = chars_of(base);
    let r = chars_of(rel);
    if r.len() > 0 && r[0] == '/' {
        return string_of(&r);
    }
    let mut out: Vec<char> = Vec::new();
    push_all(&mut out, &b);
    if b.len() > 0 && b[b.len() - 1] != '/' {
        out.push('/');
    }
    push_all(&mut out, &r);
    string_of(&out)
}

/// `base` followed by a suffix, with nothing in between.
pub fn with_suffix(base: &str, suffix: &str) -> (out: String)
    ensures
        out@ == base@ + suffix@,
{
    let mut out: Vec<char> = Vec::new();
    push_str(&mut out, base);
    push_str(&mut out, suffix);
    string_of(&out)
}

/// The part of `p` without trailing `/` characters.
pub open spec fn without_trailing_slashes(p: Seq<char>) -> Seq<char>
    decreases p.len(),
{
    if p.len() > 0 && p.last() == '/' {
        without_trailing_slashes(p.drop_last())
    } else {
        p
    }
}

/// Where the last component of `p` starts: just after the last `/`, or at 0.
pub open spec fn last_component_start(p: Seq<char>) -> int
    decreases p.len(),
{
    if p.len() == 0 || p.last() == '/' {
        p.len() as int
    } else {
        last_component_start(p.drop_last())
    }
}

/// The last component of a path: the text after the last `/` once trailing
/// `/` characters are set aside. Empty for the root and for the empty path.
pub open spec fn last_component(p: Seq<char>) -> Seq<char> {
    let trimmed = without_trailing_slashes(p);
    trimmed.skip(last_component_start(trimmed))
}

/// The last component of `path`.
pub fn base_name(path: &str) -> (out: String)
    ensures
        out@ == last_component(path@),
{
    let v = chars_of(path);
    let mut end: usize = v.len();
    assert(v@.take(v.len() as int) == v@);
    while end > 0 && v[end - 1] == '/'
        invariant
            end <= v.len(),
            without_trailing_slashes(v@) == without_trailing_slashes(v@.take(end as int)),
        decreases end,
    {
        proof {
            assert(v@.take(end as int).drop_last() == v@.take(end - 1));
        }
        end = end - 1;
    }
    let ghost trimmed = v@.take(end as int);
    assert(without_trailing_slashes(v@) == trimmed);
    assert(trimmed.take(end as int) == trimmed);
    let mut start: usize = end;
    while start > 0 && v[start - 1] != '/'
        invariant
            start <= end <= v.len(),
            trimmed == v@.take(end as int),
            last_component_start(trimmed) == last_component_start(trimmed.take(start as int)),
        decreases start,
    {
        proof {
            assert(trimmed.take(start as int).drop_last() == trimmed.take(start - 1));
        }
        start = start - 1;
    }
    proof {
        assert(trimmed.take(end as int) == trimmed);
        assert(last_component_start(trimmed.take(start as int)) == start);
        assert(trimmed.skip(start as int) == v@.subrange(start as int, end as int));
    }
    let piece = crate::text::slice_of(&v, start, end);
    string_of(&piece)
}

} // verus!
