//! File names and extensions of `/`-separated paths, as `std::path::Path` reads them.

use vstd::prelude::*;
use crate::text::{chars_of, string_from_chars};

verus! {

/// The characters after the last `/` of `s` (all of `s` when it has none).
pub open spec fn last_segment(s: Seq<char>) -> Seq<char>
    decreases s.len(),
{
    if s.len() == 0 || s.last() == '/' {
        Seq::empty()
    } else {
        last_segment(s.drop_last()).push(s.last())
    }
}

/// The final component of a path, as `Path::file_name` reports it: trailing separators
/// and `.` components are skipped; `None` when nothing is left or the component is `..`.
pub open spec fn file_name_of(s: Seq<char>) -> Option<Seq<char>>
    decreases s.len(),
{
    if s.len() == 0 {
        None
    } else if s.last() == '/' {
        file_name_of(s.drop_last())
    } else {
        let seg = last_segment(s);
        if seg == seq!['.'] {
            file_name_of(s.take(s.len() - seg.len()))
        } else if seg == seq!['.', '.'] {
            None
        } else {
            Some(seg)
        }
    }
}

/// The position of the last `.` in `s`, or -1.
pub open spec fn last_dot(s: Seq<char>) -> int
    decreases s.len(),
{
    if s.len() == 0 {
        -1
    } else if s.last() == '.' {
        s.len() - 1
    } else {
        last_dot(s.drop_last())
    }
}

/// The extension of a file name, as `Path::extension` reports it: the characters after
/// the last `.`; `None` when there is no `.`, when the only `.` starts the name, or for `..`.
pub open spec fn extension_of(name: Seq<char>) -> Option<Seq<char>> {
    let d = last_dot(name);
    if name == seq!['.', '.'] || d <= 0 {
        None
    } else {
        Some(name.skip(d + 1))
    }
}

/// The extension of the file that a path names.
pub open spec fn path_extension(path: Seq<char>) -> Option<Seq<char>> {
    match file_name_of(path) {
        Some(name) => extension_of(name),
        None => None,
    }
}

proof fn lemma_last_segment_props(s: Seq<char>)
    ensures
        last_segment(s).len() <= s.len(),
        last_segment(s) == s.skip(s.len() - last_segment(s).len()),
        forall|i: int| 0 <= i < last_segment(s).len() ==> #[trigger] last_segment(s)[i] != '/',
        last_segment(s).len() < s.len() ==> s[s.len() - last_segment(s).len() - 1] == '/',
    decreases s.len(),
{
    if s.len() > 0 && s.last() != '/' {
        lemma_last_segment_props(s.drop_last());
        let t = s.drop_last();
        assert(last_segment(s) =~= last_segment(t).push(s.last()));
        assert(s.skip(s.len() - last_segment(s).len()) =~= t.skip(t.len() - last_segment(t).len()).push(s.last()));
    } else {
        assert(s.skip(s.len() as int) =~= Seq::<char>::empty());
    }
}

/// The segment of `c[0..end]` after its last `/`, found by scanning back from `end`.
fn segment_start(c: &Vec<char>, end: usize) -> (start: usize)
    requires
        end <= c@.len(),
    ensures
        start <= end,
        last_segment(c@.take(end as int)) == c@.subrange(start as int, end as int),
{
    let mut start = end;
    while start > 0 && c[start - 1] != '/'
        invariant
            start <= end <= c@.len(),
            last_segment(c@.take(end as int)) == last_segment(c@.take(start as int)) + c@.subrange(
                start as int,
                end as int,
            ),
        decreases start,
    {
        let ghost t = c@.take(start as int);
        assert(c@.take(start - 1) =~= t.drop_last());
        assert(c@.subrange(start - 1, end as int) =~= seq![t.last()] + c@.subrange(start as int, end as int));
        assert(last_segment(t) =~= last_segment(t.drop_last()).push(t.last()));
        start = start - 1;
    }
    assert(last_segment(c@.take(start as int)) =~= Seq::<char>::empty());
    assert(last_segment(c@.take(end as int)) =~= c@.subrange(start as int, end as int));
    start
}

/// The final component of a path (see [`file_name_of`]).
pub fn file_name(path: &str) -> (name: Option<String>)
    ensures
        match (name, file_name_of(path@)) {
            (Some(n), Some(m)) => n@ == m,
            (None, None) => true,
            _ => false,
        },
{
    let c = chars_of(path);
    let mut end: usize = c.len();
    assert(c@.take(end as int) =~= c@);
    loop
        invariant
            end <= c@.len(),
            file_name_of(c@) == file_name_of(c@.take(end as int)),
            c@ == path@,
        decreases end,
    {
        if end == 0 {
            return None;
        }
        if c[end - 1] == '/' {
            assert(c@.take(end - 1) =~= c@.take(end as int).drop_last());
            end = end - 1;
        } else {
            let start = segment_start(&c, end);
            let ghost t = c@.take(end as int);
            proof {
                lemma_last_segment_props(t);
            }
            let len = end - start;
            if len == 1 && c[start] == '.' {
                assert(c@.subrange(start as int, end as int) =~= seq!['.']);
                assert(t.take(t.len() - 1) =~= c@.take(start as int));
                end = start;
            } else if len == 2 && c[start] == '.' && c[start + 1] == '.' {
                assert(c@.subrange(start as int, end as int) =~= seq!['.', '.']);
                return None;
            } else {
                let mut seg: Vec<char> = Vec::new();
                let mut i = start;
                while i < end
                    invariant
                        start <= i <= end <= c@.len(),
                        seg@ == c@.subrange(start as int, i as int),
                    decreases end - i,
                {
                    seg.push(c[i]);
                    assert(c@.subrange(start as int, i + 1) =~= c@.subrange(start as int, i as int).push(c@[i as int]));
                    i = i + 1;
                }
                proof {
                    if len == 1 {
                        assert(seg@ != seq!['.']) by {
                            assert(seg@[0] != '.');
                        }
                    }
                    if len == 2 {
                        assert(seg@ != seq!['.', '.']) by {
                            assert(seg@[0] != '.' || seg@[1] != '.');
                        }
                    }
                    assert(seg@.len() == len);
                }
                return Some(string_from_chars(&seg));
            }
        }
    }
}

/// The extension of a file name (see [`extension_of`]).
pub fn extension(name: &str) -> (ext: Option<String>)
    ensures
        match (ext, extension_of(name@)) {
            (Some(e), Some(f)) => e@ == f,
            (None, None) => true,
            _ => false,
        },
{
    let c = chars_of(name);
    let mut i: usize = c.len();
    assert(c@.take(i as int) =~= c@);
    while i > 0 && c[i - 1] != '.'
        invariant
            i <= c@.len(),
            last_dot(c@) == last_dot(c@.take(i as int)),
            c@ == name@,
        decreases i,
    {
        assert(c@.take(i - 1) =~= c@.take(i as int).drop_last());
        i = i - 1;
    }
    proof {
        if i > 0 {
            assert(c@.take(i as int).last() == '.');
        }
    }
    if c.len() == 2 && c[0] == '.' && c[1] == '.' {
        assert(c@ =~= seq!['.', '.']);
        return None;
    }
    if i <= 1 {
        return None;
    }
    proof {
        if c@ == seq!['.', '.'] {
            assert(c@[0] == '.' && c@[1] == '.');
        }
    }
    let mut out: Vec<char> = Vec::new();
    let mut k = i;
    while k < c.len()
        invariant
            i <= k <= c@.len(),
            out@ == c@.subrange(i as int, k as int),
        decreases c@.len() - k,
    {
        out.push(c[k]);
        assert(c@.subrange(i as int, k + 1) =~= c@.subrange(i as int, k as int).push(c@[k as int]));
        k = k + 1;
    }
    assert(out@ =~= c@.skip(i as int));
    Some(string_from_chars(&out))
}

/// The extension of the file that a path names (see [`path_extension`]).
pub fn path_extension_of(path: &str) -> (ext: Option<String>)
    ensures
        match (ext, path_extension(path@)) {
            (Some(e), Some(f)) => e@ == f,
            (None, None) => true,
            _ => false,
        },
{
    match file_name(path) {
        Some(n) => extension(n.as_str()),
        None => None,
    }
}


/// `base` joined with `rel` as `Path::join` joins on Unix: an absolute `rel` replaces
/// `base`; otherwise a separator is put between them unless `base` is empty or already
/// ends with one.
pub open spec fn joined(base: Seq<char>, rel: Seq<char>) -> Seq<char> {
    if rel.len() > 0 && rel[0] == '/' {
        rel
    } else if base.len() == 0 || base.last() == '/' {
        base + rel
    } else {
        base + seq!['/'] + rel
    }
}

/// Joins two paths (see [`joined`]).
pub fn path_join(base: &str, rel: &str) -> (out: String)
    ensures
        out@ == joined(base@, rel@),
{
    let b = chars_of(base);
    let r = chars_of(rel);
    if r.len() > 0 && r[0] == '/' {
        return crate::text::owned(rel);
    }
    let mut out = crate::text::owned(base);
    if b.len() > 0 && b[b.len() - 1] != '/' {
        crate::text::append(&mut out, "/");
        assert("/"@ =~= seq!['/']) by {
            reveal_strlit("/");
        }
    }
    crate::text::append(&mut out, rel);
    out
}

} // verus!
