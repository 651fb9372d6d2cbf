//! File names and extensions of `/`-separated paths, read the way the
//! standard library's `Path::file_name` and `Path::extension` read them:
//! trailing separators and `.` components are ignored, `..` has no file
//! name, and a leading dot does not start an extension.
use vstd::prelude::*;

verus! {

/// The characters after the last `/` of `p` (all of `p` when it has none).
pub open spec fn last_segment(p: Seq<char>) -> Seq<char>
    decreases p.len(),
{
    if p.len() == 0 {
        p
    } else if p.last() == '/' {
        Seq::empty()
    } else {
        last_segment(p.drop_last()).push(p.last())
    }
}

/// The final normal component of `p`, if there is one.
pub open spec fn file_name(p: Seq<char>) -> Option<Seq<char>>
    decreases p.len(),
{
    if p.len() == 0 {
        None
    } else if p.last() == '/' {
        file_name(p.drop_last())
    } else if p.last() == '.' && (p.len() == 1 || p[p.len() - 2] == '/') {
        if p.len() == 1 {
            None
        } else {
            file_name(p.drop_last())
        }
    } else if last_segment(p) == seq!['.', '.'] {
        None
    } else {
        Some(last_segment(p))
    }
}

/// The part of `name` after its last dot, unless that dot is the first
/// character or there is none.
pub open spec fn after_last_dot(name: Seq<char>) -> Option<Seq<char>>
    decreases name.len(),
{
    if name.len() == 0 {
        None
    } else if name.last() == '.' {
        if name.len() == 1 {
            None
        } else {
            Some(Seq::empty())
        }
    } else {
        match after_last_dot(name.drop_last()) {
            Some(e) => Some(e.push(name.last())),
            None => None,
        }
    }
}

/// The extension of the path `p`.
pub open spec fn extension(p: Seq<char>) -> Option<Seq<char>> {
    match file_name(p) {
        Some(name) => after_last_dot(name),
        None => None,
    }
}

/// The last segment of `p[..end]`, as a start index into `p`.
fn last_segment_start(p: &[char], end: usize) -> (start: usize)
    requires
        end <= p@.len(),
    ensures
        start <= end,
        p@.subrange(start as int, end as int) == last_segment(p@.subrange(0, end as int)),
    decreases end,
{
    if end == 0 {
        return 0;
    }
    let ghost q = p@.subrange(0, end as int);
    assert(q.drop_last() =~= p@.subrange(0, end - 1));
    if p[end - 1] == '/' {
        assert(p@.subrange(end as int, end as int) =~= Seq::<char>::empty());
        end
    } else {
        let s = last_segment_start(p, end - 1);
        assert(p@.subrange(s as int, end as int) =~= p@.subrange(s as int, end - 1).push(p@[end - 1]));
        s
    }
}

/// Where the file name of `p[..end]` lies in `p`, if it has one.
fn file_name_range(p: &[char], end: usize) -> (r: Option<(usize, usize)>)
    requires
        end <= p@.len(),
    ensures
        match r {
            Some((s, e)) => s <= e <= end && file_name(p@.subrange(0, end as int)) == Some(
                p@.subrange(s as int, e as int),
            ),
            None => file_name(p@.subrange(0, end as int)) is None,
        },
    decreases end,
{
    if end == 0 {
        return None;
    }
    let ghost q = p@.subrange(0, end as int);
    assert(q.drop_last() =~= p@.subrange(0, end - 1));
    let c = p[end - 1];
    if c == '/' {
        return file_name_range(p, end - 1);
    }
    if c == '.' && (end == 1 || p[end - 2] == '/') {
        if end == 1 {
            return None;
        }
        return file_name_range(p, end - 1);
    }
    assert(q.last() == c);
    assert(end >= 2 ==> q[q.len() - 2] == p@[end - 2]);
    let s = last_segment_start(p, end);
    if end - s == 2 && p[s] == '.' && p[s + 1] == '.' {
        assert(p@.subrange(s as int, end as int) =~= seq!['.', '.']);
        return None;
    }
    proof {
        if p@.subrange(s as int, end as int) == seq!['.', '.'] {
            let t = p@.subrange(s as int, end as int);
            assert(t.len() == 2);
            assert(t[0] == p@[s as int]);
            assert(t[1] == p@[s + 1]);
            assert(false);
        }
        assert(!(c == '.' && (end == 1 || p@[end - 2] == '/')));
        assert(q.len() == end);
        assert(q.last() != '/');
        assert(!(q.last() == '.' && (q.len() == 1 || q[q.len() - 2] == '/')));
        assert(last_segment(q) != seq!['.', '.']);
        assert(file_name(q) == Some(last_segment(q)));
    }
    Some((s, end))
}

/// Where the extension of `p[start..end]` lies, taking that range as a name.
fn after_last_dot_range(p: &[char], start: usize, end: usize) -> (r: Option<usize>)
    requires
        start <= end <= p@.len(),
    ensures
        match r {
            Some(s) => start <= s <= end && after_last_dot(p@.subrange(start as int, end as int))
                == Some(p@.subrange(s as int, end as int)),
            None => after_last_dot(p@.subrange(start as int, end as int)) is None,
        },
    decreases end - start,
{
    if end == start {
        return None;
    }
    let ghost n = p@.subrange(start as int, end as int);
    assert(n.drop_last() =~= p@.subrange(start as int, end - 1));
    if p[end - 1] == '.' {
        if end - start == 1 {
            return None;
        }
        assert(p@.subrange(end as int, end as int) =~= Seq::<char>::empty());
        return Some(end);
    }
    match after_last_dot_range(p, start, end - 1) {
        Some(s) => {
            assert(p@.subrange(s as int, end as int) =~= p@.subrange(s as int, end - 1).push(
                p@[end - 1],
            ));
            Some(s)
        },
        None => None,
    }
}

/// The extension of `path` as a character vector.
pub fn extension_of(path: &str) -> (r: Option<Vec<char>>)
    ensures
        match r {
            Some(e) => extension(path@) == Some(e@),
            None => extension(path@) is None,
        },
{
    let p = crate::text::chars_of(path);
    let n = p.len();
    assert(p@.subrange(0, n as int) =~= p@);
    match file_name_range(p.as_slice(), n) {
        None => None,
        Some((s, e)) => match after_last_dot_range(p.as_slice(), s, e) {
            None => None,
            Some(x) => {
                let mut v: Vec<char> = Vec::new();
                let mut i = x;
                while i < e
                    invariant
                        x <= i <= e <= p@.len(),
                        v@ == p@.subrange(x as int, i as int),
                    decreases e - i,
                {
                    v.push(p[i]);
                    i = i + 1;
                    assert(v@ =~= p@.subrange(x as int, i as int));
                }
                Some(v)
            },
        },
    }
}

/// Whether the extension of `path` is exactly `ext`.
pub fn has_extension(path: &str, ext: &str) -> (r: bool)
    ensures
        r == (extension(path@) == Some(ext@)),
{
    match extension_of(path) {
        None => false,
        Some(e) => {
            let x = crate::text::chars_of(ext);
            crate::text::chars_eq(e.as_slice(), x.as_slice())
        },
    }
}

} // verus!
