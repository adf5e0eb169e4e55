//! `/`-separated paths as `std::path::Path` treats them on Unix: joining,
//! the parent directory, and the final component. Empty components and `.`
//! components (other than a leading `.`) do not count as components.
use vstd::prelude::*;
use vstd::string::*;

use crate::text::{chars_of, opt_string_view};

verus! {

/// `rel` joined onto `base` (`Path::join`): an absolute `rel` replaces
/// `base`; otherwise a `'/'` separates them unless `base` is empty or already
/// ends in one.
pub open spec fn join_path(base: Seq<char>, rel: Seq<char>) -> Seq<char> {
    if rel.len() > 0 && rel[0] == '/' {
        rel
    } else if base.len() == 0 || base.last() == '/' {
        base + rel
    } else {
        base + seq!['/'] + rel
    }
}

/// Index of the last `c` in `s`, or `-1`.
pub open spec fn last_index_of(s: Seq<char>, c: char) -> int
    decreases s.len(),
{
    if s.len() == 0 {
        -1
    } else if s.last() == c {
        s.len() - 1
    } else {
        last_index_of(s.drop_last(), c)
    }
}

/// `last_index_of` is `-1` or the index of a `c` after which none follows.
pub proof fn lemma_last_index_of(s: Seq<char>, c: char)
    ensures
        -1 <= last_index_of(s, c) < s.len(),
        last_index_of(s, c) >= 0 ==> s[last_index_of(s, c)] == c,
        forall|j: int| last_index_of(s, c) < j < s.len() ==> s[j] != c,
    decreases s.len(),
{
    if s.len() > 0 && s.last() != c {
        lemma_last_index_of(s.drop_last(), c);
        assert forall|j: int| last_index_of(s, c) < j < s.len() implies s[j] != c by {
            if j < s.len() - 1 {
                assert(s[j] == s.drop_last()[j]);
            }
        }
    }
}

/// Length of what precedes the first component: the root `/` of an absolute
/// path, or a leading `.` component of a relative one.
pub open spec fn body_start(s: Seq<char>) -> int {
    if s.len() > 0 && s[0] == '/' {
        1
    } else if s.len() > 0 && s[0] == '.' && (s.len() == 1 || s[1] == '/') {
        1
    } else {
        0
    }
}

/// `s` without the trailing separators and trailing `.` components that come
/// after its start.
pub open spec fn trim_tail(s: Seq<char>) -> Seq<char>
    decreases s.len(),
{
    if s.len() > body_start(s) && s.last() == '/' {
        trim_tail(s.drop_last())
    } else if s.len() >= 2 && s.len() - 1 >= body_start(s) && s.last() == '.' && s[s.len() - 2]
        == '/' {
        trim_tail(s.drop_last())
    } else {
        s
    }
}

/// The parent directory of a path (`Path::parent`): the path up to its last
/// component, trimmed; `""` for a single relative component or a lone `.`;
/// none for the root or the empty path.
pub open spec fn parent_dir(s: Seq<char>) -> Option<Seq<char>> {
    let t = trim_tail(s);
    if t.len() <= body_start(t) {
        if t == seq!['.'] {
            Some(seq![])
        } else {
            None
        }
    } else {
        let k = last_index_of(t, '/');
        if k < 0 {
            Some(seq![])
        } else {
            Some(trim_tail(t.subrange(0, k + 1)))
        }
    }
}

/// The last component of a path (`Path::file_name`): trailing separators and
/// `.` components do not count, and a final `..` has none.
pub open spec fn file_name(s: Seq<char>) -> Option<Seq<char>>
    decreases s.len(),
{
    if s.len() == 0 {
        None
    } else if s.last() == '/' {
        file_name(s.drop_last())
    } else {
        proof {
            lemma_last_index_of(s, '/');
        }
        let k = last_index_of(s, '/');
        let comp = s.subrange(k + 1, s.len() as int);
        if comp == seq!['.'] {
            file_name(s.subrange(0, k + 1))
        } else if comp == seq!['.', '.'] {
            None
        } else {
            Some(comp)
        }
    }
}

/// `rel` joined onto `base` (see `join_path`).
pub fn join_paths(base: &str, rel: &str) -> (r: String)
    ensures
        r@ == join_path(base@, rel@),
{
    let rc = chars_of(rel);
    if rc.len() > 0 && rc[0] == '/' {
        return String::from_str(rel);
    }
    let bc = chars_of(base);
    proof {
        reveal_strlit("/");
    }
    if bc.len() == 0 || bc[bc.len() - 1] == '/' {
        String::from_str(base).concat(rel)
    } else {
        String::from_str(base).concat("/").concat(rel)
    }
}

/// `body_start` of `chars[..j]`.
fn body_start_of(chars: &Vec<char>, j: usize) -> (r: usize)
    requires
        j <= chars@.len(),
    ensures
        r as int == body_start(chars@.subrange(0, j as int)),
        r <= 1,
{
    if j > 0 && chars[0] == '/' {
        1
    } else if j > 0 && chars[0] == '.' && (j == 1 || chars[1] == '/') {
        1
    } else {
        0
    }
}

/// Length of `trim_tail(chars[..end])`.
fn trim_tail_len(chars: &Vec<char>, end: usize) -> (r: usize)
    requires
        end <= chars@.len(),
    ensures
        r <= end,
        chars@.subrange(0, r as int) == trim_tail(chars@.subrange(0, end as int)),
{
    let mut j = end;
    loop
        invariant
            j <= end <= chars@.len(),
            trim_tail(chars@.subrange(0, end as int)) == trim_tail(chars@.subrange(0, j as int)),
        decreases j,
    {
        let bs = body_start_of(chars, j);
        let ghost s = chars@.subrange(0, j as int);
        let slash = j > bs && chars[j - 1] == '/';
        let dot = j >= 2 && j - 1 >= bs && chars[j - 1] == '.' && chars[j - 2] == '/';
        if !slash && !dot {
            return j;
        }
        assert(s.drop_last() =~= chars@.subrange(0, j - 1));
        j = j - 1;
    }
}

/// Index of the last `'/'` in `chars[..end]`, if any.
fn last_slash(chars: &Vec<char>, end: usize) -> (r: Option<usize>)
    requires
        end <= chars@.len(),
    ensures
        match r {
            Some(k) => k < end && last_index_of(chars@.subrange(0, end as int), '/') == k,
            None => last_index_of(chars@.subrange(0, end as int), '/') == -1,
        },
{
    let mut k = end;
    while k > 0 && chars[k - 1] != '/'
        invariant
            k <= end <= chars@.len(),
            last_index_of(chars@.subrange(0, end as int), '/') == last_index_of(
                chars@.subrange(0, k as int),
                '/',
            ),
        decreases k,
    {
        assert(chars@.subrange(0, k as int).drop_last() =~= chars@.subrange(0, k - 1));
        k = k - 1;
    }
    if k == 0 {
        None
    } else {
        Some(k - 1)
    }
}

/// The parent directory of `path` (see `parent_dir`).
pub fn parent_directory(path: &str) -> (r: Option<String>)
    ensures
        opt_string_view(r) == parent_dir(path@),
{
    let chars = chars_of(path);
    assert(chars@.subrange(0, chars@.len() as int) =~= chars@);
    let n = trim_tail_len(&chars, chars.len());
    let ghost t = chars@.subrange(0, n as int);
    let bs = body_start_of(&chars, n);
    if n <= bs {
        if n == 1 && chars[0] == '.' {
            assert(t =~= seq!['.']);
            return Some(String::new());
        }
        assert(t != seq!['.']) by {
            if t == seq!['.'] {
                assert(t.len() == 1 && t[0] == chars@[0]);
            }
        }
        return None;
    }
    match last_slash(&chars, n) {
        None => Some(String::new()),
        Some(k) => {
            assert(t.subrange(0, k + 1) =~= chars@.subrange(0, k + 1));
            let m = trim_tail_len(&chars, k + 1);
            Some(String::from_str(path.substring_char(0, m)))
        },
    }
}

/// Bounds of the last component of `chars[..end]` (see `file_name`).
fn file_name_bounds(chars: &Vec<char>, end: usize) -> (r: Option<(usize, usize)>)
    requires
        end <= chars@.len(),
    ensures
        match r {
            Some((a, b)) => a <= b <= end && file_name(chars@.subrange(0, end as int)) == Some(
                chars@.subrange(a as int, b as int),
            ),
            None => file_name(chars@.subrange(0, end as int)) is None,
        },
    decreases end,
{
    let ghost s = chars@.subrange(0, end as int);
    if end == 0 {
        return None;
    }
    if chars[end - 1] == '/' {
        assert(s.drop_last() =~= chars@.subrange(0, end - 1));
        return file_name_bounds(chars, end - 1);
    }
    let k = match last_slash(chars, end) {
        Some(p) => p + 1,
        None => 0,
    };
    let ghost comp = s.subrange(k as int, end as int);
    assert(comp =~= chars@.subrange(k as int, end as int));
    let dot = end - k == 1 && chars[k] == '.';
    let dotdot = end - k == 2 && chars[k] == '.' && chars[k + 1] == '.';
    assert(dot == (comp == seq!['.'])) by {
        if end - k == 1 && chars[k as int] == '.' {
            assert(comp =~= seq!['.']);
        }
        if comp == seq!['.'] {
            assert(comp.len() == 1 && chars@[k as int] == comp[0]);
        }
    }
    assert(dotdot == (comp == seq!['.', '.'])) by {
        if end - k == 2 && chars[k as int] == '.' && chars[k + 1] == '.' {
            assert(comp =~= seq!['.', '.']);
        }
        if comp == seq!['.', '.'] {
            assert(comp.len() == 2 && chars@[k as int] == comp[0] && chars@[k + 1] == comp[1]);
        }
    }
    if dot {
        assert(s.subrange(0, k as int) =~= chars@.subrange(0, k as int));
        file_name_bounds(chars, k)
    } else if dotdot {
        None
    } else {
        Some((k, end))
    }
}

/// The last component of `path` (see `file_name`).
pub fn file_name_of(path: &str) -> (r: Option<String>)
    ensures
        opt_string_view(r) == file_name(path@),
{
    let chars = chars_of(path);
    assert(chars@.subrange(0, chars@.len() as int) =~= chars@);
    match file_name_bounds(&chars, chars.len()) {
        Some((a, b)) => Some(String::from_str(path.substring_char(a, b))),
        None => None,
    }
}

} // verus!
