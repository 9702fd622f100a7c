use vstd::prelude::*;
use crate::text::contains_text;

verus! {

/// The index of the last occurrence of `c` in `s`, or -1.
pub open spec fn last_index_of(s: Seq<char>, c: char) -> int
    decreases s.len(),
{
    if s.len() == 0 {
        -1
    } else if s.last() == c {
        s.len() - 1
    } else {
        last_index_of(s.drop_last(), c)
    }
}

pub(crate) proof fn lemma_last_index_bounds(s: Seq<char>, c: char)
    ensures
        -1 <= last_index_of(s, c) < s.len(),
        last_index_of(s, c) >= 0 ==> s[last_index_of(s, c)] == c,
    decreases s.len(),
{
    if s.len() > 0 && s.last() != c {
        lemma_last_index_bounds(s.drop_last(), c);
    }
}

/// Appending text without `c` leaves the last occurrence of `c` where it was.
pub proof fn lemma_last_index_append(s: Seq<char>, t: Seq<char>, c: char)
    requires
        forall|j: int| 0 <= j < t.len() ==> t[j] != c,
    ensures
        last_index_of(s + t, c) == last_index_of(s, c),
    decreases t.len(),
{
    if t.len() == 0 {
        assert(s + t =~= s);
    } else {
        assert((s + t).drop_last() =~= s + t.drop_last());
        assert((s + t).last() == t.last());
        lemma_last_index_append(s, t.drop_last(), c);
    }
}

/// No `c` follows the last occurrence of `c`.
pub proof fn lemma_after_last_index(s: Seq<char>, c: char)
    ensures
        forall|j: int| last_index_of(s, c) < j < s.len() ==> s[j] != c,
    decreases s.len(),
{
    if s.len() > 0 && s.last() != c {
        lemma_after_last_index(s.drop_last(), c);
        lemma_last_index_bounds(s.drop_last(), c);
        assert forall|j: int| last_index_of(s, c) < j < s.len() implies s[j] != c by {
            if j < s.len() - 1 {
                assert(s[j] == s.drop_last()[j]);
            }
        }
    }
}

/// The last component of a path: what follows its last `/`.
pub open spec fn file_name_of(path: Seq<char>) -> Seq<char> {
    path.subrange(last_index_of(path, '/') + 1, path.len() as int)
}

/// The extension of a path: what follows the last `.` of its file name, where
/// that dot is not the name's first character and the name is not `..`.
pub open spec fn extension_of(path: Seq<char>) -> Option<Seq<char>> {
    let name = file_name_of(path);
    let d = last_index_of(name, '.');
    if d > 0 && name != ".."@ {
        Some(name.subrange(d + 1, name.len() as int))
    } else {
        None
    }
}

/// `path` lies at or under `prefix`: `prefix` starts it and ends at a component
/// boundary.
pub open spec fn under_prefix(path: Seq<char>, prefix: Seq<char>) -> bool {
    &&& prefix.len() <= path.len()
    &&& path.subrange(0, prefix.len() as int) == prefix
    &&& (path.len() == prefix.len() || (prefix.len() > 0 && prefix.last() == '/') || path[prefix.len() as int] == '/')
}

/// The exclusion policy: a path under an excluded prefix, or whose extension
/// is an excluded one.
pub open spec fn is_excluded(path: Seq<char>, prefixes: Seq<String>, extensions: Seq<String>) -> bool {
    (exists|i: int| 0 <= i < prefixes.len() && under_prefix(path, #[trigger] prefixes[i]@)) || match extension_of(path) {
        Some(e) => exists|i: int| 0 <= i < extensions.len() && #[trigger] extensions[i]@ == e,
        None => false,
    }
}

/// The last index of `c` in `s`, if any.
pub fn find_last(s: &str, c: char) -> (r: Option<usize>)
    ensures
        match r {
            Some(i) => i as int == last_index_of(s@, c),
            None => last_index_of(s@, c) == -1,
        },
{
    let n: usize = s.unicode_len();
    let mut i: usize = n;
    assert(s@.subrange(0, n as int) =~= s@);
    while i > 0
        invariant
            n == s@.len(),
            i <= n,
            last_index_of(s@, c) == last_index_of(s@.subrange(0, i as int), c),
        decreases i,
    {
        let ghost sub = s@.subrange(0, i as int);
        assert(sub.drop_last() =~= s@.subrange(0, i - 1));
        if s.get_char(i - 1) == c {
            return Some(i - 1);
        }
        i = i - 1;
    }
    None
}

/// Whether `path` lies at or under `prefix`.
pub fn path_under(path: &str, prefix: &str) -> (r: bool)
    ensures
        r == under_prefix(path@, prefix@),
{
    let n: usize = path.unicode_len();
    let m: usize = prefix.unicode_len();
    if m > n {
        return false;
    }
    let mut i: usize = 0;
    while i < m
        invariant
            n == path@.len(),
            m == prefix@.len(),
            m <= n,
            i <= m,
            forall|t: int| 0 <= t < i ==> path@[t] == prefix@[t],
        decreases m - i,
    {
        if path.get_char(i) != prefix.get_char(i) {
            assert(path@.subrange(0, m as int)[i as int] != prefix@[i as int]);
            return false;
        }
        i = i + 1;
    }
    assert(path@.subrange(0, m as int) =~= prefix@);
    if n == m {
        true
    } else if m > 0 && prefix.get_char(m - 1) == '/' {
        true
    } else {
        path.get_char(m) == '/'
    }
}

/// The extension of `path`, if it has one.
pub fn extension(path: &str) -> (r: Option<&str>)
    ensures
        match r {
            Some(e) => extension_of(path@) == Some(e@),
            None => extension_of(path@) is None,
        },
{
    let n: usize = path.unicode_len();
    proof {
        lemma_last_index_bounds(path@, '/');
    }
    let start: usize = match find_last(path, '/') {
        Some(i) => i + 1,
        None => 0,
    };
    let name = path.substring_char(start, n);
    assert(name@ == file_name_of(path@));
    proof {
        lemma_last_index_bounds(name@, '.');
    }
    match find_last(name, '.') {
        Some(d) => {
            if d == 0 {
                return None;
            }
            let len: usize = name.unicode_len();
            if len == 2 && name.get_char(0) == '.' && name.get_char(1) == '.' {
                assert(name@ =~= ".."@) by {
                    reveal_strlit("..");
                }
                return None;
            }
            proof {
                reveal_strlit("..");
                if name@ == ".."@ {
                    assert(name@[0] == '.' && name@[1] == '.');
                }
            }
            Some(name.substring_char(d + 1, len))
        },
        None => None,
    }
}

/// Whether the exclusion policy removes `path` from a scan.
pub fn should_exclude(path: &str, prefixes: &Vec<String>, extensions: &Vec<String>) -> (r: bool)
    ensures
        r == is_excluded(path@, prefixes@, extensions@),
{
    let mut i: usize = 0;
    while i < prefixes.len()
        invariant
            i <= prefixes@.len(),
            forall|t: int| 0 <= t < i ==> !under_prefix(path@, #[trigger] prefixes@[t]@),
        decreases prefixes@.len() - i,
    {
        if path_under(path, prefixes[i].as_str()) {
            return true;
        }
        i = i + 1;
    }
    match extension(path) {
        Some(e) => contains_text(extensions, e),
        None => false,
    }
}

} // verus!
