use vstd::prelude::*;

verus! {

/// The wildcard byte that matches any single byte of data.
pub const ANY_BYTE: u8 = 0x3f;

/// The wildcard byte that makes the rest of the pattern match at once.
pub const ANY_REST: u8 = 0x2a;

/// The matching algorithm that a signature asks for.
#[derive(Debug, Clone, Copy, PartialEq, Eq, Structural)]
pub enum PatternType {
    /// The pattern bytes occur contiguously somewhere in the data.
    ByteSequence,
    /// The pattern uses `?` (one arbitrary byte) and `*` (match at once); a
    /// pattern longer than the data never matches.
    ExtendedByteSequence,
    /// Reserved: never matches.
    LogicalExpression,
    /// Reserved: never matches.
    Regex,
    /// Reserved: never matches.
    PEHeader,
    /// Whole-content fingerprint, decided by the signature store.
    Hash,
}

/// True iff `pattern` occurs in `data` starting at offset `i`.
pub open spec fn occurs_at(data: Seq<u8>, pattern: Seq<u8>, i: int) -> bool {
    0 <= i && i + pattern.len() <= data.len() && data.subrange(i, i + pattern.len()) == pattern
}

/// True iff `pattern` occurs as a contiguous run somewhere in `data`.
pub open spec fn contains_pattern(data: Seq<u8>, pattern: Seq<u8>) -> bool {
    exists|i: int| occurs_at(data, pattern, i)
}

/// Wildcard pattern `p` matched against `d` from its first byte: `?` takes one
/// byte, `*` succeeds at once, any other byte must equal the data byte; the data
/// running out before the pattern is a failure.
pub open spec fn wildcard_at(d: Seq<u8>, p: Seq<u8>) -> bool
    decreases p.len(),
{
    if p.len() == 0 {
        true
    } else if d.len() == 0 {
        false
    } else if p[0] == ANY_REST {
        true
    } else if p[0] == ANY_BYTE {
        wildcard_at(d.drop_first(), p.drop_first())
    } else {
        d[0] == p[0] && wildcard_at(d.drop_first(), p.drop_first())
    }
}

/// A wildcard pattern matches when it is no longer than the data and matches
/// from some offset of it.
pub open spec fn wildcard_matches(data: Seq<u8>, pattern: Seq<u8>) -> bool {
    pattern.len() <= data.len() && exists|s: int|
        0 <= s <= data.len() && #[trigger] wildcard_at(data.subrange(s, data.len() as int), pattern)
}

/// What the pattern-level match decides for each pattern type; the whole-content
/// fingerprint kind is decided elsewhere and is no pattern match.
pub open spec fn pattern_matches(data: Seq<u8>, pattern: Seq<u8>, kind: PatternType) -> bool {
    match kind {
        PatternType::ByteSequence => contains_pattern(data, pattern),
        PatternType::ExtendedByteSequence => wildcard_matches(data, pattern),
        _ => false,
    }
}

/// Whether `pattern` occurs in `data` at offset `start`.
fn occurs_at_exec(data: &[u8], pattern: &[u8], start: usize) -> (r: bool)
    requires
        start + pattern@.len() <= data@.len(),
    ensures
        r == occurs_at(data@, pattern@, start as int),
{
    let n: usize = data.len();
    let mut k: usize = 0;
    while k < pattern.len()
        invariant
            n == data@.len(),
            k <= pattern@.len(),
            start + pattern@.len() <= data@.len(),
            forall|t: int| 0 <= t < k ==> data@[start + t] == pattern@[t],
        decreases pattern@.len() - k,
    {
        if data[start + k] != pattern[k] {
            assert(data@.subrange(start as int, start + pattern@.len())[k as int] != pattern@[k as int]);
            return false;
        }
        k = k + 1;
    }
    assert(data@.subrange(start as int, start + pattern@.len()) =~= pattern@);
    true
}

/// Exact-byte matching: true iff `pattern` occurs contiguously in `data`; an
/// empty pattern occurs everywhere.
pub fn match_exact(data: &[u8], pattern: &[u8]) -> (r: bool)
    ensures
        r == contains_pattern(data@, pattern@),
{
    if pattern.len() == 0 {
        assert(data@.subrange(0, 0) =~= pattern@);
        assert(occurs_at(data@, pattern@, 0));
        return true;
    }
    if pattern.len() > data.len() {
        return false;
    }
    let n: usize = data.len();
    let last: usize = n - pattern.len();
    let mut i: usize = 0;
    while i <= last
        invariant
            n == data@.len(),
            last == data@.len() - pattern@.len(),
            1 <= pattern@.len() <= data@.len(),
            forall|t: int| 0 <= t < i ==> !occurs_at(data@, pattern@, t),
        decreases last + 1 - i,
    {
        if occurs_at_exec(data, pattern, i) {
            return true;
        }
        i = i + 1;
    }
    false
}

/// Anchored wildcard match of `pattern` against `data` from offset `start`.
fn wildcard_from(data: &[u8], pattern: &[u8], start: usize) -> (r: bool)
    requires
        start <= data@.len(),
    ensures
        r == wildcard_at(data@.subrange(start as int, data@.len() as int), pattern@),
{
    let mut i: usize = start;
    let mut j: usize = 0;
    assert(pattern@.subrange(0, pattern@.len() as int) =~= pattern@);
    while i < data.len() && j < pattern.len()
        invariant
            start <= i <= data@.len(),
            j <= pattern@.len(),
            wildcard_at(data@.subrange(start as int, data@.len() as int), pattern@)
                == wildcard_at(data@.subrange(i as int, data@.len() as int), pattern@.subrange(j as int, pattern@.len() as int)),
        decreases pattern@.len() - j,
    {
        let ghost d = data@.subrange(i as int, data@.len() as int);
        let ghost p = pattern@.subrange(j as int, pattern@.len() as int);
        assert(d.drop_first() =~= data@.subrange(i + 1, data@.len() as int));
        assert(p.drop_first() =~= pattern@.subrange(j + 1, pattern@.len() as int));
        if pattern[j] == ANY_REST {
            return true;
        } else if pattern[j] == ANY_BYTE {
            i = i + 1;
            j = j + 1;
        } else if data[i] == pattern[j] {
            i = i + 1;
            j = j + 1;
        } else {
            return false;
        }
    }
    proof {
        let d = data@.subrange(i as int, data@.len() as int);
        let p = pattern@.subrange(j as int, pattern@.len() as int);
        assert(p.len() == 0 || d.len() == 0);
    }
    j >= pattern.len()
}

/// Wildcard matching: true iff the pattern is no longer than the data and
/// matches, in the sense of `wildcard_at`, from some offset of the data.
pub fn match_wildcard(data: &[u8], pattern: &[u8]) -> (r: bool)
    ensures
        r == wildcard_matches(data@, pattern@),
{
    if pattern.len() > data.len() {
        return false;
    }
    let mut s: usize = 0;
    while s < data.len()
        invariant
            s <= data@.len(),
            pattern@.len() <= data@.len(),
            forall|t: int| 0 <= t < s ==> !#[trigger] wildcard_at(data@.subrange(t, data@.len() as int), pattern@),
        decreases data@.len() - s,
    {
        if wildcard_from(data, pattern, s) {
            return true;
        }
        s = s + 1;
    }
    wildcard_from(data, pattern, s)
}

/// Decides a pattern-level match for the given pattern type; reserved kinds and
/// the fingerprint kind never match here.
pub fn match_pattern(data: &[u8], pattern: &[u8], kind: PatternType) -> (r: bool)
    ensures
        r == pattern_matches(data@, pattern@, kind),
{
    match kind {
        PatternType::ByteSequence => match_exact(data, pattern),
        PatternType::ExtendedByteSequence => match_wildcard(data, pattern),
        _ => false,
    }
}

} // verus!
