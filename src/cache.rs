use vstd::prelude::*;
use lru::LruCache;

verus! {

/// An `lru::LruCache` from text to text, opaque to proofs; what it holds is
/// given by `lru_entries` and `lru_capacity`.
#[verifier::external_body]
pub struct LruTexts {
    cache: LruCache<String, String>,
}

/// The entries of an LRU cache of texts, most recently used first.
pub uninterp spec fn lru_entries(c: LruTexts) -> Seq<(Seq<char>, Seq<char>)>;

/// The capacity that an LRU cache of texts was made with.
pub uninterp spec fn lru_capacity(c: LruTexts) -> nat;

/// The position of key `k` among `e`, if present.
pub open spec fn key_pos(e: Seq<(Seq<char>, Seq<char>)>, k: Seq<char>) -> Option<int> {
    if exists|i: int| 0 <= i < e.len() && #[trigger] e[i].0 == k {
        Some(choose|i: int| 0 <= i < e.len() && #[trigger] e[i].0 == k)
    } else {
        None
    }
}

/// Keys are distinct and the entries fit the capacity.
pub open spec fn entries_ok(e: Seq<(Seq<char>, Seq<char>)>, cap: nat) -> bool {
    &&& e.len() <= cap
    &&& 0 < cap
    &&& forall|i: int, j: int| 0 <= i < e.len() && 0 <= j < e.len() && i != j ==> e[i].0 != e[j].0
}

/// Entries after a lookup of `k`: a found entry moves to the front.
pub open spec fn after_get(e: Seq<(Seq<char>, Seq<char>)>, k: Seq<char>) -> Seq<(Seq<char>, Seq<char>)> {
    match key_pos(e, k) {
        Some(i) => seq![e[i]] + e.remove(i),
        None => e,
    }
}

/// Entries after storing `v` under `k`: an entry with that key is replaced and
/// moved to the front; otherwise the new entry goes in front, after the least
/// recently used one is dropped if the cache is full.
pub open spec fn after_put(
    e: Seq<(Seq<char>, Seq<char>)>,
    cap: nat,
    k: Seq<char>,
    v: Seq<char>,
) -> Seq<(Seq<char>, Seq<char>)> {
    match key_pos(e, k) {
        Some(i) => seq![(k, v)] + e.remove(i),
        None => if e.len() == cap {
            seq![(k, v)] + e.drop_last()
        } else {
            seq![(k, v)] + e
        },
    }
}

/// Relies on lru::LruCache::new: an empty cache holding at most `cap` entries.
#[verifier::external_body]
fn lru_new(cap: usize) -> (r: LruTexts)
    requires
        cap > 0,
    ensures
        lru_entries(r) == Seq::<(Seq<char>, Seq<char>)>::empty(),
        lru_capacity(r) == cap,
{
    LruTexts { cache: LruCache::new(std::num::NonZeroUsize::new(cap).unwrap()) }
}

/// Relies on lru::LruCache::get: the value under `k`, whose entry becomes the
/// most recently used.
#[verifier::external_body]
fn lru_get(c: &mut LruTexts, k: &String) -> (r: Option<String>)
    requires
        entries_ok(lru_entries(*old(c)), lru_capacity(*old(c))),
    ensures
        lru_capacity(*final(c)) == lru_capacity(*old(c)),
        lru_entries(*final(c)) == after_get(lru_entries(*old(c)), k@),
        entries_ok(lru_entries(*final(c)), lru_capacity(*final(c))),
        match key_pos(lru_entries(*old(c)), k@) {
            Some(i) => r.is_some() && r.unwrap()@ == lru_entries(*old(c))[i].1,
            None => r.is_none(),
        },
{
    c.cache.get(k).cloned()
}

/// Relies on lru::LruCache::put: stores `v` under `k` as the most recently used
/// entry, evicting the least recently used one when a new key meets a full cache.
#[verifier::external_body]
fn lru_put(c: &mut LruTexts, k: String, v: String)
    requires
        entries_ok(lru_entries(*old(c)), lru_capacity(*old(c))),
    ensures
        lru_capacity(*final(c)) == lru_capacity(*old(c)),
        lru_entries(*final(c)) == after_put(lru_entries(*old(c)), lru_capacity(*old(c)), k@, v@),
        entries_ok(lru_entries(*final(c)), lru_capacity(*final(c))),
{
    c.cache.put(k, v);
}

/// A bounded least-recently-used memo from a file path to the id of the last
/// signature matched there.
pub struct ScanCache {
    inner: LruTexts,
}

impl ScanCache {
    /// Entries, most recently used first.
    pub closed spec fn entries(&self) -> Seq<(Seq<char>, Seq<char>)> {
        lru_entries(self.inner)
    }

    pub closed spec fn capacity(&self) -> nat {
        lru_capacity(self.inner)
    }

    pub open spec fn wf(&self) -> bool {
        entries_ok(self.entries(), self.capacity())
    }

    /// The signature id recorded for `path`, if any.
    pub open spec fn lookup(&self, path: Seq<char>) -> Option<Seq<char>> {
        match key_pos(self.entries(), path) {
            Some(i) => Some(self.entries()[i].1),
            None => None,
        }
    }

    /// An empty cache of the given capacity.
    pub fn new(capacity: usize) -> (r: Self)
        requires
            capacity > 0,
        ensures
            r.wf(),
            r.entries() == Seq::<(Seq<char>, Seq<char>)>::empty(),
            r.capacity() == capacity,
    {
        ScanCache { inner: lru_new(capacity) }
    }

    /// The id recorded for `path`; a found entry becomes the most recently used.
    pub fn get(&mut self, path: &String) -> (r: Option<String>)
        requires
            old(self).wf(),
        ensures
            final(self).wf(),
            final(self).capacity() == old(self).capacity(),
            final(self).entries() == after_get(old(self).entries(), path@),
            match old(self).lookup(path@) {
                Some(id) => r.is_some() && r.unwrap()@ == id,
                None => r.is_none(),
            },
    {
        lru_get(&mut self.inner, path)
    }

    /// Records `signature_id` for `path` as the most recently used entry.
    pub fn put(&mut self, path: String, signature_id: String)
        requires
            old(self).wf(),
        ensures
            final(self).wf(),
            final(self).capacity() == old(self).capacity(),
            final(self).entries() == after_put(
                old(self).entries(),
                old(self).capacity(),
                path@,
                signature_id@,
            ),
            final(self).lookup(path@) == Some(signature_id@),
    {
        let ghost k = path@;
        let ghost v = signature_id@;
        lru_put(&mut self.inner, path, signature_id);
        proof {
            let e = self.entries();
            assert(e[0].0 == k);
            let i = choose|i: int| 0 <= i < e.len() && #[trigger] e[i].0 == k;
            assert(i == 0);
        }
    }
}

} // verus!
