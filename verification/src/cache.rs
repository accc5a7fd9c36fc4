//! The deduplication cache: records identities of already-processed
//! sub-events and answers hit or miss.
//!
//! The abstract contents of a cache are the set of identities it answers
//! `Hit` for. A lookup never changes the contents; a successful store may
//! add the stored identity and nothing else. The null cache absorbs every
//! store and answers `Miss` forever, which these contracts allow.

use vstd::prelude::*;

verus! {

/// A lookup's answer.
#[derive(Clone, Copy, Debug, PartialEq, Eq, Structural)]
pub enum CacheResponse {
    Hit,
    Miss,
}

/// A cache operation that could not reach its backing store. Cache errors
/// are non-fatal: callers treat them as a miss and continue.
#[derive(Clone, Copy, Debug, PartialEq, Eq, Structural)]
pub enum CacheError {
    Unavailable,
}

/// A deduplication cache.
pub trait Cache: Sized {
    /// The identities this cache answers `Hit` for.
    spec fn cached(&self) -> Set<Seq<char>>;

    /// Look an identity up; the contents are unchanged.
    fn get(&mut self, identity: &String) -> (r: CacheResponse)
        ensures
            final(self).cached() == old(self).cached(),
            (r == CacheResponse::Hit) <==> old(self).cached().contains(identity@),
    ;

    /// Record an identity. The contents grow by at most that identity.
    fn store(&mut self, identity: String) -> (r: Result<(), CacheError>)
        ensures
            old(self).cached().subset_of(final(self).cached()),
            final(self).cached().subset_of(old(self).cached().insert(identity@)),
    ;
}

/// An in-memory cache: the test double, holding every stored identity.
#[derive(Clone, Debug)]
pub struct MemCache {
    pub entries: Vec<String>,
}

/// The set of character sequences a list of strings holds.
pub open spec fn string_set(s: Seq<String>) -> Set<Seq<char>> {
    Set::new(|k: Seq<char>| exists|i: int| 0 <= i < s.len() && (#[trigger] s[i])@ == k)
}

impl MemCache {
    /// An empty cache.
    pub fn new() -> (r: MemCache)
        ensures
            r.entries@.len() == 0,
            r.cached() == Set::<Seq<char>>::empty(),
    {
        let r = MemCache { entries: Vec::new() };
        proof {
            assert(r.cached() =~= Set::<Seq<char>>::empty());
        }
        r
    }
}

impl Cache for MemCache {
    open spec fn cached(&self) -> Set<Seq<char>> {
        string_set(self.entries@)
    }

    fn get(&mut self, identity: &String) -> (r: CacheResponse)
        ensures
            final(self).cached() == old(self).cached(),
            (r == CacheResponse::Hit) <==> old(self).cached().contains(identity@),
    {
        let mut i: usize = 0;
        while i < self.entries.len()
            invariant
                *self == *old(self),
                0 <= i <= self.entries.len(),
                forall|j: int| 0 <= j < i ==> (#[trigger] self.entries@[j])@ != identity@,
            decreases self.entries.len() - i,
        {
            if self.entries[i] == *identity {
                proof {
                    assert(self.cached().contains(identity@));
                }
                return CacheResponse::Hit;
            }
            i += 1;
        }
        proof {
            if self.cached().contains(identity@) {
                let j = choose|j: int|
                    0 <= j < self.entries@.len() && (#[trigger] self.entries@[j])@ == identity@;
                assert(false);
            }
        }
        CacheResponse::Miss
    }

    fn store(&mut self, identity: String) -> (r: Result<(), CacheError>)
        ensures
            old(self).cached().subset_of(final(self).cached()),
            final(self).cached().subset_of(old(self).cached().insert(identity@)),
            final(self).cached() == old(self).cached().insert(identity@),
            r is Ok,
    {
        let ghost before = self.entries@;
        self.entries.push(identity);
        proof {
            assert(string_set(self.entries@) =~= string_set(before).insert(identity@)) by {
                assert forall|k: Seq<char>| string_set(self.entries@).contains(
                    k,
                ) implies string_set(before).insert(identity@).contains(k) by {
                    let i = choose|i: int|
                        0 <= i < self.entries@.len() && (#[trigger] self.entries@[i])@ == k;
                    if i < before.len() {
                        assert(before[i]@ == k);
                    }
                }
                assert forall|k: Seq<char>| string_set(before).insert(identity@).contains(
                    k,
                ) implies string_set(self.entries@).contains(k) by {
                    if k == identity@ {
                        assert(self.entries@[before.len() as int]@ == k);
                    } else {
                        let i = choose|i: int|
                            0 <= i < before.len() && (#[trigger] before[i])@ == k;
                        assert(self.entries@[i]@ == k);
                    }
                }
            }
        }
        Ok(())
    }
}

/// The null cache: a no-op that answers `Miss` forever.
#[derive(Clone, Copy, Debug)]
pub struct NopCache;

impl Cache for NopCache {
    open spec fn cached(&self) -> Set<Seq<char>> {
        Set::empty()
    }

    fn get(&mut self, identity: &String) -> (r: CacheResponse)
        ensures
            final(self).cached() == old(self).cached(),
            (r == CacheResponse::Hit) <==> old(self).cached().contains(identity@),
    {
        CacheResponse::Miss
    }

    fn store(&mut self, identity: String) -> (r: Result<(), CacheError>)
        ensures
            old(self).cached().subset_of(final(self).cached()),
            final(self).cached().subset_of(old(self).cached().insert(identity@)),
    {
        Ok(())
    }
}

} // verus!
