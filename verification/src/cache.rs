//! Bounded cache of already-decrypted asset bytes, keyed by asset id.
//!
//! The capacity bound is the hard contract: inserting never grows the
//! cache beyond it. When the cache is full one arbitrary existing entry
//! is evicted before the new one goes in — a deliberate simplification,
//! not an LRU. An entry is invalidated whenever its asset is deleted so
//! stale plaintext is never served.

use vstd::prelude::*;
use vstd::slice::slice_to_vec;

verus! {

/// The fixed maximum number of cached assets.
pub const CACHE_CAPACITY: usize = 50;

/// One cached asset: its id and its full decrypted bytes.
#[derive(Debug, Clone)]
pub struct CacheEntry {
    /// The asset id.
    pub id: String,
    /// The decrypted bytes.
    pub data: Vec<u8>,
}

/// Bounded mapping from asset id to decrypted bytes.
#[derive(Debug, Clone)]
pub struct AssetCache {
    /// The entries, with pairwise distinct ids.
    pub entries: Vec<CacheEntry>,
}

impl AssetCache {
    /// Well-formed: ids are pairwise distinct and the capacity bound holds.
    pub open spec fn wf(self) -> bool {
        &&& forall|i: int, j: int|
            0 <= i < j < self.entries@.len() ==> self.entries@[i].id@ != self.entries@[j].id@
        &&& self.entries@.len() <= CACHE_CAPACITY
    }

    /// Whether an asset id is cached.
    pub open spec fn has_id(self, id: Seq<char>) -> bool {
        exists|i: int| 0 <= i < self.entries@.len() && self.entries@[i].id@ == id
    }

    /// The cached bytes of an asset id (meaningful only when cached).
    pub open spec fn entry_at(self, id: Seq<char>) -> Seq<u8> {
        self.entries@[choose|i: int|
            0 <= i < self.entries@.len() && self.entries@[i].id@ == id].data@
    }

    /// The number of cached assets.
    pub open spec fn len_spec(self) -> nat {
        self.entries@.len()
    }

    /// An empty cache.
    pub fn new() -> (r: AssetCache)
        ensures
            r.wf(),
            r.len_spec() == 0,
            forall|x: Seq<char>| !r.has_id(x),
    {
        AssetCache { entries: Vec::new() }
    }

    /// The number of cached assets.
    pub fn len(&self) -> (r: usize)
        ensures
            r == self.len_spec(),
    {
        self.entries.len()
    }

    /// The index of the entry holding `id`, if any.
    fn find_index(&self, id: &String) -> (r: Option<usize>)
        ensures
            match r {
                Some(i) => i < self.entries@.len() && self.entries@[i as int].id@ == id@,
                None => !self.has_id(id@),
            },
    {
        let n = self.entries.len();
        let mut i: usize = 0;
        while i < n
            invariant
                n == self.entries@.len(),
                0 <= i <= n,
                forall|j: int| 0 <= j < i ==> self.entries@[j].id@ != id@,
            decreases n - i,
        {
            if self.entries[i].id == *id {
                return Some(i);
            }
            i = i + 1;
        }
        None
    }

    /// The decrypted bytes cached for `id`, cloned, if any.
    pub fn lookup(&self, id: &String) -> (r: Option<Vec<u8>>)
        requires
            self.wf(),
        ensures
            match r {
                Some(d) => self.has_id(id@) && d@ == self.entry_at(id@),
                None => !self.has_id(id@),
            },
    {
        match self.find_index(id) {
            Some(i) => {
                proof {
                    let k = choose|k: int|
                        0 <= k < self.entries@.len() && self.entries@[k].id@ == id@;
                    assert(k == i);
                }
                Some(slice_to_vec(self.entries[i].data.as_slice()))
            },
            None => None,
        }
    }

    /// Cache `data` under `id`, evicting one arbitrary existing entry
    /// first if the cache is at capacity. Afterwards `id` is cached with
    /// exactly `data`, every other cached id was cached before with the
    /// same bytes, and the capacity bound holds. If there was room and
    /// `id` was new, nothing is evicted; at capacity exactly one entry
    /// leaves, so the count never changes.
    pub fn insert(&mut self, id: String, data: Vec<u8>)
        requires
            old(self).wf(),
        ensures
            final(self).wf(),
            final(self).has_id(id@),
            final(self).entry_at(id@) == data@,
            forall|x: Seq<char>|
                x != id@ && final(self).has_id(x) ==> old(self).has_id(x)
                    && final(self).entry_at(x) == old(self).entry_at(x),
            old(self).len_spec() < CACHE_CAPACITY && !old(self).has_id(id@) ==> forall|
                x: Seq<char>,
            |
                old(self).has_id(x) ==> final(self).has_id(x),
            final(self).len_spec() == (if old(self).has_id(id@) {
                old(self).len_spec()
            } else if old(self).len_spec() < CACHE_CAPACITY {
                old(self).len_spec() + 1
            } else {
                old(self).len_spec()
            }),
    {
        let ghost pre = *self;
        match self.find_index(&id) {
            Some(i) => {
                self.entries.remove(i);
                proof {
                    lemma_remove_keeps(pre, *self, i as int);
                }
            },
            None => {
                if self.entries.len() >= CACHE_CAPACITY {
                    self.entries.remove(0);
                    proof {
                        lemma_remove_keeps(pre, *self, 0);
                    }
                }
            },
        }
        let ghost mid = *self;
        let ghost id_view = id@;
        let ghost data_view = data@;
        let entry = CacheEntry { id, data };
        self.entries.push(entry);
        proof {
            lemma_push_entry(mid, *self, id_view, data_view);
        }
    }

    /// Drop the entry cached for `id`, if any. Afterwards `id` is not
    /// cached and every other id is cached exactly as before.
    pub fn invalidate(&mut self, id: &String)
        requires
            old(self).wf(),
        ensures
            final(self).wf(),
            !final(self).has_id(id@),
            forall|x: Seq<char>|
                x != id@ ==> (final(self).has_id(x) <==> old(self).has_id(x))
                    && (final(self).has_id(x) ==> final(self).entry_at(x) == old(self).entry_at(
                    x,
                )),
            final(self).len_spec() <= old(self).len_spec(),
    {
        let ghost pre = *self;
        match self.find_index(id) {
            Some(i) => {
                self.entries.remove(i);
                proof {
                    lemma_remove_keeps(pre, *self, i as int);
                    assert forall|x: Seq<char>| x != id@ && pre.has_id(x) implies self.has_id(
                        x,
                    ) by {
                        let k = choose|k: int|
                            0 <= k < pre.entries@.len() && pre.entries@[k].id@ == x;
                        if k < i {
                            assert(self.entries@[k].id@ == x);
                        } else {
                            assert(k != i);
                            assert(self.entries@[k - 1].id@ == x);
                        }
                    }
                }
            },
            None => {},
        }
    }
}

/// After removing the entry at index `i`, every remaining id was present
/// before with the same bytes, the removed id is gone, and
/// well-formedness is preserved.
proof fn lemma_remove_keeps(pre: AssetCache, post: AssetCache, i: int)
    requires
        pre.wf(),
        0 <= i < pre.entries@.len(),
        post.entries@ == pre.entries@.remove(i),
    ensures
        post.wf(),
        post.len_spec() == pre.len_spec() - 1,
        !post.has_id(pre.entries@[i].id@),
        forall|x: Seq<char>|
            post.has_id(x) ==> pre.has_id(x) && post.entry_at(x) == pre.entry_at(x),
{
    assert forall|x: Seq<char>| post.has_id(x) implies pre.has_id(x) && post.entry_at(x)
        == pre.entry_at(x) by {
        let k = choose|k: int| 0 <= k < post.entries@.len() && post.entries@[k].id@ == x;
        let src: int = if k < i {
            k
        } else {
            k + 1
        };
        assert(pre.entries@[src].id@ == x);
        let kp = choose|kp: int| 0 <= kp < pre.entries@.len() && pre.entries@[kp].id@ == x;
        assert(kp == src);
        let kq = choose|kq: int| 0 <= kq < post.entries@.len() && post.entries@[kq].id@ == x;
        assert(kq == k);
    }
    if post.has_id(pre.entries@[i].id@) {
        let k = choose|k: int|
            0 <= k < post.entries@.len() && post.entries@[k].id@ == pre.entries@[i].id@;
        let src: int = if k < i {
            k
        } else {
            k + 1
        };
        assert(pre.entries@[src].id@ == pre.entries@[i].id@);
        assert(src != i);
        assert(false);
    }
}

/// After pushing a fresh id onto a cache with room, that id maps to the
/// pushed bytes, every other id is as before, and well-formedness is
/// preserved.
proof fn lemma_push_entry(mid: AssetCache, post: AssetCache, id: Seq<char>, data: Seq<u8>)
    requires
        mid.wf(),
        !mid.has_id(id),
        mid.entries@.len() < CACHE_CAPACITY,
        post.entries@.len() == mid.entries@.len() + 1,
        post.entries@ == mid.entries@.push(post.entries@.last()),
        post.entries@.last().id@ == id,
        post.entries@.last().data@ == data,
    ensures
        post.wf(),
        post.has_id(id),
        post.entry_at(id) == data,
        forall|x: Seq<char>|
            x != id && post.has_id(x) ==> mid.has_id(x) && post.entry_at(x) == mid.entry_at(x),
        forall|x: Seq<char>| mid.has_id(x) ==> post.has_id(x),
{
    let n = mid.entries@.len() as int;
    assert(post.entries@[n].id@ == id);
    assert forall|i: int, j: int|
        0 <= i < j < post.entries@.len() implies post.entries@[i].id@
        != post.entries@[j].id@ by {
        if j < n {
            assert(post.entries@[i] == mid.entries@[i]);
            assert(post.entries@[j] == mid.entries@[j]);
        } else {
            assert(post.entries@[i] == mid.entries@[i]);
            assert(mid.entries@[i].id@ != id);
        }
    }
    assert(post.has_id(id));
    let k = choose|k: int| 0 <= k < post.entries@.len() && post.entries@[k].id@ == id;
    assert(k == n);
    assert forall|x: Seq<char>| x != id && post.has_id(x) implies mid.has_id(x) && post.entry_at(
        x,
    ) == mid.entry_at(x) by {
        let kx = choose|kx: int| 0 <= kx < post.entries@.len() && post.entries@[kx].id@ == x;
        assert(kx != n);
        assert(post.entries@[kx] == mid.entries@[kx]);
        assert(mid.has_id(x));
        let km = choose|km: int| 0 <= km < mid.entries@.len() && mid.entries@[km].id@ == x;
        assert(km == kx);
    }
    assert forall|x: Seq<char>| mid.has_id(x) implies post.has_id(x) by {
        let km = choose|km: int| 0 <= km < mid.entries@.len() && mid.entries@[km].id@ == x;
        assert(post.entries@[km].id@ == x);
    }
}

} // verus!
