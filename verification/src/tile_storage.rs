//! The tile store: the decoded in-memory cache, bounded by an LRU list,
//! guarded by a negative cache, and filled through a [`TileFetcher`].

use vstd::prelude::*;

use crate::errors::Error;
use crate::fetcher::DownloadOutcome;
use crate::fetcher::TileFetcher;
use crate::limiter::MemoryLimiter;
use crate::negative_cache::NegativeCache;
use crate::tile_identity::TileIdentity;
use crate::tile_signature::TileSignature;

verus! {

/// Whether some entry of `t` is keyed by `sig`.
pub open spec fn seq_has_sig(t: Seq<(TileSignature, TileIdentity)>, sig: TileSignature) -> bool {
    exists|i: int| 0 <= i < t.len() && t[i].0 == sig
}

/// The position of the entry keyed by `sig`.
pub open spec fn seq_index_of(t: Seq<(TileSignature, TileIdentity)>, sig: TileSignature) -> int {
    choose|i: int| 0 <= i < t.len() && t[i].0 == sig
}

/// The entry keyed by `sig`.
pub open spec fn seq_entry_for(
    t: Seq<(TileSignature, TileIdentity)>,
    sig: TileSignature,
) -> TileIdentity {
    t[seq_index_of(t, sig)].1
}

/// Whether the exact pair `p` stands somewhere in `t`.
pub open spec fn seq_has_pair(
    t: Seq<(TileSignature, TileIdentity)>,
    p: (TileSignature, TileIdentity),
) -> bool {
    exists|j: int| 0 <= j < t.len() && t[j] == p
}

/// No two entries share a key.
pub open spec fn seq_table_wf(t: Seq<(TileSignature, TileIdentity)>) -> bool {
    forall|i: int, j: int|
        0 <= i < j < t.len() ==> (#[trigger] t[i]).0 != (#[trigger] t[j]).0
}

/// In a duplicate-free table, the entry looked up by the key at position
/// `k` is the entry at position `k`.
proof fn lemma_entry_at_unique(t: Seq<(TileSignature, TileIdentity)>, k: int)
    requires
        seq_table_wf(t),
        0 <= k < t.len(),
    ensures
        seq_entry_for(t, t[k].0) == t[k].1,
{
    assert(seq_has_sig(t, t[k].0));
    let i = seq_index_of(t, t[k].0);
    assert(0 <= i < t.len() && t[i].0 == t[k].0);
    assert(i == k);
}

/// The first position holding `sig`, if any.
fn find_index(table: &Vec<(TileSignature, TileIdentity)>, sig: &TileSignature) -> (r: Option<
    usize,
>)
    ensures
        match r {
            Some(i) => i < table@.len() && table@[i as int].0 == *sig,
            None => !seq_has_sig(table@, *sig),
        },
{
    let n = table.len();
    let mut i: usize = 0;
    while i < n
        invariant
            i <= n,
            n == table@.len(),
            forall|j: int| 0 <= j < i ==> table@[j].0 != *sig,
        decreases n - i,
    {
        if table[i].0 == *sig {
            return Some(i);
        }
        i += 1;
    }
    None
}

/// Removing position `i` from a duplicate-free table removes exactly the key
/// that sat there; every surviving pair stood in the table before, under the
/// same key with the same entry.
proof fn lemma_table_remove(t: Seq<(TileSignature, TileIdentity)>, i: int)
    requires
        seq_table_wf(t),
        0 <= i < t.len(),
    ensures
        seq_table_wf(t.remove(i)),
        forall|s: TileSignature| seq_has_sig(t.remove(i), s) <==> (seq_has_sig(t, s) && s != t[i].0),
        forall|k: int| 0 <= k < t.remove(i).len() ==> seq_has_pair(t, #[trigger] t.remove(i)[k]),
        forall|s: TileSignature| s != t[i].0 && seq_has_sig(t.remove(i), s) ==> seq_entry_for(t.remove(i), s) == seq_entry_for(t, s),
{
    t.remove_ensures(i);
    let r = t.remove(i);
    assert forall|s: TileSignature| seq_has_sig(r, s) implies (seq_has_sig(t, s) && s
        != t[i].0) by {
        let k = choose|k: int| 0 <= k < r.len() && r[k].0 == s;
        if k < i {
            assert(t[k].0 == s);
        } else {
            assert(t[k + 1].0 == s);
        }
    }
    assert forall|s: TileSignature| seq_has_sig(t, s) && s != t[i].0 implies seq_has_sig(
        r,
        s,
    ) by {
        let k = choose|k: int| 0 <= k < t.len() && t[k].0 == s;
        if k < i {
            assert(r[k].0 == s);
        } else {
            assert(r[k - 1].0 == s);
        }
    }
    assert forall|k: int| 0 <= k < r.len() implies seq_has_pair(t, #[trigger] r[k]) by {
        if k < i {
            assert(r[k] == t[k]);
        } else {
            assert(r[k] == t[k + 1]);
        }
    }
    assert forall|s: TileSignature| s != t[i].0 && seq_has_sig(r, s) implies seq_entry_for(r, s)
        == seq_entry_for(t, s) by {
        let k = choose|k: int| 0 <= k < r.len() && r[k].0 == s;
        lemma_entry_at_unique(r, k);
        if k < i {
            assert(r[k] == t[k]);
            lemma_entry_at_unique(t, k);
        } else {
            assert(r[k] == t[k + 1]);
            lemma_entry_at_unique(t, k + 1);
        }
    }
}

/// Appending a fresh key keeps the table duplicate-free, adds exactly that
/// key, and leaves every other lookup unchanged.
proof fn lemma_table_push(
    t: Seq<(TileSignature, TileIdentity)>,
    sig: TileSignature,
    e: TileIdentity,
)
    requires
        seq_table_wf(t),
        !seq_has_sig(t, sig),
    ensures
        seq_table_wf(t.push((sig, e))),
        forall|s: TileSignature| seq_has_sig(t.push((sig, e)), s) <==> (seq_has_sig(t, s) || s == sig),
        seq_entry_for(t.push((sig, e)), sig) == e,
        forall|s: TileSignature| s != sig && seq_has_sig(t, s) ==> seq_entry_for(t.push((sig, e)), s) == seq_entry_for(t, s),
{
    let n = t.push((sig, e));
    assert(n[t.len() as int] == (sig, e));
    assert forall|s: TileSignature| seq_has_sig(n, s) <==> (seq_has_sig(t, s) || s == sig) by {
        if seq_has_sig(n, s) {
            let k = choose|k: int| 0 <= k < n.len() && n[k].0 == s;
            if k < t.len() {
                assert(t[k].0 == s);
            }
        }
        if seq_has_sig(t, s) {
            let k = choose|k: int| 0 <= k < t.len() && t[k].0 == s;
            assert(n[k].0 == s);
        }
    }
    assert(seq_table_wf(n));
    lemma_entry_at_unique(n, t.len() as int);
    assert forall|s: TileSignature| s != sig && seq_has_sig(t, s) implies seq_entry_for(n, s)
        == seq_entry_for(t, s) by {
        let k = choose|k: int| 0 <= k < t.len() && t[k].0 == s;
        assert(n[k] == t[k]);
        lemma_entry_at_unique(n, k);
        lemma_entry_at_unique(t, k);
    }
}

/// Removes the entry keyed by `sig`, when there is one.
fn table_remove(table: &mut Vec<(TileSignature, TileIdentity)>, sig: &TileSignature)
    requires
        seq_table_wf(old(table)@),
    ensures
        seq_table_wf(final(table)@),
        forall|s: TileSignature| seq_has_sig(final(table)@, s) <==> (seq_has_sig(old(table)@, s) && s != *sig),
        !seq_has_sig(old(table)@, *sig) ==> final(table)@ == old(table)@,
        seq_has_sig(old(table)@, *sig) ==> final(table)@.len() == old(table)@.len() - 1,
        forall|k: int| 0 <= k < final(table)@.len() ==> seq_has_pair(old(table)@, #[trigger] final(table)@[k]),
        forall|s: TileSignature| s != *sig && seq_has_sig(final(table)@, s) ==> seq_entry_for(final(table)@, s) == seq_entry_for(old(table)@, s),
{
    let ghost t0 = table@;
    match find_index(table, sig) {
        None => {
            proof {
                assert forall|k: int| 0 <= k < table@.len() implies seq_has_pair(
                    t0,
                    #[trigger] table@[k],
                ) by {
                    assert(table@[k] == t0[k]);
                }
            }
        },
        Some(i) => {
            table.remove(i);
            proof {
                lemma_table_remove(t0, i as int);
            }
        },
    }
}

/// A decoded-tile cache over an on-disk store and a remote tile server.
///
/// The decoded map (`table`) and the recency list agree key for key, the map
/// never holds more than the configured number of tiles, and no signature is
/// both decoded and recorded as absent upstream.
pub struct TileStorage<F: TileFetcher> {
    pub table: Vec<(TileSignature, TileIdentity)>,
    pub limiter: MemoryLimiter,
    pub unavailable: NegativeCache,
    pub network: F,
    pub remote_url: String,
    pub cache_root: String,
    pub extension: String,
}

impl<F: TileFetcher> TileStorage<F> {
    /// Whether `sig` is decoded in memory.
    pub open spec fn has_sig(&self, sig: TileSignature) -> bool {
        seq_has_sig(self.table@, sig)
    }

    /// The decoded entry for `sig`.
    pub open spec fn entry_for(&self, sig: TileSignature) -> TileIdentity {
        seq_entry_for(self.table@, sig)
    }

    /// Whether `sig` is recorded as absent upstream.
    pub open spec fn negative_contains(&self, sig: TileSignature) -> bool {
        self.unavailable.spec_contains(sig)
    }

    /// Where a tile keyed by `sig` must sit on disk under this store's
    /// settings.
    pub open spec fn cache_path_of(&self, sig: TileSignature) -> Seq<char> {
        self.cache_root@ + seq!['/'] + sig.rel_path(self.extension@)
    }

    /// The store invariant: the decoded map and the recency list hold
    /// exactly the same signatures, each at most once; the map never exceeds
    /// the bound; nothing decoded is recorded as absent; every decoded entry
    /// is internally consistent and names its own cache file.
    pub open spec fn wf(&self) -> bool {
        &&& self.limiter.wf()
        &&& self.unavailable.wf()
        &&& seq_table_wf(self.table@)
        &&& self.table@.len() == self.limiter.queue@.len()
        &&& forall|s: TileSignature| #[trigger] seq_has_sig(self.table@, s) <==> self.limiter.queue@.contains(s)
        &&& forall|s: TileSignature| #[trigger] self.limiter.queue@.contains(s) ==> seq_has_sig(self.table@, s)
        &&& forall|s: TileSignature| seq_has_sig(self.table@, s) ==> !(#[trigger] self.unavailable.spec_contains(s))
        &&& forall|i: int| 0 <= i < self.table@.len() ==> (#[trigger] self.table@[i]).1.wf()
        &&& forall|i: int| 0 <= i < self.table@.len() ==> (#[trigger] self.table@[i]).1.file_path@ == self.cache_path_of(self.table@[i].0)
    }

    /// The settings that no operation may change.
    pub open spec fn same_config(pre: Self, post: Self) -> bool {
        &&& post.remote_url == pre.remote_url
        &&& post.cache_root == pre.cache_root
        &&& post.extension == pre.extension
        &&& post.limiter.max_tile_count == pre.limiter.max_tile_count
    }

    pub fn new(
        network: F,
        max_tile_count: usize,
        remote_url: String,
        cache_root: String,
        extension: String,
    ) -> (r: Self)
        requires
            max_tile_count >= 1,
        ensures
            r.wf(),
            r.table@ == Seq::<(TileSignature, TileIdentity)>::empty(),
            r.limiter.queue@ == Seq::<TileSignature>::empty(),
            r.limiter.max_tile_count == max_tile_count,
            forall|s: TileSignature| !r.negative_contains(s),
            r.network == network,
            r.remote_url == remote_url,
            r.cache_root == cache_root,
            r.extension == extension,
    {
        TileStorage {
            table: Vec::new(),
            limiter: MemoryLimiter::new(max_tile_count),
            unavailable: NegativeCache::new(),
            network,
            remote_url,
            cache_root,
            extension,
        }
    }

    /// Whether `signature` is decoded in memory.
    pub fn has(&self, signature: TileSignature) -> (r: bool)
        ensures
            r == self.has_sig(signature),
    {
        match find_index(&self.table, &signature) {
            Some(_) => true,
            None => false,
        }
    }

    /// Returns the decoded entry iff it is in memory, marking it as the most
    /// recently used. Never touches the disk or the network.
    pub fn get(&mut self, signature: &TileSignature) -> (r: Result<&TileIdentity, Error>)
        requires
            old(self).wf(),
        ensures
            final(self).wf(),
            Self::same_config(*old(self), *final(self)),
            final(self).table == old(self).table,
            final(self).unavailable == old(self).unavailable,
            final(self).network == old(self).network,
            forall|x: TileSignature| final(self).limiter.queue@.contains(x) <==> old(self).limiter.queue@.contains(x),
            old(self).has_sig(*signature) ==> (r matches Ok(e) && *e == old(self).entry_for(*signature) && e.wf() && final(self).limiter.queue@[0] == *signature),
            old(self).has_sig(*signature) ==> exists|idx: int| 0 <= idx < old(self).limiter.queue@.len() && old(self).limiter.queue@[idx] == *signature && final(self).limiter.queue@ == seq![*signature] + old(self).limiter.queue@.remove(idx),
            !old(self).has_sig(*signature) ==> (r == Err::<&TileIdentity, Error>(Error::NoSuchTile(*signature)) && final(self).limiter == old(self).limiter),
    {
        match find_index(&self.table, signature) {
            Some(i) => {
                proof {
                    assert(seq_has_sig(self.table@, *signature));
                    assert(self.limiter.queue@.contains(*signature));
                }
                let _evicted = self.limiter.test(signature);
                proof {
                    let k = seq_index_of(self.table@, *signature);
                    assert(0 <= k < self.table@.len() && self.table@[k].0 == *signature);
                    assert(k == i as int || !seq_table_wf(self.table@));
                }
                Ok(&self.table[i].1)
            },
            None => Err(Error::NoSuchTile(*signature)),
        }
    }

    /// Brings `signature` into memory: from the decoded map, from the
    /// on-disk cache, or by downloading, in that order. A definitive "not
    /// here" from the remote store is memoized so that later calls fail
    /// immediately without touching the network.
    pub fn load(&mut self, signature: &TileSignature) -> (r: Result<&TileIdentity, Error>)
        requires
            old(self).wf(),
            signature.wf(),
        ensures
            load_contract(*old(self), *final(self), *signature, r),
    {
        if self.unavailable.is_unavailable(signature) {
            return Err(Error::NoSuchObjectInRemote(*signature));
        }
        if self.has(*signature) {
            proof {
                let i = seq_index_of(self.table@, *signature);
                assert(0 <= i < self.table@.len() && self.table@[i].0 == *signature);
                assert(self.table@[i].1.file_path@ == self.cache_path_of(*signature));
                lemma_entry_at_unique(self.table@, i);
            }
            return self.get(signature);
        }
        let path = signature.to_abs_path(self.cache_root.as_str(), self.extension.as_str());
        let cached = self.network.is_cached(path.as_str());
        if !cached {
            let url = signature.to_url(self.extension.as_str(), self.remote_url.as_str());
            match self.network.download(url.as_str(), path.as_str()) {
                DownloadOutcome::Downloaded => {},
                DownloadOutcome::HttpStatus(code) => {
                    if code == 404 || code == 410 {
                        self.unavailable.make_unavailable(signature);
                        return Err(Error::NoSuchObjectInRemote(*signature));
                    }
                    return Err(Error::NetworkStatusCodeError(code, *signature));
                },
                DownloadOutcome::NetworkError => {
                    return Err(Error::NetworkError);
                },
                DownloadOutcome::FilesystemError => {
                    return Err(Error::FilesystemError);
                },
            }
        }
        match self.decode_and_insert(signature, path) {
            Err(e) => Err(e),
            Ok(()) => {
                proof {
                    assert forall|x: TileSignature|
                        x != *signature && self.has_sig(x) implies old(self).has_sig(x)
                        && self.entry_for(x) == old(self).entry_for(x) by {}
                    let q1 = self.limiter.queue@;
                    assert(q1.len() > 0 && q1[0] == *signature);
                    assert(seq![*signature] + q1.remove(0) =~= q1);
                    assert(forall|idx: int| 0 < idx < q1.len() ==> q1[idx] != *signature);
                    let i = seq_index_of(self.table@, *signature);
                    assert(0 <= i < self.table@.len() && self.table@[i].0 == *signature);
                    assert(self.table@[i].1.file_path@ == self.cache_path_of(*signature));
                    lemma_entry_at_unique(self.table@, i);
                }
                self.get(signature)
            },
        }
    }

    /// Makes room under the bound, decodes the tile file, checks that the
    /// decode names the file it was asked for, and inserts the result into
    /// the decoded map. On a failed or mismatched decode the recency list
    /// is rolled back and the file is left on disk for the operator.
    fn decode_and_insert(&mut self, signature: &TileSignature, path: String) -> (r: Result<
        (),
        Error,
    >)
        requires
            old(self).wf(),
            !old(self).has_sig(*signature),
            !old(self).negative_contains(*signature),
            path@ == old(self).cache_path_of(*signature),
        ensures
            final(self).wf(),
            Self::same_config(*old(self), *final(self)),
            final(self).unavailable == old(self).unavailable,
            r matches Ok(()) ==> final(self).has_sig(*signature) && final(self).entry_for(*signature).file_path@ == path@,
            r matches Err(e) ==> e == Error::DecodeError(*signature) && !final(self).has_sig(*signature),
            forall|x: TileSignature| final(self).has_sig(x) ==> (old(self).has_sig(x) || x == *signature),
            forall|x: TileSignature| x != *signature && final(self).has_sig(x) ==> old(self).has_sig(x) && final(self).entry_for(x) == old(self).entry_for(x),
            forall|x: TileSignature| old(self).has_sig(x) && !final(self).has_sig(x) ==> x == old(self).limiter.queue@.last() && old(self).limiter.queue@.len() == old(self).limiter.max_tile_count,
            (r is Ok && old(self).limiter.queue@.len() < old(self).limiter.max_tile_count) ==> final(self).limiter.queue@ == seq![*signature] + old(self).limiter.queue@,
            (r is Ok && old(self).limiter.queue@.len() == old(self).limiter.max_tile_count) ==> final(self).limiter.queue@ == (seq![*signature] + old(self).limiter.queue@).drop_last(),
            (r is Err && old(self).limiter.queue@.len() < old(self).limiter.max_tile_count) ==> final(self).limiter.queue@ == old(self).limiter.queue@ && final(self).table == old(self).table,
            (r is Err && old(self).limiter.queue@.len() == old(self).limiter.max_tile_count) ==> final(self).limiter.queue@ == old(self).limiter.queue@.drop_last(),
    {
        let ghost q_pre = self.limiter.queue@;
        let ghost t_pre = self.table@;
        proof {
            assert(!q_pre.contains(*signature));
        }
        let evicted = self.limiter.test(signature);
        match evicted {
            None => {},
            Some(victim) => {
                proof {
                    assert(seq_has_sig(self.table@, victim));
                }
                table_remove(&mut self.table, &victim);
            },
        }
        let ghost t_mid = self.table@;
        let ghost q_mid = self.limiter.queue@;
        proof {
            assert(forall|s: TileSignature| #[trigger] q_mid.contains(s) <==> (s == *signature || seq_has_sig(t_mid, s)));
            assert(t_mid.len() + 1 == q_mid.len());
            assert(seq_table_wf(t_mid));
            assert(q_mid.len() > 0 && q_mid[0] == *signature);
            if q_pre.len() == self.limiter.max_tile_count {
                assert(q_pre.len() >= 1);
                Seq::drop_last_distributes_over_add(seq![*signature], q_pre);
                assert(q_mid == seq![*signature] + q_pre.drop_last());
            }
            assert forall|k: int| 0 <= k < t_mid.len() implies (#[trigger] t_mid[k]).1.wf()
                && t_mid[k].1.file_path@ == old(self).cache_path_of(t_mid[k].0) by {
                assert(seq_has_pair(t_pre, t_mid[k]));
                let j = choose|j: int| 0 <= j < t_pre.len() && t_pre[j] == t_mid[k];
                assert(t_pre[j].1.wf());
                assert(t_pre[j].1.file_path@ == old(self).cache_path_of(t_pre[j].0));
            }
        }
        let decoded = self.network.decode(path.as_str());
        let entry = match decoded {
            Some(entry) => entry,
            None => {
                self.rollback(signature, Ghost(q_pre), Ghost(q_mid));
                return Err(Error::DecodeError(*signature));
            },
        };
        if !(entry.check() && entry.file_path == path) {
            self.rollback(signature, Ghost(q_pre), Ghost(q_mid));
            return Err(Error::DecodeError(*signature));
        }
        proof {
            lemma_table_push(t_mid, *signature, entry);
        }
        self.table.push((*signature, entry));
        proof {
            let t_new = self.table@;
            assert(t_new == t_mid.push((*signature, entry)));
            assert forall|k: int| 0 <= k < t_new.len() implies (#[trigger] t_new[k]).1.wf()
                && t_new[k].1.file_path@ == self.cache_path_of(t_new[k].0) by {
                if k < t_mid.len() {
                    assert(t_new[k] == t_mid[k]);
                } else {
                    assert(t_new[k] == (*signature, entry));
                }
            }
            assert forall|x: TileSignature| x != *signature && seq_has_sig(t_new, x) implies
                seq_has_sig(t_pre, x) && seq_entry_for(t_new, x) == seq_entry_for(t_pre, x) by {
                assert(seq_has_sig(t_mid, x));
                assert(seq_entry_for(t_new, x) == seq_entry_for(t_mid, x));
            }
        }
        Ok(())
    }

    /// Unlists a signature whose decode failed. The recency list returns to
    /// what it was before the insertion, less any victim that was already
    /// evicted to make room.
    fn rollback(
        &mut self,
        signature: &TileSignature,
        Ghost(q_pre): Ghost<Seq<TileSignature>>,
        Ghost(q_mid): Ghost<Seq<TileSignature>>,
    )
        requires
            old(self).limiter.wf(),
            old(self).limiter.queue@ == q_mid,
            q_mid.len() > 0 && q_mid[0] == *signature,
            !q_pre.contains(*signature),
            q_pre.len() < old(self).limiter.max_tile_count ==> q_mid == seq![*signature] + q_pre,
            q_pre.len() >= old(self).limiter.max_tile_count ==> q_pre.len() >= 1 && q_mid == seq![*signature] + q_pre.drop_last(),
        ensures
            final(self).limiter.wf(),
            final(self).limiter.max_tile_count == old(self).limiter.max_tile_count,
            final(self).table == old(self).table,
            final(self).unavailable == old(self).unavailable,
            final(self).network == old(self).network,
            final(self).remote_url == old(self).remote_url,
            final(self).cache_root == old(self).cache_root,
            final(self).extension == old(self).extension,
            q_pre.len() < old(self).limiter.max_tile_count ==> final(self).limiter.queue@ == q_pre,
            q_pre.len() >= old(self).limiter.max_tile_count ==> final(self).limiter.queue@ == q_pre.drop_last(),
            forall|x: TileSignature| final(self).limiter.queue@.contains(x) <==> (q_mid.contains(x) && x != *signature),
    {
        proof {
            assert(q_mid.contains(*signature));
            assert(forall|idx: int| 0 < idx < q_mid.len() ==> q_mid[idx] != *signature);
        }
        self.limiter.remove(signature);
        proof {
            let idx = choose|idx: int|
                0 <= idx < q_mid.len() && q_mid[idx] == *signature && final(self).limiter.queue@
                    == q_mid.remove(idx);
            assert(idx == 0);
            if q_pre.len() < self.limiter.max_tile_count {
                assert((seq![*signature] + q_pre).remove(0) =~= q_pre);
            } else {
                assert((seq![*signature] + q_pre.drop_last()).remove(0) =~= q_pre.drop_last());
            }
        }
    }

    /// Drops every decoded tile. The negative cache is kept: what the
    /// remote store does not have, it still does not have.
    pub fn unload_all(&mut self)
        requires
            old(self).wf(),
        ensures
            final(self).wf(),
            Self::same_config(*old(self), *final(self)),
            final(self).table@ == Seq::<(TileSignature, TileIdentity)>::empty(),
            final(self).limiter.queue@ == Seq::<TileSignature>::empty(),
            final(self).unavailable == old(self).unavailable,
            final(self).network == old(self).network,
    {
        self.table.clear();
        self.limiter.clear();
    }
}

/// The decoded map stays within its bound and lists exactly the
/// signatures of the recency list; this holds in every state the store's
/// operations can produce.
pub proof fn lemma_store_bounded<F: TileFetcher>(store: TileStorage<F>)
    requires
        store.wf(),
    ensures
        store.table@.len() <= store.limiter.max_tile_count,
        forall|s: TileSignature| #[trigger] seq_has_sig(store.table@, s) <==> store.limiter.queue@.contains(s),
{
}

/// Everything [`TileStorage::load`] promises, spelled out over the store
/// states before and after the call.
pub open spec fn load_contract<F: TileFetcher>(
    pre: TileStorage<F>,
    post: TileStorage<F>,
    sig: TileSignature,
    r: Result<&TileIdentity, Error>,
) -> bool {
    &&& post.wf()
    &&& TileStorage::same_config(pre, post)
    // what the remote store lacks is only ever learned, never forgotten,
    // and this call can teach it about `sig` alone
    &&& forall|x: TileSignature| pre.negative_contains(x) ==> post.negative_contains(x)
    &&& forall|x: TileSignature| post.negative_contains(x) ==> pre.negative_contains(x) || x == sig
    // a memoized absence answers immediately and moves nothing, not even
    // the fetcher
    &&& pre.negative_contains(sig) ==> (r == Err::<&TileIdentity, Error>(
        Error::NoSuchObjectInRemote(sig),
    ) && post == pre)
    // a decoded tile is returned from memory without any fetcher call
    &&& (!pre.negative_contains(sig) && pre.has_sig(sig)) ==> (r matches Ok(e) && *e
        == pre.entry_for(sig) && post.table == pre.table && post.unavailable == pre.unavailable
        && post.network == pre.network)
    // success lands the tile in the decoded map, returns that entry, and
    // marks the tile as the most recently used
    &&& (r matches Ok(e) ==> post.has_sig(sig) && *e == post.entry_for(sig) && e.wf()
        && !post.negative_contains(sig) && post.limiter.queue@.len() > 0
        && post.limiter.queue@[0] == sig)
    // the returned entry names its own cache file
    &&& (r matches Ok(e) ==> e.file_path@ == pre.cache_path_of(sig))
    // no tile appears that was not asked for, and the ones that stay are
    // untouched
    &&& (forall|x: TileSignature| post.has_sig(x) ==> pre.has_sig(x) || x == sig)
    &&& (forall|x: TileSignature| x != sig && post.has_sig(x) ==> pre.has_sig(x) && post.entry_for(x) == pre.entry_for(x))
    // at most the least recently used tile leaves, and only to make room
    &&& (forall|x: TileSignature| pre.has_sig(x) && !post.has_sig(x) ==> x == pre.limiter.queue@.last() && pre.limiter.queue@.len() == pre.limiter.max_tile_count)
    // success puts the tile in front of the survivors, in their old order
    &&& (r is Ok ==> (post.limiter.queue@ == seq![sig] + pre.limiter.queue@ || post.limiter.queue@
        == (seq![sig] + pre.limiter.queue@).drop_last() || (exists|idx: int|
        0 <= idx < pre.limiter.queue@.len() && pre.limiter.queue@[idx] == sig
            && post.limiter.queue@ == seq![sig] + pre.limiter.queue@.remove(idx))))
    // failures that never decoded leave the decoded cache alone
    &&& (r matches Err(e) && !(e is DecodeError) ==> post.table == pre.table && post.limiter
        == pre.limiter)
    // a failed decode loses at most the victim that was already evicted to
    // make room for it
    &&& (r matches Err(e) && e is DecodeError ==> ((post.table == pre.table
        && post.limiter.queue@ == pre.limiter.queue@) || post.limiter.queue@
        == pre.limiter.queue@.drop_last()))
    // the absent-upstream error and the negative cache coincide
    &&& ((r matches Err(e) && e == Error::NoSuchObjectInRemote(sig)) <==> post.negative_contains(
        sig,
    ))
    // every failure leaves the tile undecoded and names it
    &&& (r matches Err(e) ==> !post.has_sig(sig) && match e {
        Error::NoSuchObjectInRemote(s) => s == sig,
        Error::NetworkStatusCodeError(c, s) => s == sig && c != 404 && c != 410,
        Error::DecodeError(s) => s == sig,
        Error::NetworkError => true,
        Error::FilesystemError => true,
        _ => false,
    })
}

/// Loading is idempotent: when a load succeeds, loading the same signature
/// again succeeds and returns an entry with the same path, raster and
/// dimensions.
pub proof fn lemma_load_idempotent<F: TileFetcher>(
    pre: TileStorage<F>,
    mid: TileStorage<F>,
    post: TileStorage<F>,
    sig: TileSignature,
    r1: Result<&TileIdentity, Error>,
    r2: Result<&TileIdentity, Error>,
)
    requires
        load_contract(pre, mid, sig, r1),
        load_contract(mid, post, sig, r2),
        r1 matches Ok(_),
    ensures
        r2 matches Ok(_),
        forall|e1: &TileIdentity, e2: &TileIdentity| r1 == Ok::<&TileIdentity, Error>(e1) && r2 == Ok::<&TileIdentity, Error>(e2) ==> *e1 == *e2,
{
    let e1 = r1->Ok_0;
    assert(mid.has_sig(sig) && !mid.negative_contains(sig));
    assert(r2 matches Ok(e2) && *e2 == mid.entry_for(sig));
}

/// Once a signature has entered the negative cache, every later load of it
/// reports it absent upstream and leaves the whole store, the fetcher
/// included, exactly as it was.
pub proof fn lemma_negative_is_permanent<F: TileFetcher>(
    pre: TileStorage<F>,
    post: TileStorage<F>,
    sig: TileSignature,
    r: Result<&TileIdentity, Error>,
)
    requires
        pre.negative_contains(sig),
        load_contract(pre, post, sig, r),
    ensures
        r == Err::<&TileIdentity, Error>(Error::NoSuchObjectInRemote(sig)),
        post == pre,
{
}

} // verus!
