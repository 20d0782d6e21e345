//! The negative cache: signatures the remote store has definitively said it
//! does not have. Entries are never removed during a process lifetime.

use vstd::prelude::*;

use crate::limiter::lemma_contains_front_insert;
use crate::tile_signature::TileSignature;

verus! {

/// An unordered, duplicate-free set of signatures known to be absent
/// upstream.
pub struct NegativeCache {
    pub items: Vec<TileSignature>,
}

impl NegativeCache {
    pub open spec fn wf(&self) -> bool {
        self.items@.no_duplicates()
    }

    /// Whether `sig` is recorded as absent.
    pub open spec fn spec_contains(&self, sig: TileSignature) -> bool {
        self.items@.contains(sig)
    }

    pub fn new() -> (r: Self)
        ensures
            r.wf(),
            forall|x: TileSignature| !r.spec_contains(x),
    {
        NegativeCache { items: Vec::new() }
    }

    /// Whether `signature` is recorded as absent.
    pub fn is_unavailable(&self, signature: &TileSignature) -> (r: bool)
        ensures
            r == self.spec_contains(*signature),
    {
        let n = self.items.len();
        let mut i: usize = 0;
        while i < n
            invariant
                i <= n,
                n == self.items@.len(),
                forall|j: int| 0 <= j < i ==> self.items@[j] != *signature,
            decreases n - i,
        {
            if self.items[i] == *signature {
                return true;
            }
            i += 1;
        }
        false
    }

    /// Records `signature` as absent upstream.
    pub fn make_unavailable(&mut self, signature: &TileSignature)
        requires
            old(self).wf(),
        ensures
            final(self).wf(),
            forall|x: TileSignature| final(self).spec_contains(x) <==> (old(self).spec_contains(x) || x == *signature),
    {
        if !self.is_unavailable(signature) {
            let ghost q0 = self.items@;
            self.items.insert(0, signature.clone());
            proof {
                assert(self.items@ =~= seq![*signature] + q0);
                assert forall|y: TileSignature| self.items@.contains(y) <==> (y == *signature
                    || q0.contains(y)) by {
                    lemma_contains_front_insert(q0, *signature, y);
                }
            }
        }
    }
}

} // verus!
