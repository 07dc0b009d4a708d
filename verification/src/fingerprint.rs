//! The content key under which one query's scored results are cached: the
//! resolved background id together with the query's dense encoding.
//!
//! Equality is structural (byte pattern and distinct count), so two requests
//! whose gene lists differ only in order or duplicate repetition address the
//! same cache entry, while the same list against another background never
//! does.
use vstd::prelude::*;
use crate::bitvec::DenseBitVec;
use crate::bitvec::dense_bit;
use crate::bitvec::dense_cols;
use crate::bitvec::lemma_dense_ignores_order_and_duplicates;
use vstd::std_specs::cmp::PartialEqSpec;

verus! {

/// Byte-wise equality of two byte strings.
fn bytes_eq(a: &Vec<u8>, b: &Vec<u8>) -> (r: bool)
    ensures
        r == (a@ == b@),
{
    if a.len() != b.len() {
        return false;
    }
    let mut i: usize = 0;
    while i < a.len()
        invariant
            i <= a@.len(),
            a@.len() == b@.len(),
            forall|t: int| 0 <= t < i ==> a@[t] == b@[t],
        decreases a@.len() - i,
    {
        if a[i] != b[i] {
            proof {
                assert(a@[i as int] != b@[i as int]);
            }
            return false;
        }
        i = i + 1;
    }
    proof {
        assert(a@ =~= b@);
    }
    true
}

/// The cache key of one query: which background it was resolved against and
/// which distinct columns its gene list selects.
pub struct QueryFingerprint {
    pub background_id: u128,
    pub dense: DenseBitVec,
}

impl PartialEq for QueryFingerprint {
    /// Structural equality: same background, same flag bytes, same distinct
    /// count.
    fn eq(&self, other: &Self) -> (r: bool) {
        if self.background_id != other.background_id {
            return false;
        }
        if self.dense.n != other.dense.n {
            return false;
        }
        bytes_eq(&self.dense.v, &other.dense.v)
    }
}

impl vstd::std_specs::cmp::PartialEqSpecImpl for QueryFingerprint {
    open spec fn obeys_eq_spec() -> bool {
        true
    }

    open spec fn eq_spec(&self, other: &Self) -> bool {
        &&& self.background_id == other.background_id
        &&& self.dense.n == other.dense.n
        &&& self.dense.v@ == other.dense.v@
    }
}

/// Two queries against the same background whose gene lists hold the same
/// identifiers — in any order, with any repetitions — have equal
/// fingerprints, so the second is answered from the first's cache entry.
pub proof fn lemma_fingerprint_ignores_order_and_duplicates(
    m: Map<u128, u32>,
    ids1: Seq<u128>,
    ids2: Seq<u128>,
    f1: QueryFingerprint,
    f2: QueryFingerprint,
)
    requires
        ids1.to_set() == ids2.to_set(),
        f1.background_id == f2.background_id,
        f1.dense.v@.len() == m.dom().len(),
        f2.dense.v@.len() == m.dom().len(),
        forall|j: int| 0 <= j < f1.dense.v@.len() ==> f1.dense.v@[j] == dense_bit(m, ids1, j),
        forall|j: int| 0 <= j < f2.dense.v@.len() ==> f2.dense.v@[j] == dense_bit(m, ids2, j),
        f1.dense.n == dense_cols(m, ids1).len(),
        f2.dense.n == dense_cols(m, ids2).len(),
    ensures
        f1.eq_spec(&f2),
{
    lemma_dense_ignores_order_and_duplicates(m, ids1, ids2);
    assert forall|j: int| 0 <= j < f1.dense.v@.len() implies f1.dense.v@[j] == f2.dense.v@[j] by {
        assert(dense_bit(m, ids1, j) == dense_bit(m, ids2, j));
    }
    assert(f1.dense.v@ =~= f2.dense.v@);
}

} // verus!
