//! Membership encodings for gene sets against one background universe.
//!
//! A background maps each gene identifier to a dense column index. Library
//! rows are stored sparse (the ordered column indices of their members, with
//! duplicates kept), the one user query is stored dense (a flag per column,
//! duplicates collapsed), so the overlap of a row with the query costs time
//! proportional to the row's own size, never to the user's input size.
use vstd::prelude::*;
use std::collections::HashMap;

verus! {

broadcast use vstd::std_specs::hash::group_hash_axioms;

/// The columns that `ids` selects from the mapping `m`: identifiers absent
/// from `m` are dropped; input order and duplicates are kept.
pub open spec fn sparse_cols(m: Map<u128, u32>, ids: Seq<u128>) -> Seq<u32>
    decreases ids.len(),
{
    if ids.len() == 0 {
        Seq::empty()
    } else if m.contains_key(ids.last()) {
        sparse_cols(m, ids.drop_last()).push(m[ids.last()])
    } else {
        sparse_cols(m, ids.drop_last())
    }
}

/// How many of `ids` are present in `m`, occurrences counted separately.
pub open spec fn count_mapped(m: Map<u128, u32>, ids: Seq<u128>) -> nat
    decreases ids.len(),
{
    if ids.len() == 0 {
        0
    } else {
        count_mapped(m, ids.drop_last()) + if m.contains_key(ids.last()) {
            1nat
        } else {
            0nat
        }
    }
}

/// A sparse vector has exactly one entry per mapped input identifier.
pub proof fn lemma_sparse_len(m: Map<u128, u32>, ids: Seq<u128>)
    ensures
        sparse_cols(m, ids).len() == count_mapped(m, ids),
    decreases ids.len(),
{
    if ids.len() > 0 {
        lemma_sparse_len(m, ids.drop_last());
    }
}

/// Every column of a sparse vector is a value of the mapping, so a bound on
/// the mapping's values bounds the vector's entries.
pub proof fn lemma_sparse_cols_bounded(m: Map<u128, u32>, ids: Seq<u128>, bound: u32)
    requires
        forall|id: u128| m.contains_key(id) ==> m[id] < bound,
    ensures
        forall|k: int|
            0 <= k < sparse_cols(m, ids).len() ==> sparse_cols(m, ids)[k] < bound,
    decreases ids.len(),
{
    if ids.len() > 0 {
        lemma_sparse_cols_bounded(m, ids.drop_last(), bound);
        let s = sparse_cols(m, ids);
        let sp = sparse_cols(m, ids.drop_last());
        assert forall|k: int| 0 <= k < s.len() implies s[k] < bound by {
            if m.contains_key(ids.last()) {
                assert(s == sp.push(m[ids.last()]));
                if k < sp.len() {
                    assert(s[k] == sp[k]);
                } else {
                    assert(s[k] == m[ids.last()]);
                }
            } else {
                assert(s == sp);
            }
        }
    }
}

/// Whether column `j` is selected by some identifier of `ids` under `m`.
pub open spec fn dense_bit(m: Map<u128, u32>, ids: Seq<u128>, j: int) -> u8 {
    if exists|k: int| 0 <= k < ids.len() && m.contains_key(ids[k]) && m[ids[k]] == j {
        1u8
    } else {
        0u8
    }
}

/// The set of distinct columns selected by `ids` under `m`.
pub open spec fn dense_cols(m: Map<u128, u32>, ids: Seq<u128>) -> Set<u32> {
    Set::new(
        |c: u32| exists|k: int| 0 <= k < ids.len() && m.contains_key(ids[k]) && m[ids[k]] == c,
    )
}

/// Column indices of one library row's member genes, in source order,
/// duplicates kept: an identifier appearing twice in the source contributes
/// two entries.
pub struct SparseBitVec {
    pub v: Vec<u32>,
}

impl SparseBitVec {
    /// Encode `gene_set` against `background`: the column of each member
    /// found in the mapping, in input order, unknown members dropped,
    /// duplicates kept.
    pub fn new(background: &HashMap<u128, u32>, gene_set: &Vec<u128>) -> (r: Self)
        ensures
            r.v@ == sparse_cols(background@, gene_set@),
    {
        let ghost m = background@;
        let ghost ids = gene_set@;
        let mut v: Vec<u32> = Vec::new();
        let mut i: usize = 0;
        while i < gene_set.len()
            invariant
                i <= ids.len(),
                gene_set@ == ids,
                background@ == m,
                v@ == sparse_cols(m, ids.take(i as int)),
            decreases ids.len() - i,
        {
            let id: u128 = gene_set[i];
            proof {
                assert(ids.take(i as int + 1).drop_last() =~= ids.take(i as int));
                assert(ids.take(i as int + 1).last() == ids[i as int]);
            }
            match background.get(&id) {
                Some(col) => {
                    v.push(*col);
                }
                None => {}
            }
            i = i + 1;
        }
        proof {
            assert(ids.take(ids.len() as int) =~= ids);
        }
        SparseBitVec { v }
    }
}

/// A user query encoded as one flag per background column, together with the
/// count of distinct flags set. Duplicate input identifiers collapse.
pub struct DenseBitVec {
    pub v: Vec<u8>,
    pub n: usize,
}

impl DenseBitVec {
    /// Encode `gene_set` against `background`: a zero array sized to the
    /// background's column count, a flag set per mapped member, and `n`
    /// counting the distinct columns set.
    ///
    /// A mapping value at or beyond the column count would be an index out
    /// of range, so the mapping must be injective into 0..len.
    pub fn new(background: &HashMap<u128, u32>, gene_set: &Vec<u128>) -> (r: Self)
        requires
            forall|id: u128|
                background@.contains_key(id) ==> (background@[id] as int)
                    < background@.dom().len(),
        ensures
            r.v@.len() == background@.dom().len(),
            forall|j: int| 0 <= j < r.v@.len() ==> r.v@[j] == dense_bit(background@, gene_set@, j),
            r.n == dense_cols(background@, gene_set@).len(),
            dense_cols(background@, gene_set@).finite(),
    {
        let ghost m = background@;
        let ghost ids = gene_set@;
        let mut v: Vec<u8> = vec![0u8; background.len()];
        let mut n: usize = 0;
        let ghost cols: Set<u32> = Set::empty();
        proof {
            assert(dense_cols(m, ids.take(0)) =~= cols);
            assert forall|j: int| 0 <= j < v@.len() implies v@[j] == dense_bit(
                m,
                ids.take(0),
                j,
            ) by {
                assert(v@[j] == 0u8);
            }
        }
        let mut i: usize = 0;
        while i < gene_set.len()
            invariant
                i <= ids.len(),
                gene_set@ == ids,
                background@ == m,
                forall|id: u128| m.contains_key(id) ==> (m[id] as int) < m.dom().len(),
                v@.len() == m.dom().len(),
                forall|j: int| 0 <= j < v@.len() ==> v@[j] == dense_bit(m, ids.take(i as int), j),
                cols == dense_cols(m, ids.take(i as int)),
                cols.finite(),
                n == cols.len(),
                n <= i,
            decreases ids.len() - i,
        {
            let id: u128 = gene_set[i];
            proof {
                assert(ids.take(i as int + 1) =~= ids.take(i as int).push(ids[i as int]));
            }
            let ghost prev = ids.take(i as int);
            let ghost next = ids.take(i as int + 1);
            match background.get(&id) {
                Some(col_ref) => {
                    let col: u32 = *col_ref;
                    assert(m.contains_key(id) && m[id] == col);
                    assert((col as int) < v@.len());
                    if v[col as usize] == 0 {
                        assert(dense_bit(m, prev, col as int) == 0u8);
                        assert(!cols.contains(col));
                        n = n + 1;
                        v.set(col as usize, 1u8);
                        proof {
                            let newcols = cols.insert(col);
                            assert(newcols =~= dense_cols(m, next)) by {
                                assert forall|c: u32| newcols.contains(c) implies dense_cols(
                                    m,
                                    next,
                                ).contains(c) by {
                                    if c == col {
                                        assert(next[i as int] == id);
                                    } else {
                                        let k = choose|k: int|
                                            0 <= k < prev.len() && m.contains_key(prev[k])
                                                && m[prev[k]] == c;
                                        assert(next[k] == prev[k]);
                                    }
                                }
                                assert forall|c: u32| dense_cols(m, next).contains(c)
                                    implies newcols.contains(c) by {
                                    let k = choose|k: int|
                                        0 <= k < next.len() && m.contains_key(next[k])
                                            && m[next[k]] == c;
                                    if k < prev.len() {
                                        assert(prev[k] == next[k]);
                                    } else {
                                        assert(next[k] == id);
                                    }
                                }
                            }
                            cols = newcols;
                            assert forall|j: int| 0 <= j < v@.len() implies v@[j] == dense_bit(
                                m,
                                next,
                                j,
                            ) by {
                                if j == col as int {
                                    assert(next[i as int] == id);
                                    assert(dense_bit(m, next, j) == 1u8);
                                } else {
                                    lemma_dense_bit_push(m, prev, id, j);
                                    assert(m[id] != j);
                                }
                            }
                        }
                    } else {
                        proof {
                            assert(v@[col as int] == 1u8);
                            assert(dense_bit(m, prev, col as int) == 1u8);
                            assert(cols.contains(col));
                            assert(cols =~= dense_cols(m, next)) by {
                                lemma_dense_cols_push_known(m, prev, id);
                            }
                            assert forall|j: int| 0 <= j < v@.len() implies v@[j] == dense_bit(
                                m,
                                next,
                                j,
                            ) by {
                                if j == col as int {
                                    assert(next[i as int] == id);
                                    assert(dense_bit(m, next, j) == 1u8);
                                } else {
                                    lemma_dense_bit_push(m, prev, id, j);
                                }
                            }
                        }
                    }
                }
                None => {
                    proof {
                        assert(!m.contains_key(id));
                        assert(cols =~= dense_cols(m, next)) by {
                            lemma_dense_cols_push_known(m, prev, id);
                        }
                        assert forall|j: int| 0 <= j < v@.len() implies v@[j] == dense_bit(
                            m,
                            next,
                            j,
                        ) by {
                            lemma_dense_bit_push(m, prev, id, j);
                        }
                    }
                }
            }
            i = i + 1;
        }
        proof {
            assert(ids.take(ids.len() as int) =~= ids);
        }
        DenseBitVec { v, n }
    }
}

/// Appending one identifier changes a column's flag only if that identifier
/// maps to the column: for any other column the flag is unchanged.
proof fn lemma_dense_bit_push(m: Map<u128, u32>, ids: Seq<u128>, id: u128, j: int)
    requires
        !(m.contains_key(id) && m[id] == j),
    ensures
        dense_bit(m, ids.push(id), j) == dense_bit(m, ids, j),
{
    let next = ids.push(id);
    if dense_bit(m, next, j) == 1u8 {
        let k = choose|k: int| 0 <= k < next.len() && m.contains_key(next[k]) && m[next[k]] == j;
        assert(k < ids.len() && next[k] == ids[k]);
        assert(dense_bit(m, ids, j) == 1u8);
    }
    if dense_bit(m, ids, j) == 1u8 {
        let k = choose|k: int| 0 <= k < ids.len() && m.contains_key(ids[k]) && m[ids[k]] == j;
        assert(next[k] == ids[k]);
        assert(dense_bit(m, next, j) == 1u8);
    }
}

/// Appending an identifier whose column is already selected, or which the
/// mapping does not know, leaves the selected-column set unchanged.
proof fn lemma_dense_cols_push_known(m: Map<u128, u32>, ids: Seq<u128>, id: u128)
    requires
        m.contains_key(id) ==> dense_cols(m, ids).contains(m[id]),
    ensures
        dense_cols(m, ids.push(id)) =~= dense_cols(m, ids),
{
    let next = ids.push(id);
    assert forall|c: u32| dense_cols(m, next).contains(c) implies dense_cols(m, ids).contains(
        c,
    ) by {
        let k = choose|k: int| 0 <= k < next.len() && m.contains_key(next[k]) && m[next[k]] == c;
        if k < ids.len() {
            assert(ids[k] == next[k]);
        } else {
            assert(next[k] == id);
        }
    }
    assert forall|c: u32| dense_cols(m, ids).contains(c) implies dense_cols(m, next).contains(
        c,
    ) by {
        let k = choose|k: int| 0 <= k < ids.len() && m.contains_key(ids[k]) && m[ids[k]] == c;
        assert(next[k] == ids[k]);
    }
}

/// The number of entries of `cols` whose flag is set in `d`, each occurrence
/// counted separately.
pub open spec fn overlap_count(d: Seq<u8>, cols: Seq<u32>) -> nat
    decreases cols.len(),
{
    if cols.len() == 0 {
        0
    } else {
        overlap_count(d, cols.drop_last()) + if 0 <= cols.last() < d.len() && d[cols.last() as int]
            == 1 {
            1nat
        } else {
            0nat
        }
    }
}

/// The overlap of a query with one library row: how many of the row's column
/// entries are set in the query's dense vector. The cost is proportional to
/// the row's own size, independent of the dense vector's length or popcount.
///
/// The row must have been encoded against the same background as the query,
/// so every column entry lies inside the dense vector.
pub fn compute_overlap(a: &DenseBitVec, b: &SparseBitVec) -> (r: u32)
    requires
        forall|k: int| 0 <= k < b.v@.len() ==> (b.v@[k] as int) < a.v@.len(),
        forall|j: int| 0 <= j < a.v@.len() ==> a.v@[j] <= 1,
        b.v@.len() <= u32::MAX,
    ensures
        r as nat == overlap_count(a.v@, b.v@),
{
    let ghost d = a.v@;
    let ghost cols = b.v@;
    let mut acc: u32 = 0;
    let mut k: usize = 0;
    while k < b.v.len()
        invariant
            k <= cols.len(),
            a.v@ == d,
            b.v@ == cols,
            cols.len() <= u32::MAX,
            forall|t: int| 0 <= t < cols.len() ==> (cols[t] as int) < d.len(),
            forall|j: int| 0 <= j < d.len() ==> d[j] <= 1,
            acc as nat == overlap_count(d, cols.take(k as int)),
            acc <= k,
        decreases cols.len() - k,
    {
        proof {
            assert(cols.take(k as int + 1).drop_last() =~= cols.take(k as int));
            assert(cols.take(k as int + 1).last() == cols[k as int]);
        }
        let col: u32 = b.v[k];
        acc = acc + (a.v[col as usize] as u32);
        k = k + 1;
    }
    proof {
        assert(cols.take(cols.len() as int) =~= cols);
    }
    acc
}

/// The cheap pre-filter that runs before the statistical kernel: the overlap
/// of one row, or nothing when it falls under the requested minimum, in
/// which case the row is discarded unscored.
pub fn overlap_prefilter(a: &DenseBitVec, b: &SparseBitVec, overlap_ge: u32) -> (r: Option<u32>)
    requires
        forall|k: int| 0 <= k < b.v@.len() ==> (b.v@[k] as int) < a.v@.len(),
        forall|j: int| 0 <= j < a.v@.len() ==> a.v@[j] <= 1,
        b.v@.len() <= u32::MAX,
    ensures
        match r {
            Option::Some(o) => o as nat == overlap_count(a.v@, b.v@) && o >= overlap_ge,
            Option::None => overlap_count(a.v@, b.v@) < overlap_ge,
        },
{
    let o = compute_overlap(a, b);
    if o < overlap_ge {
        None
    } else {
        Some(o)
    }
}

/// The dense encoding depends only on which identifiers occur in the input,
/// never on their order or multiplicity: inputs with the same identifier set
/// select the same flags and the same distinct count.
pub proof fn lemma_dense_ignores_order_and_duplicates(
    m: Map<u128, u32>,
    ids1: Seq<u128>,
    ids2: Seq<u128>,
)
    requires
        ids1.to_set() == ids2.to_set(),
    ensures
        forall|j: int| dense_bit(m, ids1, j) == dense_bit(m, ids2, j),
        dense_cols(m, ids1) == dense_cols(m, ids2),
{
    assert forall|j: int| dense_bit(m, ids1, j) == dense_bit(m, ids2, j) by {
        lemma_dense_bit_set_determined(m, ids1, ids2, j);
    }
    assert(dense_cols(m, ids1) =~= dense_cols(m, ids2)) by {
        assert forall|c: u32| dense_cols(m, ids1).contains(c) implies dense_cols(m, ids2).contains(
            c,
        ) by {
            lemma_dense_bit_set_determined(m, ids1, ids2, c as int);
            assert(dense_bit(m, ids1, c as int) == 1u8);
        }
        assert forall|c: u32| dense_cols(m, ids2).contains(c) implies dense_cols(m, ids1).contains(
            c,
        ) by {
            lemma_dense_bit_set_determined(m, ids2, ids1, c as int);
            assert(dense_bit(m, ids2, c as int) == 1u8);
        }
    }
}

proof fn lemma_dense_bit_set_determined(m: Map<u128, u32>, ids1: Seq<u128>, ids2: Seq<u128>, j: int)
    requires
        ids1.to_set() == ids2.to_set(),
    ensures
        dense_bit(m, ids1, j) == dense_bit(m, ids2, j),
{
    if dense_bit(m, ids1, j) == 1u8 {
        let k = choose|k: int| 0 <= k < ids1.len() && m.contains_key(ids1[k]) && m[ids1[k]] == j;
        assert(ids1.to_set().contains(ids1[k]));
        assert(ids2.to_set().contains(ids1[k]));
        let t = choose|t: int| 0 <= t < ids2.len() && ids2[t] == ids1[k];
        assert(dense_bit(m, ids2, j) == 1u8);
    }
    if dense_bit(m, ids2, j) == 1u8 {
        let k = choose|k: int| 0 <= k < ids2.len() && m.contains_key(ids2[k]) && m[ids2[k]] == j;
        assert(ids2.to_set().contains(ids2[k]));
        assert(ids1.to_set().contains(ids2[k]));
        let t = choose|t: int| 0 <= t < ids1.len() && ids1[t] == ids2[k];
        assert(dense_bit(m, ids1, j) == 1u8);
    }
}

} // verus!
