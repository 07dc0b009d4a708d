//! One compiled background index: an injective mapping from gene identifier
//! to dense column, the parallel ordered gene labels, and the library rows
//! encoded sparse against those columns.
//!
//! An index is built once from externally fetched data and is immutable
//! afterwards; a rebuild replaces it wholesale. The gene universe is ordered
//! deterministically by identifier before columns are assigned, so rebuilds
//! of the same universe assign the same columns.
use vstd::prelude::*;
use std::collections::HashMap;
use crate::bitvec::SparseBitVec;
use crate::bitvec::sparse_cols;
use crate::bitvec::lemma_sparse_cols_bounded;
use crate::MAX_COLUMNS;

verus! {

broadcast use vstd::std_specs::hash::group_hash_axioms;

/// One library row as fetched from the external data source, its member
/// genes still given by identifier.
pub struct RowInput {
    pub id: u128,
    pub term: Vec<u8>,
    pub title: Vec<u8>,
    pub attrs: Vec<u8>,
    pub sig_terms: Vec<u8>,
    /// Quality score, carried opaquely as its 64-bit pattern; every ordering
    /// or threshold decision on it is made outside the verified core.
    pub score_bits: u64,
    pub gene_ids: Vec<u128>,
}

/// One library row of a built index, its member genes encoded as the ordered
/// column indices of the background (duplicates kept).
pub struct LibraryRow {
    pub id: u128,
    pub term: Vec<u8>,
    pub title: Vec<u8>,
    pub attrs: Vec<u8>,
    pub sig_terms: Vec<u8>,
    /// Quality score, carried opaquely as its 64-bit pattern.
    pub score_bits: u64,
    pub gene_set: SparseBitVec,
}

/// A built row keeps every field of its input and encodes the member
/// identifiers as their columns under `m`, in order, duplicates kept.
pub open spec fn row_encoded(v: LibraryRow, input: RowInput, m: Map<u128, u32>) -> bool {
    &&& v.id == input.id
    &&& v.term == input.term
    &&& v.title == input.title
    &&& v.attrs == input.attrs
    &&& v.sig_terms == input.sig_terms
    &&& v.score_bits == input.score_bits
    &&& v.gene_set.v@ == sparse_cols(m, input.gene_ids@)
}

/// Non-decreasing by gene identifier.
pub open spec fn sorted_by_id(s: Seq<(u128, Vec<u8>)>) -> bool {
    forall|p: int, q: int| 0 <= p < q < s.len() ==> s[p].0 <= s[q].0
}

/// No gene identifier occurs twice.
pub open spec fn distinct_ids(s: Seq<(u128, Vec<u8>)>) -> bool {
    forall|p: int, q: int| 0 <= p < q < s.len() ==> s[p].0 != s[q].0
}

proof fn lemma_insert_to_multiset(s: Seq<(u128, Vec<u8>)>, j: int, x: (u128, Vec<u8>))
    requires
        0 <= j <= s.len(),
    ensures
        s.insert(j, x).to_multiset() == s.to_multiset().insert(x),
{
    broadcast use vstd::seq_lib::group_to_multiset_ensures;
    broadcast use vstd::multiset::group_multiset_axioms;

    let t = s.insert(j, x);
    assert(t.remove(j) =~= s);
    assert(t[j] == x);
    assert(t.contains(x));
    assert(t.to_multiset().count(x) > 0);
    assert(t.remove(j).to_multiset() =~= t.to_multiset().remove(x));
    assert(t.to_multiset() =~= s.to_multiset().insert(x)) by {
        assert(forall|a: (u128, Vec<u8>)|
            #![auto]
            t.to_multiset().remove(x).count(a) == s.to_multiset().count(a));
    }
}

/// Order the fetched gene universe deterministically by identifier: the
/// result is non-decreasing by identifier and holds exactly the input pairs.
pub fn sort_genes(genes: Vec<(u128, Vec<u8>)>) -> (r: Vec<(u128, Vec<u8>)>)
    ensures
        r@.len() == genes@.len(),
        sorted_by_id(r@),
        r@.to_multiset() == genes@.to_multiset(),
{
    broadcast use vstd::seq_lib::group_to_multiset_ensures;
    broadcast use vstd::multiset::group_multiset_axioms;

    let ghost orig = genes@;
    let mut v = genes;
    if v.len() <= 1 {
        return v;
    }
    let mut i: usize = 1;
    while i < v.len()
        invariant
            1 <= i <= v@.len(),
            v@.len() == orig.len(),
            v@.to_multiset() == orig.to_multiset(),
            forall|p: int, q: int| 0 <= p < q < i ==> v@[p].0 <= v@[q].0,
        decreases v@.len() - i,
    {
        let ghost before = v@;
        let x = v.remove(i);
        let ghost b = v@;
        proof {
            assert(before[i as int] == x);
            assert(before.contains(x));
            assert(b =~= before.remove(i as int));
            before.to_multiset_ensures();
            assert(before.remove(i as int).to_multiset() =~= before.to_multiset().remove(x));
            assert(b.to_multiset() == before.remove(i as int).to_multiset());
        }
        let mut j: usize = i;
        while j > 0 && v[j - 1].0 > x.0
            invariant
                j <= i,
                i < before.len(),
                v@ == b,
                b == before.remove(i as int),
                forall|t: int| j <= t < i ==> b[t].0 > x.0,
            decreases j,
        {
            j = j - 1;
        }
        v.insert(j, x);
        proof {
            lemma_insert_to_multiset(b, j as int, x);
            before.to_multiset_ensures();
            assert(before.to_multiset().count(x) > 0);
            assert(v@.to_multiset() =~= before.to_multiset()) by {
                assert(forall|a: (u128, Vec<u8>)|
                    #![auto]
                    before.to_multiset().remove(x).insert(x).count(a) == before.to_multiset().count(
                        a,
                    ));
            }
            assert forall|p: int, q: int| 0 <= p < q < i + 1 implies v@[p].0 <= v@[q].0 by {
                assert(forall|t: int| 0 <= t < i ==> b[t] == before[t]);
                assert(forall|t: int| 0 <= t < j ==> v@[t] == b[t]);
                assert(v@[j as int] == x);
                assert(forall|t: int| j < t < i + 1 ==> v@[t] == b[t - 1]);
                if j > 0 {
                    assert(b[j - 1].0 <= x.0);
                }
            }
        }
        i = i + 1;
    }
    v
}

/// Assign dense columns 0..n-1 to the ordered gene universe: the mapping
/// sends the k-th gene's identifier to column k, and the labels are kept in
/// the same order. The universe must fit under the column cap and hold no
/// identifier twice.
pub fn assign_columns(genes: Vec<(u128, Vec<u8>)>) -> (r: (HashMap<u128, u32>, Vec<Vec<u8>>))
    requires
        genes@.len() <= MAX_COLUMNS,
        distinct_ids(genes@),
    ensures
        r.1@.len() == genes@.len(),
        forall|k: int| 0 <= k < genes@.len() ==> r.1@[k] == genes@[k].1,
        forall|k: int|
            0 <= k < genes@.len() ==> r.0@.contains_key(genes@[k].0) && r.0@[genes@[k].0]
                == k as u32,
        forall|id: u128|
            r.0@.contains_key(id) ==> exists|k: int| 0 <= k < genes@.len() && genes@[k].0 == id,
        r.0@.dom().len() == genes@.len(),
{
    let ghost orig = genes@;
    let mut rest = genes;
    let mut columns: HashMap<u128, u32> = HashMap::new();
    let mut columns_str: Vec<Vec<u8>> = Vec::new();
    let mut k: usize = 0;
    while rest.len() > 0
        invariant
            k <= orig.len(),
            orig.len() <= MAX_COLUMNS,
            distinct_ids(orig),
            rest@ =~= orig.subrange(k as int, orig.len() as int),
            columns_str@.len() == k,
            forall|t: int| 0 <= t < k ==> columns_str@[t] == orig[t].1,
            forall|t: int|
                0 <= t < k ==> columns@.contains_key(orig[t].0) && columns@[orig[t].0] == t as u32,
            forall|id: u128|
                columns@.contains_key(id) ==> exists|t: int| 0 <= t < k && orig[t].0 == id,
            columns@.dom().len() == k,
        decreases rest@.len(),
    {
        let pair = rest.remove(0);
        proof {
            assert(pair == orig[k as int]);
            assert(rest@ =~= orig.subrange(k as int + 1, orig.len() as int));
            assert(!columns@.contains_key(pair.0)) by {
                if columns@.contains_key(pair.0) {
                    let t = choose|t: int| 0 <= t < k && orig[t].0 == pair.0;
                    assert(orig[t].0 != orig[k as int].0);
                }
            }
        }
        columns.insert(pair.0, k as u32);
        columns_str.push(pair.1);
        k = k + 1;
    }
    proof {
        assert(k == orig.len());
    }
    (columns, columns_str)
}

/// A compiled background index: the column mapping, the gene labels in
/// column order, and the encoded library rows in source order.
pub struct Bitmap {
    pub columns: HashMap<u128, u32>,
    pub columns_str: Vec<Vec<u8>>,
    pub values: Vec<LibraryRow>,
}

impl Bitmap {
    /// Every column the mapping assigns, and every column entry of every
    /// row, lies inside the label table; the mapping has one entry per
    /// label.
    pub open spec fn wf(&self) -> bool {
        &&& self.columns@.dom().len() == self.columns_str@.len()
        &&& forall|id: u128|
            self.columns@.contains_key(id) ==> (self.columns@[id] as int) < self.columns_str@.len()
        &&& forall|r: int, c: int|
            0 <= r < self.values@.len() && 0 <= c < self.values@[r].gene_set.v@.len() ==> (
            self.values@[r].gene_set.v@[c] as int) < self.columns_str@.len()
    }

    /// An empty index: the placeholder registered under a background id
    /// while its build is in flight.
    pub fn new() -> (r: Self)
        ensures
            r.columns@ == Map::<u128, u32>::empty(),
            r.columns_str@.len() == 0,
            r.values@.len() == 0,
            r.wf(),
    {
        let r = Bitmap { columns: HashMap::new(), columns_str: Vec::new(), values: Vec::new() };
        proof {
            assert(r.columns@.dom() =~= Set::<u128>::empty());
        }
        r
    }

    /// The number of columns (genes of the universe).
    pub fn column_count(&self) -> (r: usize)
        ensures
            r == self.columns_str@.len(),
    {
        self.columns_str.len()
    }

    /// The number of library rows.
    pub fn row_count(&self) -> (r: usize)
        ensures
            r == self.values@.len(),
    {
        self.values.len()
    }

    /// Compile an index from the ordered gene universe and the fetched
    /// library rows: columns are assigned in universe order, and each row is
    /// encoded sparse against them, in source order, duplicates kept.
    pub fn build(genes: Vec<(u128, Vec<u8>)>, rows: Vec<RowInput>) -> (r: Bitmap)
        requires
            genes@.len() <= MAX_COLUMNS,
            sorted_by_id(genes@),
            distinct_ids(genes@),
        ensures
            r.wf(),
            r.columns_str@.len() == genes@.len(),
            forall|k: int| 0 <= k < genes@.len() ==> r.columns_str@[k] == genes@[k].1,
            forall|k: int|
                0 <= k < genes@.len() ==> r.columns@.contains_key(genes@[k].0)
                    && r.columns@[genes@[k].0] == k as u32,
            forall|id: u128|
                r.columns@.contains_key(id) ==> exists|k: int|
                    0 <= k < genes@.len() && genes@[k].0 == id,
            r.columns@.dom().len() == genes@.len(),
            r.values@.len() == rows@.len(),
            forall|t: int|
                0 <= t < rows@.len() ==> row_encoded(#[trigger] r.values@[t], rows@[t], r.columns@),
    {
        let ghost gseq = genes@;
        let ghost rseq = rows@;
        let (columns, columns_str) = assign_columns(genes);
        proof {
            assert(forall|id: u128|
                columns@.contains_key(id) ==> (columns@[id] as int) < columns_str@.len());
        }
        let mut rest = rows;
        let total_rows: usize = rest.len();
        let mut values: Vec<LibraryRow> = Vec::new();
        let mut t: usize = 0;
        while rest.len() > 0
            invariant
                t <= rseq.len(),
                rseq.len() == total_rows,
                rest@ =~= rseq.subrange(t as int, rseq.len() as int),
                values@.len() == t,
                forall|id: u128|
                    columns@.contains_key(id) ==> (columns@[id] as int) < columns_str@.len(),
                columns_str@.len() <= MAX_COLUMNS,
                forall|u: int|
                    0 <= u < t ==> row_encoded(#[trigger] values@[u], rseq[u], columns@),
                forall|u: int, c: int|
                    0 <= u < t && 0 <= c < values@[u].gene_set.v@.len() ==> (
                    values@[u].gene_set.v@[c] as int) < columns_str@.len(),
            decreases rest@.len(),
        {
            let input = rest.remove(0);
            proof {
                assert(input == rseq[t as int]);
                assert(rest@ =~= rseq.subrange(t as int + 1, rseq.len() as int));
            }
            let gene_set = SparseBitVec::new(&columns, &input.gene_ids);
            proof {
                if columns_str@.len() < u32::MAX {
                    lemma_sparse_cols_bounded(
                        columns@,
                        input.gene_ids@,
                        columns_str@.len() as u32,
                    );
                }
            }
            let row = LibraryRow {
                id: input.id,
                term: input.term,
                title: input.title,
                attrs: input.attrs,
                sig_terms: input.sig_terms,
                score_bits: input.score_bits,
                gene_set,
            };
            values.push(row);
            t = t + 1;
        }
        let r = Bitmap { columns, columns_str, values };
        proof {
            assert(r.wf());
        }
        r
    }

    /// One line of the on-the-fly GMT export for one row: the row's term
    /// label, an empty tab-separated field, then each member gene's label,
    /// tab-separated, closed by a line feed.
    pub fn gmt_line(&self, row: usize) -> (r: Vec<u8>)
        requires
            self.wf(),
            row < self.values@.len(),
        ensures
            r@ == gmt_line_spec(
                self.values@[row as int].term@,
                self.columns_str@,
                self.values@[row as int].gene_set.v@,
            ),
    {
        let ghost label = self.values@[row as int].term@;
        let ghost cols = self.values@[row as int].gene_set.v@;
        let mut line: Vec<u8> = Vec::new();
        let term = &self.values[row].term;
        let mut i: usize = 0;
        while i < term.len()
            invariant
                i <= label.len(),
                term@ == label,
                line@ == label.take(i as int),
            decreases label.len() - i,
        {
            line.push(term[i]);
            proof {
                assert(line@ =~= label.take(i as int + 1));
            }
            i = i + 1;
        }
        proof {
            assert(label.take(label.len() as int) =~= label);
        }
        line.push(9u8);
        let ghost head = label + seq![9u8];
        proof {
            assert(line@ =~= head);
            assert(head + gmt_fields(self.columns_str@, cols.take(0)) =~= head);
        }
        let sparse = &self.values[row].gene_set;
        let mut k: usize = 0;
        while k < sparse.v.len()
            invariant
                k <= cols.len(),
                sparse.v@ == cols,
                self.wf(),
                row < self.values@.len(),
                cols == self.values@[row as int].gene_set.v@,
                forall|c: int| 0 <= c < cols.len() ==> (cols[c] as int) < self.columns_str@.len(),
                line@ == head + gmt_fields(self.columns_str@, cols.take(k as int)),
            decreases cols.len() - k,
        {
            line.push(9u8);
            let col = sparse.v[k];
            let sym = &self.columns_str[col as usize];
            let ghost symv = self.columns_str@[col as int]@;
            let ghost mid = head + gmt_fields(self.columns_str@, cols.take(k as int)) + seq![9u8];
            proof {
                assert(line@ =~= mid);
                assert(mid + symv.take(0) =~= mid);
            }
            let mut j: usize = 0;
            while j < sym.len()
                invariant
                    j <= symv.len(),
                    sym@ == symv,
                    line@ == mid + symv.take(j as int),
                decreases symv.len() - j,
            {
                line.push(sym[j]);
                proof {
                    assert(line@ =~= mid + symv.take(j as int + 1));
                }
                j = j + 1;
            }
            proof {
                assert(symv.take(symv.len() as int) =~= symv);
                assert(cols.take(k as int + 1).drop_last() =~= cols.take(k as int));
                assert(cols.take(k as int + 1).last() == cols[k as int]);
                assert(line@ =~= head + gmt_fields(self.columns_str@, cols.take(k as int + 1)));
            }
            k = k + 1;
        }
        line.push(10u8);
        proof {
            assert(cols.take(cols.len() as int) =~= cols);
            assert(line@ =~= gmt_line_spec(label, self.columns_str@, cols));
        }
        line
    }
}

/// The tab-prefixed member labels of one row, in the row's column order.
pub open spec fn gmt_fields(cols_str: Seq<Vec<u8>>, cols: Seq<u32>) -> Seq<u8>
    decreases cols.len(),
{
    if cols.len() == 0 {
        Seq::empty()
    } else {
        gmt_fields(cols_str, cols.drop_last()) + seq![9u8] + cols_str[cols.last() as int]@
    }
}

/// One export line: label, tab, the tab-prefixed member labels, line feed.
/// The field after the label is empty, so the label is followed by two tabs
/// whenever the row has members.
pub open spec fn gmt_line_spec(label: Seq<u8>, cols_str: Seq<Vec<u8>>, cols: Seq<u32>) -> Seq<u8> {
    label + seq![9u8] + gmt_fields(cols_str, cols) + seq![10u8]
}

} // verus!
