use std::collections::HashMap;

use enrich::bitvec::{compute_overlap, overlap_prefilter, DenseBitVec, SparseBitVec};
use enrich::fingerprint::QueryFingerprint;
use enrich::index::{sort_genes, Bitmap, RowInput};
use enrich::paging::paginate;
use enrich::stats::contingency;
use enrich::store::{resolve_requested, IndexStore};
use enrich::text::{contains_sub, direction_of, matches_filter, to_lowercase};
use enrich::EnrichError;

fn background3() -> HashMap<u128, u32> {
    let mut m = HashMap::new();
    m.insert(1u128, 0u32);
    m.insert(2u128, 1u32);
    m.insert(3u128, 2u32);
    m
}

#[test]
fn sparse_keeps_order_and_duplicates() {
    let m = background3();
    let ids: Vec<u128> = vec![1, 1, 2];
    let s = SparseBitVec::new(&m, &ids);
    assert_eq!(s.v, vec![0u32, 0, 1]);
}

#[test]
fn sparse_drops_unmapped_ids() {
    let m = background3();
    let ids: Vec<u128> = vec![9, 2, 9, 3];
    let s = SparseBitVec::new(&m, &ids);
    assert_eq!(s.v, vec![1u32, 2]);
}

#[test]
fn dense_collapses_duplicates() {
    let m = background3();
    let ids: Vec<u128> = vec![2, 2, 2, 1];
    let d = DenseBitVec::new(&m, &ids);
    assert_eq!(d.v, vec![1u8, 1, 0]);
    assert_eq!(d.n, 2);
}

#[test]
fn dense_ignores_unknown_ids() {
    // Background {g1,g2,g3} at columns {0,1,2}; input {g1,g2,g4} with g4
    // unknown: two distinct flags over columns {0,1}.
    let m = background3();
    let ids: Vec<u128> = vec![1, 2, 4];
    let d = DenseBitVec::new(&m, &ids);
    assert_eq!(d.v, vec![1u8, 1, 0]);
    assert_eq!(d.n, 2);
}

#[test]
fn overlap_counts_set_indices_with_duplicates() {
    let m = background3();
    let d = DenseBitVec::new(&m, &vec![1, 3]);
    assert_eq!(d.v, vec![1u8, 0, 1]);
    let s = SparseBitVec { v: vec![0, 1, 2, 2] };
    assert_eq!(compute_overlap(&d, &s), 3);
}

#[test]
fn overlap_of_empty_sparse_is_zero() {
    let m = background3();
    let d = DenseBitVec::new(&m, &vec![1, 2, 3]);
    let s = SparseBitVec { v: vec![] };
    assert_eq!(compute_overlap(&d, &s), 0);
}

#[test]
fn prefilter_discards_low_overlap_rows() {
    let m = background3();
    let d = DenseBitVec::new(&m, &vec![1]);
    let row = SparseBitVec::new(&m, &vec![1, 2, 3]);
    assert_eq!(overlap_prefilter(&d, &row, 1), Some(1));
    assert_eq!(overlap_prefilter(&d, &row, 2), None);
}

#[test]
fn overlap_end_to_end_row() {
    // One row with members {g1,g2}; query {g1,g2,g4}: overlap 2, margins
    // a=2, b=0, c=0 against a 3-gene background.
    let m = background3();
    let d = DenseBitVec::new(&m, &vec![1, 2, 4]);
    let row = SparseBitVec::new(&m, &vec![1, 2]);
    let n_overlap = compute_overlap(&d, &row);
    assert_eq!(n_overlap, 2);
    let t = contingency(n_overlap, d.n as u32, row.v.len() as u32, 3);
    assert_eq!((t.a, t.b, t.c), (2, 0, 0));
    assert_eq!(t.d, 3 - t.b - t.c + t.a);
}

#[test]
fn fingerprints_ignore_order_and_duplicates() {
    let m = background3();
    let d1 = DenseBitVec::new(&m, &vec![1, 2, 2, 4]);
    let d2 = DenseBitVec::new(&m, &vec![4, 2, 1, 1, 1]);
    let f1 = QueryFingerprint { background_id: 77, dense: d1 };
    let f2 = QueryFingerprint { background_id: 77, dense: d2 };
    assert!(f1 == f2);
}

#[test]
fn fingerprints_differ_across_backgrounds_and_sets() {
    let m = background3();
    let d1 = DenseBitVec::new(&m, &vec![1, 2]);
    let d2 = DenseBitVec::new(&m, &vec![1, 2]);
    let d3 = DenseBitVec::new(&m, &vec![1, 3]);
    let f1 = QueryFingerprint { background_id: 77, dense: d1 };
    let f2 = QueryFingerprint { background_id: 78, dense: d2 };
    let f3 = QueryFingerprint { background_id: 77, dense: d3 };
    assert!(f1 != f2);
    assert!(f1 != f3);
}

#[test]
fn contingency_zero_overlap() {
    let t = contingency(0, 2, 3, 10);
    assert_eq!((t.a, t.b, t.c, t.d), (0, 2, 3, 5));
}

#[test]
fn contingency_full_overlap() {
    let t = contingency(2, 2, 2, 3);
    assert_eq!((t.a, t.b, t.c, t.d), (2, 0, 0, 5));
}

#[test]
fn pagination_offset_and_limit() {
    // Ten results, offset 3, limit 4: positions 3..6, content range 3-7/10.
    let items: Vec<u32> = (0..10).collect();
    let (page, start, end, total) = paginate(items, 3, Some(4));
    assert_eq!(page, vec![3, 4, 5, 6]);
    assert_eq!((start, end, total), (3, 7, 10));
}

#[test]
fn pagination_without_limit() {
    let items: Vec<u32> = (0..5).collect();
    let (page, start, end, total) = paginate(items, 0, None);
    assert_eq!(page, vec![0, 1, 2, 3, 4]);
    assert_eq!((start, end, total), (0, 5, 5));

    let items: Vec<u32> = (0..5).collect();
    let (page, start, end, total) = paginate(items, 2, None);
    assert_eq!(page, vec![2, 3, 4]);
    assert_eq!((start, end, total), (2, 5, 5));
}

#[test]
fn pagination_offset_past_end_keeps_list() {
    let items: Vec<u32> = (0..3).collect();
    let (page, start, end, total) = paginate(items, 5, Some(2));
    assert_eq!(page, vec![0, 1, 2]);
    assert_eq!((start, end, total), (5, 8, 3));
}

#[test]
fn direction_is_last_token() {
    assert_eq!(direction_of(&b"GSE1234 disease up".to_vec()), b"up".to_vec());
    assert_eq!(direction_of(&b"term dn  \t ".to_vec()), b"dn".to_vec());
    assert_eq!(direction_of(&b"single".to_vec()), b"single".to_vec());
    assert_eq!(direction_of(&b"".to_vec()), b"".to_vec());
    assert_eq!(direction_of(&b" \t\n".to_vec()), b"".to_vec());
}

#[test]
fn substring_search() {
    assert!(contains_sub(&b"hello world".to_vec(), &b"lo wo".to_vec()));
    assert!(contains_sub(&b"abc".to_vec(), &b"".to_vec()));
    assert!(!contains_sub(&b"abc".to_vec(), &b"abcd".to_vec()));
    assert!(!contains_sub(&b"abc".to_vec(), &b"ac".to_vec()));
}

#[test]
fn lowercase_is_ascii_fold() {
    assert_eq!(to_lowercase(&b"AbC xY-9".to_vec()), b"abc xy-9".to_vec());
}

#[test]
fn filter_matches_any_field_case_insensitively() {
    let title = b"Tumor Study".to_vec();
    let term = b"GSE1 up".to_vec();
    let attrs = b"Homo Sapiens".to_vec();
    let sig = b"TP53 MYC".to_vec();
    assert!(matches_filter(&title, &term, &attrs, &sig, &b"tumor".to_vec()));
    assert!(matches_filter(&title, &term, &attrs, &sig, &b"gse1".to_vec()));
    assert!(matches_filter(&title, &term, &attrs, &sig, &b"SAPIENS".to_vec()));
    assert!(matches_filter(&title, &term, &attrs, &sig, &b"tp53".to_vec()));
    assert!(!matches_filter(&title, &term, &attrs, &sig, &b"kidney".to_vec()));
}

fn row(id: u128, term: &[u8], members: Vec<u128>) -> RowInput {
    RowInput {
        id,
        term: term.to_vec(),
        title: b"title".to_vec(),
        attrs: Vec::new(),
        sig_terms: Vec::new(),
        score_bits: 0,
        gene_ids: members,
    }
}

#[test]
fn sort_orders_universe_by_identifier() {
    let genes: Vec<(u128, Vec<u8>)> =
        vec![(3, b"C".to_vec()), (1, b"A".to_vec()), (2, b"B".to_vec())];
    let sorted = sort_genes(genes);
    let ids: Vec<u128> = sorted.iter().map(|p| p.0).collect();
    assert_eq!(ids, vec![1, 2, 3]);
    assert_eq!(sorted[0].1, b"A".to_vec());
}

#[test]
fn build_assigns_columns_in_sorted_order() {
    let genes = sort_genes(vec![(2, b"B".to_vec()), (1, b"A".to_vec()), (3, b"C".to_vec())]);
    let rows = vec![row(100, b"set one up", vec![1, 2, 2, 9])];
    let bm = Bitmap::build(genes, rows);
    assert_eq!(bm.column_count(), 3);
    assert_eq!(bm.row_count(), 1);
    assert_eq!(bm.columns.get(&1), Some(&0u32));
    assert_eq!(bm.columns.get(&2), Some(&1u32));
    assert_eq!(bm.columns.get(&3), Some(&2u32));
    // duplicates in source data are kept, unknown members dropped
    assert_eq!(bm.values[0].gene_set.v, vec![0u32, 1, 1]);
}

#[test]
fn gmt_line_has_empty_second_field() {
    let genes = sort_genes(vec![(2, b"B".to_vec()), (1, b"A".to_vec())]);
    let rows = vec![row(100, b"myset", vec![2, 1])];
    let bm = Bitmap::build(genes, rows);
    assert_eq!(bm.gmt_line(0), b"myset\t\tB\tA\n".to_vec());
}

#[test]
fn gmt_line_of_empty_row() {
    let genes = sort_genes(vec![(1, b"A".to_vec())]);
    let rows = vec![row(100, b"empty", vec![])];
    let bm = Bitmap::build(genes, rows);
    assert_eq!(bm.gmt_line(0), b"empty\t\n".to_vec());
}

#[test]
fn store_registers_and_serves() {
    let mut store = IndexStore::new();
    assert!(!store.contains_key(5));
    store.register(5, Bitmap::new());
    assert!(store.contains_key(5));
    assert!(store.get(5).is_some());
    assert!(store.get(6).is_none());
}

#[test]
fn deleting_unknown_background_is_not_found() {
    let mut store = IndexStore::new();
    match store.delete(5) {
        Err(EnrichError::NotFound) => {}
        _ => panic!("expected not-found"),
    }
    store.register(5, Bitmap::new());
    assert!(store.delete(5).is_ok());
    // idempotence under races: the second delete reports not-found
    match store.delete(5) {
        Err(EnrichError::NotFound) => {}
        _ => panic!("expected not-found"),
    }
    // a query after deletion sees no index and must trigger a full rebuild
    assert!(!store.contains_key(5));
}

#[test]
fn latest_sentinel_resolution() {
    let mut store = IndexStore::new();
    match store.resolve(None) {
        Err(EnrichError::NotFound) => {}
        _ => panic!("expected not-found"),
    }
    assert_eq!(store.resolve(Some(9)).ok(), Some(9));
    store.set_latest(4);
    assert_eq!(store.resolve(None).ok(), Some(4));
    assert_eq!(resolve_requested(Some(1), None).ok(), Some(1));
    assert_eq!(resolve_requested(None, Some(2)).ok(), Some(2));
    assert!(resolve_requested(None, None).is_err());
}

#[test]
fn error_codes_follow_taxonomy() {
    assert_eq!(EnrichError::MalformedIdentifier.code(), 400);
    assert_eq!(EnrichError::NotFound.code(), 404);
    assert_eq!(EnrichError::UpstreamFailure.code(), 500);
}
