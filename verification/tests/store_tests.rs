use local_search::errors::{OpenError, SearchError};
use local_search::store::VectorStore;

fn le_bytes_of(vals: &[f32]) -> Vec<u8> {
    let mut out = Vec::new();
    for v in vals {
        out.extend_from_slice(&v.to_le_bytes());
    }
    out
}

#[test]
fn open_rejects_unaligned_byte_length() {
    let bytes = [0u8; 7];
    let r = VectorStore::open(&bytes, 4);
    assert!(matches!(r, Err(OpenError::InvalidFormat { len: 7 })));
}

#[test]
fn open_rejects_zero_dims() {
    let bytes = [0u8; 8];
    let r = VectorStore::open(&bytes, 0);
    assert!(matches!(r, Err(OpenError::ZeroDims)));
}

#[test]
fn open_rejects_length_not_divisible_by_dims() {
    // Three floats cannot form whole two-dimensional vectors.
    let bytes = [0u8; 12];
    let r = VectorStore::open(&bytes, 2);
    assert!(matches!(r, Err(OpenError::LengthNotDivisible { floats: 3, dims: 2 })));
}

#[test]
fn open_decodes_little_endian_patterns() {
    let vals = [1.0f32, -2.5f32, 0.25f32, 3.5f32];
    let bytes = le_bytes_of(&vals);
    let store = VectorStore::open(&bytes, 2).unwrap();
    assert_eq!(store.dims(), 2);
    assert_eq!(store.len(), 2);
    let row0 = store.vector_bits(0);
    assert_eq!(row0, &[1.0f32.to_bits(), (-2.5f32).to_bits()]);
    let row1 = store.vector_bits(1);
    assert_eq!(row1, &[0.25f32.to_bits(), 3.5f32.to_bits()]);
}

#[test]
fn open_empty_file_has_no_rows() {
    let bytes: Vec<u8> = Vec::new();
    let store = VectorStore::open(&bytes, 1024).unwrap();
    assert_eq!(store.len(), 0);
    assert_eq!(store.dims(), 1024);
}

#[test]
fn empty_store_returns_no_hits_for_any_top_k() {
    let bytes: Vec<u8> = Vec::new();
    let store = VectorStore::open(&bytes, 1024).unwrap();
    let scores: Vec<u32> = Vec::new();
    for k in [0usize, 1, 10, 50] {
        let hits = store.search_top_k(1024, &scores, k).unwrap();
        assert!(hits.is_empty());
    }
}

#[test]
fn search_rejects_dimension_mismatch_before_scanning() {
    let bytes = le_bytes_of(&[1.0, 0.0, 0.0, 1.0]);
    let store = VectorStore::open(&bytes, 2).unwrap();
    let scores = vec![1.0f32.to_bits(), 0.5f32.to_bits()];
    let r = store.search_top_k(3, &scores, 5);
    assert!(matches!(r, Err(SearchError::DimensionMismatch { got: 3, expected: 2 })));
}

#[test]
fn search_returns_min_of_k_and_len_sorted_descending() {
    let bytes = le_bytes_of(&[0.0, 0.0, 0.0, 0.0]);
    let store = VectorStore::open(&bytes, 1).unwrap();
    let scores = vec![
        0.1f32.to_bits(),
        0.9f32.to_bits(),
        (-0.5f32).to_bits(),
        0.4f32.to_bits(),
    ];
    let two = store.search_top_k(1, &scores, 2).unwrap();
    assert_eq!(two, vec![(1, 0.9f32.to_bits()), (3, 0.4f32.to_bits())]);
    let all = store.search_top_k(1, &scores, 10).unwrap();
    assert_eq!(
        all,
        vec![
            (1, 0.9f32.to_bits()),
            (3, 0.4f32.to_bits()),
            (0, 0.1f32.to_bits()),
            (2, (-0.5f32).to_bits()),
        ]
    );
    // A request of zero hits is raised to one.
    let one = store.search_top_k(1, &scores, 0).unwrap();
    assert_eq!(one, vec![(1, 0.9f32.to_bits())]);
}

#[test]
fn search_skips_nan_scores() {
    let bytes = le_bytes_of(&[0.0, 0.0, 0.0]);
    let store = VectorStore::open(&bytes, 1).unwrap();
    let scores = vec![0.2f32.to_bits(), f32::NAN.to_bits(), 0.7f32.to_bits()];
    let hits = store.search_top_k(1, &scores, 10).unwrap();
    assert_eq!(hits, vec![(2, 0.7f32.to_bits()), (0, 0.2f32.to_bits())]);
}

#[test]
fn search_breaks_score_ties_by_ascending_row() {
    let bytes = le_bytes_of(&[0.0, 0.0, 0.0]);
    let store = VectorStore::open(&bytes, 1).unwrap();
    let scores = vec![0.5f32.to_bits(), 0.5f32.to_bits(), 0.5f32.to_bits()];
    let hits = store.search_top_k(1, &scores, 3).unwrap();
    assert_eq!(
        hits,
        vec![(0, 0.5f32.to_bits()), (1, 0.5f32.to_bits()), (2, 0.5f32.to_bits())]
    );
}

#[test]
fn search_orders_negative_scores_correctly() {
    let bytes = le_bytes_of(&[0.0, 0.0, 0.0]);
    let store = VectorStore::open(&bytes, 1).unwrap();
    let scores = vec![(-0.25f32).to_bits(), (-1.0f32).to_bits(), 0.0f32.to_bits()];
    let hits = store.search_top_k(1, &scores, 3).unwrap();
    assert_eq!(
        hits,
        vec![
            (2, 0.0f32.to_bits()),
            (0, (-0.25f32).to_bits()),
            (1, (-1.0f32).to_bits()),
        ]
    );
}

#[test]
fn concurrent_style_searches_are_independent_and_repeatable() {
    let bytes = le_bytes_of(&[0.0, 0.0, 0.0, 0.0]);
    let store = VectorStore::open(&bytes, 1).unwrap();
    let scores_a = vec![
        0.9f32.to_bits(),
        0.1f32.to_bits(),
        0.5f32.to_bits(),
        0.3f32.to_bits(),
    ];
    let scores_b = vec![
        0.1f32.to_bits(),
        0.9f32.to_bits(),
        0.2f32.to_bits(),
        0.8f32.to_bits(),
    ];
    let a1 = store.search_top_k(1, &scores_a, 2).unwrap();
    let b1 = store.search_top_k(1, &scores_b, 2).unwrap();
    let a2 = store.search_top_k(1, &scores_a, 2).unwrap();
    let b2 = store.search_top_k(1, &scores_b, 2).unwrap();
    assert_eq!(a1, a2);
    assert_eq!(b1, b2);
    assert_eq!(a1, vec![(0, 0.9f32.to_bits()), (2, 0.5f32.to_bits())]);
    assert_eq!(b1, vec![(1, 0.9f32.to_bits()), (3, 0.8f32.to_bits())]);
}
