use local_search::builder::{default_doc_id, fmt_u64, Document, IndexBuild};
use local_search::errors::BuildError;

fn doc(id: &str, manga_id: i64) -> Document {
    Document {
        doc_id: id.to_string(),
        manga_id,
        title: format!("title of {id}"),
        text: format!("text of {id}"),
    }
}

fn unit_vector_bits(dims: usize, axis: usize) -> Vec<u32> {
    let mut v = vec![0.0f32.to_bits(); dims];
    v[axis] = 1.0f32.to_bits();
    v
}

#[test]
fn fmt_u64_writes_decimal() {
    assert_eq!(fmt_u64(0), "0");
    assert_eq!(fmt_u64(7), "7");
    assert_eq!(fmt_u64(10), "10");
    assert_eq!(fmt_u64(1234567890), "1234567890");
    assert_eq!(fmt_u64(u64::MAX), "18446744073709551615");
}

#[test]
fn default_doc_id_prefixes_the_row() {
    assert_eq!(default_doc_id(0), "manga:0");
    assert_eq!(default_doc_id(42), "manga:42");
}

#[test]
fn empty_build_has_zero_length_vector_file() {
    let b = IndexBuild::new(1024);
    assert_eq!(b.doc_count(), 0);
    assert!(b.vector_file().is_empty());
}

#[test]
fn two_records_make_an_8192_byte_file_with_two_mapped_rows() {
    let mut b = IndexBuild::new(1024);
    b.add_record(doc("a", 1), &unit_vector_bits(1024, 0)).unwrap();
    b.add_record(doc("b", 2), &unit_vector_bits(1024, 1)).unwrap();
    assert_eq!(b.doc_count(), 2);
    assert_eq!(b.vector_file().len(), 2 * 1024 * 4);
    let docs = b.documents();
    assert_eq!(docs[0].doc_id, "a");
    assert_eq!(docs[1].doc_id, "b");
    assert_ne!(docs[0].doc_id, docs[1].doc_id);
}

#[test]
fn vector_file_bytes_are_little_endian_row_major() {
    let mut b = IndexBuild::new(2);
    b.add_record(doc("a", 1), &vec![1.0f32.to_bits(), (-2.5f32).to_bits()]).unwrap();
    let mut expected = Vec::new();
    expected.extend_from_slice(&1.0f32.to_le_bytes());
    expected.extend_from_slice(&(-2.5f32).to_le_bytes());
    assert_eq!(b.vector_file().as_slice(), expected.as_slice());
}

#[test]
fn duplicate_doc_id_aborts_the_build() {
    let mut b = IndexBuild::new(2);
    b.add_record(doc("a", 1), &unit_vector_bits(2, 0)).unwrap();
    let r = b.add_record(doc("a", 2), &unit_vector_bits(2, 1));
    assert!(matches!(r, Err(BuildError::DuplicateDocId { row: 1 })));
    // The rejected record left the build unchanged.
    assert_eq!(b.doc_count(), 1);
    assert_eq!(b.vector_file().len(), 2 * 4);
}
