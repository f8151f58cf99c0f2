//! The index builder: per-record field defaults, and the accumulator that
//! grows the vector file and the row-to-document mapping in lockstep.
//!
//! A build appends one unit-normalized vector (as 32-bit little-endian
//! patterns) and one document record per corpus row; the two stay in
//! one-to-one correspondence by row, document ids stay distinct, and the
//! finished file's length is exactly rows x dimensions x 4 bytes.

use vstd::bytes::spec_u32_to_le_bytes;
use vstd::prelude::*;
use vstd::string::StringExecFns;

use crate::corpus::CorpusRecord;
use crate::errors::BuildError;
use crate::text::push_char;

verus! {

/// Everything one build run needs to know: where the corpus is, where the
/// index goes, where the embedding model and its tokenizer live, and how
/// many tokens of each document the embedder may read.  Paths are carried
/// as plain strings; the caller that does the file work interprets them.
pub struct BuildIndexConfig {
    pub input: String,
    pub out_dir: String,
    pub model_path: String,
    pub tokenizer_path: String,
    pub ort_dylib_path: Option<String>,
    pub doc_max_length: usize,
}

/// One indexed document: the metadata row that a search hit joins back to.
pub struct Document {
    pub doc_id: String,
    pub manga_id: i64,
    pub title: String,
    pub text: String,
}

/// The decimal digit characters.
pub open spec fn spec_digit_char(d: int) -> char {
    if d == 0 {
        '0'
    } else if d == 1 {
        '1'
    } else if d == 2 {
        '2'
    } else if d == 3 {
        '3'
    } else if d == 4 {
        '4'
    } else if d == 5 {
        '5'
    } else if d == 6 {
        '6'
    } else if d == 7 {
        '7'
    } else if d == 8 {
        '8'
    } else {
        '9'
    }
}

/// The usual decimal spelling of a number, no sign and no leading zero
/// except for the number zero itself.
pub open spec fn spec_dec_digits(n: nat) -> Seq<char>
    decreases n,
{
    if n < 10 {
        seq![spec_digit_char(n as int)]
    } else {
        spec_dec_digits(n / 10).push(spec_digit_char((n % 10) as int))
    }
}

/// Appends one decimal digit character.
fn push_digit(s: &mut String, d: u64)
    requires
        d < 10,
    ensures
        final(s)@ == old(s)@.push(spec_digit_char(d as int)),
{
    let c: char = match d {
        0 => '0',
        1 => '1',
        2 => '2',
        3 => '3',
        4 => '4',
        5 => '5',
        6 => '6',
        7 => '7',
        8 => '8',
        _ => '9',
    };
    push_char(s, c);
}

/// Writes a number in decimal.
pub fn fmt_u64(n: u64) -> (r: String)
    ensures
        r@ == spec_dec_digits(n as nat),
    decreases n,
{
    let mut s: String = if n >= 10 {
        fmt_u64(n / 10)
    } else {
        String::new()
    };
    push_digit(&mut s, n % 10);
    proof {
        if n < 10 {
            assert(Seq::<char>::empty().push(spec_digit_char(n as int)) =~= seq![
                spec_digit_char(n as int),
            ]);
        }
    }
    s
}

/// The document id given to a record that brings none: the row number
/// under a fixed prefix.
pub open spec fn spec_default_doc_id(row: nat) -> Seq<char> {
    "manga:"@ + spec_dec_digits(row)
}

/// Builds the default document id of a row.
pub fn default_doc_id(row: u64) -> (r: String)
    ensures
        r@ == spec_default_doc_id(row as nat),
{
    let mut s = String::from_str("manga:");
    let digits = fmt_u64(row);
    s.append(digits.as_str());
    s
}

/// Fills a record's missing fields with the per-row defaults: the row
/// number stands in for a missing document id (prefixed) and a missing
/// numeric id (as is), a fixed placeholder for a missing title, and the
/// empty string for missing text.
pub fn apply_defaults(rec: CorpusRecord, row: u64) -> (d: Document)
    requires
        row <= i64::MAX as u64,
    ensures
        d.doc_id@ == match rec.doc_id {
            Some(id) => id@,
            None => spec_default_doc_id(row as nat),
        },
        d.manga_id == match rec.manga_id {
            Some(m) => m,
            None => row as i64,
        },
        d.title@ == match rec.title {
            Some(t) => t@,
            None => "(no title)"@,
        },
        d.text@ == match rec.text {
            Some(t) => t@,
            None => Seq::<char>::empty(),
        },
{
    let doc_id = match rec.doc_id {
        Some(id) => id,
        None => default_doc_id(row),
    };
    let manga_id = match rec.manga_id {
        Some(m) => m,
        None => row as i64,
    };
    let title = match rec.title {
        Some(t) => t,
        None => String::from_str("(no title)"),
    };
    let text = match rec.text {
        Some(t) => t,
        None => String::new(),
    };
    Document { doc_id, manga_id, title, text }
}

/// The little-endian byte image of a sequence of 32-bit patterns: the
/// on-disk form of a vector.
pub open spec fn le_bytes_of_words(s: Seq<u32>) -> Seq<u8>
    decreases s.len(),
{
    if s.len() == 0 {
        Seq::empty()
    } else {
        le_bytes_of_words(s.drop_last()) + spec_u32_to_le_bytes(s.last())
    }
}

/// Each word contributes four bytes.
pub proof fn lemma_le_bytes_len(s: Seq<u32>)
    ensures
        le_bytes_of_words(s).len() == 4 * s.len(),
    decreases s.len(),
{
    if s.len() > 0 {
        lemma_le_bytes_len(s.drop_last());
        vstd::bytes::lemma_auto_spec_u32_to_from_le_bytes();
    }
}

/// Appending vector words appends their byte images: a file written one
/// vector at a time is the image of all its words in order.
pub proof fn lemma_le_bytes_concat(a: Seq<u32>, b: Seq<u32>)
    ensures
        le_bytes_of_words(a + b) == le_bytes_of_words(a) + le_bytes_of_words(b),
    decreases b.len(),
{
    if b.len() == 0 {
        assert(a + b =~= a);
        assert(le_bytes_of_words(a) + le_bytes_of_words(b) =~= le_bytes_of_words(a));
    } else {
        lemma_le_bytes_concat(a, b.drop_last());
        assert((a + b).drop_last() =~= a + b.drop_last());
        assert((a + b).last() == b.last());
        assert((le_bytes_of_words(a) + le_bytes_of_words(b.drop_last())) + spec_u32_to_le_bytes(
            b.last(),
        ) =~= le_bytes_of_words(a) + (le_bytes_of_words(b.drop_last()) + spec_u32_to_le_bytes(
            b.last(),
        )));
    }
}

/// Decoding the little-endian image of a word sequence gives back exactly
/// those words: a vector file written by a build opens to the very
/// vectors that were appended to it.
pub proof fn lemma_le_bytes_roundtrip(words: Seq<u32>)
    ensures
        forall|i: int|
            0 <= i < words.len() ==> vstd::bytes::spec_u32_from_le_bytes(
                #[trigger] le_bytes_of_words(words).subrange(4 * i, 4 * i + 4),
            ) == words[i],
    decreases words.len(),
{
    if words.len() > 0 {
        lemma_le_bytes_roundtrip(words.drop_last());
        lemma_le_bytes_len(words.drop_last());
        vstd::bytes::lemma_auto_spec_u32_to_from_le_bytes();
        let prefix = le_bytes_of_words(words.drop_last());
        let whole = le_bytes_of_words(words);
        assert forall|i: int|
            0 <= i < words.len() implies vstd::bytes::spec_u32_from_le_bytes(
            #[trigger] whole.subrange(4 * i, 4 * i + 4),
        ) == words[i] by {
            if i < words.len() - 1 {
                assert(whole.subrange(4 * i, 4 * i + 4) =~= prefix.subrange(4 * i, 4 * i + 4));
                assert(words.drop_last()[i] == words[i]);
            } else {
                assert(whole.subrange(4 * i, 4 * i + 4) =~= spec_u32_to_le_bytes(words.last()));
            }
        }
    }
}

/// One more word appends its four bytes at the end.
proof fn lemma_le_bytes_take_step(s: Seq<u32>, i: int)
    requires
        0 <= i < s.len(),
    ensures
        le_bytes_of_words(s.take(i + 1)) == le_bytes_of_words(s.take(i)) + spec_u32_to_le_bytes(
            s[i],
        ),
{
    assert(s.take(i + 1).drop_last() =~= s.take(i));
    assert(s.take(i + 1).last() == s[i]);
}

/// An index under construction: the bytes of the vector file so far, and
/// the documents of rows `0..count`, in row order.
pub struct IndexBuild {
    dims: usize,
    vec_bytes: Vec<u8>,
    docs: Vec<Document>,
}

impl IndexBuild {
    /// The dimension count every appended vector must have.
    pub closed spec fn spec_dims(self) -> int {
        self.dims as int
    }

    /// The documents so far; position is row number.
    pub closed spec fn spec_docs(self) -> Seq<Document> {
        self.docs@
    }

    /// The vector file contents so far.
    pub closed spec fn spec_bytes(self) -> Seq<u8> {
        self.vec_bytes@
    }

    /// A build is well formed when the file holds exactly four bytes per
    /// dimension per row and no two rows share a document id.
    pub open spec fn wf(self) -> bool {
        &&& self.spec_dims() > 0
        &&& self.spec_bytes().len() == self.spec_docs().len() * self.spec_dims() * 4
        &&& forall|i: int, j: int|
            0 <= i < j < self.spec_docs().len() ==> self.spec_docs()[i].doc_id@
                != self.spec_docs()[j].doc_id@
    }

    /// Starts an empty build.
    pub fn new(dims: usize) -> (b: IndexBuild)
        requires
            dims > 0,
        ensures
            b.wf(),
            b.spec_dims() == dims,
            b.spec_docs() == Seq::<Document>::empty(),
            b.spec_bytes() == Seq::<u8>::empty(),
    {
        let b = IndexBuild { dims, vec_bytes: Vec::new(), docs: Vec::new() };
        proof {
            assert(b.spec_docs() =~= Seq::<Document>::empty());
            assert(b.spec_bytes() =~= Seq::<u8>::empty());
        }
        b
    }

    /// Appends one row: the document's vector, given as 32-bit patterns,
    /// goes to the file in little-endian order, and the document itself
    /// takes the next row number.  A document id already present is
    /// rejected unchanged, since it would break the one-to-one mapping.
    pub fn add_record(&mut self, doc: Document, emb_bits: &Vec<u32>) -> (r: Result<(), BuildError>)
        requires
            old(self).wf(),
            emb_bits@.len() == old(self).spec_dims(),
        ensures
            final(self).wf(),
            final(self).spec_dims() == old(self).spec_dims(),
            r is Err <==> exists|i: int|
                0 <= i < old(self).spec_docs().len() && old(self).spec_docs()[i].doc_id@
                    == doc.doc_id@,
            match r {
                Ok(()) => {
                    &&& final(self).spec_docs() == old(self).spec_docs().push(doc)
                    &&& final(self).spec_bytes() == old(self).spec_bytes() + le_bytes_of_words(
                        emb_bits@,
                    )
                },
                Err(e) => {
                    &&& e == (BuildError::DuplicateDocId { row: old(self).spec_docs().len() as usize })
                    &&& final(self).spec_docs() == old(self).spec_docs()
                    &&& final(self).spec_bytes() == old(self).spec_bytes()
                },
            },
    {
        let mut j: usize = 0;
        let ndocs = self.docs.len();
        while j < ndocs
            invariant
                j <= ndocs,
                ndocs == self.docs@.len(),
                *self == *old(self),
                old(self).wf(),
                forall|m: int| 0 <= m < j ==> self.docs@[m].doc_id@ != doc.doc_id@,
            decreases ndocs - j,
        {
            if self.docs[j].doc_id == doc.doc_id {
                proof {
                    assert(0 <= j < old(self).spec_docs().len() && old(self).spec_docs()[
                        j as int
                    ].doc_id@ == doc.doc_id@);
                    assert(*self == *old(self));
                    assert(self.wf());
                }
                return Err(BuildError::DuplicateDocId { row: ndocs });
            }
            j = j + 1;
        }
        let ghost old_bytes = self.vec_bytes@;
        let mut k: usize = 0;
        let dims = self.dims;
        proof {
            assert(emb_bits@.take(0) =~= Seq::<u32>::empty());
        }
        while k < dims
            invariant
                k <= dims,
                dims == emb_bits@.len(),
                self.vec_bytes@ == old_bytes + le_bytes_of_words(emb_bits@.take(k as int)),
                self.dims == old(self).dims,
                self.docs == old(self).docs,
            decreases dims - k,
        {
            let mut wb = vstd::bytes::u32_to_le_bytes(emb_bits[k]);
            self.vec_bytes.append(&mut wb);
            proof {
                lemma_le_bytes_take_step(emb_bits@, k as int);
            }
            k = k + 1;
        }
        self.docs.push(doc);
        proof {
            assert(emb_bits@.take(emb_bits@.len() as int) =~= emb_bits@);
            lemma_le_bytes_len(emb_bits@);
            let blen = final(self).spec_bytes().len() as int;
            let nd = old(self).spec_docs().len() as int;
            let d = old(self).spec_dims();
            assert(blen == (nd + 1) * d * 4) by (nonlinear_arith)
                requires
                    blen == nd * d * 4 + 4 * d,
            ;
        }
        Ok(())
    }

    /// The dimension count.
    pub fn dims(&self) -> (r: usize)
        ensures
            r as int == self.spec_dims(),
    {
        self.dims
    }

    /// The number of rows appended so far.
    pub fn doc_count(&self) -> (n: usize)
        ensures
            n == self.spec_docs().len(),
    {
        self.docs.len()
    }

    /// The vector file contents, ready to be persisted.
    pub fn vector_file(&self) -> (b: &Vec<u8>)
        ensures
            b@ == self.spec_bytes(),
    {
        &self.vec_bytes
    }

    /// The documents in row order: row `i`'s metadata is `documents()[i]`.
    pub fn documents(&self) -> (d: &Vec<Document>)
        ensures
            d@ == self.spec_docs(),
    {
        &self.docs
    }
}

/// For every well-formed build of `N` documents, the vector file holds
/// exactly `N * D * 4` bytes, and the row mapping has exactly `N` entries
/// — the documents in row order — with all document ids distinct.
pub proof fn lemma_index_shape(b: IndexBuild)
    requires
        b.wf(),
    ensures
        b.spec_bytes().len() == b.spec_docs().len() * b.spec_dims() * 4,
        forall|i: int, j: int|
            0 <= i < j < b.spec_docs().len() ==> b.spec_docs()[i].doc_id@
                != b.spec_docs()[j].doc_id@,
{
}

} // verus!
