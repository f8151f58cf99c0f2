//! Corpus reading: a corpus is either newline-delimited JSON records —
//! detected by its first non-blank line starting with `{` — or, as a
//! fallback, one plain-text document holding the whole input.

use vstd::prelude::*;
use vstd::string::StringExecFns;

use crate::errors::BuildError;
use crate::json::{line_parses, parse_record_line, record_matches_line};
use crate::text::{first_nonspace_char, spec_lines, split_lines, trim_front, trim_str, trimmed};

verus! {

/// One corpus record as read from the input, every field optional; the
/// index builder fills the gaps with per-row defaults.
pub struct CorpusRecord {
    pub doc_id: Option<String>,
    pub manga_id: Option<i64>,
    pub title: Option<String>,
    pub text: Option<String>,
}

/// Whether a corpus text is in the JSON-lines form: its first non-blank
/// line starts with `{`, which is the same as its first non-whitespace
/// character being `{`.
pub open spec fn json_mode(s: Seq<char>) -> bool {
    trim_front(s).len() > 0 && trim_front(s)[0] == '{'
}

/// The non-blank lines of a split text, in order: a JSON-lines corpus
/// yields exactly one record for each of them.
pub open spec fn nonblank_lines(lines: Seq<Seq<char>>) -> Seq<Seq<char>>
    decreases lines.len(),
{
    if lines.len() == 0 {
        Seq::empty()
    } else {
        nonblank_lines(lines.drop_last()) + if trimmed(lines.last()).len() == 0 {
            Seq::empty()
        } else {
            seq![lines.last()]
        }
    }
}

/// Taking one more line appends it to the non-blank ones exactly when it
/// is non-blank.
proof fn lemma_nonblank_take_step(lines: Seq<Seq<char>>, i: int)
    requires
        0 <= i < lines.len(),
    ensures
        trimmed(lines[i]).len() == 0 ==> nonblank_lines(lines.take(i + 1)) == nonblank_lines(
            lines.take(i),
        ),
        trimmed(lines[i]).len() > 0 ==> nonblank_lines(lines.take(i + 1)) == nonblank_lines(
            lines.take(i),
        ).push(lines[i]),
{
    assert(lines.take(i + 1).drop_last() =~= lines.take(i));
    assert(lines.take(i + 1).last() == lines[i]);
    if trimmed(lines[i]).len() == 0 {
        assert(nonblank_lines(lines.take(i + 1)) =~= nonblank_lines(lines.take(i)));
    } else {
        assert(nonblank_lines(lines.take(i + 1)) =~= nonblank_lines(lines.take(i)).push(
            lines[i],
        ));
    }
}

/// Reads a whole corpus.
///
/// In the JSON-lines form it succeeds exactly when every non-blank line
/// is a well-formed record, and then yields those lines' records in line
/// order, each field as the line names it; the first line that is no
/// record aborts the read and is reported.  Any other input — the empty
/// input included — is one plain-text record whose text is the entire
/// input, under the fixed summary document id.
pub fn parse_corpus(input: &str) -> (r: Result<Vec<CorpusRecord>, BuildError>)
    ensures
        !json_mode(input@) ==> (r matches Ok(v) && v@.len() == 1 && {
            let rec = v@[0];
            &&& rec.doc_id matches Some(id) && id@ == "manga:summary"@
            &&& rec.manga_id == Some(0i64)
            &&& rec.title matches Some(t) && t@ == "summary"@
            &&& rec.text matches Some(t) && t@ == input@
        }),
        json_mode(input@) ==> match r {
            Ok(v) => {
                &&& forall|m: int|
                    0 <= m < spec_lines(input@).len() && trimmed(spec_lines(input@)[m]).len() > 0
                        ==> line_parses(trimmed(#[trigger] spec_lines(input@)[m]))
                &&& v@.len() == nonblank_lines(spec_lines(input@)).len()
                &&& forall|i: int|
                    0 <= i < v@.len() ==> record_matches_line(
                        #[trigger] v@[i],
                        trimmed(nonblank_lines(spec_lines(input@))[i]),
                    )
            },
            Err(e) => {
                &&& e matches BuildError::MalformedJson { line }
                &&& 0 <= line < spec_lines(input@).len()
                &&& trimmed(spec_lines(input@)[line as int]).len() > 0
                &&& !line_parses(trimmed(spec_lines(input@)[line as int]))
                &&& forall|m: int|
                    0 <= m < line && trimmed(spec_lines(input@)[m]).len() > 0 ==> line_parses(
                        trimmed(#[trigger] spec_lines(input@)[m]),
                    )
            },
        },
{
    let first = first_nonspace_char(input);
    let mode_json = match first {
        Some(c) => c == '{',
        None => false,
    };
    proof {
        assert(mode_json == json_mode(input@));
    }
    if !mode_json {
        let rec = CorpusRecord {
            doc_id: Some(String::from_str("manga:summary")),
            manga_id: Some(0),
            title: Some(String::from_str("summary")),
            text: Some(String::from_str(input)),
        };
        let mut out: Vec<CorpusRecord> = Vec::new();
        out.push(rec);
        return Ok(out);
    }
    let lines = split_lines(input);
    let ghost lv = spec_lines(input@);
    let mut out: Vec<CorpusRecord> = Vec::new();
    let mut idx: usize = 0;
    proof {
        assert(lv.take(0) =~= Seq::<Seq<char>>::empty());
    }
    while idx < lines.len()
        invariant
            idx <= lines@.len(),
            lines@.map_values(|l: String| l@) == lv,
            lv == spec_lines(input@),
            json_mode(input@),
            out@.len() == nonblank_lines(lv.take(idx as int)).len(),
            forall|i: int|
                0 <= i < out@.len() ==> record_matches_line(
                    #[trigger] out@[i],
                    trimmed(nonblank_lines(lv.take(idx as int))[i]),
                ),
            forall|m: int|
                0 <= m < idx && trimmed(lv[m]).len() > 0 ==> line_parses(
                    trimmed(#[trigger] lv[m]),
                ),
        decreases lines@.len() - idx,
    {
        let line = &lines[idx];
        proof {
            assert(lv[idx as int] == line@);
        }
        let t = trim_str(line.as_str());
        if !t.is_empty() {
            match parse_record_line(t) {
                Some(rec) => {
                    let ghost old_out = out@;
                    let ghost nb_old = nonblank_lines(lv.take(idx as int));
                    let ghost nb_new = nonblank_lines(lv.take(idx as int + 1));
                    out.push(rec);
                    proof {
                        lemma_nonblank_take_step(lv, idx as int);
                        assert(nb_new == nb_old.push(lv[idx as int]));
                        assert forall|i: int| 0 <= i < out@.len() implies record_matches_line(
                            #[trigger] out@[i],
                            trimmed(nb_new[i]),
                        ) by {
                            if i < out@.len() - 1 {
                                assert(out@[i] == old_out[i]);
                                assert(nb_new[i] == nb_old[i]);
                            } else {
                                assert(out@[i] == rec);
                                assert(nb_new[i] == lv[idx as int]);
                                assert(t@ == trimmed(lv[idx as int]));
                            }
                        }
                    }
                },
                None => {
                    return Err(BuildError::MalformedJson { line: idx });
                },
            }
        } else {
            proof {
                lemma_nonblank_take_step(lv, idx as int);
            }
        }
        idx = idx + 1;
    }
    proof {
        assert(lv.take(lines@.len() as int) =~= lv);
    }
    Ok(out)
}

} // verus!
