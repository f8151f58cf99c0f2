//! The crate's only window onto serde_json, which parses the individual
//! records of a JSON-lines corpus.  Whether a line parses, and which
//! fields it carries, are functions of the line's characters alone, so
//! they are given names here and the one trusted wrapper's contract is
//! stated over those names; everything done with the fields afterwards is
//! verified.

use vstd::prelude::*;

use serde_json::Value::{Null, Number, String as JsonStr};
use serde_json::{from_str, Value};

use crate::corpus::CorpusRecord;

verus! {

/// Whether one corpus line is a well-formed record: a JSON object whose
/// `docId`, `title` and `text` members, where present and non-null, are
/// strings, and whose `mangaId` member, where present and non-null, is an
/// integer that fits 64 signed bits.  Anything else — a parse error, a
/// JSON value that is no object, a member of the wrong type — is not a
/// record.  A function of the line alone.
pub uninterp spec fn line_parses(l: Seq<char>) -> bool;

/// The `docId` member of a well-formed record line: its string content,
/// or `None` when it is absent or null.
pub uninterp spec fn line_doc_id(l: Seq<char>) -> Option<Seq<char>>;

/// The `mangaId` member of a well-formed record line, or `None` when it
/// is absent or null.
pub uninterp spec fn line_manga_id(l: Seq<char>) -> Option<i64>;

/// The `title` member of a well-formed record line, or `None` when it is
/// absent or null.
pub uninterp spec fn line_title(l: Seq<char>) -> Option<Seq<char>>;

/// The `text` member of a well-formed record line, or `None` when it is
/// absent or null.
pub uninterp spec fn line_text(l: Seq<char>) -> Option<Seq<char>>;

/// A record holds exactly the named fields of a (well-formed) line.
pub open spec fn record_matches_line(rec: CorpusRecord, l: Seq<char>) -> bool {
    &&& line_parses(l)
    &&& (rec.doc_id is Some <==> line_doc_id(l) is Some)
    &&& (rec.doc_id matches Some(s) ==> line_doc_id(l) == Some(s@))
    &&& rec.manga_id == line_manga_id(l)
    &&& (rec.title is Some <==> line_title(l) is Some)
    &&& (rec.title matches Some(s) ==> line_title(l) == Some(s@))
    &&& (rec.text is Some <==> line_text(l) is Some)
    &&& (rec.text matches Some(s) ==> line_text(l) == Some(s@))
}

/// Relies on serde_json::from_str and serde_json::Value: parses one
/// corpus line into its four optional fields, `None` when the line is no
/// well-formed record.  The body only parses and moves each member's
/// content out by its kind — string, integer, null — failing on any
/// other kind, as the named functions describe.
#[verifier::external_body]
pub fn parse_record_line(l: &str) -> (r: Option<CorpusRecord>)
    ensures
        r is Some <==> line_parses(l@),
        r matches Some(rec) ==> {
            &&& (rec.doc_id is Some <==> line_doc_id(l@) is Some)
            &&& (rec.doc_id matches Some(s) ==> line_doc_id(l@) == Some(s@))
            &&& rec.manga_id == line_manga_id(l@)
            &&& (rec.title is Some <==> line_title(l@) is Some)
            &&& (rec.title matches Some(s) ==> line_title(l@) == Some(s@))
            &&& (rec.text is Some <==> line_text(l@) is Some)
            &&& (rec.text matches Some(s) ==> line_text(l@) == Some(s@))
        },
{
    let v: Value = from_str(l).ok()?;
    if !v.is_object() { return None }
    let mut f: Vec<Option<String>> = Vec::new();
    for k in ["docId", "title", "text"] {
        f.push(match v.get(k) { None | Some(Null) => None, Some(JsonStr(s)) => Some(s.clone()), _ => return None });
    }
    let manga_id = match v.get("mangaId") { None | Some(Null) => None, Some(Number(n)) => Some(n.as_i64()?), _ => return None };
    Some(CorpusRecord { doc_id: f.remove(0), manga_id, title: f.remove(0), text: f.remove(0) })
}

} // verus!
