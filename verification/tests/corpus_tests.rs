use local_search::builder::apply_defaults;
use local_search::corpus::parse_corpus;
use local_search::errors::BuildError;
use local_search::text::{first_nonspace_char, split_lines, trim_str};

#[test]
fn trim_removes_surrounding_whitespace() {
    assert_eq!(trim_str("  hello world \t\n"), "hello world");
    assert_eq!(trim_str("unchanged"), "unchanged");
    assert_eq!(trim_str("   "), "");
    assert_eq!(trim_str(""), "");
    assert_eq!(trim_str("\u{a0}wide\u{3000}"), "wide");
}

#[test]
fn split_lines_matches_line_iteration() {
    let text = "one\ntwo\r\n\nfour";
    let lines = split_lines(text);
    assert_eq!(lines, vec!["one", "two", "", "four"]);
    // A terminating break adds no empty final line.
    assert_eq!(split_lines("a\nb\n"), vec!["a", "b"]);
    assert_eq!(split_lines(""), Vec::<String>::new());
}

#[test]
fn first_nonspace_char_skips_blank_prefix() {
    assert_eq!(first_nonspace_char(" \n\t {\"a\":1}"), Some('{'));
    assert_eq!(first_nonspace_char("plain"), Some('p'));
    assert_eq!(first_nonspace_char(" \n "), None);
}

#[test]
fn plain_text_corpus_is_one_summary_document() {
    let input = "Just a plain text file.\nWith two lines.";
    let recs = parse_corpus(input).unwrap();
    assert_eq!(recs.len(), 1);
    assert_eq!(recs[0].doc_id.as_deref(), Some("manga:summary"));
    assert_eq!(recs[0].manga_id, Some(0));
    assert_eq!(recs[0].title.as_deref(), Some("summary"));
    assert_eq!(recs[0].text.as_deref(), Some(input));
}

#[test]
fn empty_corpus_is_one_empty_summary_document() {
    let recs = parse_corpus("").unwrap();
    assert_eq!(recs.len(), 1);
    assert_eq!(recs[0].doc_id.as_deref(), Some("manga:summary"));
    assert_eq!(recs[0].text.as_deref(), Some(""));
}

#[test]
fn jsonl_corpus_yields_one_record_per_nonblank_line() {
    let input = "\n{\"docId\":\"a\",\"mangaId\":1,\"title\":\"T1\",\"text\":\"hello world\"}\n\n{\"docId\":\"b\",\"mangaId\":2,\"title\":\"T2\",\"text\":\"goodbye\"}\n";
    let recs = parse_corpus(input).unwrap();
    assert_eq!(recs.len(), 2);
    assert_eq!(recs[0].doc_id.as_deref(), Some("a"));
    assert_eq!(recs[0].manga_id, Some(1));
    assert_eq!(recs[0].title.as_deref(), Some("T1"));
    assert_eq!(recs[0].text.as_deref(), Some("hello world"));
    assert_eq!(recs[1].doc_id.as_deref(), Some("b"));
    assert_eq!(recs[1].manga_id, Some(2));
}

#[test]
fn jsonl_missing_fields_come_back_absent() {
    let recs = parse_corpus("{\"title\":\"only a title\"}").unwrap();
    assert_eq!(recs.len(), 1);
    assert!(recs[0].doc_id.is_none());
    assert!(recs[0].manga_id.is_none());
    assert_eq!(recs[0].title.as_deref(), Some("only a title"));
    assert!(recs[0].text.is_none());
}

#[test]
fn jsonl_wrongly_typed_field_aborts_the_read() {
    // A record whose member has the wrong type is no record at all.
    let r = parse_corpus("{\"docId\":\"ok\"}\n{\"docId\":7}");
    assert!(matches!(r, Err(BuildError::MalformedJson { line: 1 })));
    let r = parse_corpus("{\"mangaId\":\"x\"}");
    assert!(matches!(r, Err(BuildError::MalformedJson { line: 0 })));
    let r = parse_corpus("{\"mangaId\":1.5}");
    assert!(matches!(r, Err(BuildError::MalformedJson { line: 0 })));
    let r = parse_corpus("{\"title\":[1]}");
    assert!(matches!(r, Err(BuildError::MalformedJson { line: 0 })));
}

#[test]
fn jsonl_non_object_line_aborts_the_read() {
    // Valid JSON that is not an object is no record either; the detection
    // only looks at the first non-blank line, so later lines decide.
    let r = parse_corpus("{\"docId\":\"a\"}\n5");
    assert!(matches!(r, Err(BuildError::MalformedJson { line: 1 })));
    let r = parse_corpus("{\"docId\":\"a\"}\n[1]");
    assert!(matches!(r, Err(BuildError::MalformedJson { line: 1 })));
    let r = parse_corpus("{\"docId\":\"a\"}\n\"x\"");
    assert!(matches!(r, Err(BuildError::MalformedJson { line: 1 })));
}

#[test]
fn jsonl_null_fields_come_back_absent() {
    let recs = parse_corpus("{\"docId\":null,\"mangaId\":null,\"title\":\"t\"}").unwrap();
    assert_eq!(recs.len(), 1);
    assert!(recs[0].doc_id.is_none());
    assert!(recs[0].manga_id.is_none());
    assert_eq!(recs[0].title.as_deref(), Some("t"));
}

#[test]
fn jsonl_unknown_members_are_ignored() {
    let recs = parse_corpus("{\"docId\":\"a\",\"extra\":{\"nested\":[1,2]}}").unwrap();
    assert_eq!(recs.len(), 1);
    assert_eq!(recs[0].doc_id.as_deref(), Some("a"));
}

#[test]
fn malformed_json_line_aborts_the_read() {
    let input = "{\"docId\":\"a\"}\n{not json}\n{\"docId\":\"b\"}";
    let r = parse_corpus(input);
    assert!(matches!(r, Err(BuildError::MalformedJson { line: 1 })));
}

#[test]
fn defaults_fill_missing_fields_from_the_row() {
    let recs = parse_corpus("{}").unwrap();
    let doc = apply_defaults(
        local_search::corpus::CorpusRecord {
            doc_id: recs[0].doc_id.clone(),
            manga_id: recs[0].manga_id,
            title: recs[0].title.clone(),
            text: recs[0].text.clone(),
        },
        7,
    );
    assert_eq!(doc.doc_id, "manga:7");
    assert_eq!(doc.manga_id, 7);
    assert_eq!(doc.title, "(no title)");
    assert_eq!(doc.text, "");
}

#[test]
fn defaults_keep_present_fields() {
    let recs = parse_corpus("{\"docId\":\"a\",\"mangaId\":1,\"title\":\"T1\",\"text\":\"hi\"}")
        .unwrap();
    let doc = apply_defaults(
        local_search::corpus::CorpusRecord {
            doc_id: recs[0].doc_id.clone(),
            manga_id: recs[0].manga_id,
            title: recs[0].title.clone(),
            text: recs[0].text.clone(),
        },
        3,
    );
    assert_eq!(doc.doc_id, "a");
    assert_eq!(doc.manga_id, 1);
    assert_eq!(doc.title, "T1");
    assert_eq!(doc.text, "hi");
}
