use defra_sync::error::{RecordFailure, SyncError};
use defra_sync::stream::{
    classify_payload, collect_outcomes, data_payload, decode_doc_ids, decode_record,
    line_outcomes, LineOutcome, StreamRecord,
};

fn ok_ids(r: Result<Vec<String>, SyncError>) -> Vec<String> {
    match r {
        Ok(ids) => ids,
        Err(e) => panic!("unexpected failure: {}", e.message()),
    }
}

#[test]
fn scenario_two_records_and_a_comment() {
    let body = "data: {\"docID\":\"abc\",\"error\":\"\"}\n: comment\ndata: {\"docID\":\"def\",\"error\":\"\"}\n";
    assert_eq!(ok_ids(decode_doc_ids(200, body)), vec!["abc".to_string(), "def".to_string()]);
}

#[test]
fn scenario_failed_record_fails_the_stream() {
    let body = "data: {\"docID\":\"abc\",\"error\":\"\"}\ndata: {\"docID\":\"xyz\",\"error\":\"not found\"}\n";
    let r = decode_doc_ids(200, body);
    match &r {
        Err(SyncError::RecordErrors(fs)) => {
            assert_eq!(fs.len(), 1);
            assert_eq!(fs[0].doc_id, "xyz");
            assert_eq!(fs[0].error, "not found");
        }
        _ => panic!("expected record errors"),
    }
    let msg = r.unwrap_err().message();
    assert!(msg.contains("xyz: not found"));
    assert_eq!(msg, "Errors retrieving document IDs: DocID xyz: not found");
}

#[test]
fn every_failed_record_is_named() {
    let body = "data: {\"docID\":\"a1\",\"error\":\"gone\"}\ndata: {\"docID\":\"ok\",\"error\":\"\"}\ndata: {\"docID\":\"b2\",\"error\":\"bad\"}";
    let msg = decode_doc_ids(200, body).unwrap_err().message();
    assert_eq!(msg, "Errors retrieving document IDs: DocID a1: gone; DocID b2: bad");
}

#[test]
fn order_and_duplicates_are_kept() {
    let body = "event: x\ndata: {\"docID\":\"b\",\"error\":\"\"}\nid: 3\ndata: {\"docID\":\"a\",\"error\":\"\"}\nretry: 10\ndata: {\"docID\":\"b\",\"error\":\"\"}";
    assert_eq!(
        ok_ids(decode_doc_ids(200, body)),
        vec!["b".to_string(), "a".to_string(), "b".to_string()]
    );
}

#[test]
fn empty_body_gives_no_ids() {
    assert_eq!(ok_ids(decode_doc_ids(200, "")), Vec::<String>::new());
}

#[test]
fn crlf_and_surrounding_whitespace_are_trimmed() {
    let body = "  data:   {\"docID\":\"abc\",\"error\":\"\"}  \r\n\r\n";
    assert_eq!(ok_ids(decode_doc_ids(200, body)), vec!["abc".to_string()]);
}

#[test]
fn quoted_bare_identifier_is_accepted() {
    let body = "data: \"bae-123\"\ndata: {\"docID\":\"x\",\"error\":\"\"}";
    assert_eq!(ok_ids(decode_doc_ids(200, body)), vec!["bae-123".to_string(), "x".to_string()]);
}

#[test]
fn undecodable_data_line_is_dropped() {
    let body = "data: not json\ndata: {\"docID\":\"x\",\"error\":\"\"}\ndata: ";
    assert_eq!(ok_ids(decode_doc_ids(200, body)), vec!["x".to_string()]);
}

#[test]
fn repeated_decoding_gives_the_same_result() {
    let body = "data: {\"docID\":\"abc\",\"error\":\"\"}\n: c\ndata: {\"docID\":\"xyz\",\"error\":\"e\"}";
    assert_eq!(decode_doc_ids(200, body), decode_doc_ids(200, body));
    let clean = "data: {\"docID\":\"abc\",\"error\":\"\"}";
    assert_eq!(decode_doc_ids(200, clean), decode_doc_ids(200, clean));
}

#[test]
fn error_status_with_structured_body() {
    let r = decode_doc_ids(404, "{\"error\":\"collection not found\"}");
    assert_eq!(r, Err(SyncError::Rejected("collection not found".to_string())));
}

#[test]
fn error_status_with_raw_body() {
    let r = decode_doc_ids(500, "boom");
    assert_eq!(r, Err(SyncError::UnexpectedStatus(500, "boom".to_string())));
    assert_eq!(r.unwrap_err().message(), "Request failed with status: 500 - boom");
}

#[test]
fn payload_of_data_lines() {
    assert_eq!(data_payload("  data:  {\"a\":1}  "), Some("{\"a\":1}".to_string()));
    assert_eq!(data_payload(": comment"), None);
    assert_eq!(data_payload("data:"), None);
    assert_eq!(data_payload("data:    "), None);
    assert_eq!(data_payload("event: data: x"), None);
}

#[test]
fn record_decoding() {
    assert_eq!(
        decode_record("{\"docID\":\"abc\",\"error\":\"boom\"}"),
        Some(StreamRecord { doc_id: "abc".to_string(), error: "boom".to_string() })
    );
    assert_eq!(decode_record("{\"docID\":\"abc\"}"), None);
    assert_eq!(decode_record("{\"docID\":1,\"error\":\"\"}"), None);
    assert_eq!(decode_record("\"abc\""), None);
}

#[test]
fn payload_classification() {
    let rec = StreamRecord { doc_id: "d".to_string(), error: String::new() };
    assert_eq!(classify_payload("p".to_string(), Some(rec)), LineOutcome::Accepted("d".to_string()));
    let bad = StreamRecord { doc_id: "d".to_string(), error: "e".to_string() };
    assert_eq!(
        classify_payload("p".to_string(), Some(bad)),
        LineOutcome::Failed(RecordFailure { doc_id: "d".to_string(), error: "e".to_string() })
    );
    assert_eq!(classify_payload("\"\"q\"\"".to_string(), None), LineOutcome::Accepted("q".to_string()));
    assert_eq!(classify_payload("\"q".to_string(), None), LineOutcome::Ignored);
    assert_eq!(classify_payload("q".to_string(), None), LineOutcome::Ignored);
}

#[test]
fn outcomes_line_by_line() {
    let os = line_outcomes("data: \"a\"\nx\ndata: {\"docID\":\"b\",\"error\":\"e\"}");
    assert_eq!(
        os,
        vec![
            LineOutcome::Accepted("a".to_string()),
            LineOutcome::Ignored,
            LineOutcome::Failed(RecordFailure { doc_id: "b".to_string(), error: "e".to_string() }),
        ]
    );
    let clean = vec![LineOutcome::Accepted("a".to_string()), LineOutcome::Ignored, LineOutcome::Accepted("a".to_string())];
    assert_eq!(collect_outcomes(&clean), Ok(vec!["a".to_string(), "a".to_string()]));
}

#[test]
fn joined_streams_decode_in_order() {
    let a = "data: {\"docID\":\"a\",\"error\":\"\"}\n: keep-alive";
    let b = "data: {\"docID\":\"b\",\"error\":\"\"}\ndata: \"a\"";
    let joined = format!("{}\n{}", a, b);
    let mut expected = ok_ids(decode_doc_ids(200, a));
    expected.extend(ok_ids(decode_doc_ids(200, b)));
    assert_eq!(ok_ids(decode_doc_ids(200, &joined)), expected);
    assert_eq!(expected, vec!["a".to_string(), "b".to_string(), "a".to_string()]);
}
