use defra_sync::error::{check_response, classify_rejection, transport_failure, SyncError};

#[test]
fn scenario_second_add_is_already_exists() {
    assert_eq!(check_response(200, ""), Ok(()));
    let second = check_response(400, "{\"error\":\"replicator already exists for peer\"}");
    let e = second.unwrap_err();
    assert!(e.message().contains("already exists"));
    assert!(e.is_already_exists());
    assert_eq!(e, SyncError::AlreadyExists("replicator already exists for peer".to_string()));
}

#[test]
fn other_refusals_are_rejected() {
    let e = check_response(400, "{\"error\":\"unknown collection\"}").unwrap_err();
    assert_eq!(e, SyncError::Rejected("unknown collection".to_string()));
    assert!(!e.is_already_exists());
    assert_eq!(e.message(), "unknown collection");
}

#[test]
fn rejection_classification() {
    assert!(classify_rejection("already exists".to_string()).is_already_exists());
    assert!(!classify_rejection("already exist".to_string()).is_already_exists());
    assert!(!classify_rejection(String::new()).is_already_exists());
}

#[test]
fn unstructured_error_body() {
    let e = check_response(502, "<html>bad gateway</html>").unwrap_err();
    assert_eq!(e, SyncError::UnexpectedStatus(502, "<html>bad gateway</html>".to_string()));
    assert_eq!(e.message(), "Request failed with status: 502 - <html>bad gateway</html>");
}

#[test]
fn transport_failures() {
    assert_eq!(transport_failure(true, "t".to_string()), SyncError::Timeout("t".to_string()));
    assert_eq!(transport_failure(false, "c".to_string()), SyncError::Unreachable("c".to_string()));
    assert_eq!(transport_failure(false, "c".to_string()).message(), "Request failed: c");
    assert_eq!(transport_failure(true, "t".to_string()).message(), "Request timed out: t");
}
