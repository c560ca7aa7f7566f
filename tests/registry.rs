use defra_sync::api::{collection_url, decode_names, names_from, operation_url, route, Method, Operation};
use defra_sync::error::SyncError;
use defra_sync::peer::PeerIdentity;
use defra_sync::registry::{Coverage, SyncRegistry};
use defra_sync::sync::{timeout_text, SyncRequest};

fn names(v: &[&str]) -> Vec<String> {
    v.iter().map(|s| s.to_string()).collect()
}

fn peer(id: &str) -> PeerIdentity {
    PeerIdentity { id: id.to_string(), addresses: vec!["/ip4/127.0.0.1/tcp/9171".to_string()] }
}

#[test]
fn mechanisms_are_added_and_removed_independently() {
    let mut r = SyncRegistry::new();
    let user = "User".to_string();
    let doc = "bae-1".to_string();
    r.add_replicator(&peer("p2"), &names(&["User"]));
    assert!(r.replicates(&"p2".to_string(), &user));
    assert!(!r.gates_collection(&user));
    assert!(!r.gates_document(&doc));

    r.add_peer_collections(&names(&["User"]));
    r.add_peer_documents(&names(&["bae-1"]));
    assert_eq!(
        r.coverage(&user, &doc),
        Coverage { by_replicator: true, by_collection: true, by_document: true }
    );

    r.remove_peer_collections(&names(&["User"]));
    assert_eq!(
        r.coverage(&user, &doc),
        Coverage { by_replicator: true, by_collection: false, by_document: true }
    );

    r.remove_replicator(&peer("p2"), &names(&["User"]));
    assert_eq!(
        r.coverage(&user, &doc),
        Coverage { by_replicator: false, by_collection: false, by_document: true }
    );

    r.remove_peer_documents(&names(&["bae-1"]));
    assert_eq!(
        r.coverage(&user, &doc),
        Coverage { by_replicator: false, by_collection: false, by_document: false }
    );
}

#[test]
fn readding_a_replicator_merges_by_peer() {
    let mut r = SyncRegistry::new();
    r.add_replicator(&peer("p2"), &names(&["User"]));
    r.add_replicator(&peer("p2"), &names(&["User", "Product"]));
    assert!(r.replicates(&"p2".to_string(), &"User".to_string()));
    assert!(r.replicates(&"p2".to_string(), &"Product".to_string()));
    assert!(!r.replicates(&"p3".to_string(), &"User".to_string()));
    r.remove_replicator(&peer("p2"), &names(&["User"]));
    assert!(!r.replicates(&"p2".to_string(), &"User".to_string()));
    assert!(r.replicates(&"p2".to_string(), &"Product".to_string()));
    r.remove_replicator(&peer("p9"), &names(&["Product"]));
    assert!(r.replicates(&"p2".to_string(), &"Product".to_string()));
}

#[test]
fn gating_sets_list_their_members() {
    let mut r = SyncRegistry::new();
    r.add_peer_collections(&names(&["Product", "Message", "Product"]));
    let mut listed = r.peer_collections();
    listed.sort();
    assert_eq!(listed, names(&["Message", "Product"]));
    r.set_peer_documents(&names(&["d1"]));
    assert_eq!(r.peer_documents(), names(&["d1"]));
    assert!(r.peer_collections().len() == 2);
}

#[test]
fn peers_are_equal_by_identifier() {
    let a = PeerIdentity { id: "Qm1".to_string(), addresses: vec![] };
    let b = PeerIdentity { id: "Qm1".to_string(), addresses: names(&["/ip4/1.2.3.4"]) };
    assert!(a == b);
    assert!(a.same_peer(&b));
    assert!(a != peer("Qm2"));
}

#[test]
fn sync_request_carries_exactly_its_documents() {
    let r = SyncRequest::new("Message".to_string(), names(&["d1", "d2"]), Some(30));
    assert_eq!(r.collection, "Message");
    assert_eq!(r.doc_ids, names(&["d1", "d2"]));
    assert_eq!(r.timeout, Some("30s".to_string()));
    assert_eq!(SyncRequest::new("M".to_string(), vec![], None).timeout, None);
    assert_eq!(timeout_text(0), "0s");
    assert_eq!(timeout_text(120), "120s");
}

#[test]
fn routes_and_addresses() {
    assert_eq!(route(Operation::AddReplicator), (Method::Post, "/p2p/replicators"));
    assert_eq!(route(Operation::RemovePeerDocuments), (Method::Delete, "/p2p/documents"));
    assert_eq!(route(Operation::PeerInfo), (Method::Get, "/p2p/info"));
    assert_eq!(
        operation_url("http://localhost:9181/api/v0", Operation::SyncDocuments),
        "http://localhost:9181/api/v0/p2p/documents/sync"
    );
    assert_eq!(collection_url("http://h/api/v0", "User"), "http://h/api/v0/collections/User");
}

#[test]
fn name_listings() {
    assert_eq!(decode_names(200, "[\"User\",\"Product\"]"), Ok(names(&["User", "Product"])));
    assert_eq!(decode_names(200, "[]"), Ok(vec![]));
    assert_eq!(
        decode_names(200, "{}"),
        Err(SyncError::Protocol("Failed to parse name list: {}".to_string()))
    );
    assert_eq!(
        decode_names(400, "{\"error\":\"nope\"}"),
        Err(SyncError::Rejected("nope".to_string()))
    );
    assert_eq!(names_from("x", Some(names(&["a"]))), Ok(names(&["a"])));
}
