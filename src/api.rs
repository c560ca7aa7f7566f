//! The remote node's HTTP surface: which method and path each operation uses,
//! and the addresses built from a node's base address.
use vstd::prelude::*;
use crate::error::{check_response, response_failure, ErrorView, SyncError, STATUS_OK};
use crate::json::{json_string_list, string_list};
use crate::stream::{ids_result_view, strings_view};
use crate::text::push_str;

verus! {

#[derive(Debug, Clone, Copy, PartialEq, Eq, Structural)]
pub enum Method {
    Get,
    Post,
    Delete,
}

/// The remote operations of peer synchronization, one remote call each.
#[derive(Debug, Clone, Copy, PartialEq, Eq, Structural)]
pub enum Operation {
    PeerInfo,
    AddReplicator,
    ListReplicators,
    RemoveReplicator,
    AddPeerCollections,
    ListPeerCollections,
    RemovePeerCollections,
    AddPeerDocuments,
    ListPeerDocuments,
    RemovePeerDocuments,
    SyncDocuments,
}

pub open spec fn method_of(op: Operation) -> Method {
    match op {
        Operation::PeerInfo | Operation::ListReplicators | Operation::ListPeerCollections
        | Operation::ListPeerDocuments => Method::Get,
        Operation::AddReplicator | Operation::AddPeerCollections | Operation::AddPeerDocuments
        | Operation::SyncDocuments => Method::Post,
        Operation::RemoveReplicator | Operation::RemovePeerCollections
        | Operation::RemovePeerDocuments => Method::Delete,
    }
}

pub open spec fn path_of(op: Operation) -> Seq<char> {
    match op {
        Operation::PeerInfo => "/p2p/info"@,
        Operation::AddReplicator | Operation::ListReplicators | Operation::RemoveReplicator =>
            "/p2p/replicators"@,
        Operation::AddPeerCollections | Operation::ListPeerCollections
        | Operation::RemovePeerCollections => "/p2p/collections"@,
        Operation::AddPeerDocuments | Operation::ListPeerDocuments
        | Operation::RemovePeerDocuments => "/p2p/documents"@,
        Operation::SyncDocuments => "/p2p/documents/sync"@,
    }
}

/// The method and path of `op`.
pub fn route(op: Operation) -> (r: (Method, &'static str))
    ensures
        r.0 == method_of(op),
        r.1@ == path_of(op),
{
    match op {
        Operation::PeerInfo => (Method::Get, "/p2p/info"),
        Operation::AddReplicator => (Method::Post, "/p2p/replicators"),
        Operation::ListReplicators => (Method::Get, "/p2p/replicators"),
        Operation::RemoveReplicator => (Method::Delete, "/p2p/replicators"),
        Operation::AddPeerCollections => (Method::Post, "/p2p/collections"),
        Operation::ListPeerCollections => (Method::Get, "/p2p/collections"),
        Operation::RemovePeerCollections => (Method::Delete, "/p2p/collections"),
        Operation::AddPeerDocuments => (Method::Post, "/p2p/documents"),
        Operation::ListPeerDocuments => (Method::Get, "/p2p/documents"),
        Operation::RemovePeerDocuments => (Method::Delete, "/p2p/documents"),
        Operation::SyncDocuments => (Method::Post, "/p2p/documents/sync"),
    }
}

/// The address of `op` on the node at `base_url`.
pub fn operation_url(base_url: &str, op: Operation) -> (r: String)
    ensures
        r@ == base_url@ + path_of(op),
{
    let (_, path) = route(op);
    let mut s = String::new();
    push_str(&mut s, base_url);
    push_str(&mut s, path);
    s
}

/// The address of the identifier stream of `collection` on the node at `base_url`.
pub fn collection_url(base_url: &str, collection: &str) -> (r: String)
    ensures
        r@ == base_url@ + "/collections/"@ + collection@,
{
    let mut s = String::new();
    push_str(&mut s, base_url);
    push_str(&mut s, "/collections/");
    push_str(&mut s, collection);
    s
}

/// The result of a listing of names (collections, documents) with this status
/// and body: the names on success, a `Protocol` failure when the body is no
/// JSON array of strings, the server's error on another status.
pub open spec fn names_spec(status: u16, body: Seq<char>) -> Result<Seq<Seq<char>>, ErrorView> {
    if status != STATUS_OK {
        Err(response_failure(status, body))
    } else {
        match json_string_list(body) {
            Some(names) => Ok(names),
            None => Err(ErrorView::Protocol("Failed to parse name list: "@ + body)),
        }
    }
}

/// The names of a successful listing, given what its body parsed to: a
/// `Protocol` failure when it is no JSON array of strings.
pub fn names_from(body: &str, parsed: Option<Vec<String>>) -> (r: Result<Vec<String>, SyncError>)
    ensures
        ids_result_view(r) == match parsed {
            Some(names) => Ok(strings_view(names@)),
            None => Err(ErrorView::Protocol("Failed to parse name list: "@ + body@)),
        },
{
    match parsed {
        Some(names) => Ok(names),
        None => {
            let mut m = String::new();
            push_str(&mut m, "Failed to parse name list: ");
            push_str(&mut m, body);
            Err(SyncError::Protocol(m))
        },
    }
}

/// Reads the names a listing returned.
pub fn decode_names(status: u16, body: &str) -> (r: Result<Vec<String>, SyncError>)
    ensures
        ids_result_view(r) == names_spec(status, body@),
{
    check_response(status, body)?;
    let parsed = string_list(body);
    assert(parsed is Some ==> strings_view(parsed->0@) == parsed->0@.map_values(|s: String| s@));
    names_from(body, parsed)
}

} // verus!
