//! One-shot synchronization requests: fetch or push an explicit set of
//! documents now, with an optional bound on how long the node waits for peers.
use vstd::prelude::*;
use crate::error::{decimal, push_decimal};

verus! {

/// A directive to synchronize exactly `doc_ids` of `collection` once. `timeout`
/// is a duration in the node's notation (`30s`); without one the node's own
/// default applies.
#[derive(Debug, Clone)]
pub struct SyncRequest {
    pub collection: String,
    pub doc_ids: Vec<String>,
    pub timeout: Option<String>,
}

/// A whole number of seconds in the node's duration notation: `<n>s`.
pub open spec fn seconds_text(secs: u64) -> Seq<char> {
    decimal(secs as nat).push('s')
}

/// A timeout of `secs` seconds as the node writes it.
pub fn timeout_text(secs: u64) -> (r: String)
    ensures
        r@ == seconds_text(secs),
{
    let mut s = String::new();
    push_decimal(&mut s, secs);
    crate::text::push_char(&mut s, 's');
    s
}

impl SyncRequest {
    /// A request for exactly `doc_ids` of `collection`, bounded by `timeout_secs`
    /// seconds when given.
    pub fn new(collection: String, doc_ids: Vec<String>, timeout_secs: Option<u64>) -> (r:
        SyncRequest)
        ensures
            r.collection@ == collection@,
            r.doc_ids@ == doc_ids@,
            match timeout_secs {
                Some(secs) => r.timeout matches Some(t) && t@ == seconds_text(secs),
                None => r.timeout is None,
            },
    {
        let timeout = match timeout_secs {
            Some(secs) => Some(timeout_text(secs)),
            None => None,
        };
        SyncRequest { collection, doc_ids, timeout }
    }
}

} // verus!
