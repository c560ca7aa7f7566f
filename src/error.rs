//! Failures of remote operations, how a non-success response is classified, and
//! how each failure reads as a message.
use vstd::prelude::*;
use crate::json::{json_string_member, string_member};
use crate::text::{contains, contains_exec, push_char, push_str};

verus! {

/// One stream record that the server marked as failed.
#[derive(Debug, Clone, PartialEq, Eq)]
pub struct RecordFailure {
    pub doc_id: String,
    pub error: String,
}

/// Why a remote operation failed.
#[derive(Debug, Clone, PartialEq, Eq)]
pub enum SyncError {
    /// The node could not be reached (connection or transport failure).
    Unreachable(String),
    /// The response body does not have the expected shape.
    Protocol(String),
    /// The node understood the request and declined it, with its message.
    Rejected(String),
    /// The node declined because the directive is already in place.
    AlreadyExists(String),
    /// The client gave up waiting for the exchange.
    Timeout(String),
    /// A non-success status whose body is not a structured error.
    UnexpectedStatus(u16, String),
    /// Records of an identifier stream that carried an error, in stream order.
    RecordErrors(Vec<RecordFailure>),
}

/// The mathematical value of a [`SyncError`].
pub enum ErrorView {
    Unreachable(Seq<char>),
    Protocol(Seq<char>),
    Rejected(Seq<char>),
    AlreadyExists(Seq<char>),
    Timeout(Seq<char>),
    UnexpectedStatus(u16, Seq<char>),
    RecordErrors(Seq<(Seq<char>, Seq<char>)>),
}

impl View for RecordFailure {
    type V = (Seq<char>, Seq<char>);

    open spec fn view(&self) -> (Seq<char>, Seq<char>) {
        (self.doc_id@, self.error@)
    }
}

pub open spec fn failures_view(fs: Seq<RecordFailure>) -> Seq<(Seq<char>, Seq<char>)> {
    fs.map_values(|f: RecordFailure| f@)
}

impl View for SyncError {
    type V = ErrorView;

    open spec fn view(&self) -> ErrorView {
        match self {
            SyncError::Unreachable(m) => ErrorView::Unreachable(m@),
            SyncError::Protocol(m) => ErrorView::Protocol(m@),
            SyncError::Rejected(m) => ErrorView::Rejected(m@),
            SyncError::AlreadyExists(m) => ErrorView::AlreadyExists(m@),
            SyncError::Timeout(m) => ErrorView::Timeout(m@),
            SyncError::UnexpectedStatus(s, b) => ErrorView::UnexpectedStatus(*s, b@),
            SyncError::RecordErrors(fs) => ErrorView::RecordErrors(failures_view(fs@)),
        }
    }
}

/// The status of a successful exchange.
pub const STATUS_OK: u16 = 200;

pub open spec fn already_exists_text() -> Seq<char> {
    seq!['a', 'l', 'r', 'e', 'a', 'd', 'y', ' ', 'e', 'x', 'i', 's', 't', 's']
}

pub open spec fn error_key() -> Seq<char> {
    seq!['e', 'r', 'r', 'o', 'r']
}

/// A server's refusal: `AlreadyExists` when its message says "already exists",
/// `Rejected` otherwise; the message is kept verbatim either way.
pub open spec fn rejection(msg: Seq<char>) -> ErrorView {
    if contains(msg, already_exists_text()) {
        ErrorView::AlreadyExists(msg)
    } else {
        ErrorView::Rejected(msg)
    }
}

/// The failure for a non-success `status`, given the `error` member that the
/// body holds, if it is a structured error object.
pub open spec fn status_failure(status: u16, body: Seq<char>, member: Option<Seq<char>>) -> ErrorView {
    match member {
        Some(m) => rejection(m),
        None => ErrorView::UnexpectedStatus(status, body),
    }
}

/// The failure that a response with a non-success `status` and this `body` stands for.
pub open spec fn response_failure(status: u16, body: Seq<char>) -> ErrorView {
    status_failure(status, body, json_string_member(body, error_key()))
}

/// Classifies a server's refusal message.
pub fn classify_rejection(msg: String) -> (r: SyncError)
    ensures
        r@ == rejection(msg@),
{
    let marker = vec!['a', 'l', 'r', 'e', 'a', 'd', 'y', ' ', 'e', 'x', 'i', 's', 't', 's'];
    let cs = crate::text::chars_of(msg.as_str());
    assert(marker@ == already_exists_text());
    if contains_exec(&cs, &marker) {
        SyncError::AlreadyExists(msg)
    } else {
        SyncError::Rejected(msg)
    }
}

/// The failure for a non-success `status`, given the `error` member read from the body.
pub fn failure_from(status: u16, body: String, member: Option<String>) -> (r: SyncError)
    ensures
        r@ == status_failure(status, body@, match member {
            Some(m) => Some(m@),
            None => None,
        }),
{
    match member {
        Some(m) => classify_rejection(m),
        None => SyncError::UnexpectedStatus(status, body),
    }
}

/// The error member of a structured error body.
pub fn error_member(body: &str) -> (r: Option<String>)
    ensures
        match r {
            Some(m) => json_string_member(body@, error_key()) == Some(m@),
            None => json_string_member(body@, error_key()) is None,
        },
{
    let r = string_member(body, "error");
    proof {
        reveal_strlit("error");
    }
    assert("error"@ == error_key());
    r
}

/// Checks the status of a response: success on `STATUS_OK`, otherwise the
/// server's structured error, or the raw status and body.
pub fn check_response(status: u16, body: &str) -> (r: Result<(), SyncError>)
    ensures
        status == STATUS_OK ==> r is Ok,
        status != STATUS_OK ==> (r matches Err(e) && e@ == response_failure(status, body@)),
{
    if status == STATUS_OK {
        return Ok(());
    }
    let member = error_member(body);
    Err(failure_from(status, body.to_owned(), member))
}

/// A failure of the transport itself: `Timeout` when the exchange timed out,
/// `Unreachable` otherwise.
pub fn transport_failure(timed_out: bool, detail: String) -> (r: SyncError)
    ensures
        timed_out ==> r@ == ErrorView::Timeout(detail@),
        !timed_out ==> r@ == ErrorView::Unreachable(detail@),
{
    if timed_out {
        SyncError::Timeout(detail)
    } else {
        SyncError::Unreachable(detail)
    }
}

/// The decimal digit `d`.
pub open spec fn digit_char(d: nat) -> char {
    if d == 0 {
        '0'
    } else if d == 1 {
        '1'
    } else if d == 2 {
        '2'
    } else if d == 3 {
        '3'
    } else if d == 4 {
        '4'
    } else if d == 5 {
        '5'
    } else if d == 6 {
        '6'
    } else if d == 7 {
        '7'
    } else if d == 8 {
        '8'
    } else {
        '9'
    }
}

/// `n` written in decimal.
pub open spec fn decimal(n: nat) -> Seq<char>
    decreases n,
{
    if n < 10 {
        seq![digit_char(n)]
    } else {
        decimal(n / 10).push(digit_char(n % 10))
    }
}

/// How one failed record reads: `DocID <id>: <error>`.
pub open spec fn failure_text(f: (Seq<char>, Seq<char>)) -> Seq<char> {
    "DocID "@ + f.0 + ": "@ + f.1
}

/// The failed records, each as `failure_text`, joined by `; `.
pub open spec fn join_failures(fs: Seq<(Seq<char>, Seq<char>)>) -> Seq<char>
    decreases fs.len(),
{
    if fs.len() == 0 {
        Seq::empty()
    } else if fs.len() == 1 {
        failure_text(fs[0])
    } else {
        join_failures(fs.drop_last()) + "; "@ + failure_text(fs.last())
    }
}

/// How a failure reads: the server's message verbatim where there is one.
pub open spec fn message_of(e: ErrorView) -> Seq<char> {
    match e {
        ErrorView::Unreachable(d) => "Request failed: "@ + d,
        ErrorView::Protocol(d) => d,
        ErrorView::Rejected(m) => m,
        ErrorView::AlreadyExists(m) => m,
        ErrorView::Timeout(d) => "Request timed out: "@ + d,
        ErrorView::UnexpectedStatus(s, b) => "Request failed with status: "@ + decimal(s as nat)
            + " - "@ + b,
        ErrorView::RecordErrors(fs) => "Errors retrieving document IDs: "@ + join_failures(fs),
    }
}

fn digit_exec(d: u64) -> (c: char)
    requires
        d < 10,
    ensures
        c == digit_char(d as nat),
{
    if d == 0 {
        '0'
    } else if d == 1 {
        '1'
    } else if d == 2 {
        '2'
    } else if d == 3 {
        '3'
    } else if d == 4 {
        '4'
    } else if d == 5 {
        '5'
    } else if d == 6 {
        '6'
    } else if d == 7 {
        '7'
    } else if d == 8 {
        '8'
    } else {
        '9'
    }
}

pub(crate) fn push_decimal(s: &mut String, n: u64)
    ensures
        final(s)@ == old(s)@ + decimal(n as nat),
    decreases n,
{
    if n >= 10 {
        push_decimal(s, n / 10);
    }
    push_char(s, digit_exec(n % 10));
    assert(old(s)@ + decimal(n as nat) == if n >= 10 {
        old(s)@ + decimal((n / 10) as nat) + seq![digit_char((n % 10) as nat)]
    } else {
        old(s)@ + seq![digit_char((n % 10) as nat)]
    });
}

fn push_failures(s: &mut String, fs: &Vec<RecordFailure>)
    ensures
        final(s)@ == old(s)@ + join_failures(failures_view(fs@)),
{
    let ghost start = s@;
    let mut k: usize = 0;
    while k < fs.len()
        invariant
            k <= fs@.len(),
            s@ == start + join_failures(failures_view(fs@).subrange(0, k as int)),
        decreases fs@.len() - k,
    {
        let ghost fv = failures_view(fs@);
        let ghost before = s@;
        if k > 0 {
            push_str(s, "; ");
        }
        push_str(s, "DocID ");
        push_str(s, fs[k].doc_id.as_str());
        push_str(s, ": ");
        push_str(s, fs[k].error.as_str());
        proof {
            let pre = fv.subrange(0, k as int);
            let nxt = fv.subrange(0, k + 1);
            assert(nxt.drop_last() == pre);
            assert(nxt.last() == fs@[k as int]@);
            if k == 0 {
                assert(nxt.len() == 1);
                assert(s@ == start + join_failures(nxt));
            } else {
                assert(s@ == start + join_failures(pre) + "; "@ + failure_text(nxt.last()));
            }
        }
        k = k + 1;
    }
    assert(failures_view(fs@).subrange(0, k as int) == failures_view(fs@));
}

impl SyncError {
    /// Whether the node refused because the directive is already in place,
    /// which callers commonly treat as done.
    pub fn is_already_exists(&self) -> (r: bool)
        ensures
            r == (self@ is AlreadyExists),
    {
        match self {
            SyncError::AlreadyExists(_) => true,
            _ => false,
        }
    }

    /// How this failure reads.
    pub fn message(&self) -> (r: String)
        ensures
            r@ == message_of(self@),
    {
        let mut s = String::new();
        match self {
            SyncError::Unreachable(d) => {
                push_str(&mut s, "Request failed: ");
                push_str(&mut s, d.as_str());
            },
            SyncError::Protocol(d) => {
                push_str(&mut s, d.as_str());
            },
            SyncError::Rejected(m) => {
                push_str(&mut s, m.as_str());
            },
            SyncError::AlreadyExists(m) => {
                push_str(&mut s, m.as_str());
            },
            SyncError::Timeout(d) => {
                push_str(&mut s, "Request timed out: ");
                push_str(&mut s, d.as_str());
            },
            SyncError::UnexpectedStatus(st, b) => {
                push_str(&mut s, "Request failed with status: ");
                push_decimal(&mut s, *st as u64);
                push_str(&mut s, " - ");
                push_str(&mut s, b.as_str());
            },
            SyncError::RecordErrors(fs) => {
                push_str(&mut s, "Errors retrieving document IDs: ");
                push_failures(&mut s, fs);
            },
        }
        s
    }
}

} // verus!
