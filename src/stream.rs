//! Decoding of the identifier event stream: a line-oriented body whose data
//! lines carry one `{docID, error}` record each.
use vstd::prelude::*;
use crate::error::{
    error_key, failure_text, join_failures, message_of, failures_view, response_failure, check_response, ErrorView, RecordFailure,
    SyncError, STATUS_OK,
};
use crate::json::{json_string_member, string_member};
use crate::text::{chars_of, contains, occurs_at, string_of, trim, trim_bounds};

verus! {

/// One decoded record of the stream.
#[derive(Debug, Clone, PartialEq, Eq)]
pub struct StreamRecord {
    pub doc_id: String,
    pub error: String,
}

impl View for StreamRecord {
    type V = (Seq<char>, Seq<char>);

    open spec fn view(&self) -> (Seq<char>, Seq<char>) {
        (self.doc_id@, self.error@)
    }
}

/// What one line of the stream contributes.
#[derive(Debug, Clone, PartialEq, Eq)]
pub enum LineOutcome {
    /// Framing, a comment, or a data line that could not be decoded.
    Ignored,
    /// A document identifier.
    Accepted(String),
    /// A record that the server marked as failed.
    Failed(RecordFailure),
}

/// The mathematical value of a [`LineOutcome`].
pub enum Outcome {
    Ignored,
    Accepted(Seq<char>),
    Failed(Seq<char>, Seq<char>),
}

impl View for LineOutcome {
    type V = Outcome;

    open spec fn view(&self) -> Outcome {
        match self {
            LineOutcome::Ignored => Outcome::Ignored,
            LineOutcome::Accepted(id) => Outcome::Accepted(id@),
            LineOutcome::Failed(f) => Outcome::Failed(f.doc_id@, f.error@),
        }
    }
}

pub open spec fn record_view(r: Option<StreamRecord>) -> Option<(Seq<char>, Seq<char>)> {
    match r {
        Some(rec) => Some(rec@),
        None => None,
    }
}

pub open spec fn outcomes_view(os: Seq<LineOutcome>) -> Seq<Outcome> {
    os.map_values(|o: LineOutcome| o@)
}

pub open spec fn strings_view(v: Seq<String>) -> Seq<Seq<char>> {
    v.map_values(|s: String| s@)
}

pub open spec fn ids_result_view(r: Result<Vec<String>, SyncError>) -> Result<
    Seq<Seq<char>>,
    ErrorView,
> {
    match r {
        Ok(ids) => Ok(strings_view(ids@)),
        Err(e) => Err(e@),
    }
}

/// The marker that starts a data line: `data: `.
pub open spec fn data_marker() -> Seq<char> {
    seq!['d', 'a', 't', 'a', ':', ' ']
}

pub open spec fn doc_id_key() -> Seq<char> {
    seq!['d', 'o', 'c', 'I', 'D']
}

/// The lines of `s`: the pieces between `\n` characters, the last one included
/// even when it is empty.
pub open spec fn split_lines(s: Seq<char>) -> Seq<Seq<char>>
    decreases s.len(),
{
    if s.len() == 0 {
        seq![Seq::empty()]
    } else {
        let init = split_lines(s.drop_last());
        if s.last() == '\n' {
            init.push(Seq::empty())
        } else {
            init.update(init.len() - 1, init.last().push(s.last()))
        }
    }
}

/// The payload of a data line: the trimmed line, when it starts with the marker,
/// with the marker removed and trimmed again; `None` when that is empty or the
/// line is no data line.
pub open spec fn payload_of(line: Seq<char>) -> Option<Seq<char>> {
    let t = trim(line);
    if t.len() >= data_marker().len() && t.subrange(0, data_marker().len() as int)
        == data_marker() {
        let p = trim(t.subrange(data_marker().len() as int, t.len() as int));
        if p.len() > 0 {
            Some(p)
        } else {
            None
        }
    } else {
        None
    }
}

/// The structured record held by a payload: its `docID` and `error` members,
/// when both are strings.
pub open spec fn record_of(payload: Seq<char>) -> Option<(Seq<char>, Seq<char>)> {
    match (
        json_string_member(payload, doc_id_key()),
        json_string_member(payload, error_key()),
    ) {
        (Some(d), Some(e)) => Some((d, e)),
        _ => None,
    }
}

/// `s` without its leading double quotes.
pub open spec fn strip_leading_quotes(s: Seq<char>) -> Seq<char>
    decreases s.len(),
{
    if s.len() > 0 && s[0] == '"' {
        strip_leading_quotes(s.drop_first())
    } else {
        s
    }
}

/// `s` without its trailing double quotes.
pub open spec fn strip_trailing_quotes(s: Seq<char>) -> Seq<char>
    decreases s.len(),
{
    if s.len() > 0 && s.last() == '"' {
        strip_trailing_quotes(s.drop_last())
    } else {
        s
    }
}

pub open spec fn unquote(s: Seq<char>) -> Seq<char> {
    strip_trailing_quotes(strip_leading_quotes(s))
}

/// A payload that starts and ends with a double quote is a bare identifier.
pub open spec fn is_quoted(p: Seq<char>) -> bool {
    p.len() > 0 && p[0] == '"' && p.last() == '"'
}

/// What a payload contributes, given the record decoded from it (if any).
pub open spec fn classify(payload: Seq<char>, record: Option<(Seq<char>, Seq<char>)>) -> Outcome {
    match record {
        Some((d, e)) => if e.len() == 0 {
            Outcome::Accepted(d)
        } else {
            Outcome::Failed(d, e)
        },
        None => if is_quoted(payload) {
            Outcome::Accepted(unquote(payload))
        } else {
            Outcome::Ignored
        },
    }
}

/// What one line contributes.
pub open spec fn line_outcome(line: Seq<char>) -> Outcome {
    match payload_of(line) {
        Some(p) => classify(p, record_of(p)),
        None => Outcome::Ignored,
    }
}

/// What each line of a stream body contributes, line by line.
pub open spec fn stream_outcomes(body: Seq<char>) -> Seq<Outcome> {
    split_lines(body).map_values(|l: Seq<char>| line_outcome(l))
}

/// The accepted identifiers, in order, duplicates kept.
pub open spec fn accepted_ids(os: Seq<Outcome>) -> Seq<Seq<char>>
    decreases os.len(),
{
    if os.len() == 0 {
        Seq::empty()
    } else {
        let init = accepted_ids(os.drop_last());
        match os.last() {
            Outcome::Accepted(d) => init.push(d),
            _ => init,
        }
    }
}

/// The failed records, in order.
pub open spec fn record_failures(os: Seq<Outcome>) -> Seq<(Seq<char>, Seq<char>)>
    decreases os.len(),
{
    if os.len() == 0 {
        Seq::empty()
    } else {
        let init = record_failures(os.drop_last());
        match os.last() {
            Outcome::Failed(d, e) => init.push((d, e)),
            _ => init,
        }
    }
}

/// The result of a stream: every failed record when there is one, otherwise
/// every accepted identifier.
pub open spec fn collect_spec(os: Seq<Outcome>) -> Result<Seq<Seq<char>>, ErrorView> {
    if record_failures(os).len() > 0 {
        Err(ErrorView::RecordErrors(record_failures(os)))
    } else {
        Ok(accepted_ids(os))
    }
}

/// The result of decoding a response with this status and body.
pub open spec fn decode_spec(status: u16, body: Seq<char>) -> Result<Seq<Seq<char>>, ErrorView> {
    if status == STATUS_OK {
        collect_spec(stream_outcomes(body))
    } else {
        Err(response_failure(status, body))
    }
}

proof fn lemma_split_lines_nonempty(s: Seq<char>)
    ensures
        split_lines(s).len() >= 1,
    decreases s.len(),
{
    if s.len() > 0 {
        lemma_split_lines_nonempty(s.drop_last());
    }
}

/// Bounds of the payload of the line `cs[from..to]`.
fn payload_bounds(cs: &Vec<char>, from: usize, to: usize) -> (r: Option<(usize, usize)>)
    requires
        from <= to <= cs@.len(),
    ensures
        match r {
            Some((a, b)) => a <= b <= cs@.len() && payload_of(cs@.subrange(from as int, to as int))
                == Some(cs@.subrange(a as int, b as int)),
            None => payload_of(cs@.subrange(from as int, to as int)) is None,
        },
{
    let (lo, hi) = trim_bounds(cs, from, to);
    let marker = vec!['d', 'a', 't', 'a', ':', ' '];
    let ghost t = cs@.subrange(lo as int, hi as int);
    if hi - lo < marker.len() {
        return None;
    }
    let mut k: usize = 0;
    while k < marker.len()
        invariant
            lo + marker@.len() <= hi <= cs@.len(),
            marker@ == data_marker(),
            t == cs@.subrange(lo as int, hi as int),
            from <= to <= cs@.len(),
            t == trim(cs@.subrange(from as int, to as int)),
            k <= marker@.len(),
            forall|m: int| 0 <= m < k ==> t[m] == marker@[m],
        decreases marker@.len() - k,
    {
        if cs[lo + k] != marker[k] {
            assert(t.subrange(0, 6)[k as int] != data_marker()[k as int]);
            assert(t.subrange(0, 6) != data_marker());
            return None;
        }
        k = k + 1;
    }
    assert(t.subrange(0, 6) == data_marker());
    let (a, b) = trim_bounds(cs, lo + 6, hi);
    assert(t.subrange(6, t.len() as int) == cs@.subrange(lo + 6, hi as int));
    if a == b {
        None
    } else {
        Some((a, b))
    }
}

/// The payload of a data line: what follows the `data: ` marker, trimmed;
/// `None` for any other line or an empty payload.
pub fn data_payload(line: &str) -> (r: Option<String>)
    ensures
        match r {
            Some(p) => payload_of(line@) == Some(p@),
            None => payload_of(line@) is None,
        },
{
    let cs = chars_of(line);
    assert(cs@.subrange(0, cs@.len() as int) == cs@);
    match payload_bounds(&cs, 0, cs.len()) {
        Some((a, b)) => Some(string_of(&cs, a, b)),
        None => None,
    }
}

/// Decodes a payload as a structured record.
pub fn decode_record(payload: &str) -> (r: Option<StreamRecord>)
    ensures
        record_view(r) == record_of(payload@),
{
    let d = string_member(payload, "docID");
    let e = string_member(payload, "error");
    proof {
        reveal_strlit("docID");
        reveal_strlit("error");
    }
    assert("docID"@ == doc_id_key());
    assert("error"@ == error_key());
    match (d, e) {
        (Some(doc_id), Some(error)) => Some(StreamRecord { doc_id, error }),
        _ => None,
    }
}

/// `cs[from..to]` without the double quotes at either end.
fn unquote_bounds(cs: &Vec<char>, from: usize, to: usize) -> (r: (usize, usize))
    requires
        from <= to <= cs@.len(),
    ensures
        from <= r.0 <= r.1 <= to,
        cs@.subrange(r.0 as int, r.1 as int) == unquote(cs@.subrange(from as int, to as int)),
{
    let ghost w = cs@.subrange(from as int, to as int);
    let mut lo = from;
    while lo < to && cs[lo] == '"'
        invariant
            from <= lo <= to <= cs@.len(),
            w == cs@.subrange(from as int, to as int),
            strip_leading_quotes(w) == strip_leading_quotes(cs@.subrange(lo as int, to as int)),
        decreases to - lo,
    {
        assert(cs@.subrange(lo as int, to as int).drop_first() == cs@.subrange(lo + 1, to as int));
        lo = lo + 1;
    }
    proof {
        let t = cs@.subrange(lo as int, to as int);
        if t.len() > 0 {
            assert(t[0] == cs@[lo as int]);
        }
    }
    let mut hi = to;
    while hi > lo && cs[hi - 1] == '"'
        invariant
            from <= lo <= hi <= to <= cs@.len(),
            unquote(w) == strip_trailing_quotes(cs@.subrange(lo as int, hi as int)),
        decreases hi - lo,
    {
        assert(cs@.subrange(lo as int, hi as int).drop_last() == cs@.subrange(lo as int, hi - 1));
        hi = hi - 1;
    }
    proof {
        let t = cs@.subrange(lo as int, hi as int);
        if t.len() > 0 {
            assert(t.last() == cs@[hi - 1]);
        }
    }
    (lo, hi)
}

/// What a payload contributes, given the record decoded from it: its identifier
/// when the record's error is empty, a failure when it is not; without a record,
/// a payload in double quotes is a bare identifier and anything else is ignored.
pub fn classify_payload(payload: String, record: Option<StreamRecord>) -> (r: LineOutcome)
    ensures
        r@ == classify(payload@, record_view(record)),
{
    match record {
        Some(rec) => {
            if rec.error.as_str().is_empty() {
                LineOutcome::Accepted(rec.doc_id)
            } else {
                LineOutcome::Failed(RecordFailure { doc_id: rec.doc_id, error: rec.error })
            }
        },
        None => {
            let cs = chars_of(payload.as_str());
            let n = cs.len();
            if n > 0 && cs[0] == '"' && cs[n - 1] == '"' {
                let (a, b) = unquote_bounds(&cs, 0, n);
                assert(cs@.subrange(0, n as int) == cs@);
                LineOutcome::Accepted(string_of(&cs, a, b))
            } else {
                LineOutcome::Ignored
            }
        },
    }
}

/// What the line `cs[from..to]` contributes.
fn line_outcome_exec(cs: &Vec<char>, from: usize, to: usize) -> (r: LineOutcome)
    requires
        from <= to <= cs@.len(),
    ensures
        r@ == line_outcome(cs@.subrange(from as int, to as int)),
{
    match payload_bounds(cs, from, to) {
        Some((a, b)) => {
            let p = string_of(cs, a, b);
            let rec = decode_record(p.as_str());
            classify_payload(p, rec)
        },
        None => LineOutcome::Ignored,
    }
}

/// What each line of a stream body contributes, line by line.
pub fn line_outcomes(body: &str) -> (r: Vec<LineOutcome>)
    ensures
        outcomes_view(r@) == stream_outcomes(body@),
{
    let cs = chars_of(body);
    let n = cs.len();
    let mut out: Vec<LineOutcome> = Vec::new();
    let mut st: usize = 0;
    let mut i: usize = 0;
    let ghost done: Seq<Seq<char>> = Seq::empty();
    assert(cs@.subrange(0, 0) == Seq::<char>::empty());
    while i < n
        invariant
            n == cs@.len(),
            st <= i <= n,
            split_lines(cs@.subrange(0, i as int)) == done.push(cs@.subrange(st as int, i as int)),
            outcomes_view(out@) == done.map_values(|l: Seq<char>| line_outcome(l)),
        decreases n - i,
    {
        let ghost prev = cs@.subrange(0, i as int);
        assert(cs@.subrange(0, i + 1).drop_last() == prev);
        assert(cs@.subrange(0, i + 1).last() == cs@[i as int]);
        if cs[i] == '\n' {
            let o = line_outcome_exec(&cs, st, i);
            proof {
                let line = cs@.subrange(st as int, i as int);
                assert(outcomes_view(out@.push(o)) == outcomes_view(out@).push(o@));
                assert(done.push(line).map_values(|l: Seq<char>| line_outcome(l)) == done.map_values(
                    |l: Seq<char>| line_outcome(l),
                ).push(line_outcome(line)));
                assert(cs@.subrange(i + 1, i + 1) == Seq::<char>::empty());
                done = done.push(line);
            }
            out.push(o);
            st = i + 1;
        } else {
            assert(cs@.subrange(st as int, i as int).push(cs@[i as int]) == cs@.subrange(
                st as int,
                i + 1,
            ));
            assert(done.push(cs@.subrange(st as int, i as int)).update(
                done.len() as int,
                cs@.subrange(st as int, i + 1),
            ) == done.push(cs@.subrange(st as int, i + 1)));
        }
        i = i + 1;
    }
    let o = line_outcome_exec(&cs, st, n);
    proof {
        let line = cs@.subrange(st as int, n as int);
        assert(cs@.subrange(0, n as int) == cs@);
        assert(outcomes_view(out@.push(o)) == outcomes_view(out@).push(o@));
        assert(done.push(line).map_values(|l: Seq<char>| line_outcome(l)) == done.map_values(
            |l: Seq<char>| line_outcome(l),
        ).push(line_outcome(line)));
    }
    out.push(o);
    out
}

/// Gathers a stream's result from what its lines contributed: every failed
/// record, in order, when there is one; otherwise every accepted identifier,
/// in order, duplicates kept.
pub fn collect_outcomes(outcomes: &Vec<LineOutcome>) -> (r: Result<Vec<String>, SyncError>)
    ensures
        ids_result_view(r) == collect_spec(outcomes_view(outcomes@)),
{
    let ghost ov = outcomes_view(outcomes@);
    let mut ids: Vec<String> = Vec::new();
    let mut fails: Vec<RecordFailure> = Vec::new();
    let mut k: usize = 0;
    assert(ov.subrange(0, 0) == Seq::<Outcome>::empty());
    while k < outcomes.len()
        invariant
            ov == outcomes_view(outcomes@),
            k <= outcomes@.len(),
            strings_view(ids@) == accepted_ids(ov.subrange(0, k as int)),
            failures_view(fails@) == record_failures(ov.subrange(0, k as int)),
        decreases outcomes@.len() - k,
    {
        assert(ov.subrange(0, k + 1).drop_last() == ov.subrange(0, k as int));
        assert(ov.subrange(0, k + 1).last() == outcomes@[k as int]@);
        match &outcomes[k] {
            LineOutcome::Accepted(id) => {
                let c = id.clone();
                assert(strings_view(ids@.push(c)) == strings_view(ids@).push(c@));
                ids.push(c);
            },
            LineOutcome::Failed(f) => {
                let c = RecordFailure { doc_id: f.doc_id.clone(), error: f.error.clone() };
                assert(failures_view(fails@.push(c)) == failures_view(fails@).push(c@));
                fails.push(c);
            },
            LineOutcome::Ignored => {},
        }
        k = k + 1;
    }
    assert(ov.subrange(0, k as int) == ov);
    if fails.len() > 0 {
        Err(SyncError::RecordErrors(fails))
    } else {
        Ok(ids)
    }
}

/// Decodes the identifier stream of a response. On a success status, the
/// identifiers of its data lines, in order and with duplicates, or every failed
/// record when one carries an error; on another status, the server's error.
pub fn decode_doc_ids(status: u16, body: &str) -> (r: Result<Vec<String>, SyncError>)
    ensures
        ids_result_view(r) == decode_spec(status, body@),
{
    match check_response(status, body) {
        Err(e) => Err(e),
        Ok(()) => {
            let outcomes = line_outcomes(body);
            collect_outcomes(&outcomes)
        },
    }
}

proof fn lemma_no_failed_no_failures(os: Seq<Outcome>)
    requires
        forall|i: int| 0 <= i < os.len() ==> !(os[i] is Failed),
    ensures
        record_failures(os).len() == 0,
    decreases os.len(),
{
    if os.len() > 0 {
        let init = os.drop_last();
        assert forall|i: int| 0 <= i < init.len() implies !(init[i] is Failed) by {
            assert(init[i] == os[i]);
        }
        lemma_no_failed_no_failures(init);
        assert(!(os[os.len() - 1] is Failed));
    }
}

proof fn lemma_failed_is_listed(os: Seq<Outcome>, i: int)
    requires
        0 <= i < os.len(),
        os[i] is Failed,
    ensures
        exists|j: int|
            0 <= j < record_failures(os).len() && #[trigger] record_failures(os)[j] == (
                os[i]->Failed_0,
                os[i]->Failed_1,
            ),
    decreases os.len(),
{
    let init = os.drop_last();
    if i == os.len() - 1 {
        let fs = record_failures(os);
        assert(fs[fs.len() - 1] == (os[i]->Failed_0, os[i]->Failed_1));
    } else {
        assert(init[i] == os[i]);
        lemma_failed_is_listed(init, i);
        let j = choose|j: int|
            0 <= j < record_failures(init).len() && #[trigger] record_failures(init)[j] == (
                init[i]->Failed_0,
                init[i]->Failed_1,
            );
        assert(record_failures(os)[j] == record_failures(init)[j]);
    }
}

proof fn lemma_contains_in_concat(a: Seq<char>, b: Seq<char>, x: Seq<char>)
    ensures
        contains(a, x) ==> contains(a + b, x),
        contains(b, x) ==> contains(a + b, x),
{
    if contains(a, x) {
        let i = choose|i: int| occurs_at(a, x, i);
        assert((a + b).subrange(i, i + x.len()) == a.subrange(i, i + x.len()));
        assert(occurs_at(a + b, x, i));
    }
    if contains(b, x) {
        let i = choose|i: int| occurs_at(b, x, i);
        assert((a + b).subrange(a.len() + i, a.len() + i + x.len()) == b.subrange(i, i + x.len()));
        assert(occurs_at(a + b, x, a.len() + i));
    }
}

proof fn lemma_joined_mentions(fs: Seq<(Seq<char>, Seq<char>)>, j: int)
    requires
        0 <= j < fs.len(),
    ensures
        contains(join_failures(fs), fs[j].0),
    decreases fs.len(),
{
    let f = fs[j];
    let t = failure_text(f);
    lemma_contains_in_concat("DocID "@, f.0, f.0);
    assert(occurs_at(f.0, f.0, 0)) by {
        assert(f.0.subrange(0, f.0.len() as int) == f.0);
    }
    lemma_contains_in_concat("DocID "@ + f.0, ": "@, f.0);
    lemma_contains_in_concat("DocID "@ + f.0 + ": "@, f.1, f.0);
    assert(contains(t, f.0));
    if fs.len() > 1 {
        let init = fs.drop_last();
        if j == fs.len() - 1 {
            lemma_contains_in_concat(join_failures(init) + "; "@, t, f.0);
        } else {
            assert(init[j] == f);
            lemma_joined_mentions(init, j);
            lemma_contains_in_concat(join_failures(init), "; "@, f.0);
            lemma_contains_in_concat(join_failures(init) + "; "@, failure_text(fs.last()), f.0);
        }
    }
}

/// A stream in which no record carries an error decodes to the identifiers of
/// its data lines, in line order and with duplicates kept; lines without the
/// data marker contribute nothing.
pub proof fn clean_stream_yields_ordered_ids(body: Seq<char>)
    requires
        forall|i: int|
            0 <= i < stream_outcomes(body).len() ==> !(#[trigger] stream_outcomes(body)[i] is Failed),
    ensures
        decode_spec(STATUS_OK, body) == Ok::<Seq<Seq<char>>, ErrorView>(
            accepted_ids(stream_outcomes(body)),
        ),
        forall|i: int|
            0 <= i < split_lines(body).len() && payload_of(#[trigger] split_lines(body)[i]) is None
                ==> stream_outcomes(body)[i] == Outcome::Ignored,
{
    lemma_no_failed_no_failures(stream_outcomes(body));
}

/// A stream in which some record carries an error fails to decode, and the
/// failure's message names every failed record's identifier.
pub proof fn failed_record_fails_stream(body: Seq<char>, i: int)
    requires
        0 <= i < stream_outcomes(body).len(),
        stream_outcomes(body)[i] is Failed,
    ensures
        decode_spec(STATUS_OK, body) is Err,
        decode_spec(STATUS_OK, body)->Err_0 == ErrorView::RecordErrors(
            record_failures(stream_outcomes(body)),
        ),
        forall|k: int|
            0 <= k < stream_outcomes(body).len() && (#[trigger] stream_outcomes(body)[k]) is Failed
                ==> contains(
                message_of(decode_spec(STATUS_OK, body)->Err_0),
                stream_outcomes(body)[k]->Failed_0,
            ),
{
    let os = stream_outcomes(body);
    lemma_failed_is_listed(os, i);
    assert forall|k: int| 0 <= k < os.len() && (#[trigger] os[k]) is Failed implies contains(
        message_of(decode_spec(STATUS_OK, body)->Err_0),
        os[k]->Failed_0,
    ) by {
        lemma_failed_is_listed(os, k);
        let fs = record_failures(os);
        let j = choose|j: int|
            0 <= j < fs.len() && #[trigger] fs[j] == (os[k]->Failed_0, os[k]->Failed_1);
        lemma_joined_mentions(fs, j);
        lemma_contains_in_concat("Errors retrieving document IDs: "@, join_failures(fs), fs[j].0);
    }
}

/// Decoding depends on the status and the body alone: the same input always
/// gives the same result.
pub proof fn decoding_is_deterministic(s1: u16, b1: Seq<char>, s2: u16, b2: Seq<char>)
    requires
        s1 == s2,
        b1 == b2,
    ensures
        decode_spec(s1, b1) == decode_spec(s2, b2),
{
}

proof fn lemma_split_lines_join(a: Seq<char>, b: Seq<char>)
    ensures
        split_lines(a + seq!['\n'] + b) == split_lines(a) + split_lines(b),
    decreases b.len(),
{
    let s = a + seq!['\n'] + b;
    if b.len() == 0 {
        assert(s.drop_last() == a);
        assert(split_lines(b) == seq![Seq::<char>::empty()]);
        assert(split_lines(a).push(Seq::empty()) == split_lines(a) + split_lines(b));
    } else {
        let b0 = b.drop_last();
        assert(s.drop_last() == a + seq!['\n'] + b0);
        assert(s.last() == b.last());
        lemma_split_lines_join(a, b0);
        lemma_split_lines_nonempty(b0);
        let x = split_lines(a);
        let y = split_lines(b0);
        if b.last() == '\n' {
            assert((x + y).push(Seq::empty()) == x + y.push(Seq::empty()));
        } else {
            let c = b.last();
            assert((x + y).last() == y.last());
            assert((x + y).update((x + y).len() - 1, y.last().push(c)) == x + y.update(
                y.len() - 1,
                y.last().push(c),
            ));
        }
    }
}

proof fn lemma_accepted_ids_join(x: Seq<Outcome>, y: Seq<Outcome>)
    ensures
        accepted_ids(x + y) == accepted_ids(x) + accepted_ids(y),
        record_failures(x + y) == record_failures(x) + record_failures(y),
    decreases y.len(),
{
    if y.len() == 0 {
        assert(x + y == x);
        assert(accepted_ids(x) + accepted_ids(y) == accepted_ids(x));
        assert(record_failures(x) + record_failures(y) == record_failures(x));
    } else {
        let y0 = y.drop_last();
        assert((x + y).drop_last() == x + y0);
        assert((x + y).last() == y.last());
        lemma_accepted_ids_join(x, y0);
        match y.last() {
            Outcome::Accepted(d) => {
                assert((accepted_ids(x) + accepted_ids(y0)).push(d) == accepted_ids(x) + accepted_ids(
                    y0,
                ).push(d));
            },
            Outcome::Failed(d, e) => {
                assert((record_failures(x) + record_failures(y0)).push((d, e)) == record_failures(x)
                    + record_failures(y0).push((d, e)));
            },
            Outcome::Ignored => {},
        }
    }
}

/// Two streams joined by a line break decode as the first followed by the
/// second: identifiers keep their line order across the join, and one that
/// occurs in both comes out twice.
pub proof fn joined_streams_keep_order(a: Seq<char>, b: Seq<char>)
    ensures
        stream_outcomes(a + seq!['\n'] + b) == stream_outcomes(a) + stream_outcomes(b),
        decode_spec(STATUS_OK, a) is Ok && decode_spec(STATUS_OK, b) is Ok ==> decode_spec(
            STATUS_OK,
            a + seq!['\n'] + b,
        ) == Ok::<Seq<Seq<char>>, ErrorView>(
            decode_spec(STATUS_OK, a)->Ok_0 + decode_spec(STATUS_OK, b)->Ok_0,
        ),
{
    lemma_split_lines_join(a, b);
    let la = split_lines(a);
    let lb = split_lines(b);
    assert((la + lb).map_values(|l: Seq<char>| line_outcome(l)) == la.map_values(
        |l: Seq<char>| line_outcome(l),
    ) + lb.map_values(|l: Seq<char>| line_outcome(l)));
    lemma_accepted_ids_join(stream_outcomes(a), stream_outcomes(b));
}

} // verus!
