//! Streamable HTTP replay probing for `Last-Event-ID` support: the event
//! id a stream announces, and the id to resume from.

use vstd::prelude::*;
use crate::text::{all_digits, decimal_int, digits_value, opt_view, starts_with, trim, utf8_lossy};

verus! {

/// The `Accept` header of a replay request.
pub const ACCEPT_MCP: &'static str = "application/json, text/event-stream";

/// The ids a replay request uses.
pub struct ReplayIds {
    pub last_event_id: String,
}

/// The signed number a text denotes, as `i64::from_str` reads it: an
/// optional sign, then one or more ASCII digits, within `i64`'s range.
pub open spec fn signed_value(s: Seq<char>) -> Option<int> {
    let neg = s.len() > 0 && s[0] == '-';
    let d = if s.len() > 0 && (s[0] == '-' || s[0] == '+') {
        s.drop_first()
    } else {
        s
    };
    if d.len() > 0 && all_digits(d) {
        let v: int = if neg {
            -digits_value(d)
        } else {
            digits_value(d) as int
        };
        if i64::MIN <= v <= i64::MAX {
            Some(v)
        } else {
            None
        }
    } else {
        None
    }
}

/// Parse a signed 64-bit decimal number.
pub fn parse_i64(s: &str) -> (r: Option<i64>)
    ensures
        match r {
            Some(n) => signed_value(s@) == Some(n as int),
            None => signed_value(s@) is None,
        },
{
    let cs = crate::text::chars_of(s);
    let neg = cs.len() > 0 && cs[0] == '-';
    let signed = cs.len() > 0 && (cs[0] == '-' || cs[0] == '+');
    let ghost d = if s@.len() > 0 && (s@[0] == '-' || s@[0] == '+') {
        s@.drop_first()
    } else {
        s@
    };
    let body = if signed {
        crate::text::string_of(crate::text::slice_chars(&cs, 1, cs.len()).as_slice())
    } else {
        crate::text::string_of(cs.as_slice())
    };
    assert(body@ =~= d);
    if crate::text::chars_of(body.as_str()).len() > 0 && crate::text::chars_of(body.as_str())[0] == '+' {
        return None;
    }
    let limit: u64 = if neg {
        0x8000_0000_0000_0000
    } else {
        0x7fff_ffff_ffff_ffff
    };
    match crate::text::parse_unsigned(body.as_str(), limit) {
        None => {
            proof {
                if d.len() > 0 && all_digits(d) {
                    assert(crate::text::unsigned_value(d) == Some(digits_value(d)));
                }
            }
            None
        },
        Some(m) => {
            proof {
                assert(d.len() > 0 && all_digits(d)) by {
                    if !(d.len() > 0 && d[0] == '+') {
                    }
                }
            }
            if neg {
                if m == 0x8000_0000_0000_0000 {
                    Some(i64::MIN)
                } else {
                    Some(-(m as i64))
                }
            } else {
                Some(m as i64)
            }
        },
    }
}

/// The part of a trimmed event id before its first `/`, and the rest
/// after it, if there is a `/`.
pub open spec fn id_parts(event_id: Seq<char>) -> (Seq<char>, Option<Seq<char>>) {
    let t = trim(event_id);
    match crate::text::first_occurrence(t, seq!['/']) {
        Some(i) => (t.take(i), Some(t.skip(i + 1))),
        None => (t, None),
    }
}

/// The index an event id starts with, if it reads as one.
pub open spec fn event_index(event_id: Seq<char>) -> Option<int> {
    signed_value(id_parts(event_id).0)
}

/// The id to resume from: the event's index less one, with the event id's
/// suffix kept.
pub open spec fn prior_event_id(event_id: Seq<char>) -> Option<Seq<char>> {
    match event_index(event_id) {
        None => None,
        Some(n) => Some(
            match id_parts(event_id).1 {
                Some(suffix) => decimal_int(n - 1) + "/"@ + suffix,
                None => decimal_int(n - 1),
            },
        ),
    }
}

/// The index an event id starts with.
pub fn replay_event_index(event_id: &str) -> (r: Option<i64>)
    ensures
        match r {
            Some(n) => event_index(event_id@) == Some(n as int),
            None => event_index(event_id@) is None,
        },
{
    let t = crate::text::trim_str(event_id);
    let cs = crate::text::chars_of(t.as_str());
    let mut slash: Vec<char> = Vec::new();
    slash.push('/');
    assert(slash@ =~= seq!['/']);
    match crate::text::find_seq(&cs, &slash) {
        Some(i) => {
            proof {
                crate::text::lemma_first_occurrence_is(cs@, slash@, i as int);
            }
            let head = crate::text::string_of(crate::text::slice_chars(&cs, 0, i).as_slice());
            assert(head@ =~= cs@.take(i as int));
            parse_i64(head.as_str())
        },
        None => parse_i64(t.as_str()),
    }
}

/// The ids to replay a stream from, given the id of an event it sent;
/// none when the id does not start with a number.
pub fn derive_replay_ids(event_id: &str) -> (r: Option<ReplayIds>)
    requires
        event_index(event_id@) != Some(i64::MIN as int),
    ensures
        match r {
            Some(ids) => prior_event_id(event_id@) == Some(ids.last_event_id@),
            None => prior_event_id(event_id@) is None,
        },
{
    let t = crate::text::trim_str(event_id);
    let cs = crate::text::chars_of(t.as_str());
    let mut slash: Vec<char> = Vec::new();
    slash.push('/');
    assert(slash@ =~= seq!['/']);
    let (head, suffix) = match crate::text::find_seq(&cs, &slash) {
        Some(i) => {
            proof {
                crate::text::lemma_first_occurrence_is(cs@, slash@, i as int);
                assert(crate::text::occurs_at(cs@, slash@, i as int));
                assert(slash@.len() == 1);
                assert(i + 1 <= cs@.len());
            }
            let h = crate::text::string_of(crate::text::slice_chars(&cs, 0, i).as_slice());
            let n = cs.len();
            assert(i + 1 <= n);
            let after: usize = i + 1;
            let s = crate::text::string_of(crate::text::slice_chars(&cs, after, cs.len()).as_slice());
            assert(h@ =~= cs@.take(i as int));
            assert(s@ =~= cs@.skip(i + 1));
            (h, Some(s))
        },
        None => (t, None),
    };
    let index = match parse_i64(head.as_str()) {
        None => {
            return None;
        },
        Some(n) => n,
    };
    let prev = index - 1;
    let text = match suffix {
        Some(s) => crate::text::concat3(crate::text::fmt_i64(prev).as_str(), "/", s.as_str()),
        None => crate::text::fmt_i64(prev),
    };
    Some(ReplayIds { last_event_id: text })
}

// ---------------------------------------------------------------------------
// Reading the event id a stream announces.
// ---------------------------------------------------------------------------

/// The position of the first newline at or after `i` (the end when none).
pub open spec fn next_nl(s: Seq<char>, i: int) -> int
    decreases s.len() - i,
{
    if i >= s.len() {
        s.len() as int
    } else if s[i] == '\n' {
        i
    } else {
        next_nl(s, i + 1)
    }
}

pub proof fn lemma_next_nl(s: Seq<char>, i: int)
    requires
        0 <= i,
    ensures
        i <= s.len() ==> i <= next_nl(s, i) <= s.len(),
        forall|k: int| i <= k < next_nl(s, i) ==> s[k] != '\n',
        next_nl(s, i) < s.len() ==> s[next_nl(s, i)] == '\n',
    decreases s.len() - i,
{
    if i < s.len() && s[i] != '\n' {
        lemma_next_nl(s, i + 1);
    }
}

/// A line without its trailing carriage returns.
pub open spec fn strip_cr(l: Seq<char>) -> Seq<char>
    decreases l.len(),
{
    if l.len() > 0 && l.last() == '\r' {
        strip_cr(l.drop_last())
    } else {
        l
    }
}

/// The event id an SSE line announces: the trimmed text after `id:`.
pub open spec fn line_event_id(l: Seq<char>) -> Option<Seq<char>> {
    let s = strip_cr(l);
    if starts_with(s, "id:"@) {
        Some(trim(s.skip(3)))
    } else {
        None
    }
}

/// The first event id among the complete lines from position `i` (a line
/// is complete when a newline ends it).
pub open spec fn first_event_id_from(s: Seq<char>, i: int) -> Option<Seq<char>>
    decreases s.len() + 1 - i,
{
    if i < 0 || i > s.len() {
        None
    } else {
        let j = next_nl(s, i);
        proof {
            lemma_next_nl(s, i);
        }
        if j >= s.len() {
            None
        } else {
            match line_event_id(s.subrange(i, j)) {
                Some(id) => Some(id),
                None => first_event_id_from(s, j + 1),
            }
        }
    }
}

/// The text after the last newline at or after `i`: the line still being
/// received.
pub open spec fn pending_from(s: Seq<char>, i: int) -> Seq<char>
    decreases s.len() + 1 - i,
{
    if i < 0 || i > s.len() {
        Seq::empty()
    } else {
        let j = next_nl(s, i);
        proof {
            lemma_next_nl(s, i);
        }
        if j >= s.len() {
            s.subrange(i, s.len() as int)
        } else {
            pending_from(s, j + 1)
        }
    }
}

fn line_id_exec(s: &Vec<char>, from: usize, to: usize) -> (r: Option<String>)
    requires
        from <= to <= s@.len(),
    ensures
        crate::text::opt_view(r) == line_event_id(s@.subrange(from as int, to as int)),
{
    let ghost l = s@.subrange(from as int, to as int);
    let mut end: usize = to;
    while end > from && s[end - 1] == '\r'
        invariant
            from <= end <= to,
            to <= s@.len(),
            l == s@.subrange(from as int, to as int),
            strip_cr(l) == strip_cr(s@.subrange(from as int, end as int)),
        decreases end - from,
    {
        assert(s@.subrange(from as int, end - 1) =~= s@.subrange(from as int, end as int).drop_last());
        end = end - 1;
    }
    let stripped = crate::text::slice_chars(s, from, end);
    assert(strip_cr(l) == stripped@);
    let prefix = crate::text::chars_of("id:");
    proof {
        reveal_strlit("id:");
        assert(prefix@.len() == 3);
    }
    if crate::text::occurs_at_exec(&stripped, &prefix, 0) {
        let rest = crate::text::slice_chars(&stripped, 3, stripped.len());
        assert(rest@ =~= stripped@.skip(3));
        Some(crate::text::string_of(crate::text::trim_chars(&rest).as_slice()))
    } else {
        None
    }
}

/// Feed a chunk of an event stream: the text pending from earlier chunks
/// plus the chunk (decoded on its own, lossily) is split into lines; the
/// line after the last newline stays pending, and the first complete line
/// announcing an event id gives that id.
#[verifier::loop_isolation(false)]
pub fn feed_sse_chunk(buffer: &mut String, chunk: &[u8]) -> (r: Option<String>)
    ensures
        final(buffer)@ == pending_from(old(buffer)@ + utf8_lossy(chunk@), 0),
        crate::text::opt_view(r) == first_event_id_from(old(buffer)@ + utf8_lossy(chunk@), 0),
{
    let decoded = crate::text::decode_utf8_lossy(chunk);
    let mut text = crate::text::chars_of(buffer.as_str());
    let more = crate::text::chars_of(decoded.as_str());
    let ghost s = buffer@ + decoded@;
    let mut k: usize = 0;
    let ghost t0 = text@;
    while k < more.len()
        invariant
            k <= more@.len(),
            text@ == t0 + more@.take(k as int),
        decreases more@.len() - k,
    {
        text.push(more[k]);
        assert(more@.take(k + 1) =~= more@.take(k as int).push(more@[k as int]));
        k = k + 1;
    }
    assert(more@.take(k as int) =~= more@);
    assert(text@ =~= s);
    let mut start: usize = 0;
    let mut found: Option<String> = None;
    while start <= text.len()
        invariant
            start <= text@.len() + 1,
            text@ == s,
            found is None ==> first_event_id_from(s, 0) == first_event_id_from(s, start as int),
            found is Some ==> crate::text::opt_view(found) == first_event_id_from(s, 0),
            pending_from(s, 0) == pending_from(s, start as int),
        decreases text@.len() + 1 - start,
    {
        let mut j: usize = start;
        proof {
            lemma_next_nl(s, start as int);
        }
        while j < text.len() && text[j] != '\n'
            invariant
                start <= j <= text@.len(),
                next_nl(s, start as int) == next_nl(s, j as int),
            decreases text@.len() - j,
        {
            j = j + 1;
        }
        if j >= text.len() {
            *buffer = crate::text::string_of(crate::text::slice_chars(&text, start, text.len()).as_slice());
            return found;
        }
        if found.is_none() {
            found = line_id_exec(&text, start, j);
        }
        start = j + 1;
    }
    *buffer = String::new();
    found
}

} // verus!

verus! {

// ---------------------------------------------------------------------------
// The replay probe as a state machine: the caller performs each action and
// hands back what came of it.
// ---------------------------------------------------------------------------

/// What a replay probe is pointed at.
pub struct ReplayProbeTarget {
    pub transport_type: Option<crate::transport::TransportType>,
    pub url: Option<String>,
    pub headers: Option<Vec<(String, String)>>,
    pub timeout_ms: Option<u64>,
}

/// Where a replay probe stands.
#[derive(PartialEq, Eq, Structural)]
pub enum ReplayStage {
    /// Waiting for the reply to `initialize`.
    Init,
    /// Waiting for the event stream to open.
    StreamOpen,
    /// Waiting for the reply to the request that makes the server send an event.
    Trigger,
    /// Waiting for the event id read from the stream.
    Capture,
    /// Waiting for the reply to closing the session.
    Close,
    /// Waiting for the stream resumed from the last event id to open.
    Resume,
    /// Waiting for the event id read from the resumed stream.
    ResumeRead,
    Done,
}

/// The state of a replay probe.
pub struct ReplayState {
    pub stage: ReplayStage,
    pub session_id: Option<String>,
    pub event_id: Option<String>,
    pub last_event_id: Option<String>,
}

/// An HTTP reply: its status code and text, and its session header.
pub struct HttpReply {
    pub status: u16,
    pub status_text: String,
    pub session_header: Option<String>,
}

/// What came of the last action.
pub enum ReplayEvent {
    /// An HTTP exchange, or the request's error text.
    Http(Result<HttpReply, String>),
    /// The first event id read from a stream (if any), or the read's error.
    Read(Result<Option<String>, String>),
}

/// What the caller does next.
pub enum ReplayAction {
    OpenStream,
    Trigger,
    AwaitCapture,
    Close,
    Resume,
    ReadReplay,
    Finish,
}

/// The state a replay probe starts in, after `initialize` was sent.
pub fn replay_start() -> (r: ReplayState)
    ensures
        r.stage == ReplayStage::Init,
        r.session_id is None && r.event_id is None && r.last_event_id is None,
{
    ReplayState { stage: ReplayStage::Init, session_id: None, event_id: None, last_event_id: None }
}

/// A step with a name, a status and an optional detail.
pub open spec fn step_is(s: crate::report::ProbeStep, name: Seq<char>, ok: bool, detail: Option<Seq<char>>) -> bool {
    &&& s.name@ == name
    &&& s.status == (if ok {
        crate::report::ProbeStepStatus::Passed
    } else {
        crate::report::ProbeStepStatus::Error
    })
    &&& opt_view(s.detail) == detail
    &&& s.data is None
}

/// The step of an HTTP exchange: a success passes; another status fails
/// with `HTTP <status>`; a failed request fails with its error.
pub open spec fn exchange_step(s: crate::report::ProbeStep, name: Seq<char>, e: Result<HttpReply, String>) -> bool {
    match e {
        Err(m) => step_is(s, name, false, Some(m@)),
        Ok(r) => if 200 <= r.status < 300 {
            step_is(s, name, true, None)
        } else {
            step_is(s, name, false, Some("HTTP "@ + r.status_text@))
        },
    }
}

/// The trimmed session header, when it is not blank.
pub open spec fn session_of(r: HttpReply) -> Option<Seq<char>> {
    match r.session_header {
        Some(h) => if trim(h@).len() == 0 {
            None
        } else {
            Some(trim(h@))
        },
        None => None,
    }
}

/// The transition of a replay probe: the new state, the steps it records,
/// and the next action. A failed `initialize`, stream, capture or resume
/// ends the run; a failed trigger or close is recorded and the run goes on.
pub open spec fn replay_transition(
    s: ReplayState,
    event: ReplayEvent,
    r: (ReplayState, Vec<crate::report::ProbeStep>, ReplayAction),
) -> bool {
    let (n, steps, action) = r;
    let same_ids = opt_view(n.session_id) == opt_view(s.session_id) && opt_view(n.event_id) == opt_view(
        s.event_id,
    ) && opt_view(n.last_event_id) == opt_view(s.last_event_id);
    let finish = n.stage == ReplayStage::Done && action is Finish;
    match (s.stage, event) {
        (ReplayStage::Init, ReplayEvent::Http(e)) => match e {
            Ok(reply) => if 200 <= reply.status < 300 {
                match session_of(reply) {
                    None => steps@.len() == 1 && step_is(
                        steps@[0],
                        "replay.init"@,
                        false,
                        Some("Missing Mcp-Session-Id header."@),
                    ) && finish && same_ids,
                    Some(sid) => steps@.len() == 1 && step_is(steps@[0], "replay.init"@, true, None)
                        && n.stage == ReplayStage::StreamOpen && action is OpenStream && opt_view(n.session_id)
                        == Some(sid) && opt_view(n.event_id) == opt_view(s.event_id) && opt_view(
                        n.last_event_id,
                    ) == opt_view(s.last_event_id),
                }
            } else {
                steps@.len() == 1 && exchange_step(steps@[0], "replay.init"@, e) && finish && same_ids
            },
            Err(_) => steps@.len() == 1 && exchange_step(steps@[0], "replay.init"@, e) && finish && same_ids,
        },
        (ReplayStage::StreamOpen, ReplayEvent::Http(e)) => steps@.len() == 1 && exchange_step(
            steps@[0],
            "replay.stream.open"@,
            e,
        ) && same_ids && if e matches Ok(reply) && 200 <= reply.status < 300 {
            n.stage == ReplayStage::Trigger && action is Trigger
        } else {
            finish
        },
        (ReplayStage::Trigger, ReplayEvent::Http(e)) => steps@.len() == 1 && exchange_step(
            steps@[0],
            "replay.trigger"@,
            e,
        ) && same_ids && n.stage == ReplayStage::Capture && action is AwaitCapture,
        (ReplayStage::Capture, ReplayEvent::Read(e)) => match e {
            Err(m) => steps@.len() == 2 && step_is(steps@[0], "replay.capture"@, false, Some(m@)) && step_is(
                steps@[1],
                "replay.capture"@,
                false,
                Some("No event id captured from SSE stream."@),
            ) && finish && same_ids,
            Ok(None) => steps@.len() == 1 && step_is(
                steps@[0],
                "replay.capture"@,
                false,
                Some("No event id captured from SSE stream."@),
            ) && finish && same_ids,
            Ok(Some(id)) => opt_view(n.event_id) == Some(id@) && opt_view(n.session_id) == opt_view(
                s.session_id,
            ) && steps@.len() == 1 && match prior_event_id(id@) {
                None => step_is(
                    steps@[0],
                    "replay.capture"@,
                    false,
                    Some("Unexpected event id format: "@ + id@),
                ) && finish && opt_view(n.last_event_id) == opt_view(s.last_event_id),
                Some(last) => step_is(steps@[0], "replay.capture"@, true, None) && opt_view(n.last_event_id)
                    == Some(last) && n.stage == ReplayStage::Close && action is Close,
            },
        },
        (ReplayStage::Close, ReplayEvent::Http(e)) => steps@.len() == 1 && exchange_step(
            steps@[0],
            "replay.close"@,
            e,
        ) && same_ids && n.stage == ReplayStage::Resume && action is Resume,
        (ReplayStage::Resume, ReplayEvent::Http(e)) => same_ids && if e matches Ok(reply) && 200 <= reply.status
            < 300 {
            steps@.len() == 0 && n.stage == ReplayStage::ResumeRead && action is ReadReplay
        } else {
            steps@.len() == 1 && exchange_step(steps@[0], "replay.resume"@, e) && finish
        },
        (ReplayStage::ResumeRead, ReplayEvent::Read(e)) => same_ids && steps@.len() == 1 && finish && if e matches Ok(
            Some(_),
        ) {
            step_is(steps@[0], "replay.resume"@, true, None)
        } else {
            step_is(steps@[0], "replay.resume"@, false, Some("No replay event received."@))
        },
        _ => steps@.len() == 0 && finish && same_ids,
    }
}

fn step_of(name: &str, ok: bool, detail: Option<String>) -> (r: crate::report::ProbeStep)
    ensures
        step_is(r, name@, ok, opt_view(detail)),
{
    crate::report::ProbeStep {
        name: String::from_str(name),
        status: if ok {
            crate::report::ProbeStepStatus::Passed
        } else {
            crate::report::ProbeStepStatus::Error
        },
        detail,
        data: None,
    }
}

fn exchange_step_of(name: &str, e: &Result<HttpReply, String>) -> (r: crate::report::ProbeStep)
    ensures
        exchange_step(r, name@, *e),
{
    match e {
        Err(m) => step_of(name, false, Some(m.clone())),
        Ok(reply) => if 200 <= reply.status && reply.status < 300 {
            step_of(name, true, None)
        } else {
            step_of(name, false, Some(crate::text::concat2("HTTP ", reply.status_text.as_str())))
        },
    }
}

fn one(s: crate::report::ProbeStep) -> (r: Vec<crate::report::ProbeStep>)
    ensures
        r@ == seq![s],
{
    let mut v: Vec<crate::report::ProbeStep> = Vec::new();
    v.push(s);
    v
}

/// Advance a replay probe by what came of its last action.
pub fn replay_step(state: ReplayState, event: ReplayEvent) -> (r: (ReplayState, Vec<crate::report::ProbeStep>, ReplayAction))
    requires
        event matches ReplayEvent::Read(Ok(Some(id))) ==> event_index(id@) != Some(i64::MIN as int),
    ensures
        replay_transition(state, event, r),
{
    let ReplayState { stage, session_id, event_id, last_event_id } = state;
    match (stage, event) {
        (ReplayStage::Init, ReplayEvent::Http(e)) => {
            let sid = match &e {
                Ok(reply) => if 200 <= reply.status && reply.status < 300 {
                    match &reply.session_header {
                        Some(h) => {
                            let t = crate::text::trim_str(h.as_str());
                            if crate::text::chars_of(t.as_str()).len() == 0 {
                                None
                            } else {
                                Some(t)
                            }
                        },
                        None => None,
                    }
                } else {
                    None
                },
                Err(_) => None,
            };
            let success = match &e {
                Ok(reply) => 200 <= reply.status && reply.status < 300,
                Err(_) => false,
            };
            if !success {
                let s = exchange_step_of("replay.init", &e);
                return (ReplayState { stage: ReplayStage::Done, session_id, event_id, last_event_id }, one(s), ReplayAction::Finish);
            }
            match sid {
                None => (
                    ReplayState { stage: ReplayStage::Done, session_id, event_id, last_event_id },
                    one(step_of("replay.init", false, Some(String::from_str("Missing Mcp-Session-Id header.")))),
                    ReplayAction::Finish,
                ),
                Some(s) => (
                    ReplayState { stage: ReplayStage::StreamOpen, session_id: Some(s), event_id, last_event_id },
                    one(step_of("replay.init", true, None)),
                    ReplayAction::OpenStream,
                ),
            }
        },
        (ReplayStage::StreamOpen, ReplayEvent::Http(e)) => {
            let s = exchange_step_of("replay.stream.open", &e);
            let success = match &e {
                Ok(reply) => 200 <= reply.status && reply.status < 300,
                Err(_) => false,
            };
            if success {
                (ReplayState { stage: ReplayStage::Trigger, session_id, event_id, last_event_id }, one(s), ReplayAction::Trigger)
            } else {
                (ReplayState { stage: ReplayStage::Done, session_id, event_id, last_event_id }, one(s), ReplayAction::Finish)
            }
        },
        (ReplayStage::Trigger, ReplayEvent::Http(e)) => {
            let s = exchange_step_of("replay.trigger", &e);
            (ReplayState { stage: ReplayStage::Capture, session_id, event_id, last_event_id }, one(s), ReplayAction::AwaitCapture)
        },
        (ReplayStage::Capture, ReplayEvent::Read(e)) => match e {
            Err(m) => {
                let mut v = one(step_of("replay.capture", false, Some(m)));
                v.push(step_of("replay.capture", false, Some(String::from_str("No event id captured from SSE stream."))));
                (ReplayState { stage: ReplayStage::Done, session_id, event_id, last_event_id }, v, ReplayAction::Finish)
            },
            Ok(None) => (
                ReplayState { stage: ReplayStage::Done, session_id, event_id, last_event_id },
                one(step_of("replay.capture", false, Some(String::from_str("No event id captured from SSE stream.")))),
                ReplayAction::Finish,
            ),
            Ok(Some(id)) => match derive_replay_ids(id.as_str()) {
                None => {
                    let detail = crate::text::concat2("Unexpected event id format: ", id.as_str());
                    (
                        ReplayState { stage: ReplayStage::Done, session_id, event_id: Some(id), last_event_id },
                        one(step_of("replay.capture", false, Some(detail))),
                        ReplayAction::Finish,
                    )
                },
                Some(ids) => (
                    ReplayState {
                        stage: ReplayStage::Close,
                        session_id,
                        event_id: Some(id),
                        last_event_id: Some(ids.last_event_id),
                    },
                    one(step_of("replay.capture", true, None)),
                    ReplayAction::Close,
                ),
            },
        },
        (ReplayStage::Close, ReplayEvent::Http(e)) => {
            let s = exchange_step_of("replay.close", &e);
            (ReplayState { stage: ReplayStage::Resume, session_id, event_id, last_event_id }, one(s), ReplayAction::Resume)
        },
        (ReplayStage::Resume, ReplayEvent::Http(e)) => {
            let success = match &e {
                Ok(reply) => 200 <= reply.status && reply.status < 300,
                Err(_) => false,
            };
            if success {
                (
                    ReplayState { stage: ReplayStage::ResumeRead, session_id, event_id, last_event_id },
                    Vec::new(),
                    ReplayAction::ReadReplay,
                )
            } else {
                let s = exchange_step_of("replay.resume", &e);
                (ReplayState { stage: ReplayStage::Done, session_id, event_id, last_event_id }, one(s), ReplayAction::Finish)
            }
        },
        (ReplayStage::ResumeRead, ReplayEvent::Read(e)) => {
            let got = match &e {
                Ok(Some(_)) => true,
                _ => false,
            };
            let s = if got {
                step_of("replay.resume", true, None)
            } else {
                step_of("replay.resume", false, Some(String::from_str("No replay event received.")))
            };
            (ReplayState { stage: ReplayStage::Done, session_id, event_id, last_event_id }, one(s), ReplayAction::Finish)
        },
        (_, _) => {
            (ReplayState { stage: ReplayStage::Done, session_id, event_id, last_event_id }, Vec::new(), ReplayAction::Finish)
        },
    }
}

/// The position of a stage in a replay run.
pub open spec fn stage_rank(s: ReplayStage) -> nat {
    match s {
        ReplayStage::Init => 0,
        ReplayStage::StreamOpen => 1,
        ReplayStage::Trigger => 2,
        ReplayStage::Capture => 3,
        ReplayStage::Close => 4,
        ReplayStage::Resume => 5,
        ReplayStage::ResumeRead => 6,
        ReplayStage::Done => 7,
    }
}

/// A replay run always moves on: each transition either goes to the next
/// stage or ends the run (with the finish action), and an ended run stays
/// ended, recording nothing more. So a run takes at most seven steps.
pub proof fn lemma_replay_progress(s: ReplayState, e: ReplayEvent, r: (ReplayState, Vec<crate::report::ProbeStep>, ReplayAction))
    requires
        replay_transition(s, e, r),
    ensures
        r.0.stage == ReplayStage::Done || stage_rank(r.0.stage) == stage_rank(s.stage) + 1,
        r.0.stage == ReplayStage::Done <==> r.2 is Finish,
        s.stage == ReplayStage::Done ==> r.1@.len() == 0 && r.0.stage == ReplayStage::Done,
{
}

/// The step that refuses a replay probe over a transport other than
/// streamable HTTP.
pub fn replay_transport_step(transport: Option<crate::transport::TransportType>) -> (r: Option<crate::report::ProbeStep>)
    ensures
        match transport {
            Some(t) if t != crate::transport::TransportType::StreamableHttp => r matches Some(s) && step_is(
                s,
                "replay.transport"@,
                false,
                Some("Replay probe only supports streamable-http transport."@),
            ),
            _ => r is None,
        },
{
    match transport {
        Some(crate::transport::TransportType::StreamableHttp) | None => None,
        Some(_) => Some(
            step_of("replay.transport", false, Some(String::from_str("Replay probe only supports streamable-http transport."))),
        ),
    }
}

/// The `initialize` request a replay probe sends, keys in sorted order.
pub open spec fn initialize_request(protocol_version: Seq<char>) -> crate::json::Json {
    crate::json::Json::Object(
        seq![
            ("id"@, crate::json::Json::Number("1"@)),
            ("jsonrpc"@, crate::json::Json::Str("2.0"@)),
            ("method"@, crate::json::Json::Str("initialize"@)),
            (
                "params"@,
                crate::json::Json::Object(
                    seq![
                        ("capabilities"@, crate::json::Json::Object(Seq::empty())),
                        (
                            "clientInfo"@,
                            crate::json::Json::Object(
                                seq![
                                    ("name"@, crate::json::Json::Str("mcp-probe"@)),
                                    ("version"@, crate::json::Json::Str("0.1"@)),
                                ],
                            ),
                        ),
                        ("protocolVersion"@, crate::json::Json::Str(protocol_version)),
                    ],
                ),
            ),
        ],
    )
}

/// The body of the replay probe's `initialize` request.
pub fn replay_initialize_body(protocol_version: &str) -> (r: String)
    ensures
        r@ == crate::json::json_text(initialize_request(protocol_version@)),
{
    proof {
        assert(crate::json::view_entries(Seq::<(String, crate::json::JsonValue)>::empty()) =~= Seq::<(Seq<char>, crate::json::Json)>::empty());
    }
    let mut client: Vec<(String, crate::json::JsonValue)> = Vec::new();
    crate::catalog_contract::push_entry(&mut client, "name", Some(crate::json::JsonValue::String(String::from_str("mcp-probe"))));
    crate::catalog_contract::push_entry(&mut client, "version", Some(crate::json::JsonValue::String(String::from_str("0.1"))));
    let client_v = crate::json::JsonValue::Object(client);
    assert(client_v@ == crate::json::Json::Object(
        seq![("name"@, crate::json::Json::Str("mcp-probe"@)), ("version"@, crate::json::Json::Str("0.1"@))],
    )) by {
        assert(crate::json::view_entries(client@) =~= seq![("name"@, crate::json::Json::Str("mcp-probe"@)), ("version"@, crate::json::Json::Str("0.1"@))]);
    }
    let mut params: Vec<(String, crate::json::JsonValue)> = Vec::new();
    let caps = crate::json::JsonValue::Object(Vec::new());
    assert(caps@ == crate::json::Json::Object(Seq::empty()));
    crate::catalog_contract::push_entry(&mut params, "capabilities", Some(caps));
    crate::catalog_contract::push_entry(&mut params, "clientInfo", Some(client_v));
    crate::catalog_contract::push_entry(
        &mut params,
        "protocolVersion",
        Some(crate::json::JsonValue::String(String::from_str(protocol_version))),
    );
    let params_v = crate::json::JsonValue::Object(params);
    let ghost want_params = match initialize_request(protocol_version@) {
        crate::json::Json::Object(es) => es[3].1,
        _ => crate::json::Json::Null,
    };
    assert(params_v@ == want_params) by {
        assert(crate::json::view_entries(params@) =~= match want_params {
            crate::json::Json::Object(es) => es,
            _ => Seq::empty(),
        });
    }
    let mut body: Vec<(String, crate::json::JsonValue)> = Vec::new();
    crate::catalog_contract::push_entry(&mut body, "id", Some(crate::json::JsonValue::Number(String::from_str("1"))));
    crate::catalog_contract::push_entry(&mut body, "jsonrpc", Some(crate::json::JsonValue::String(String::from_str("2.0"))));
    crate::catalog_contract::push_entry(&mut body, "method", Some(crate::json::JsonValue::String(String::from_str("initialize"))));
    crate::catalog_contract::push_entry(&mut body, "params", Some(params_v));
    let doc = crate::json::JsonValue::Object(body);
    assert(doc@ == initialize_request(protocol_version@)) by {
        assert(crate::json::view_entries(body@) =~= match initialize_request(protocol_version@) {
            crate::json::Json::Object(es) => es,
            _ => Seq::empty(),
        });
    }
    doc.to_json_text()
}

/// The `tools/list` request that makes the server send an event.
pub open spec fn trigger_request() -> crate::json::Json {
    crate::json::Json::Object(
        seq![
            ("id"@, crate::json::Json::Number("2"@)),
            ("jsonrpc"@, crate::json::Json::Str("2.0"@)),
            ("method"@, crate::json::Json::Str("tools/list"@)),
            ("params"@, crate::json::Json::Object(Seq::empty())),
        ],
    )
}

/// The body of the replay probe's trigger request.
pub fn replay_trigger_body() -> (r: String)
    ensures
        r@ == crate::json::json_text(trigger_request()),
{
    proof {
        assert(crate::json::view_entries(Seq::<(String, crate::json::JsonValue)>::empty()) =~= Seq::<(Seq<char>, crate::json::Json)>::empty());
    }
    let mut body: Vec<(String, crate::json::JsonValue)> = Vec::new();
    crate::catalog_contract::push_entry(&mut body, "id", Some(crate::json::JsonValue::Number(String::from_str("2"))));
    crate::catalog_contract::push_entry(&mut body, "jsonrpc", Some(crate::json::JsonValue::String(String::from_str("2.0"))));
    crate::catalog_contract::push_entry(&mut body, "method", Some(crate::json::JsonValue::String(String::from_str("tools/list"))));
    crate::catalog_contract::push_entry(&mut body, "params", Some(crate::json::JsonValue::Object(Vec::new())));
    let doc = crate::json::JsonValue::Object(body);
    assert(doc@ == trigger_request()) by {
        assert(crate::json::view_entries(body@) =~= match trigger_request() {
            crate::json::Json::Object(es) => es,
            _ => Seq::empty(),
        });
    }
    doc.to_json_text()
}

} // verus!
