//! The decisions of one streamed chat: what to do next, given what the
//! connection, the parser and the user interface reported last.
//!
//! The caller performs each `StreamAction` (read a chunk, parse a record, deliver
//! a response, report a failure) and hands back what came of it as a `StreamEvent`.
use vstd::prelude::*;

use crate::chat::{chat_input_error, failure_prefix, input_error_text, ChatInputError, OllamaFailure};
use crate::ndjson::{
    has_no_newline, lemma_split_records_chunked, records_view, split_records, take_ndjson_records,
};
use crate::ollama::{is_single_user_request, single_user_request, OllamaChatRequest, OllamaChatResponse};
use crate::text::{
    all_ascii_whitespace, is_all_whitespace, is_blank, lemma_trim_empty_iff_all_whitespace, trim_chars,
    trimmed,
};

verus! {

/// A request from the user interface to stream the answer to a chat message.
#[derive(Clone, Debug)]
pub struct StreamingChatRequest {
    pub request_id: String,
    pub model: String,
    pub message: String,
}

/// What the user interface receives about a streamed answer: a part of it, its
/// last record (`done`), or a failure (`done` with an `error`).
#[derive(Clone, Debug)]
pub struct StreamingChatResponse {
    pub request_id: String,
    pub model: String,
    pub content: String,
    pub done: bool,
    pub error: Option<String>,
}

/// `r` reports the failure `message` for the request `request_id` to `model`, and ends it.
pub open spec fn is_error_response(
    r: StreamingChatResponse,
    request_id: Seq<char>,
    model: Seq<char>,
    message: Seq<char>,
) -> bool {
    &&& r.request_id@ == request_id
    &&& r.model@ == model
    &&& r.content@.len() == 0
    &&& r.done
    &&& r.error matches Some(e) && e@ == message
}

/// The response that reports a failure and ends the stream.
pub fn error_response(request_id: &str, model: &str, message: String) -> (r: StreamingChatResponse)
    ensures
        is_error_response(r, request_id@, model@, message@),
        r.request_id@ == request_id@,
        r.model@ == model@,
        r.content@.len() == 0,
        r.done,
        r.error matches Some(e) && e@ == message@,
{
    StreamingChatResponse {
        request_id: request_id.to_owned(),
        model: model.to_owned(),
        content: String::new(),
        done: true,
        error: Some(message),
    }
}

/// The failure reported when the user interface did not take a response.
pub open spec fn undelivered_text() -> Seq<char> {
    "Could not deliver Ollama's streaming response to the frontend."@
}

/// The failure reported when the stream ended before a record marked done.
pub open spec fn no_completion_text() -> Seq<char> {
    "Ollama ended the streaming response without a completion record."@
}

/// The first thing wrong with a streaming request, checked in this order: no
/// request id, no model chosen, no message written (each blank once trimmed).
pub open spec fn stream_input_error(request_id: Seq<char>, model: Seq<char>, message: Seq<char>) -> Option<
    ChatInputError,
> {
    if trim_chars(request_id).len() == 0 {
        Some(ChatInputError::MissingRequestId)
    } else {
        chat_input_error(model, message)
    }
}

/// Where a streamed chat stands.
#[derive(Clone, Copy, Debug, PartialEq, Eq, Structural)]
pub enum Phase {
    /// The request is being sent.
    Connecting,
    /// Waiting for the next chunk of bytes.
    Reading,
    /// Waiting for a record to be parsed.
    Parsing,
    /// Waiting for a response to reach the user interface.
    Delivering,
    /// Nothing more will be done.
    Closed,
}

/// What the caller reports.
#[derive(Debug)]
pub enum StreamEvent {
    /// The request was sent and Ollama answered with a success status.
    Connected,
    /// The HTTP client could not be set up (with the error's description).
    ClientUnavailable(String),
    /// Ollama could not be reached.
    ConnectFailed(String),
    /// Ollama answered with an unsuccessful status.
    StatusFailed(String),
    /// The next bytes of the answer.
    Chunk(Vec<u8>),
    /// Reading the answer failed.
    ReadFailed(String),
    /// The answer has no more bytes.
    Ended,
    /// The record handed out for parsing holds this response.
    Parsed(OllamaChatResponse),
    /// The record handed out for parsing could not be read.
    Unreadable(String),
    /// The response handed out reached the user interface.
    Delivered,
    /// The response handed out did not reach the user interface.
    Undelivered,
}

/// What the caller is to do next.
#[derive(Debug)]
pub enum StreamAction {
    /// Read the next chunk of the answer and report it.
    ReadChunk,
    /// Parse this record as a chat response and report the result.
    Parse(Vec<u8>),
    /// Send this response to the user interface and report whether it arrived.
    Deliver(StreamingChatResponse),
    /// Send this failure to the user interface; the stream is over.
    Finish(StreamingChatResponse),
    /// The stream is over; nothing is to be sent.
    Close,
}

/// The events that make sense in each phase: exactly those that report the
/// outcome of the action handed out last.
pub open spec fn accepts_event(phase: Phase, event: StreamEvent) -> bool {
    match phase {
        Phase::Connecting => {
            ||| event is Connected
            ||| event is ClientUnavailable
            ||| event is ConnectFailed
            ||| event is StatusFailed
        },
        Phase::Reading => event is Chunk || event is ReadFailed || event is Ended,
        Phase::Parsing => event is Parsed || event is Unreadable,
        Phase::Delivering => event is Delivered || event is Undelivered,
        Phase::Closed => false,
    }
}

/// `q` without the blank records at its front.
pub open spec fn drop_blank(q: Seq<Seq<u8>>) -> Seq<Seq<u8>>
    decreases q.len(),
{
    if q.len() > 0 && is_blank(q[0]) {
        drop_blank(q.drop_first())
    } else {
        q
    }
}

/// One streamed chat.
pub struct StreamSession {
    request_id: String,
    model: String,
    /// Bytes received that do not yet form a whole record.
    buffer: Vec<u8>,
    /// Whole records not yet handed out.
    queue: Vec<Vec<u8>>,
    /// The answer has no more bytes.
    ended: bool,
    /// The response being delivered is the last one.
    delivering_done: bool,
    phase: Phase,
}

impl StreamSession {
    /// The (trimmed) id of the request.
    pub closed spec fn request_id_view(&self) -> Seq<char> {
        self.request_id@
    }

    /// The (trimmed) model asked.
    pub closed spec fn model_view(&self) -> Seq<char> {
        self.model@
    }

    /// Bytes received that do not yet form a whole record.
    pub closed spec fn buffer_view(&self) -> Seq<u8> {
        self.buffer@
    }

    /// Whole records not yet handed out, in order.
    pub closed spec fn queue_view(&self) -> Seq<Seq<u8>> {
        records_view(self.queue@)
    }

    /// Whether the answer has no more bytes.
    pub closed spec fn ended_view(&self) -> bool {
        self.ended
    }

    /// Whether the response being delivered is the last one.
    pub closed spec fn delivering_done_view(&self) -> bool {
        self.delivering_done
    }

    /// Where the stream stands.
    pub closed spec fn phase_view(&self) -> Phase {
        self.phase
    }

    /// Well-formedness: the ids are not blank; before the answer starts nothing is
    /// held; the partial record held back holds no newline; while waiting for bytes
    /// no whole record is held back; once the answer ended, no partial record is left.
    pub closed spec fn inv(&self) -> bool {
        &&& self.request_id@.len() > 0
        &&& self.model@.len() > 0
        &&& self.phase == Phase::Connecting ==> self.buffer@.len() == 0 && self.queue@.len() == 0
            && !self.ended
        &&& self.phase == Phase::Reading ==> self.queue@.len() == 0 && !self.ended
            && has_no_newline(self.buffer@)
        &&& self.ended ==> self.buffer@.len() == 0
        &&& !self.ended ==> has_no_newline(self.buffer@)
    }
}

/// `new` and `old` belong to the same request.
pub open spec fn same_request(old: &StreamSession, new: &StreamSession) -> bool {
    &&& new.request_id_view() == old.request_id_view()
    &&& new.model_view() == old.model_view()
}

/// The stream was ended with `action` reporting the failure `message`.
pub open spec fn finished(
    old: &StreamSession,
    message: Seq<char>,
    new: &StreamSession,
    action: StreamAction,
) -> bool {
    &&& action matches StreamAction::Finish(r) && is_error_response(
        r,
        old.request_id_view(),
        old.model_view(),
        message,
    )
    &&& new.phase_view() == Phase::Closed
    &&& same_request(old, new)
}

/// With the records `q` still to hand out, the unfinished bytes `buffer`, and
/// `ended` telling whether more bytes can come: the next non-blank record is handed
/// out for parsing; without one, more bytes are asked for, or, if none can come,
/// the stream ends with the failure that no record was marked done.
pub open spec fn advanced(
    old: &StreamSession,
    q: Seq<Seq<u8>>,
    ended: bool,
    buffer: Seq<u8>,
    new: &StreamSession,
    action: StreamAction,
) -> bool {
    let rest = drop_blank(q);
    if rest.len() > 0 {
        &&& action matches StreamAction::Parse(r) && r@ == rest[0]
        &&& new.phase_view() == Phase::Parsing
        &&& new.queue_view() == rest.drop_first()
        &&& new.ended_view() == ended
        &&& new.buffer_view() == buffer
        &&& same_request(old, new)
    } else if ended {
        finished(old, no_completion_text(), new, action)
    } else {
        &&& action is ReadChunk
        &&& new.phase_view() == Phase::Reading
        &&& new.queue_view().len() == 0
        &&& new.ended_view() == ended
        &&& new.buffer_view() == buffer
        &&& same_request(old, new)
    }
}

/// `action` is the response to parsed record `parsed`, for the request of `old`.
pub open spec fn is_record_response(
    old: &StreamSession,
    parsed: OllamaChatResponse,
    r: StreamingChatResponse,
) -> bool {
    &&& r.request_id@ == old.request_id_view()
    &&& r.model@ == parsed.model@
    &&& r.content@ == parsed.message.content@
    &&& r.done == parsed.done
    &&& r.error is None
}

/// One step of a streamed chat: the session `old` receives `event`, becomes `new`
/// and asks for `action`.
pub open spec fn step_spec(
    old: &StreamSession,
    event: StreamEvent,
    new: &StreamSession,
    action: StreamAction,
) -> bool {
    match event {
        StreamEvent::Connected => {
            &&& action is ReadChunk
            &&& new.phase_view() == Phase::Reading
            &&& new.queue_view() == old.queue_view()
            &&& new.buffer_view() == old.buffer_view()
            &&& new.ended_view() == old.ended_view()
            &&& same_request(old, new)
        },
        StreamEvent::ClientUnavailable(d) => finished(
            old,
            failure_prefix(OllamaFailure::ConfigureClient) + d@,
            new,
            action,
        ),
        StreamEvent::ConnectFailed(d) => finished(
            old,
            failure_prefix(OllamaFailure::Connect) + d@,
            new,
            action,
        ),
        StreamEvent::StatusFailed(d) => finished(
            old,
            failure_prefix(OllamaFailure::UnsuccessfulStatus) + d@,
            new,
            action,
        ),
        StreamEvent::Chunk(bytes) => {
            let split = split_records(old.buffer_view() + bytes@);
            advanced(old, split.0, false, split.1, new, action)
        },
        StreamEvent::ReadFailed(d) => finished(
            old,
            failure_prefix(OllamaFailure::ReadStream) + d@,
            new,
            action,
        ),
        StreamEvent::Ended => advanced(
            old,
            seq![old.buffer_view()],
            true,
            Seq::<u8>::empty(),
            new,
            action,
        ),
        StreamEvent::Parsed(parsed) => {
            &&& action matches StreamAction::Deliver(r) && is_record_response(old, parsed, r)
            &&& new.phase_view() == Phase::Delivering
            &&& new.delivering_done_view() == parsed.done
            &&& new.queue_view() == old.queue_view()
            &&& new.buffer_view() == old.buffer_view()
            &&& new.ended_view() == old.ended_view()
            &&& same_request(old, new)
        },
        StreamEvent::Unreadable(d) => finished(
            old,
            failure_prefix(OllamaFailure::ReadStreamingRecord) + d@,
            new,
            action,
        ),
        StreamEvent::Delivered => {
            if old.delivering_done_view() {
                &&& action is Close
                &&& new.phase_view() == Phase::Closed
                &&& same_request(old, new)
            } else {
                advanced(old, old.queue_view(), old.ended_view(), old.buffer_view(), new, action)
            }
        },
        StreamEvent::Undelivered => finished(old, undelivered_text(), new, action),
    }
}

/// After the stream reports a failure or closes after its last record, it takes no
/// further event.
pub proof fn lemma_stream_end_is_final(
    old: &StreamSession,
    event: StreamEvent,
    new: &StreamSession,
    action: StreamAction,
    next: StreamEvent,
)
    requires
        step_spec(old, event, new, action),
        action is Finish || action is Close,
    ensures
        new.phase_view() == Phase::Closed,
        !accepts_event(new.phase_view(), next),
{
}

/// Every response handed to the user interface belongs to the session's request: a
/// part of the answer carries no error, and a failure is marked done, with no content.
pub proof fn lemma_responses_belong_to_request(
    old: &StreamSession,
    event: StreamEvent,
    new: &StreamSession,
    action: StreamAction,
)
    requires
        step_spec(old, event, new, action),
    ensures
        same_request(old, new),
        action matches StreamAction::Deliver(r) ==> r.request_id@ == old.request_id_view()
            && r.error is None,
        action matches StreamAction::Finish(r) ==> r.request_id@ == old.request_id_view()
            && r.model@ == old.model_view() && r.done && r.content@.len() == 0 && r.error is Some,
{
}

/// The stream closes without a failure only when the response just delivered was
/// the record marked done.
pub proof fn lemma_close_only_after_done(
    old: &StreamSession,
    event: StreamEvent,
    new: &StreamSession,
    action: StreamAction,
)
    requires
        step_spec(old, event, new, action),
        action is Close,
    ensures
        event is Delivered,
        old.delivering_done_view(),
{
}

/// A streaming request is answered at once with a failure exactly when its id, its
/// model or its message is all whitespace.
pub proof fn lemma_stream_input_refused_iff_blank(
    request_id: Seq<char>,
    model: Seq<char>,
    message: Seq<char>,
)
    ensures
        stream_input_error(request_id, model, message) is None <==> (!is_all_whitespace(
            request_id,
        ) && !is_all_whitespace(model) && !is_all_whitespace(message)),
{
    lemma_trim_empty_iff_all_whitespace(request_id);
    lemma_trim_empty_iff_all_whitespace(model);
    lemma_trim_empty_iff_all_whitespace(message);
}

proof fn lemma_drop_blank_concat(x: Seq<Seq<u8>>, y: Seq<Seq<u8>>)
    requires
        drop_blank(x).len() == 0,
    ensures
        drop_blank(x + y) == drop_blank(y),
    decreases x.len(),
{
    if x.len() == 0 {
        assert(x + y =~= y);
    } else {
        assert((x + y)[0] == x[0]);
        assert((x + y).drop_first() =~= x.drop_first() + y);
        lemma_drop_blank_concat(x.drop_first(), y);
    }
}

/// Bytes handed over in two chunks are handled as if they had come in one: when the
/// first chunk completes no record worth parsing, the second leaves the session in
/// the state, and asks for the action, that one chunk holding both would have.
pub proof fn lemma_chunks_compose(
    s0: &StreamSession,
    a: Vec<u8>,
    s1: &StreamSession,
    b: Vec<u8>,
    s2: &StreamSession,
    action: StreamAction,
    ab: Vec<u8>,
    t0: &StreamSession,
    t2: &StreamSession,
    whole_action: StreamAction,
)
    requires
        ab@ == a@ + b@,
        t0.buffer_view() == s0.buffer_view(),
        step_spec(s0, StreamEvent::Chunk(a), s1, StreamAction::ReadChunk),
        step_spec(s1, StreamEvent::Chunk(b), s2, action),
        step_spec(t0, StreamEvent::Chunk(ab), t2, whole_action),
    ensures
        t2.phase_view() == s2.phase_view(),
        t2.queue_view() == s2.queue_view(),
        t2.buffer_view() == s2.buffer_view(),
        action is ReadChunk <==> whole_action is ReadChunk,
        action is Parse <==> whole_action is Parse,
        action matches StreamAction::Parse(r) ==> whole_action matches StreamAction::Parse(w)
            && w@ == r@,
{
    let buf = s0.buffer_view();
    let first = split_records(buf + a@);
    let second = split_records(first.1 + b@);
    lemma_split_records_chunked(buf + a@, b@);
    assert(buf + ab@ =~= (buf + a@) + b@);
    lemma_drop_blank_concat(first.0, second.0);
}

/// The responses handed to the user interface by `actions`, in order: each one
/// delivered and each failure reported.
pub open spec fn emitted_responses(actions: Seq<StreamAction>) -> Seq<StreamingChatResponse>
    decreases actions.len(),
{
    if actions.len() == 0 {
        Seq::empty()
    } else {
        let before = emitted_responses(actions.drop_last());
        match actions.last() {
            StreamAction::Deliver(r) => before.push(r),
            StreamAction::Finish(r) => before.push(r),
            _ => before,
        }
    }
}

/// Every response of `e` is a part of the answer: not the last, and no failure.
pub open spec fn all_partial(e: Seq<StreamingChatResponse>) -> bool {
    forall|i: int| 0 <= i < e.len() ==> !(#[trigger] e[i]).done && e[i].error is None
}

/// A run of a streamed chat: the session `sessions[0]`, just opened, takes
/// `events[i]` (each one answering the action handed out before it) and becomes
/// `sessions[i + 1]`, asking for `actions[i]`; every response reached the user
/// interface.
pub open spec fn is_delivered_run(
    sessions: Seq<StreamSession>,
    events: Seq<StreamEvent>,
    actions: Seq<StreamAction>,
) -> bool {
    &&& events.len() >= 1
    &&& sessions.len() == events.len() + 1
    &&& actions.len() == events.len()
    &&& sessions[0].phase_view() == Phase::Connecting
    &&& forall|i: int|
        0 <= i < events.len() ==> accepts_event(sessions[i].phase_view(), #[trigger] events[i])
    &&& forall|i: int|
        0 <= i < events.len() ==> step_spec(
            &sessions[i],
            #[trigger] events[i],
            &sessions[i + 1],
            actions[i],
        )
    &&& forall|i: int| 0 <= i < events.len() ==> !(#[trigger] events[i] is Undelivered)
}

proof fn lemma_run_prefix(
    sessions: Seq<StreamSession>,
    events: Seq<StreamEvent>,
    actions: Seq<StreamAction>,
    j: int,
)
    requires
        is_delivered_run(sessions, events, actions),
        0 <= j < events.len(),
    ensures
        ({
            let e = emitted_responses(actions.take(j));
            if sessions[j].phase_view() == Phase::Delivering && sessions[j].delivering_done_view() {
                &&& e.len() > 0
                &&& e.last().done
                &&& e.last().error is None
                &&& all_partial(e.drop_last())
            } else {
                all_partial(e)
            }
        }),
    decreases j,
{
    if j == 0 {
        assert(actions.take(0) =~= Seq::<StreamAction>::empty());
    } else {
        lemma_run_prefix(sessions, events, actions, j - 1);
        let k = j - 1;
        let prev = emitted_responses(actions.take(k));
        assert(actions.take(j).drop_last() =~= actions.take(k));
        assert(actions.take(j).last() == actions[k]);
        let e = emitted_responses(actions.take(j));
        let ev = events[k];
        let act = actions[k];
        assert(accepts_event(sessions[k].phase_view(), ev));
        assert(step_spec(&sessions[k], ev, &sessions[j], act));
        assert(accepts_event(sessions[j].phase_view(), events[j]));
        assert(!(ev is Undelivered));
        assert(sessions[j].phase_view() != Phase::Closed);
        match act {
            StreamAction::Deliver(r) => {
                assert(ev is Parsed);
                assert(e == prev.push(r));
                assert(prev.push(r).drop_last() =~= prev);
                if r.done {
                    assert(sessions[j].phase_view() == Phase::Delivering);
                    assert(sessions[j].delivering_done_view());
                } else {
                    assert forall|i: int| 0 <= i < e.len() implies !(#[trigger] e[i]).done
                        && e[i].error is None by {
                        if i < prev.len() {
                            assert(e[i] == prev[i]);
                        }
                    }
                }
            },
            StreamAction::Finish(r) => {
                assert(false);
            },
            StreamAction::Close => {
                assert(false);
            },
            _ => {
                assert(e == prev);
                assert(!(sessions[k].phase_view() == Phase::Delivering
                    && sessions[k].delivering_done_view()));
                assert(sessions[j].phase_view() != Phase::Delivering);
            },
        }
    }
}

/// A streamed chat whose responses all reach the user interface sends, by the time
/// it stops, exactly one response marked done, and that one last: before it only
/// parts of the answer without error. Nothing is asked for after a failure is
/// reported or the stream closed.
pub proof fn lemma_one_terminal_response_last(
    sessions: Seq<StreamSession>,
    events: Seq<StreamEvent>,
    actions: Seq<StreamAction>,
)
    requires
        is_delivered_run(sessions, events, actions),
        actions.last() is Finish || actions.last() is Close,
    ensures
        forall|i: int|
            0 <= i < actions.len() - 1 ==> !(#[trigger] actions[i] is Finish) && !(
            actions[i] is Close),
        emitted_responses(actions).len() >= 1,
        emitted_responses(actions).last().done,
        all_partial(emitted_responses(actions).drop_last()),
{
    let n = events.len() as int;
    assert forall|i: int| 0 <= i < actions.len() - 1 implies !(#[trigger] actions[i] is Finish)
        && !(actions[i] is Close) by {
        assert(step_spec(&sessions[i], events[i], &sessions[i + 1], actions[i]));
        assert(accepts_event(sessions[i + 1].phase_view(), events[i + 1]));
    }
    let k = n - 1;
    lemma_run_prefix(sessions, events, actions, k);
    assert(actions.take(n) =~= actions);
    assert(actions.take(n).drop_last() =~= actions.take(k));
    let prev = emitted_responses(actions.take(k));
    let ev = events[k];
    assert(step_spec(&sessions[k], ev, &sessions[n], actions[k]));
    assert(accepts_event(sessions[k].phase_view(), ev));
    assert(!(ev is Undelivered));
    match actions[k] {
        StreamAction::Finish(r) => {
            assert(emitted_responses(actions) == prev.push(r));
            assert(prev.push(r).drop_last() =~= prev);
            assert(!(sessions[k].phase_view() == Phase::Delivering
                && sessions[k].delivering_done_view()));
        },
        StreamAction::Close => {
            assert(emitted_responses(actions) == prev);
        },
        _ => {},
    }
}

/// A parsed record is handed to the user interface as it came, character for
/// character: its model, its message text (leading spaces of a streamed token
/// included) and its done flag, for the session's request, with no error.
pub proof fn lemma_parsed_record_delivered_verbatim(
    old: &StreamSession,
    parsed: OllamaChatResponse,
    new: &StreamSession,
    action: StreamAction,
)
    requires
        step_spec(old, StreamEvent::Parsed(parsed), new, action),
    ensures
        action matches StreamAction::Deliver(r) && {
            &&& r.request_id@ == old.request_id_view()
            &&& r.model@ == parsed.model@
            &&& r.content@ == parsed.message.content@
            &&& r.content@.len() == parsed.message.content@.len()
            &&& r.done == parsed.done
            &&& r.error is None
        },
        new.phase_view() == Phase::Delivering,
{
}

/// Every outcome of the action handed out last is taken: while connecting, the
/// success and each of the three failures; while reading, a chunk, a read failure
/// and the end; while parsing, a parsed record and an unreadable one; while
/// delivering, both outcomes. So every failure gets reported.
pub proof fn lemma_every_outcome_is_accepted(
    detail: String,
    bytes: Vec<u8>,
    parsed: OllamaChatResponse,
)
    ensures
        accepts_event(Phase::Connecting, StreamEvent::Connected),
        accepts_event(Phase::Connecting, StreamEvent::ClientUnavailable(detail)),
        accepts_event(Phase::Connecting, StreamEvent::ConnectFailed(detail)),
        accepts_event(Phase::Connecting, StreamEvent::StatusFailed(detail)),
        accepts_event(Phase::Reading, StreamEvent::Chunk(bytes)),
        accepts_event(Phase::Reading, StreamEvent::ReadFailed(detail)),
        accepts_event(Phase::Reading, StreamEvent::Ended),
        accepts_event(Phase::Parsing, StreamEvent::Parsed(parsed)),
        accepts_event(Phase::Parsing, StreamEvent::Unreadable(detail)),
        accepts_event(Phase::Delivering, StreamEvent::Delivered),
        accepts_event(Phase::Delivering, StreamEvent::Undelivered),
{
}

/// Only blank records are skipped: what is left starts at some record, every record
/// before it is blank, and it is either empty or starts with a record that is not.
pub proof fn lemma_drop_blank_skips_only_blank(q: Seq<Seq<u8>>)
    ensures
        exists|k: int|
            0 <= k <= q.len() && drop_blank(q) == q.skip(k) && (forall|i: int|
                0 <= i < k ==> is_blank(#[trigger] q[i])) && (k < q.len() ==> !is_blank(q[k])),
    decreases q.len(),
{
    if q.len() > 0 && is_blank(q[0]) {
        let t = q.drop_first();
        lemma_drop_blank_skips_only_blank(t);
        let k = choose|k: int|
            0 <= k <= t.len() && drop_blank(t) == t.skip(k) && (forall|i: int|
                0 <= i < k ==> is_blank(#[trigger] t[i])) && (k < t.len() ==> !is_blank(t[k]));
        assert(t.skip(k) =~= q.skip(k + 1));
        assert forall|i: int| 0 <= i < k + 1 implies is_blank(#[trigger] q[i]) by {
            if i > 0 {
                assert(q[i] == t[i - 1]);
            }
        }
        if k + 1 < q.len() {
            assert(q[k + 1] == t[k]);
        }
    } else {
        assert(q.skip(0) =~= q);
        assert(drop_blank(q) == q.skip(0));
    }
}

/// When a chunk arrives, the record handed out for parsing is, byte for byte, the
/// first complete record of the held bytes followed by the chunk that is not
/// blank; every complete record before it is blank. When none is left to hand out,
/// the stream asks for more bytes and keeps the unfinished rest.
pub proof fn lemma_chunk_hands_out_first_nonblank_record(
    old: &StreamSession,
    bytes: Vec<u8>,
    new: &StreamSession,
    action: StreamAction,
)
    requires
        step_spec(old, StreamEvent::Chunk(bytes), new, action),
    ensures
        action is Parse || action is ReadChunk,
        action matches StreamAction::Parse(r) ==> exists|k: int|
            0 <= k < split_records(old.buffer_view() + bytes@).0.len() && r@ == split_records(
                old.buffer_view() + bytes@,
            ).0[k] && !is_blank(r@) && forall|i: int|
                0 <= i < k ==> is_blank(#[trigger] split_records(old.buffer_view() + bytes@).0[i]),
        action is ReadChunk ==> new.buffer_view() == split_records(old.buffer_view() + bytes@).1
            && forall|i: int|
            0 <= i < split_records(old.buffer_view() + bytes@).0.len() ==> is_blank(
                #[trigger] split_records(old.buffer_view() + bytes@).0[i],
            ),
{
    let q = split_records(old.buffer_view() + bytes@).0;
    lemma_drop_blank_skips_only_blank(q);
    let k = choose|k: int|
        0 <= k <= q.len() && drop_blank(q) == q.skip(k) && (forall|i: int|
            0 <= i < k ==> is_blank(#[trigger] q[i])) && (k < q.len() ==> !is_blank(q[k]));
    if k < q.len() {
        assert(drop_blank(q)[0] == q[k]);
    } else {
        assert(drop_blank(q).len() == 0);
    }
}

/// A response reporting a failure carries the request's id and model, no content,
/// the done mark, and the failure's text as its error.
pub proof fn lemma_error_response_fields(
    r: StreamingChatResponse,
    request_id: Seq<char>,
    model: Seq<char>,
    message: Seq<char>,
)
    requires
        is_error_response(r, request_id, model, message),
    ensures
        r.request_id@ == request_id,
        r.model@ == model,
        r.content@.len() == 0,
        r.done,
        r.error matches Some(e) && e@ == message,
{
}

/// A closed stream takes no event.
pub proof fn lemma_closed_accepts_nothing(event: StreamEvent)
    ensures
        !accepts_event(Phase::Closed, event),
{
}

impl StreamSession {
    /// Checks a streaming request. A request with a blank id, model or message is
    /// answered at once with the failure that says so; otherwise the session starts,
    /// with the chat request to send: the trimmed message to the trimmed model, streamed.
    pub fn open(request: StreamingChatRequest) -> (r: Result<
        (StreamSession, OllamaChatRequest),
        StreamingChatResponse,
    >)
        ensures
            match stream_input_error(request.request_id@, request.model@, request.message@) {
                Some(e) => r matches Err(resp) && is_error_response(
                    resp,
                    trim_chars(request.request_id@),
                    trim_chars(request.model@),
                    input_error_text(e),
                ),
                None => r matches Ok((s, chat)) && {
                    &&& s.inv()
                    &&& s.phase_view() == Phase::Connecting
                    &&& s.buffer_view().len() == 0
                    &&& s.queue_view().len() == 0
                    &&& !s.ended_view()
                    &&& s.request_id_view() == trim_chars(request.request_id@)
                    &&& s.model_view() == trim_chars(request.model@)
                    &&& is_single_user_request(
                        chat,
                        trim_chars(request.model@),
                        trim_chars(request.message@),
                        true,
                    )
                },
            },
            r matches Ok((s, chat)) ==> {
                &&& s.request_id_view() == trim_chars(request.request_id@)
                &&& s.model_view() == trim_chars(request.model@)
                &&& chat.model@ == trim_chars(request.model@)
                &&& chat.messages@.len() == 1
                &&& chat.messages@[0].role@ == "user"@
                &&& chat.messages@[0].content@ == trim_chars(request.message@)
                &&& chat.stream
            },
    {
        let request_id = trimmed(request.request_id.as_str());
        let model = trimmed(request.model.as_str());
        let message = trimmed(request.message.as_str());
        let refusal = if request_id.as_str().is_empty() {
            Some(ChatInputError::MissingRequestId)
        } else if model.as_str().is_empty() {
            Some(ChatInputError::MissingModel)
        } else if message.as_str().is_empty() {
            Some(ChatInputError::MissingMessage)
        } else {
            None
        };
        match refusal {
            Some(e) => Err(error_response(request_id.as_str(), model.as_str(), e.message())),
            None => {
                let chat = single_user_request(model.clone(), message, true);
                let session = StreamSession {
                    request_id,
                    model,
                    buffer: Vec::new(),
                    queue: Vec::new(),
                    ended: false,
                    delivering_done: false,
                    phase: Phase::Connecting,
                };
                Ok((session, chat))
            },
        }
    }

    /// Where the stream stands.
    pub fn phase(&self) -> (p: Phase)
        ensures
            p == self.phase_view(),
    {
        self.phase
    }

    /// Whether `event` reports the outcome of the action handed out last.
    pub fn accepts(&self, event: &StreamEvent) -> (b: bool)
        ensures
            b == accepts_event(self.phase_view(), *event),
            self.phase_view() == Phase::Connecting ==> (b <==> (event is Connected
                || event is ClientUnavailable || event is ConnectFailed || event is StatusFailed)),
            self.phase_view() == Phase::Reading ==> (b <==> (event is Chunk || event is ReadFailed
                || event is Ended)),
            self.phase_view() == Phase::Parsing ==> (b <==> (event is Parsed
                || event is Unreadable)),
            self.phase_view() == Phase::Delivering ==> (b <==> (event is Delivered
                || event is Undelivered)),
            self.phase_view() == Phase::Closed ==> !b,
    {
        match self.phase {
            Phase::Connecting => match event {
                StreamEvent::Connected => true,
                StreamEvent::ClientUnavailable(_) => true,
                StreamEvent::ConnectFailed(_) => true,
                StreamEvent::StatusFailed(_) => true,
                _ => false,
            },
            Phase::Reading => match event {
                StreamEvent::Chunk(_) => true,
                StreamEvent::ReadFailed(_) => true,
                StreamEvent::Ended => true,
                _ => false,
            },
            Phase::Parsing => match event {
                StreamEvent::Parsed(_) => true,
                StreamEvent::Unreadable(_) => true,
                _ => false,
            },
            Phase::Delivering => match event {
                StreamEvent::Delivered => true,
                StreamEvent::Undelivered => true,
                _ => false,
            },
            Phase::Closed => false,
        }
    }

    /// Ends the stream with the failure `message`.
    fn fail(&mut self, message: String) -> (action: StreamAction)
        requires
            old(self).request_id@.len() > 0,
            old(self).model@.len() > 0,
            old(self).ended ==> old(self).buffer@.len() == 0,
            !old(self).ended ==> has_no_newline(old(self).buffer@),
        ensures
            final(self).inv(),
            finished(old(self), message@, final(self), action),
    {
        let response = error_response(self.request_id.as_str(), self.model.as_str(), message);
        self.phase = Phase::Closed;
        StreamAction::Finish(response)
    }

    /// Hands out the next non-blank record of the queue, or asks for more bytes, or
    /// ends the stream when no more can come.
    fn advance(&mut self) -> (action: StreamAction)
        requires
            old(self).request_id@.len() > 0,
            old(self).model@.len() > 0,
            old(self).ended ==> old(self).buffer@.len() == 0,
            !old(self).ended ==> has_no_newline(old(self).buffer@),
        ensures
            final(self).inv(),
            advanced(
                old(self),
                old(self).queue_view(),
                old(self).ended_view(),
                old(self).buffer_view(),
                final(self),
                action,
            ),
    {
        let ghost start = records_view(self.queue@);
        while self.queue.len() > 0
            invariant
                self.request_id == old(self).request_id,
                self.model == old(self).model,
                self.buffer == old(self).buffer,
                self.ended == old(self).ended,
                self.phase == old(self).phase,
                drop_blank(records_view(self.queue@)) == drop_blank(start),
                start == old(self).queue_view(),
                old(self).request_id@.len() > 0,
                old(self).model@.len() > 0,
                old(self).ended ==> old(self).buffer@.len() == 0,
                !old(self).ended ==> has_no_newline(old(self).buffer@),
            decreases self.queue.len(),
        {
            let ghost q = records_view(self.queue@);
            let record = self.queue.remove(0);
            assert(records_view(self.queue@) =~= q.drop_first());
            assert(q[0] == record@);
            if !all_ascii_whitespace(record.as_slice()) {
                assert(drop_blank(q) == q);
                self.phase = Phase::Parsing;
                return StreamAction::Parse(record);
            }
        }
        assert(drop_blank(records_view(self.queue@)) =~= Seq::<Seq<u8>>::empty());
        if self.ended {
            self.fail(
                "Ollama ended the streaming response without a completion record.".to_owned(),
            )
        } else {
            self.phase = Phase::Reading;
            StreamAction::ReadChunk
        }
    }

    /// Takes in what came of the action handed out last and decides what to do next.
    pub fn step(&mut self, event: StreamEvent) -> (action: StreamAction)
        requires
            old(self).inv(),
            accepts_event(old(self).phase_view(), event),
        ensures
            final(self).inv(),
            step_spec(old(self), event, final(self), action),
            event matches StreamEvent::Parsed(p) ==> action matches StreamAction::Deliver(r) && {
                &&& r.request_id@ == old(self).request_id_view()
                &&& r.model@ == p.model@
                &&& r.content@ == p.message.content@
                &&& r.done == p.done
                &&& r.error is None
            },
            action matches StreamAction::Finish(r) ==> {
                &&& r.request_id@ == old(self).request_id_view()
                &&& r.model@ == old(self).model_view()
                &&& r.content@.len() == 0
                &&& r.done
                &&& r.error is Some
                &&& final(self).phase_view() == Phase::Closed
            },
    {
        match event {
            StreamEvent::Connected => {
                self.phase = Phase::Reading;
                StreamAction::ReadChunk
            },
            StreamEvent::ClientUnavailable(d) => {
                self.fail(OllamaFailure::ConfigureClient.describe(d.as_str()))
            },
            StreamEvent::ConnectFailed(d) => {
                self.fail(OllamaFailure::Connect.describe(d.as_str()))
            },
            StreamEvent::StatusFailed(d) => {
                self.fail(OllamaFailure::UnsuccessfulStatus.describe(d.as_str()))
            },
            StreamEvent::Chunk(bytes) => {
                let mut bytes = bytes;
                self.buffer.append(&mut bytes);
                let records = take_ndjson_records(&mut self.buffer);
                self.queue = records;
                self.advance()
            },
            StreamEvent::ReadFailed(d) => {
                self.fail(OllamaFailure::ReadStream.describe(d.as_str()))
            },
            StreamEvent::Ended => {
                let mut tail: Vec<u8> = Vec::new();
                tail.append(&mut self.buffer);
                let mut queue: Vec<Vec<u8>> = Vec::new();
                queue.push(tail);
                self.queue = queue;
                self.ended = true;
                proof {
                    assert(records_view(self.queue@) =~= seq![old(self).buffer_view()]);
                }
                self.advance()
            },
            StreamEvent::Parsed(parsed) => {
                let done = parsed.done;
                let response = StreamingChatResponse {
                    request_id: self.request_id.clone(),
                    model: parsed.model,
                    content: parsed.message.content,
                    done,
                    error: None,
                };
                self.delivering_done = done;
                self.phase = Phase::Delivering;
                StreamAction::Deliver(response)
            },
            StreamEvent::Unreadable(d) => {
                self.fail(OllamaFailure::ReadStreamingRecord.describe(d.as_str()))
            },
            StreamEvent::Delivered => {
                if self.delivering_done {
                    self.phase = Phase::Closed;
                    StreamAction::Close
                } else {
                    self.advance()
                }
            },
            StreamEvent::Undelivered => {
                self.fail("Could not deliver Ollama's streaming response to the frontend.".to_owned())
            },
        }
    }
}

} // verus!
