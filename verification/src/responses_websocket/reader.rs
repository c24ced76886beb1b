//! Reading the response to a request off the connection.

use vstd::prelude::*;
use vstd::string::*;
use vstd::utf8::encode_utf8;
use reqwest::header::HeaderMap;
use crate::headers::header_at;
use crate::json::{
    copy_items, items_view, json_reading, json_text, json_to_text, lemma_lookup_with, parse_json,
    set_member, text_of, with_member, Json, JsonView,
};
use crate::responses_websocket::chaining::{
    continues, copy_members, increment, input_of, item_type_of, law_compact_message_matches,
    law_continuation_sends_only_new_input, law_wire_request_members, same_properties, wire_request,
    CompletedExchange, ExchangeView,
};
use crate::responses_websocket::failures::{
    event_error, few_headers, map_error_event, same_but_retry,
};
use crate::responses_websocket::state::{
    empty_session, handshake_headers, law_handshake_headers, stream_step, SessionView, StateView,
    StreamActionView, StreamEvent, StreamRequest, WebSocketSession, RESPONSES_WEBSOCKET_BETA,
};
use crate::sampling::{SamplingError, SamplingErrorView};
use crate::text::{begins_with, begins_with_text, concat, text_eq};

verus! {

/// How the event that was forwarded last leaves the response.
#[derive(Clone, Copy, Debug, PartialEq, Eq, Structural)]
pub enum ResponseEnd {
    /// More is to come.
    Open,
    /// The response is complete.
    Completed,
    /// The response was cut short.
    Incomplete,
    /// The response failed.
    Failed,
}

/// What has been read of the response to a request.
pub struct ResponseReader {
    pub full_request: Json,
    pub response_id: String,
    pub output_items: Vec<Json>,
    pub end: ResponseEnd,
}

/// The model of [`ResponseReader`].
pub struct ReaderView {
    pub full_request: JsonView,
    pub response_id: Seq<char>,
    pub output_items: Seq<JsonView>,
    pub end: ResponseEnd,
}

impl ResponseReader {
    pub open spec fn view(&self) -> ReaderView {
        ReaderView {
            full_request: self.full_request@,
            response_id: self.response_id@,
            output_items: items_view(self.output_items@),
            end: self.end,
        }
    }

    /// A reader for the response to a request, before anything was read.
    pub fn new(full_request: Json) -> (r: Self)
        ensures
            r@ == fresh_reader(full_request@),
    {
        let output_items: Vec<Json> = Vec::new();
        assert(items_view(output_items@) =~= Seq::<JsonView>::empty());
        ResponseReader {
            full_request,
            response_id: String::new(),
            output_items,
            end: ResponseEnd::Open,
        }
    }
}

/// What comes from the connection, or from the consumer of the events.
pub enum ReaderEvent {
    /// Nobody takes the events any more.
    ReceiverClosed,
    /// Reading failed.
    ReadFailed(String),
    /// The connection ended.
    Ended,
    /// Nothing came for too long.
    IdleTimeout,
    /// A text frame.
    Text(String),
    /// A ping that wants a reply.
    Ping,
    /// Whether the reply to a ping went out.
    PingReplied(bool),
    /// A frame that asks for nothing.
    Pong,
    /// A binary frame.
    Binary,
    /// A close frame.
    Close,
    /// Whether the consumer took the event that was forwarded.
    Forwarded(bool),
}

/// What the reader does next.
pub enum ReaderAction {
    /// Read the next frame.
    Read,
    /// Reply to the ping.
    ReplyToPing,
    /// Hand an event to the consumer.
    Forward(String),
    /// Hand an error to the consumer and stop.
    Fail(SamplingError),
    /// Stop.
    Stop,
}

/// The model of [`ReaderAction`].
pub enum ReaderActionView {
    Read,
    ReplyToPing,
    Forward(Seq<char>),
    Fail(SamplingErrorView),
    Stop,
}

impl ReaderAction {
    pub open spec fn view(&self) -> ReaderActionView {
        match self {
            ReaderAction::Read => ReaderActionView::Read,
            ReaderAction::ReplyToPing => ReaderActionView::ReplyToPing,
            ReaderAction::Forward(text) => ReaderActionView::Forward(text@),
            ReaderAction::Fail(error) => ReaderActionView::Fail(error@),
            ReaderAction::Stop => ReaderActionView::Stop,
        }
    }
}

/// The type that an event names, empty where it names none.
pub open spec fn event_kind(event: JsonView) -> Seq<char> {
    match event.get_text("type"@) {
        Some(kind) => kind,
        None => Seq::empty(),
    }
}

/// How an event of that type leaves the response.
pub open spec fn end_after(kind: Seq<char>) -> ResponseEnd {
    if kind == "response.completed"@ {
        ResponseEnd::Completed
    } else if kind == "response.incomplete"@ {
        ResponseEnd::Incomplete
    } else if kind == "response.failed"@ {
        ResponseEnd::Failed
    } else {
        ResponseEnd::Open
    }
}

/// Whether an event of that type is about the connection and not the response.
pub open spec fn is_transport_event(kind: Seq<char>) -> bool {
    begins_with(kind, "codex."@) || kind == "responsesapi.websocket_timing"@
}

/// The id of the response after an event: the one that it names, if it names one.
pub open spec fn id_after(response_id: Seq<char>, event: JsonView) -> Seq<char> {
    match text_of(event.get_in("response"@, "id"@)) {
        Some(id) => id,
        None => response_id,
    }
}

/// The output that an event at the end of a response lists.
pub open spec fn terminal_output(event: JsonView) -> Seq<JsonView> {
    match event.get_in("response"@, "output"@) {
        Some(JsonView::Array(items)) => items,
        _ => Seq::empty(),
    }
}

/// The event with the output of its response replaced.
pub open spec fn with_output(event: JsonView, output: Seq<JsonView>) -> JsonView {
    match (event, event.get("response"@)) {
        (JsonView::Object(members), Some(JsonView::Object(response))) => JsonView::Object(
            with_member(
                members,
                "response"@,
                JsonView::Object(with_member(response, "output"@, JsonView::Array(output))),
            ),
        ),
        _ => event,
    }
}

/// What has been read of the response after an event of the response.
pub open spec fn collected(reader: ReaderView, event: JsonView) -> ReaderView {
    let kind = event_kind(event);
    let end = end_after(kind);
    let after = ReaderView { end, ..reader };
    if kind == "response.created"@ {
        ReaderView { response_id: id_after(reader.response_id, event), ..after }
    } else if kind == "response.output_item.done"@ {
        match event.get("item"@) {
            Some(item) => ReaderView { output_items: reader.output_items.push(item), ..after },
            None => after,
        }
    } else if end != ResponseEnd::Open {
        ReaderView {
            response_id: id_after(reader.response_id, event),
            output_items: if reader.output_items.len() == 0 {
                terminal_output(event)
            } else {
                reader.output_items
            },
            ..after
        }
    } else {
        after
    }
}

/// The text that the consumer gets for an event: the frame itself, or for an
/// event at the end of a response the event with the output that was collected,
/// where it lists none.
pub open spec fn forwarded_text(reader: ReaderView, event: JsonView, frame: Seq<char>) -> Seq<char> {
    if end_after(event_kind(event)) == ResponseEnd::Open {
        frame
    } else if reader.output_items.len() > 0 && terminal_output(event).len() == 0 {
        json_text(with_output(event, reader.output_items).settled())
    } else {
        json_text(event.settled())
    }
}

/// A failure: the session is over, and the consumer gets the error.
pub open spec fn failed(reader: ReaderView, message: Seq<char>) -> (
    SessionView,
    ReaderView,
    ReaderActionView,
) {
    (
        empty_session(),
        reader,
        ReaderActionView::Fail(SamplingErrorView::EventStreamError(message)),
    )
}

/// Taking a text frame that holds a JSON value.
pub open spec fn value_step(
    session: SessionView,
    reader: ReaderView,
    event: JsonView,
    frame: Seq<char>,
) -> (SessionView, ReaderView, ReaderActionView) {
    let kind = event_kind(event);
    if kind == "error"@ {
        (empty_session(), reader, ReaderActionView::Fail(event_error(event)))
    } else if is_transport_event(kind) {
        (session, reader, ReaderActionView::Read)
    } else {
        (
            session,
            collected(reader, event),
            ReaderActionView::Forward(forwarded_text(reader, event, frame)),
        )
    }
}

/// The exchange that a complete response makes of its request, if the response
/// has an id to name.
pub open spec fn exchange_of(reader: ReaderView) -> Option<ExchangeView> {
    if reader.response_id.len() > 0 {
        Some(
            ExchangeView {
                full_request: reader.full_request,
                response_id: reader.response_id,
                output_items: reader.output_items,
            },
        )
    } else {
        None
    }
}

/// Taking the news that the consumer took the forwarded event.
pub open spec fn delivered_step(session: SessionView, reader: ReaderView) -> (
    SessionView,
    ReaderView,
    ReaderActionView,
) {
    match reader.end {
        ResponseEnd::Open => (session, reader, ReaderActionView::Read),
        ResponseEnd::Completed => (
            SessionView { last_exchange: exchange_of(reader), ..session },
            reader,
            ReaderActionView::Stop,
        ),
        ResponseEnd::Incomplete => (
            SessionView { last_exchange: None, ..session },
            reader,
            ReaderActionView::Stop,
        ),
        ResponseEnd::Failed => (empty_session(), reader, ReaderActionView::Stop),
    }
}

/// The session, the reader and the next action after an event.
pub open spec fn read_step(session: SessionView, reader: ReaderView, event: ReaderEvent) -> (
    SessionView,
    ReaderView,
    ReaderActionView,
) {
    match event {
        ReaderEvent::ReceiverClosed | ReaderEvent::Forwarded(false) => (
            empty_session(),
            reader,
            ReaderActionView::Stop,
        ),
        ReaderEvent::ReadFailed(error) => failed(
            reader,
            "Responses WebSocket read failed: "@ + error@,
        ),
        ReaderEvent::Ended | ReaderEvent::Close => failed(
            reader,
            "Responses WebSocket closed before response.completed"@,
        ),
        ReaderEvent::IdleTimeout => failed(reader, "idle timeout waiting for Responses WebSocket"@),
        ReaderEvent::Text(text) => match json_reading(text@) {
            Some(value) => value_step(session, reader, value, text@),
            None => (session, reader, ReaderActionView::Read),
        },
        ReaderEvent::Ping => (session, reader, ReaderActionView::ReplyToPing),
        ReaderEvent::PingReplied(true) | ReaderEvent::Pong => (
            session,
            reader,
            ReaderActionView::Read,
        ),
        ReaderEvent::PingReplied(false) => failed(
            reader,
            "failed to reply to Responses WebSocket ping"@,
        ),
        ReaderEvent::Binary => failed(reader, "unexpected binary Responses WebSocket frame"@),
        ReaderEvent::Forwarded(true) => delivered_step(session, reader),
    }
}

/// Whether the headers of an error event are few enough to be read exactly.
pub open spec fn readable(value: JsonView) -> bool {
    event_kind(value) == "error"@ ==> few_headers(value)
}

/// Whether two actions are the same, but for when, and whether, an error says to
/// try again.
pub open spec fn same_action(a: ReaderActionView, b: ReaderActionView) -> bool {
    match (a, b) {
        (ReaderActionView::Fail(x), ReaderActionView::Fail(y)) => same_but_retry(x, y),
        _ => a == b,
    }
}

/// Puts the collected output into an event at the end of a response.
pub fn inject_collected_output(terminal_event: Json, output_items: &Vec<Json>) -> (r: Json)
    ensures
        r@ == if output_items.len() == 0 {
            terminal_event@
        } else {
            with_output(terminal_event@, items_view(output_items@))
        },
{
    if output_items.len() == 0 {
        return terminal_event;
    }
    let with_it = match terminal_event.get("response") {
        Some(Json::Object(response)) => {
            let mut members = copy_members(response);
            let items = copy_items(output_items, 0);
            assert(items_view(output_items@).skip(0) =~= items_view(output_items@));
            set_member(&mut members, "output", Json::Array(items));
            members
        },
        _ => {
            return terminal_event;
        },
    };
    match terminal_event {
        Json::Object(mut members) => {
            set_member(&mut members, "response", Json::Object(with_it));
            Json::Object(members)
        },
        other => other,
    }
}

/// Ends the session and hands the error to the consumer.
pub fn fail_stream(session: &mut WebSocketSession, error: SamplingError) -> (r: ReaderAction)
    ensures
        final(session)@ == empty_session(),
        r@ == ReaderActionView::Fail(error@),
{
    *session = WebSocketSession::default();
    ReaderAction::Fail(error)
}

fn fail_with(session: &mut WebSocketSession, message: &str) -> (r: ReaderAction)
    ensures
        final(session)@ == empty_session(),
        r@ == ReaderActionView::Fail(SamplingErrorView::EventStreamError(message@)),
{
    fail_stream(session, SamplingError::EventStreamError(message.to_owned()))
}

fn end_of(kind: &str) -> (r: ResponseEnd)
    ensures
        r == end_after(kind@),
{
    if text_eq(kind, "response.completed") {
        ResponseEnd::Completed
    } else if text_eq(kind, "response.incomplete") {
        ResponseEnd::Incomplete
    } else if text_eq(kind, "response.failed") {
        ResponseEnd::Failed
    } else {
        ResponseEnd::Open
    }
}

fn named_id(event: &Json, otherwise: &String) -> (r: String)
    ensures
        r@ == id_after(otherwise@, event@),
{
    match event.get_in("response", "id") {
        Some(id) => match id.as_text() {
            Some(text) => text.to_owned(),
            None => otherwise.clone(),
        },
        None => otherwise.clone(),
    }
}

fn listed_output(event: &Json) -> (r: Vec<Json>)
    ensures
        items_view(r@) == terminal_output(event@),
{
    assert(items_view(Seq::<Json>::empty()) =~= Seq::<JsonView>::empty());
    match event.get_in("response", "output") {
        Some(output) => match output.as_items() {
            Some(items) => {
                assert(items_view(items@).skip(0) =~= items_view(items@));
                copy_items(items, 0)
            },
            None => Vec::new(),
        },
        None => Vec::new(),
    }
}

impl ResponseReader {
    /// Takes a text frame that holds a JSON value.
    pub fn read_value(&mut self, session: &mut WebSocketSession, value: Json, text: String) -> (r:
        ReaderAction)
        ensures
            ({
                let step = value_step(old(session)@, old(self)@, value@, text@);
                &&& final(session)@ == step.0
                &&& final(self)@ == step.1
                &&& same_action(r@, step.2)
                &&& readable(value@) ==> r@ == step.2
            }),
    {
        let kind = match value.get_text("type") {
            Some(kind) => kind.to_owned(),
            None => String::new(),
        };
        if text_eq(kind.as_str(), "error") {
            let error = map_error_event(&value);
            return fail_stream(session, error);
        }
        if begins_with_text(kind.as_str(), "codex.") || text_eq(
            kind.as_str(),
            "responsesapi.websocket_timing",
        ) {
            return ReaderAction::Read;
        }
        proof {
            reveal_strlit("response.created");
            reveal_strlit("response.output_item.done");
            reveal_strlit("response.completed");
            reveal_strlit("response.incomplete");
            reveal_strlit("response.failed");
        }
        self.end = end_of(kind.as_str());
        if text_eq(kind.as_str(), "response.created") {
            self.response_id = named_id(&value, &self.response_id);
            return ReaderAction::Forward(text);
        }
        if text_eq(kind.as_str(), "response.output_item.done") {
            if let Some(item) = value.get("item") {
                let copy = item.clone();
                let ghost before = items_view(self.output_items@);
                self.output_items.push(copy);
                assert(items_view(self.output_items@) =~= before.push(item@));
            }
            return ReaderAction::Forward(text);
        }
        if self.end == ResponseEnd::Open {
            return ReaderAction::Forward(text);
        }
        self.response_id = named_id(&value, &self.response_id);
        let output = listed_output(&value);
        if self.output_items.len() == 0 {
            self.output_items = output;
            ReaderAction::Forward(json_to_text(&value))
        } else if output.len() == 0 {
            let event = inject_collected_output(value, &self.output_items);
            ReaderAction::Forward(json_to_text(&event))
        } else {
            ReaderAction::Forward(json_to_text(&value))
        }
    }

    /// Takes the news that the consumer took the forwarded event.
    fn delivered(&self, session: &mut WebSocketSession) -> (r: ReaderAction)
        ensures
            (final(session)@, self@, r@) == delivered_step(old(session)@, self@),
    {
        match self.end {
            ResponseEnd::Open => ReaderAction::Read,
            ResponseEnd::Completed => {
                session.last_exchange =
                if self.response_id.as_str().is_empty() {
                    None
                } else {
                    assert(items_view(self.output_items@).skip(0) =~= items_view(
                        self.output_items@,
                    ));
                    Some(
                        CompletedExchange {
                            full_request: self.full_request.clone(),
                            response_id: self.response_id.clone(),
                            output_items: copy_items(&self.output_items, 0),
                        },
                    )
                };
                ReaderAction::Stop
            },
            ResponseEnd::Incomplete => {
                session.last_exchange = None;
                ReaderAction::Stop
            },
            ResponseEnd::Failed => {
                *session = WebSocketSession::default();
                ReaderAction::Stop
            },
        }
    }

    /// Takes the next event of the connection or the consumer.
    pub fn read_response(&mut self, session: &mut WebSocketSession, event: ReaderEvent) -> (r:
        ReaderAction)
        ensures
            ({
                let step = read_step(old(session)@, old(self)@, event);
                &&& final(session)@ == step.0
                &&& final(self)@ == step.1
                &&& same_action(r@, step.2)
                &&& (event matches ReaderEvent::Text(text) ==> (json_reading(text@) matches Some(
                    value,
                ) ==> readable(value))) ==> r@ == step.2
            }),
    {
        match event {
            ReaderEvent::ReceiverClosed | ReaderEvent::Forwarded(false) => {
                *session = WebSocketSession::default();
                ReaderAction::Stop
            },
            ReaderEvent::ReadFailed(error) => {
                let message = concat("Responses WebSocket read failed: ", error.as_str());
                fail_with(session, message.as_str())
            },
            ReaderEvent::Ended | ReaderEvent::Close => fail_with(
                session,
                "Responses WebSocket closed before response.completed",
            ),
            ReaderEvent::IdleTimeout => fail_with(
                session,
                "idle timeout waiting for Responses WebSocket",
            ),
            ReaderEvent::Text(text) => match parse_json(text.as_str()) {
                Some(value) => self.read_value(session, value, text),
                None => ReaderAction::Read,
            },
            ReaderEvent::Ping => ReaderAction::ReplyToPing,
            ReaderEvent::PingReplied(true) | ReaderEvent::Pong => ReaderAction::Read,
            ReaderEvent::PingReplied(false) => fail_with(
                session,
                "failed to reply to Responses WebSocket ping",
            ),
            ReaderEvent::Binary => fail_with(
                session,
                "unexpected binary Responses WebSocket frame",
            ),
            ReaderEvent::Forwarded(true) => self.delivered(session),
        }
    }
}

/// An error, or an end of the stream that is not the end of the response, leaves
/// a session without a connection.
pub proof fn law_error_ends_session(session: SessionView, reader: ReaderView, event: ReaderEvent)
    ensures
        read_step(session, reader, event).2 is Fail ==> read_step(session, reader, event).0
            == empty_session(),
        event is ReceiverClosed || event == ReaderEvent::Forwarded(false) ==> read_step(
            session,
            reader,
            event,
        ) == (empty_session(), reader, ReaderActionView::Stop),
{
}

/// Whatever is read, a session that has an exchange to continue has a connection
/// and a response to name.
pub proof fn law_reading_keeps_session_well_formed(
    session: SessionView,
    reader: ReaderView,
    event: ReaderEvent,
)
    requires
        session.well_formed(),
        session.connected,
    ensures
        read_step(session, reader, event).0.well_formed(),
{
}

/// After a complete response with an id, a request whose input begins with what
/// stands for the input and the output of the exchange, and goes on from there,
/// sends just what is new and names that response.
pub proof fn law_completed_response_is_continued(
    session: SessionView,
    reader: ReaderView,
    request: JsonView,
    before: Seq<JsonView>,
    repeated: Seq<JsonView>,
    rest: Seq<JsonView>,
)
    requires
        reader.end == ResponseEnd::Completed,
        reader.response_id.len() > 0,
        same_properties(reader.full_request, request),
        input_of(reader.full_request) == Some(before),
        input_of(request) == Some(repeated + rest),
        repeated.len() == before.len() + reader.output_items.len() <= usize::MAX,
        continues(repeated, before, reader.output_items),
    ensures
        read_step(session, reader, ReaderEvent::Forwarded(true)).0.last_exchange matches Some(
            exchange,
        ) && increment(exchange, request) == Ok::<(Seq<char>, Seq<JsonView>), Seq<char>>(
            (reader.response_id, rest),
        ),
{
    law_continuation_sends_only_new_input(exchange_of(reader)->0, request, before, repeated, rest);
}

/// A reader for the response to a request, before anything was read.
pub open spec fn fresh_reader(full_request: JsonView) -> ReaderView {
    ReaderView {
        full_request,
        response_id: Seq::empty(),
        output_items: Seq::empty(),
        end: ResponseEnd::Open,
    }
}

/// Where a session and a reader are after a run of events, and the action that
/// came last. Nothing is read any more after a failure or a stop.
pub open spec fn after_reading(
    session: SessionView,
    reader: ReaderView,
    events: Seq<ReaderEvent>,
) -> (SessionView, ReaderView, ReaderActionView)
    decreases events.len(),
{
    if events.len() == 0 {
        (session, reader, ReaderActionView::Read)
    } else {
        let so_far = after_reading(session, reader, events.drop_last());
        if so_far.2 is Fail || so_far.2 is Stop {
            so_far
        } else {
            read_step(so_far.0, so_far.1, events.last())
        }
    }
}

/// As long as reading goes on the session stays as it is, and the request is the
/// same all along.
proof fn lemma_reading_goes_on(session: SessionView, reader: ReaderView, events: Seq<ReaderEvent>)
    ensures
        ({
            let (s, r, a) = after_reading(session, reader, events);
            &&& !(a is Fail || a is Stop) ==> s == session
            &&& r.full_request == reader.full_request
        }),
    decreases events.len(),
{
    if events.len() > 0 {
        lemma_reading_goes_on(session, reader, events.drop_last());
    }
}

/// Two requests on one connection. The first opens it and is sent in full. Once
/// its response has been read to a complete end, a second request of the same
/// properties, whose input begins with what stands for the input and the output
/// of the first, goes out on the same connection: it names the response and sends
/// only what is new.
pub proof fn law_second_request_continues_the_first(
    start: StateView,
    first: StreamRequest,
    headers: HeaderMap,
    events: Seq<ReaderEvent>,
    second: StreamRequest,
    before: Seq<JsonView>,
    repeated: Seq<JsonView>,
    rest: Seq<JsonView>,
)
    requires
        !start.disabled,
        start.session == empty_session(),
        input_of(first.body@) == Some(before),
        ({
            let opened = stream_step(start, first, StreamEvent::Connected(headers)).0;
            let (s, r, a) = after_reading(opened.session, fresh_reader(first.body@), events);
            &&& a is Stop
            &&& s.connected
            &&& r.end == ResponseEnd::Completed
            &&& r.response_id.len() > 0
            &&& repeated.len() == before.len() + r.output_items.len() <= usize::MAX
            &&& continues(repeated, before, r.output_items)
        }),
        same_properties(first.body@, second.body@),
        input_of(second.body@) == Some(repeated + rest),
    ensures
        stream_step(start, first, StreamEvent::Started) == (start, StreamActionView::Connect),
        ({
            let (opened, sent) = stream_step(start, first, StreamEvent::Connected(headers));
            let wire = wire_request(
                first.body@,
                None,
                first.metadata@,
                first.start_ms as nat,
            );
            &&& sent == (StreamActionView::Send {
                text: json_text(wire.settled()),
                connection_reused: false,
                unchained_reason: Some("no_previous_response"@),
            })
            &&& wire.get("previous_response_id"@) is None
            &&& wire.get("input"@) == Some(JsonView::Array(before))
        }),
        ({
            let opened = stream_step(start, first, StreamEvent::Connected(headers)).0;
            let (s, r, _) = after_reading(opened.session, fresh_reader(first.body@), events);
            let later = StateView { session: s, ..opened };
            let wire = wire_request(
                second.body@,
                s.last_exchange,
                second.metadata@,
                second.start_ms as nat,
            );
            &&& stream_step(later, second, StreamEvent::Started) == (
                later,
                StreamActionView::Send {
                    text: json_text(wire.settled()),
                    connection_reused: true,
                    unchained_reason: None,
                },
            )
            &&& wire.get("previous_response_id"@) == Some(JsonView::Text(r.response_id))
            &&& wire.get("input"@) == Some(JsonView::Array(rest))
        }),
{
    let opened = stream_step(start, first, StreamEvent::Connected(headers)).0;
    let reader = fresh_reader(first.body@);
    let (s, r, a) = after_reading(opened.session, reader, events);
    lemma_reading_goes_on(opened.session, reader, events);
    lemma_reading_goes_on(opened.session, reader, events.drop_last());
    lemma_stopped_by_delivery(opened.session, reader, events);
    law_continuation_sends_only_new_input(
        s.last_exchange->0,
        second.body@,
        before,
        repeated,
        rest,
    );
    law_wire_request_members(
        first.body@,
        None,
        first.metadata@,
        first.start_ms as nat,
        "input"@,
    );
    law_wire_request_members(
        second.body@,
        s.last_exchange,
        second.metadata@,
        second.start_ms as nat,
        "input"@,
    );
}

/// Where reading stops at a complete end with the connection still there, the
/// exchange is the one that the reader has collected.
proof fn lemma_stopped_by_delivery(
    session: SessionView,
    reader: ReaderView,
    events: Seq<ReaderEvent>,
)
    requires
        ({
            let (s, r, a) = after_reading(session, reader, events);
            &&& a is Stop
            &&& s.connected
            &&& r.end == ResponseEnd::Completed
            &&& r.response_id.len() > 0
        }),
    ensures
        ({
            let (s, r, a) = after_reading(session, reader, events);
            &&& s.last_exchange == exchange_of(r)
            &&& s.last_exchange is Some
        }),
    decreases events.len(),
{
    let so_far = after_reading(session, reader, events.drop_last());
    if so_far.2 is Fail || so_far.2 is Stop {
        lemma_stopped_by_delivery(session, reader, events.drop_last());
    }
}

/// A response of one output item and an end that names it is read to that end:
/// the exchange then has just that item, and the connection stays.
pub proof fn law_item_and_end_complete_a_response(
    session: SessionView,
    full_request: JsonView,
    item_frame: String,
    item_event: JsonView,
    item: JsonView,
    end_frame: String,
    end_event: JsonView,
    id: Seq<char>,
)
    requires
        session.connected,
        json_reading(item_frame@) == Some(item_event),
        event_kind(item_event) == "response.output_item.done"@,
        item_event.get("item"@) == Some(item),
        json_reading(end_frame@) == Some(end_event),
        event_kind(end_event) == "response.completed"@,
        end_event.get_in("response"@, "id"@) == Some(JsonView::Text(id)),
        id.len() > 0,
    ensures
        after_reading(
            session,
            fresh_reader(full_request),
            seq![
                ReaderEvent::Text(item_frame),
                ReaderEvent::Forwarded(true),
                ReaderEvent::Text(end_frame),
                ReaderEvent::Forwarded(true),
            ],
        ) == (
            SessionView {
                last_exchange: Some(
                    ExchangeView { full_request, response_id: id, output_items: seq![item] },
                ),
                ..session
            },
            ReaderView {
                full_request,
                response_id: id,
                output_items: seq![item],
                end: ResponseEnd::Completed,
            },
            ReaderActionView::Stop,
        ),
{
    reveal_strlit("error");
    reveal_strlit("codex.");
    reveal_strlit("responsesapi.websocket_timing");
    reveal_strlit("response.created");
    reveal_strlit("response.output_item.done");
    reveal_strlit("response.completed");
    reveal_strlit("response.incomplete");
    reveal_strlit("response.failed");
    assert("error"@.len() == 5 && "response.created"@.len() == 16
        && "response.output_item.done"@.len() == 25 && "response.completed"@.len() == 18
        && "response.incomplete"@.len() == 19 && "response.failed"@.len() == 15
        && "responsesapi.websocket_timing"@.len() == 29);
    let reader = fresh_reader(full_request);
    let a = ReaderEvent::Text(item_frame);
    let b = ReaderEvent::Forwarded(true);
    let c = ReaderEvent::Text(end_frame);
    let none = Seq::<ReaderEvent>::empty();
    assert(none.push(a).drop_last() =~= none);
    assert(none.push(a).push(b).drop_last() =~= none.push(a));
    assert(none.push(a).push(b).push(c).drop_last() =~= none.push(a).push(b));
    assert(none.push(a).push(b).push(c).push(b).drop_last() =~= none.push(a).push(b).push(c));
    assert(seq![a, b, c, b] =~= none.push(a).push(b).push(c).push(b));
    assert(after_reading(session, reader, none) == (session, reader, ReaderActionView::Read));
    assert(!begins_with("response.completed"@, "codex."@)) by {
        assert("response.completed"@.subrange(0, 6)[0] == 'r');
    }
    assert(!begins_with("response.output_item.done"@, "codex."@)) by {
        assert("response.output_item.done"@.subrange(0, 6)[0] == 'r');
    }
    let one = after_reading(session, reader, none.push(a));
    assert(one == read_step(session, reader, a));
    assert(one.0 == session && one.2 is Forward);
    assert(one.1.output_items =~= seq![item]);
    let two = after_reading(session, reader, none.push(a).push(b));
    assert(two == (session, one.1, ReaderActionView::Read));
    let three = after_reading(session, reader, none.push(a).push(b).push(c));
    assert(three.0 == session && three.2 is Forward);
    assert(three.1.output_items == seq![item] && three.1.response_id == id);
}

/// A conversation of two requests on a new state. The first request opens the
/// connection: the handshake asks for the protocol version and carries the
/// caller's own headers, and the request goes out in full and names no response.
/// It is answered by one message and a complete end. A second request of the same
/// properties, whose input is that of the first, the message in compact form and
/// what is new, goes out on the same connection without another handshake: it
/// names the response and sends only what is new.
pub proof fn law_conversation_continues(
    start: StateView,
    own_headers: Map<Seq<char>, Seq<Seq<u8>>>,
    own_name: Seq<char>,
    headers: HeaderMap,
    first: StreamRequest,
    before: Seq<JsonView>,
    item_frame: String,
    item_event: JsonView,
    message: JsonView,
    text: Seq<char>,
    end_frame: String,
    end_event: JsonView,
    id: Seq<char>,
    second: StreamRequest,
    compact: JsonView,
    rest: Seq<JsonView>,
)
    requires
        !start.disabled,
        start.session == empty_session(),
        input_of(first.body@) == Some(before),
        before.len() < usize::MAX,
        json_reading(item_frame@) == Some(item_event),
        event_kind(item_event) == "response.output_item.done"@,
        item_event.get("item"@) == Some(message),
        item_type_of(message) == "message"@,
        message.get("content"@) matches Some(JsonView::Array(parts)) && parts.len() == 1
            && parts[0].get_text("type"@) == Some("output_text"@) && parts[0].get_text("text"@)
            == Some(text),
        json_reading(end_frame@) == Some(end_event),
        event_kind(end_event) == "response.completed"@,
        end_event.get_in("response"@, "id"@) == Some(JsonView::Text(id)),
        id.len() > 0,
        same_properties(first.body@, second.body@),
        input_of(second.body@) == Some(before + seq![compact] + rest),
        item_type_of(compact) == "message"@,
        compact.get_text("role"@) == message.get_text("role"@),
        compact.get("content"@) == Some(JsonView::Text(text)),
        own_name != "openai-beta"@ && own_name != "x-client-request-id"@ && own_name
            != "session-id"@ && own_name != "thread-id"@,
    ensures
        stream_step(start, first, StreamEvent::Started) == (start, StreamActionView::Connect),
        header_at(handshake_headers(own_headers, first.metadata@), "openai-beta"@) == Some(
            seq![encode_utf8(RESPONSES_WEBSOCKET_BETA@)],
        ),
        header_at(handshake_headers(own_headers, first.metadata@), own_name) == header_at(
            own_headers,
            own_name,
        ),
        ({
            let (opened, sent) = stream_step(start, first, StreamEvent::Connected(headers));
            let first_wire = wire_request(
                first.body@,
                None,
                first.metadata@,
                first.start_ms as nat,
            );
            let (session, _, last) = after_reading(
                opened.session,
                fresh_reader(first.body@),
                seq![
                    ReaderEvent::Text(item_frame),
                    ReaderEvent::Forwarded(true),
                    ReaderEvent::Text(end_frame),
                    ReaderEvent::Forwarded(true),
                ],
            );
            let later = StateView { session, ..opened };
            let second_wire = wire_request(
                second.body@,
                session.last_exchange,
                second.metadata@,
                second.start_ms as nat,
            );
            &&& sent == (StreamActionView::Send {
                text: json_text(first_wire.settled()),
                connection_reused: false,
                unchained_reason: Some("no_previous_response"@),
            })
            &&& first_wire.get("previous_response_id"@) is None
            &&& first_wire.get("input"@) == Some(JsonView::Array(before))
            &&& stream_step(opened, first, StreamEvent::Sent) == (opened, StreamActionView::Read)
            &&& last is Stop
            &&& stream_step(later, second, StreamEvent::Started) == (
                later,
                StreamActionView::Send {
                    text: json_text(second_wire.settled()),
                    connection_reused: true,
                    unchained_reason: None,
                },
            )
            &&& second_wire.get("previous_response_id"@) == Some(JsonView::Text(id))
            &&& second_wire.get("input"@) == Some(JsonView::Array(rest))
        }),
{
    let opened = stream_step(start, first, StreamEvent::Connected(headers)).0;
    let events = seq![
        ReaderEvent::Text(item_frame),
        ReaderEvent::Forwarded(true),
        ReaderEvent::Text(end_frame),
        ReaderEvent::Forwarded(true),
    ];
    let repeated = before + seq![compact];
    law_handshake_headers(own_headers, first.metadata@, own_name);
    law_item_and_end_complete_a_response(
        opened.session,
        first.body@,
        item_frame,
        item_event,
        message,
        end_frame,
        end_event,
        id,
    );
    law_compact_message_matches(message, compact, text);
    law_second_request_continues_the_first(
        start,
        first,
        headers,
        events,
        second,
        before,
        repeated,
        rest,
    );
}

/// The output of a complete response is what its items were, one after the other,
/// whether or not the event at its end lists them again.
pub proof fn law_collected_output_is_kept(reader: ReaderView, event: JsonView)
    requires
        reader.output_items.len() > 0,
        end_after(event_kind(event)) != ResponseEnd::Open,
    ensures
        collected(reader, event).output_items == reader.output_items,
{
    reveal_strlit("response.created");
    reveal_strlit("response.output_item.done");
    reveal_strlit("response.completed");
    reveal_strlit("response.incomplete");
    reveal_strlit("response.failed");
    assert("response.created"@.len() == 16 && "response.output_item.done"@.len() == 25
        && "response.completed"@.len() == 18 && "response.incomplete"@.len() == 19
        && "response.failed"@.len() == 15);
}

proof fn lemma_event_kinds()
    ensures
        "error"@.len() == 5,
        "response.created"@.len() == 16,
        "response.output_item.done"@.len() == 25,
        "response.completed"@.len() == 18,
        "response.incomplete"@.len() == 19,
        "response.failed"@.len() == 15,
        "responsesapi.websocket_timing"@.len() == 29,
        !begins_with("error"@, "codex."@),
        !begins_with("response.created"@, "codex."@),
        !begins_with("response.output_item.done"@, "codex."@),
        !begins_with("response.completed"@, "codex."@),
        !begins_with("response.incomplete"@, "codex."@),
        !begins_with("response.failed"@, "codex."@),
{
    reveal_strlit("error");
    reveal_strlit("codex.");
    reveal_strlit("responsesapi.websocket_timing");
    reveal_strlit("response.created");
    reveal_strlit("response.output_item.done");
    reveal_strlit("response.completed");
    reveal_strlit("response.incomplete");
    reveal_strlit("response.failed");
    let part = "codex."@;
    assert(part.len() == 6 && part[0] == 'c');
    assert("response.created"@.subrange(0, 6)[0] == 'r');
    assert("response.output_item.done"@.subrange(0, 6)[0] == 'r');
    assert("response.completed"@.subrange(0, 6)[0] == 'r');
    assert("response.incomplete"@.subrange(0, 6)[0] == 'r');
    assert("response.failed"@.subrange(0, 6)[0] == 'r');
}

/// An event that completes an output item puts the item behind those that were
/// read before, and goes to the consumer as it came.
pub proof fn law_done_item_goes_last(
    session: SessionView,
    reader: ReaderView,
    text: String,
    event: JsonView,
    item: JsonView,
)
    requires
        json_reading(text@) == Some(event),
        event.get_text("type"@) == Some("response.output_item.done"@),
        event.get("item"@) == Some(item),
    ensures
        ({
            let (s, r, a) = read_step(session, reader, ReaderEvent::Text(text));
            &&& s == session
            &&& r.output_items == reader.output_items + seq![item]
            &&& r.response_id == reader.response_id
            &&& r.full_request == reader.full_request
            &&& r.end == ResponseEnd::Open
            &&& a == ReaderActionView::Forward(text@)
        }),
{
    lemma_event_kinds();
    assert(reader.output_items.push(item) =~= reader.output_items + seq![item]);
}

/// Frames that are read one after the other, each taken by the consumer.
pub open spec fn taken_frames(frames: Seq<String>) -> Seq<ReaderEvent> {
    Seq::new(
        2 * frames.len(),
        |k: int|
            if k % 2 == 0 {
                ReaderEvent::Text(frames[k / 2])
            } else {
                ReaderEvent::Forwarded(true)
            },
    )
}

/// However many output items a response has, once the events that complete them
/// have been read the output is these items, each once and in the order of their
/// events.
pub proof fn law_output_is_collected_in_order(
    session: SessionView,
    full_request: JsonView,
    frames: Seq<String>,
    events: Seq<JsonView>,
    items: Seq<JsonView>,
)
    requires
        frames.len() == items.len(),
        events.len() == items.len(),
        forall|i: int|
            0 <= i < items.len() ==> json_reading((#[trigger] frames[i])@) == Some(events[i]),
        forall|i: int|
            0 <= i < items.len() ==> (#[trigger] events[i]).get_text("type"@) == Some(
                "response.output_item.done"@,
            ) && events[i].get("item"@) == Some(items[i]),
    ensures
        ({
            let (s, r, a) = after_reading(
                session,
                fresh_reader(full_request),
                taken_frames(frames),
            );
            &&& s == session
            &&& r.output_items == items
            &&& r.full_request == full_request
            &&& r.response_id == Seq::<char>::empty()
            &&& r.end == ResponseEnd::Open
            &&& a == ReaderActionView::Read
        }),
    decreases frames.len(),
{
    let start = fresh_reader(full_request);
    if frames.len() == 0 {
        assert(items =~= Seq::<JsonView>::empty());
        assert(taken_frames(frames) =~= Seq::<ReaderEvent>::empty());
    } else {
        let n = frames.len() - 1;
        let front = frames.drop_last();
        assert forall|i: int| 0 <= i < n implies json_reading((#[trigger] front[i])@) == Some(
            events.drop_last()[i],
        ) by {
            assert(json_reading(frames[i]@) == Some(events[i]));
        }
        assert forall|i: int| 0 <= i < n implies (#[trigger] events.drop_last()[i]).get_text(
            "type"@,
        ) == Some("response.output_item.done"@) && events.drop_last()[i].get("item"@) == Some(
            items.drop_last()[i],
        ) by {
            assert(events[i].get("item"@) == Some(items[i]));
        }
        law_output_is_collected_in_order(
            session,
            full_request,
            front,
            events.drop_last(),
            items.drop_last(),
        );
        let all = taken_frames(frames);
        let read = all.drop_last();
        assert(all[2 * n] == ReaderEvent::Text(frames[n]));
        assert(all[2 * n + 1] == ReaderEvent::Forwarded(true));
        assert(read.drop_last() =~= taken_frames(front)) by {
            assert forall|k: int| 0 <= k < 2 * n implies #[trigger] read.drop_last()[k]
                == taken_frames(front)[k] by {
                assert(0 <= k / 2 < n);
            }
        }
        let so_far = after_reading(session, start, taken_frames(front));
        assert(json_reading(frames[n]@) == Some(events[n]));
        assert(events[n].get("item"@) == Some(items[n]));
        law_done_item_goes_last(so_far.0, so_far.1, frames[n], events[n], items[n]);
        assert(read.last() == ReaderEvent::Text(frames[n]));
        assert(after_reading(session, start, read) == read_step(
            so_far.0,
            so_far.1,
            ReaderEvent::Text(frames[n]),
        ));
        assert(items.drop_last() + seq![items[n]] =~= items);
        assert(all.last() == ReaderEvent::Forwarded(true));
    }
}

/// Whether an event of that type is the last one of a response.
pub open spec fn is_end_kind(kind: Seq<char>) -> bool {
    kind == "response.completed"@ || kind == "response.incomplete"@ || kind == "response.failed"@
}

/// The items that a run of events completes, in the order of the events.
pub open spec fn items_completed(events: Seq<ReaderEvent>) -> Seq<JsonView>
    decreases events.len(),
{
    if events.len() == 0 {
        Seq::empty()
    } else {
        items_completed(events.drop_last()) + item_completed(events.last())
    }
}

/// The item that an event completes, if it completes one.
pub open spec fn item_completed(event: ReaderEvent) -> Seq<JsonView> {
    match event {
        ReaderEvent::Text(text) => match json_reading(text@) {
            Some(value) => match value.get("item"@) {
                Some(item) if value.get_text("type"@) == Some(
                    "response.output_item.done"@,
                ) => seq![item],
                _ => Seq::empty(),
            },
            None => Seq::empty(),
        },
        _ => Seq::empty(),
    }
}

/// Whether an event is the last one of a response.
pub open spec fn ends_response(event: ReaderEvent) -> bool {
    event matches ReaderEvent::Text(text) && (json_reading(text@) matches Some(value) && (
    value.get_text("type"@) matches Some(kind) && is_end_kind(kind)))
}

/// Whatever else comes in between, the output of a response that goes on is made
/// of the items that its events complete, in their order.
pub proof fn law_output_is_what_events_complete(
    session: SessionView,
    reader: ReaderView,
    events: Seq<ReaderEvent>,
)
    requires
        forall|i: int| 0 <= i < events.len() ==> !ends_response(#[trigger] events[i]),
        !(after_reading(session, reader, events).2 is Fail),
        !(after_reading(session, reader, events).2 is Stop),
    ensures
        after_reading(session, reader, events).1.output_items == reader.output_items
            + items_completed(events),
    decreases events.len(),
{
    lemma_event_kinds();
    if events.len() == 0 {
        assert(reader.output_items + items_completed(events) =~= reader.output_items);
    } else {
        let front = events.drop_last();
        let so_far = after_reading(session, reader, front);
        assert forall|i: int| 0 <= i < front.len() implies !ends_response(#[trigger] front[i]) by {
            assert(front[i] == events[i]);
        }
        law_output_is_what_events_complete(session, reader, front);
        let last = events.last();
        assert(last == events[events.len() - 1]);
        let after = read_step(so_far.0, so_far.1, last).1;
        assert(after.output_items =~= so_far.1.output_items + item_completed(last));
        assert(reader.output_items + items_completed(front) + item_completed(last)
            =~= reader.output_items + items_completed(events));
    }
}

/// The id of a response is the one that its first event names, and the event at
/// its end may name it again; no other event changes it.
pub proof fn law_response_id_is_the_named_one(
    session: SessionView,
    reader: ReaderView,
    text: String,
    event: JsonView,
    kind: Seq<char>,
)
    requires
        json_reading(text@) == Some(event),
        event.get_text("type"@) == Some(kind),
    ensures
        ({
            let after = read_step(session, reader, ReaderEvent::Text(text)).1;
            if kind == "response.created"@ || is_end_kind(kind) {
                match event.get_in("response"@, "id"@) {
                    Some(JsonView::Text(id)) => after.response_id == id,
                    _ => after.response_id == reader.response_id,
                }
            } else {
                after.response_id == reader.response_id
            }
        }),
{
    lemma_event_kinds();
}

/// What the event at the end of a response leaves. After a complete response the
/// connection stays, and the exchange is the request, the id and the output: the
/// items that were collected, or where there were none those that the event
/// lists. After a response that was cut short the connection stays and nothing can
/// be continued. After a failed one nothing stays.
pub proof fn law_end_of_response(
    session: SessionView,
    reader: ReaderView,
    text: String,
    event: JsonView,
    kind: Seq<char>,
    id: Seq<char>,
)
    requires
        json_reading(text@) == Some(event),
        event.get_text("type"@) == Some(kind),
        event.get_in("response"@, "id"@) == Some(JsonView::Text(id)),
        is_end_kind(kind),
    ensures
        ({
            let (kept, after, forward) = read_step(session, reader, ReaderEvent::Text(text));
            let (s, _, a) = read_step(kept, after, ReaderEvent::Forwarded(true));
            let output = if reader.output_items.len() > 0 {
                reader.output_items
            } else {
                match event.get_in("response"@, "output"@) {
                    Some(JsonView::Array(items)) => items,
                    _ => Seq::empty(),
                }
            };
            &&& kept == session
            &&& forward is Forward
            &&& a == ReaderActionView::Stop
            &&& kind == "response.completed"@ ==> s.connected == session.connected
                && s.response_headers == session.response_headers && s.last_exchange == (if id.len()
                > 0 {
                Some(
                    ExchangeView {
                        full_request: reader.full_request,
                        response_id: id,
                        output_items: output,
                    },
                )
            } else {
                None
            })
            &&& kind == "response.incomplete"@ ==> s.connected == session.connected
                && s.response_headers == session.response_headers && s.last_exchange is None
            &&& kind == "response.failed"@ ==> !s.connected && s.response_headers =~= Map::<
                Seq<char>,
                Seq<Seq<u8>>,
            >::empty() && s.last_exchange is None
        }),
{
    lemma_event_kinds();
}

/// The event at the end of a response reaches the consumer with the output of the
/// response: where it lists none and items were collected, it lists these, in
/// their order, and is otherwise what it was; else it is what it was.
pub proof fn law_forwarded_end_lists_output(
    session: SessionView,
    reader: ReaderView,
    text: String,
    event: JsonView,
    kind: Seq<char>,
    sent: JsonView,
    name: Seq<char>,
)
    requires
        json_reading(text@) == Some(event),
        event.get_text("type"@) == Some(kind),
        is_end_kind(kind),
        event.get("response"@) matches Some(JsonView::Object(_)),
        reader.output_items.len() > 0 && !(event.get_in("response"@, "output"@) matches Some(
            JsonView::Array(listed),
        ) && listed.len() > 0) ==> sent == with_output(event, reader.output_items),
        !(reader.output_items.len() > 0 && !(event.get_in("response"@, "output"@) matches Some(
            JsonView::Array(listed),
        ) && listed.len() > 0)) ==> sent == event,
    ensures
        read_step(session, reader, ReaderEvent::Text(text)).2 == ReaderActionView::Forward(
            json_text(sent.settled()),
        ),
        reader.output_items.len() > 0 && !(event.get_in("response"@, "output"@) matches Some(
            JsonView::Array(listed),
        ) && listed.len() > 0) ==> sent.get_in("response"@, "output"@) == Some(
            JsonView::Array(reader.output_items),
        ),
        name != "output"@ ==> sent.get_in("response"@, name) == event.get_in("response"@, name),
        name != "response"@ ==> sent.get(name) == event.get(name),
{
    lemma_event_kinds();
    if sent != event {
        let members = event->Object_0;
        let response = event.get("response"@)->0->Object_0;
        let output = JsonView::Array(reader.output_items);
        let inner = JsonView::Object(with_member(response, "output"@, output));
        lemma_lookup_with(members, "response"@, inner, "response"@);
        lemma_lookup_with(members, "response"@, inner, name);
        lemma_lookup_with(response, "output"@, output, "output"@);
        lemma_lookup_with(response, "output"@, output, name);
    } else if reader.output_items.len() > 0 {
        let listed = event.get_in("response"@, "output"@);
        if !(listed matches Some(JsonView::Array(items)) && items.len() > 0) {
            let members = event->Object_0;
            let response = event.get("response"@)->0->Object_0;
            let output = JsonView::Array(reader.output_items);
            let inner = JsonView::Object(with_member(response, "output"@, output));
            lemma_lookup_with(members, "response"@, inner, "response"@);
            lemma_lookup_with(response, "output"@, output, "output"@);
        }
    }
}

/// Events that are no end of the response reach the consumer as they came. Those
/// that are about the connection, and frames that are no JSON, are passed over
/// and change nothing. An error ends the session.
pub proof fn law_events_are_forwarded_as_they_came(
    session: SessionView,
    reader: ReaderView,
    text: String,
    event: JsonView,
)
    requires
        json_reading(text@) == Some(event),
    ensures
        ({
            let (s, r, a) = read_step(session, reader, ReaderEvent::Text(text));
            match event.get_text("type"@) {
                Some(kind) => {
                    &&& kind == "error"@ ==> a is Fail && !s.connected && s.last_exchange is None
                    &&& begins_with(kind, "codex."@) || kind == "responsesapi.websocket_timing"@
                        ==> s == session && r == reader && a == ReaderActionView::Read
                    &&& kind != "error"@ && !begins_with(kind, "codex."@) && kind
                        != "responsesapi.websocket_timing"@ ==> s == session && a is Forward
                    &&& kind != "error"@ && !begins_with(kind, "codex."@) && kind
                        != "responsesapi.websocket_timing"@ && !is_end_kind(kind) ==> a
                        == ReaderActionView::Forward(text@) && r.end == ResponseEnd::Open
                },
                None => s == session && a == ReaderActionView::Forward(text@) && r.output_items
                    == reader.output_items && r.response_id == reader.response_id,
            }
        }),
{
    lemma_event_kinds();
    reveal_strlit("codex.");
    assert(!begins_with(Seq::<char>::empty(), "codex."@));
}

/// A stream that breaks off hands the reason to the consumer and leaves no
/// connection. Pings are replied to, and nothing else comes of them.
pub proof fn law_broken_streams_fail(session: SessionView, reader: ReaderView, error: String)
    ensures
        ({
            let failed_by = |event: ReaderEvent| read_step(session, reader, event);
            &&& forall|event: ReaderEvent|
                (event is Ended || event is Close || event is IdleTimeout || event is Binary || event
                    is ReadFailed || event == ReaderEvent::PingReplied(false)) ==> (
                #[trigger] failed_by(event)).2 is Fail && !failed_by(event).0.connected
                    && failed_by(event).0.last_exchange is None
            &&& failed_by(ReaderEvent::ReadFailed(error)).2 == ReaderActionView::Fail(
                SamplingErrorView::EventStreamError("Responses WebSocket read failed: "@ + error@),
            )
            &&& forall|event: ReaderEvent|
                (event is Pong || event == ReaderEvent::PingReplied(true)) ==> (
                #[trigger] failed_by(event)) == (session, reader, ReaderActionView::Read)
            &&& failed_by(ReaderEvent::Ping) == (session, reader, ReaderActionView::ReplyToPing)
        }),
{
}

} // verus!
