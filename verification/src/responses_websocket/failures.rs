//! The errors of the transport: refused handshakes and error events.

use vstd::prelude::*;
use vstd::string::*;
use vstd::utf8::encode_utf8;
use reqwest::header::HeaderMap;
use crate::headers::{
    first_header_text, first_text, header_contents, header_name, header_value_fits,
    is_name_char, is_value, name_of, no_headers, try_insert_header, with_header, ROOMY_HEADERS,
};
use crate::json::{
    find_member, lookup, members_view, text_of, Json, JsonView, Member, NumberView,
};
use crate::sampling::{
    is_status, is_success, show_status, status_text, ApiErrorCode, SamplingError,
    SamplingErrorView,
};
use crate::text::{
    concat, first_some, lossy_text, lower, opt_text, parse_unsigned, read_lossy, text_eq, trimmed,
    unsigned_value,
};

verus! {

/// The text that a JSON value has as the value of a header.
pub open spec fn rendered(value: JsonView) -> Option<Seq<char>> {
    match value {
        JsonView::Text(t) => Some(t),
        JsonView::Number(n) => Some(n.text()),
        JsonView::Bool(b) => Some(if b { "true"@ } else { "false"@ }),
        _ => None,
    }
}

/// The headers that the members of an object stand for: each member whose name
/// can be that of a header and whose value can be rendered as one. A later
/// member replaces an earlier one of the same header name.
pub open spec fn headers_of(members: Seq<(Seq<char>, JsonView)>) -> Map<Seq<char>, Seq<Seq<u8>>>
    decreases members.len(),
{
    if members.len() == 0 {
        Map::empty()
    } else {
        let front = members.drop_last();
        let last = members.last();
        match (name_of(last.0), rendered(last.1)) {
            (Some(name), Some(value)) if lookup(front, last.0) is None && is_value(value) => with_header(
                headers_of(front),
                name,
                value,
            ),
            _ => headers_of(front),
        }
    }
}

/// How many seconds to wait before trying again, two minutes at most.
pub open spec fn retry_after_of(headers: Map<Seq<char>, Seq<Seq<u8>>>) -> Option<u64> {
    match first_text(headers, "retry-after"@) {
        Some(text) => match unsigned_value(text) {
            Some(seconds) => Some(if seconds < 120 { seconds } else { 120 }),
            None => None,
        },
        None => None,
    }
}

/// Whether trying again is said to be of use.
pub open spec fn should_retry_of(headers: Map<Seq<char>, Seq<Seq<u8>>>) -> Option<bool> {
    match first_text(headers, "x-should-retry"@) {
        Some(text) => if lower(text) == lower("true"@) {
            Some(true)
        } else if lower(text) == lower("false"@) {
            Some(false)
        } else {
            None
        },
        None => None,
    }
}

/// The status that an error event names, if it is an HTTP status.
pub open spec fn event_status(event: JsonView) -> Option<u16> {
    match first_some(event.get("status"@), event.get("status_code"@)) {
        Some(v) => match v.as_unsigned() {
            Some(n) if is_status(n as int) => Some(n as u16),
            _ => None,
        },
        None => None,
    }
}

/// The code of an error event.
pub open spec fn event_code(event: JsonView) -> Seq<char> {
    match text_of(first_some(event.get_in("error"@, "code"@), event.get("code"@))) {
        Some(code) => code,
        None => "websocket_error"@,
    }
}

/// The message of an error event, or what its code says.
pub open spec fn event_message(event: JsonView) -> Seq<char> {
    match text_of(first_some(event.get_in("error"@, "message"@), event.get("message"@))) {
        Some(message) => message,
        None => if event_code(event) == "previous_response_not_found"@ {
            "Previous response was not found. Retrying the full request."@
        } else if event_code(event) == "websocket_connection_limit_reached"@ {
            "Responses WebSocket connection limit reached. Creating a new connection."@
        } else {
            "Responses WebSocket returned an error"@
        },
    }
}

/// Whether an error with that code goes away when the request is sent anew.
pub open spec fn is_transient(code: Seq<char>) -> bool {
    code == "previous_response_not_found"@ || code == "websocket_connection_limit_reached"@
}

/// The headers that an error event carries.
pub open spec fn event_headers(event: JsonView) -> Option<Map<Seq<char>, Seq<Seq<u8>>>> {
    match event.get("headers"@) {
        Some(JsonView::Object(members)) => Some(headers_of(members)),
        _ => None,
    }
}

/// Whether an event carries no more headers than a header map has room for.
pub open spec fn few_headers(event: JsonView) -> bool {
    event.get("headers"@) matches Some(JsonView::Object(members)) ==> members.len() <= ROOMY_HEADERS
}

/// The error that an error event stands for.
pub open spec fn event_error(event: JsonView) -> SamplingErrorView {
    let code = event_code(event);
    let message = event_message(event);
    let in_stream = SamplingErrorView::StreamError { code: Some(code), error_type: code, message };
    match event_status(event) {
        _ if is_transient(code) => in_stream,
        Some(401) => SamplingErrorView::Auth("Unauthorized (401): "@ + message),
        Some(status) if !is_success(status) => SamplingErrorView::Api {
            status,
            message,
            retry_after_secs: match event_headers(event) {
                Some(headers) => retry_after_of(headers),
                None => None,
            },
            should_retry: match event_headers(event) {
                Some(headers) => should_retry_of(headers),
                None => None,
            },
            error_code: Some(code),
        },
        _ => in_stream,
    }
}

/// Whether two errors are the same but for when, and whether, to try again.
pub open spec fn same_but_retry(a: SamplingErrorView, b: SamplingErrorView) -> bool {
    match (a, b) {
        (
            SamplingErrorView::Api { status, message, error_code, .. },
            SamplingErrorView::Api { status: status_b, message: message_b, error_code: code_b, .. },
        ) => status == status_b && message == message_b && error_code == code_b,
        _ => a == b,
    }
}

/// Whether values are those that one of the members stands for under a name.
pub open spec fn stands_for(
    members: Seq<(Seq<char>, JsonView)>,
    name: Seq<char>,
    values: Seq<Seq<u8>>,
) -> bool {
    exists|i: int|
        0 <= i < members.len() && name_of((#[trigger] members[i]).0) == Some(name) && (rendered(
            members[i].1,
        ) matches Some(value) && is_value(value) && values == seq![encode_utf8(value)])
}

/// Whether every header is one that a member stands for.
pub open spec fn only_from(
    headers: Map<Seq<char>, Seq<Seq<u8>>>,
    members: Seq<(Seq<char>, JsonView)>,
) -> bool {
    forall|name: Seq<char>|
        headers.dom().contains(name) ==> stands_for(members, name, #[trigger] headers[name])
}

/// The text of a value as the value of a header.
fn render(value: &Json) -> (r: Option<String>)
    ensures
        opt_text(r) == rendered(value@),
{
    match value {
        Json::Text(t) => Some(t.clone()),
        Json::Number(n) => Some(n.to_text()),
        Json::Bool(b) => Some(
            if *b {
                "true".to_owned()
            } else {
                "false".to_owned()
            },
        ),
        _ => None,
    }
}

/// The headers that an object stands for. Of a very large object some may be left
/// out, where a header map has no room for them.
pub fn json_headers(value: &Json) -> (r: Option<HeaderMap>)
    ensures
        match r {
            Some(headers) => value@ matches JsonView::Object(members) && (members.len()
                <= ROOMY_HEADERS ==> header_contents(headers) == headers_of(members)) && only_from(
                header_contents(headers),
                members,
            ),
            None => !(value@ is Object),
        },
{
    let members = match value {
        Json::Object(members) => members,
        _ => {
            return None;
        },
    };
    let ghost all = members_view(members@);
    let mut headers = no_headers();
    let mut i: usize = 0;
    assert(all.take(0) =~= Seq::<(Seq<char>, JsonView)>::empty());
    while i < members.len()
        invariant
            i <= members.len(),
            all == members_view(members@),
            value@ == JsonView::Object(all),
            members.len() <= ROOMY_HEADERS ==> header_contents(headers) == headers_of(
                all.take(i as int),
            ),
            members.len() <= ROOMY_HEADERS ==> header_contents(headers).dom().finite(),
            members.len() <= ROOMY_HEADERS ==> header_contents(headers).dom().len() <= i,
            only_from(header_contents(headers), all),
        decreases members.len() - i,
    {
        let ghost before = header_contents(headers);
        let member = &members[i];
        proof {
            assert(all.take(i + 1).drop_last() =~= all.take(i as int));
            assert(all.take(i + 1).last() == (member.name@, member.value@));
        }
        let first = is_first(members, i);
        if let Some(name) = header_name(member.name.as_str()) {
            proof {
                lemma_name_stays(member.name@);
            }
            if let Some(text) = render(&member.value) {
                if first && header_value_fits(text.as_str()) {
                    try_insert_header(&mut headers, name.as_str(), text.as_str());
                    proof {
                        assert(all[i as int] == (member.name@, member.value@));
                        assert(stands_for(all, name@, seq![encode_utf8(text@)]));
                        assert forall|other: Seq<char>|
                            header_contents(headers).dom().contains(other) implies stands_for(
                            all,
                            other,
                            #[trigger] header_contents(headers)[other],
                        ) by {
                            if before.dom().contains(other) {
                                assert(stands_for(all, other, before[other]));
                            }
                        }
                    }
                }
            }
        }
        i += 1;
    }
    assert(all.take(i as int) =~= all);
    Some(headers)
}

/// Whether no member before this one has its name.
fn is_first(members: &Vec<Member>, i: usize) -> (r: bool)
    requires
        i < members.len(),
    ensures
        r == (lookup(members_view(members@).take(i as int), members@[i as int].name@) is None),
{
    let ghost before = members_view(members@).take(i as int);
    proof {
        crate::json::lemma_lookup_found(before, members@[i as int].name@);
        crate::json::lemma_lookup_found(members_view(members@), members@[i as int].name@);
        assert(members_view(members@)[i as int].0 == members@[i as int].name@);
    }
    match find_member(members, members[i].name.as_str()) {
        Some(k) => {
            proof {
                if k < i {
                    assert(before[k as int].0 == members@[i as int].name@);
                } else {
                    assert forall|j: int| 0 <= j < before.len() implies (#[trigger] before[j]).0
                        != members@[i as int].name@ by {
                        assert(members@[j].name@ != members@[i as int].name@);
                    }
                }
            }
            k >= i
        },
        None => false,
    }
}

/// A header name in lower case is itself a header name in lower case.
proof fn lemma_name_stays(text: Seq<char>)
    ensures
        name_of(text) matches Some(name) ==> name_of(name) == Some(name),
{
    if let Some(name) = name_of(text) {
        assert forall|i: int| 0 <= i < name.len() implies is_name_char(#[trigger] name[i])
            && crate::text::lower_char(name[i]) == name[i] by {
            assert(is_name_char(text[i]));
        }
        assert(lower(name) =~= name);
    }
}

/// How many seconds the headers say to wait before trying again.
pub fn retry_after(headers: &HeaderMap) -> (r: Option<u64>)
    ensures
        r == retry_after_of(header_contents(*headers)),
{
    proof {
        reveal_strlit("retry-after");
        assert(lower("retry-after"@) =~= "retry-after"@);
    }
    match first_header_text(headers, "retry-after") {
        Some(text) => match parse_unsigned(text.as_str()) {
            Some(seconds) => Some(
                if seconds < 120 {
                    seconds
                } else {
                    120
                },
            ),
            None => None,
        },
        None => None,
    }
}

/// Whether the headers say that trying again is of use.
pub fn should_retry(headers: &HeaderMap) -> (r: Option<bool>)
    ensures
        r == should_retry_of(header_contents(*headers)),
{
    proof {
        reveal_strlit("x-should-retry");
        assert(lower("x-should-retry"@) =~= "x-should-retry"@);
    }
    match first_header_text(headers, "x-should-retry") {
        Some(text) => if text.as_str().eq_ignore_ascii_case("true") {
            Some(true)
        } else if text.as_str().eq_ignore_ascii_case("false") {
            Some(false)
        } else {
            None
        },
        None => None,
    }
}

/// The first of two values that is there.
fn first_there<'a>(a: Option<&'a Json>, b: Option<&'a Json>) -> (r: Option<&'a Json>)
    ensures
        crate::json::opt_json(r) == first_some(
            crate::json::opt_json(a),
            crate::json::opt_json(b),
        ),
{
    match a {
        Some(_) => a,
        None => b,
    }
}

/// The text of a value that may be missing, or the given one.
fn text_or<'a>(value: Option<&'a Json>, otherwise: &'a str) -> (r: &'a str)
    ensures
        r@ == match text_of(crate::json::opt_json(value)) {
            Some(t) => t,
            None => otherwise@,
        },
{
    match value {
        Some(v) => match v.as_text() {
            Some(t) => t,
            None => otherwise,
        },
        None => otherwise,
    }
}

/// The error that an error event stands for.
pub fn map_error_event(value: &Json) -> (r: SamplingError)
    ensures
        same_but_retry(r@, event_error(value@)),
        few_headers(value@) ==> r@ == event_error(value@),
{
    let status: Option<u16> = match first_there(value.get("status"), value.get("status_code")) {
        Some(v) => match v.as_unsigned() {
            Some(n) => if 100 <= n && n < 1000 {
                Some(n as u16)
            } else {
                None
            },
            None => None,
        },
        None => None,
    };
    let code = text_or(
        first_there(value.get_in("error", "code"), value.get("code")),
        "websocket_error",
    );
    let not_found = text_eq(code, "previous_response_not_found");
    let limit_reached = text_eq(code, "websocket_connection_limit_reached");
    let message = text_or(
        first_there(value.get_in("error", "message"), value.get("message")),
        if not_found {
            "Previous response was not found. Retrying the full request."
        } else if limit_reached {
            "Responses WebSocket connection limit reached. Creating a new connection."
        } else {
            "Responses WebSocket returned an error"
        },
    );
    if not_found || limit_reached {
        return SamplingError::StreamError {
            code: Some(ApiErrorCode::parse(code)),
            error_type: code.to_owned(),
            message: message.to_owned(),
        };
    }
    match status {
        Some(401) => {
            return SamplingError::Auth(concat("Unauthorized (401): ", message));
        },
        Some(status) => {
            if !(200 <= status && status < 300) {
                let headers = match value.get("headers") {
                    Some(v) => json_headers(v),
                    None => None,
                };
                let (retry_after_secs, should_retry) = match &headers {
                    Some(headers) => (retry_after(headers), should_retry(headers)),
                    None => (None, None),
                };
                return SamplingError::Api {
                    status,
                    message: message.to_owned(),
                    retry_after_secs,
                    should_retry,
                    error_code: Some(ApiErrorCode::parse(code)),
                };
            }
        },
        None => {},
    }
    SamplingError::StreamError {
        code: Some(ApiErrorCode::parse(code)),
        error_type: code.to_owned(),
        message: message.to_owned(),
    }
}

/// How an attempt to connect ended without a socket.
pub enum HandshakeOutcome {
    /// No request could be built for the URL.
    BadRequest(String),
    /// No answer came in time.
    TimedOut,
    /// The endpoint answered with an HTTP status, which is from 100 to 999.
    Refused { status: u16, headers: HeaderMap, body: Option<Vec<u8>> },
    /// Anything else went wrong.
    Failed(String),
}

/// Why there is no socket.
pub enum ConnectFailure {
    /// The endpoint cannot upgrade to a WebSocket.
    UpgradeRequired,
    /// Connecting failed.
    Error(SamplingError),
}

/// The model of [`ConnectFailure`].
pub enum ConnectFailureView {
    UpgradeRequired,
    Error(SamplingErrorView),
}

impl ConnectFailure {
    pub open spec fn view(&self) -> ConnectFailureView {
        match self {
            ConnectFailure::UpgradeRequired => ConnectFailureView::UpgradeRequired,
            ConnectFailure::Error(e) => ConnectFailureView::Error(e@),
        }
    }
}

/// What a refused handshake says: the text of its body, or its status.
pub open spec fn refusal_message(status: u16, body: Option<Seq<u8>>) -> Seq<char> {
    match body {
        Some(bytes) if trimmed(lossy_text(bytes)).len() > 0 => trimmed(lossy_text(bytes)),
        _ => "Responses WebSocket handshake failed ("@ + status_text(status) + ")"@,
    }
}

/// The bytes of a body that may be missing.
pub open spec fn opt_bytes(body: Option<Vec<u8>>) -> Option<Seq<u8>> {
    match body {
        Some(bytes) => Some(bytes@),
        None => None,
    }
}

/// What a failed attempt to connect to a URL means.
pub open spec fn failure_of(url: Seq<char>, outcome: HandshakeOutcome) -> ConnectFailureView {
    match outcome {
        HandshakeOutcome::BadRequest(error) => ConnectFailureView::Error(
            SamplingErrorView::EventStreamError(
                "failed to build Responses WebSocket request: "@ + error@,
            ),
        ),
        HandshakeOutcome::TimedOut => ConnectFailureView::Error(
            SamplingErrorView::EventStreamError("Responses WebSocket connection timed out"@),
        ),
        HandshakeOutcome::Refused { status: 426, .. } => ConnectFailureView::UpgradeRequired,
        HandshakeOutcome::Refused { status: 401, body, .. } => ConnectFailureView::Error(
            SamplingErrorView::Auth(
                "Unauthorized (401) from "@ + url + ": "@ + refusal_message(401, opt_bytes(body)),
            ),
        ),
        HandshakeOutcome::Refused { status, headers, body } => ConnectFailureView::Error(
            SamplingErrorView::Api {
                status,
                message: refusal_message(status, opt_bytes(body)),
                retry_after_secs: retry_after_of(header_contents(headers)),
                should_retry: should_retry_of(header_contents(headers)),
                error_code: None,
            },
        ),
        HandshakeOutcome::Failed(error) => ConnectFailureView::Error(
            SamplingErrorView::EventStreamError(
                "Responses WebSocket connection failed: "@ + error@,
            ),
        ),
    }
}

fn describe_refusal(status: u16, body: &Option<Vec<u8>>) -> (r: String)
    requires
        is_status(status as int),
    ensures
        r@ == refusal_message(status, opt_bytes(*body)),
{
    if let Some(bytes) = body {
        let text = read_lossy(bytes.as_slice());
        let trimmed_text = text.as_str().trim();
        if !trimmed_text.is_empty() {
            return trimmed_text.to_owned();
        }
    }
    let mut message = concat(
        "Responses WebSocket handshake failed (",
        show_status(status).as_str(),
    );
    message.append(")");
    message
}

/// What a failed attempt to connect to a URL means.
pub fn connect_failure(url: &str, outcome: HandshakeOutcome) -> (r: ConnectFailure)
    requires
        outcome matches HandshakeOutcome::Refused { status, .. } ==> is_status(status as int),
    ensures
        r@ == failure_of(url@, outcome),
{
    match outcome {
        HandshakeOutcome::BadRequest(error) => ConnectFailure::Error(
            SamplingError::EventStreamError(
                concat("failed to build Responses WebSocket request: ", error.as_str()),
            ),
        ),
        HandshakeOutcome::TimedOut => ConnectFailure::Error(
            SamplingError::EventStreamError("Responses WebSocket connection timed out".to_owned()),
        ),
        HandshakeOutcome::Refused { status, headers, body } => {
            if status == 426 {
                return ConnectFailure::UpgradeRequired;
            }
            let message = describe_refusal(status, &body);
            if status == 401 {
                let mut text = concat("Unauthorized (401) from ", url);
                text.append(": ");
                text.append(message.as_str());
                return ConnectFailure::Error(SamplingError::Auth(text));
            }
            ConnectFailure::Error(
                SamplingError::Api {
                    status,
                    message,
                    retry_after_secs: retry_after(&headers),
                    should_retry: should_retry(&headers),
                    error_code: None,
                },
            )
        },
        HandshakeOutcome::Failed(error) => ConnectFailure::Error(
            SamplingError::EventStreamError(
                concat("Responses WebSocket connection failed: ", error.as_str()),
            ),
        ),
    }
}

/// The code and the message of an error event: those of the error that it holds,
/// where they are there, else those of the event itself. Where they are missing or
/// no text, the code is a general one and the message says what the code means.
pub proof fn law_error_events_tell_code_and_message(
    event: JsonView,
    code: Seq<char>,
    message: Seq<char>,
)
    ensures
        event.get_in("error"@, "code"@) == Some(JsonView::Text(code)) ==> event_code(event) == code,
        event.get_in("error"@, "code"@) is None && event.get("code"@) == Some(JsonView::Text(code))
            ==> event_code(event) == code,
        event.get_in("error"@, "code"@) is None && event.get("code"@) is None ==> event_code(event)
            == "websocket_error"@,
        event.get_in("error"@, "message"@) == Some(JsonView::Text(message)) ==> event_message(event)
            == message,
        event.get_in("error"@, "message"@) is None && event.get("message"@) == Some(
            JsonView::Text(message),
        ) ==> event_message(event) == message,
        event.get_in("error"@, "message"@) is None && event.get("message"@) is None ==> event_message(
            event,
        ) == (if event_code(event) == "previous_response_not_found"@ {
            "Previous response was not found. Retrying the full request."@
        } else if event_code(event) == "websocket_connection_limit_reached"@ {
            "Responses WebSocket connection limit reached. Creating a new connection."@
        } else {
            "Responses WebSocket returned an error"@
        }),
{
}

/// What an error event means. A response that is not there any more, or too many
/// connections, is an error of the stream, whatever the status: the request is to
/// be sent anew. Otherwise a status of 401 is about the credentials, any other
/// status that is no success is an answer of the API with that status, and an
/// event without such a status is an error of the stream.
pub proof fn law_error_events_by_status(event: JsonView, status: u64)
    ensures
        ({
            let code = event_code(event);
            let message = event_message(event);
            let error = event_error(event);
            let transient = code == "previous_response_not_found"@ || code
                == "websocket_connection_limit_reached"@;
            let number = JsonView::Number(NumberView::Unsigned(status));
            let named = event.get("status"@) == Some(number) || (event.get("status"@) is None
                && event.get("status_code"@) == Some(number));
            let in_stream = SamplingErrorView::StreamError {
                code: Some(code),
                error_type: code,
                message,
            };
            &&& transient ==> error == in_stream
            &&& !transient && named && status == 401 ==> error == SamplingErrorView::Auth(
                "Unauthorized (401): "@ + message,
            )
            &&& !transient && named && status != 401 && 100 <= status < 1000 && !(200 <= status
                < 300) ==> (error matches SamplingErrorView::Api {
                status: answered,
                message: told,
                error_code,
                ..
            } && answered == status && told == message && error_code == Some(code))
            &&& !transient && named && (200 <= status < 300 || status < 100 || status >= 1000)
                ==> error == in_stream
            &&& !transient && event.get("status"@) is None && event.get("status_code"@) is None
                ==> error == in_stream
        }),
{
}

/// An answer of the API tells when and whether to try again as its headers say,
/// and neither where the event carries no headers.
pub proof fn law_error_events_tell_when_to_retry(event: JsonView)
    requires
        event_error(event) is Api,
    ensures
        ({
            let error = event_error(event);
            match event.get("headers"@) {
                Some(JsonView::Object(members)) => error->retry_after_secs == retry_after_of(
                    headers_of(members),
                ) && error->should_retry == should_retry_of(headers_of(members)),
                _ => error->retry_after_secs is None && error->should_retry is None,
            }
        }),
{
}

/// The time to wait is the number of seconds that the header names, two minutes at
/// most; whether to try again is what the header says in whatever case. Anything
/// else says nothing.
pub proof fn law_retry_headers(
    headers: Map<Seq<char>, Seq<Seq<u8>>>,
    text: Seq<char>,
    seconds: u64,
)
    ensures
        first_text(headers, "retry-after"@) == Some(text) && unsigned_value(text) == Some(seconds)
            && seconds <= 120 ==> retry_after_of(headers) == Some(seconds),
        first_text(headers, "retry-after"@) == Some(text) && unsigned_value(text) == Some(seconds)
            && seconds > 120 ==> retry_after_of(headers) == Some(120u64),
        first_text(headers, "retry-after"@) == Some(text) && unsigned_value(text) is None
            ==> retry_after_of(headers) is None,
        first_text(headers, "retry-after"@) is None ==> retry_after_of(headers) is None,
        first_text(headers, "x-should-retry"@) == Some(text) ==> should_retry_of(headers) == (
        if lower(text) == "true"@ {
            Some(true)
        } else if lower(text) == "false"@ {
            Some(false)
        } else {
            None
        }),
        first_text(headers, "x-should-retry"@) is None ==> should_retry_of(headers) is None,
{
    reveal_strlit("true");
    reveal_strlit("false");
    assert(lower("true"@) =~= "true"@);
    assert(lower("false"@) =~= "false"@);
}

/// Whether a member makes a header of that name: it is the first one of its name,
/// the name can be that of a header, and the value can be written as one.
pub open spec fn makes_header(
    members: Seq<(Seq<char>, JsonView)>,
    i: int,
    name: Seq<char>,
) -> bool {
    &&& 0 <= i < members.len()
    &&& forall|j: int| 0 <= j < i ==> (#[trigger] members[j]).0 != members[i].0
    &&& name_of(members[i].0) == Some(name)
    &&& rendered(members[i].1) matches Some(value) && is_value(value)
}

/// An object stands for the headers that its members make: under each name the
/// value of the last member that makes it, and no header where no member does.
pub proof fn law_members_make_headers(
    members: Seq<(Seq<char>, JsonView)>,
    name: Seq<char>,
    i: int,
)
    ensures
        makes_header(members, i, name) && (forall|j: int|
            i < j < members.len() ==> !#[trigger] makes_header(members, j, name))
            ==> crate::headers::header_at(headers_of(members), name) == Some(
            seq![encode_utf8(rendered(members[i].1)->0)],
        ),
        (forall|j: int| 0 <= j < members.len() ==> !#[trigger] makes_header(members, j, name))
            ==> crate::headers::header_at(headers_of(members), name) is None,
    decreases members.len(),
{
    if members.len() > 0 {
        let front = members.drop_last();
        let last = members.last();
        let n = members.len() - 1;
        assert(members[n] == last);
        law_members_make_headers(front, name, i);
        crate::json::lemma_lookup_found(front, last.0);
        assert forall|j: int| 0 <= j < n implies #[trigger] makes_header(front, j, name)
            == makes_header(members, j, name) by {
            assert(front[j] == members[j]);
            assert(forall|k: int| 0 <= k < j ==> #[trigger] front[k] == members[k]);
            if makes_header(front, j, name) {
                assert forall|k: int| 0 <= k < j implies (#[trigger] members[k]).0
                    != members[j].0 by {
                    assert(front[k] == members[k]);
                }
            }
        }
        assert(lookup(front, last.0) is None <==> forall|j: int|
            0 <= j < n ==> (#[trigger] members[j]).0 != last.0) by {
            if lookup(front, last.0) is Some {
                let j = choose|j: int| 0 <= j < front.len() && (#[trigger] front[j]).0 == last.0;
                assert(members[j].0 == last.0);
            } else {
                assert forall|j: int| 0 <= j < n implies (#[trigger] members[j]).0 != last.0 by {
                    assert(front[j] == members[j]);
                }
            }
        }
        if makes_header(members, n, name) {
            assert(headers_of(members) == with_header(
                headers_of(front),
                name,
                rendered(last.1)->0,
            ));
        }
        if forall|j: int| 0 <= j < members.len() ==> !#[trigger] makes_header(members, j, name) {
            assert(!makes_header(members, n, name));
            assert forall|j: int| 0 <= j < n implies !#[trigger] makes_header(front, j, name) by {
                assert(!makes_header(members, j, name));
            }
        }
        if makes_header(members, i, name) && i < n && (forall|j: int|
            i < j < members.len() ==> !#[trigger] makes_header(members, j, name)) {
            assert(!makes_header(members, n, name));
            assert(makes_header(front, i, name));
            assert forall|j: int| i < j < front.len() implies !#[trigger] makes_header(
                front,
                j,
                name,
            ) by {
                assert(!makes_header(members, j, name));
            }
            assert(front[i] == members[i]);
        }
    }
}

/// Texts, numbers and truth values are written as headers; anything else is not.
pub proof fn law_values_are_written_as_headers(value: JsonView, n: u64, text: Seq<char>)
    ensures
        value == JsonView::Text(text) ==> rendered(value) == Some(text),
        value == JsonView::Bool(true) ==> rendered(value) == Some("true"@),
        value == JsonView::Bool(false) ==> rendered(value) == Some("false"@),
        value == JsonView::Number(NumberView::Unsigned(n)) ==> rendered(value) == Some(
            crate::text::decimal(n as nat),
        ),
        value is Null || value is Array || value is Object ==> rendered(value) is None,
{
}

/// What a refused handshake means: that the endpoint cannot upgrade for a status of
/// 426 alone, that the credentials are refused for 401, and an answer of the API
/// with its status, its headers and what it said for every other one.
pub proof fn law_refused_handshakes(
    url: Seq<char>,
    status: u16,
    headers: HeaderMap,
    body: Option<Vec<u8>>,
)
    ensures
        ({
            let failure = failure_of(url, HandshakeOutcome::Refused { status, headers, body });
            let told = refusal_message(status, opt_bytes(body));
            let contents = header_contents(headers);
            &&& failure == ConnectFailureView::UpgradeRequired <==> status == 426
            &&& status == 401 ==> failure == ConnectFailureView::Error(
                SamplingErrorView::Auth("Unauthorized (401) from "@ + url + ": "@ + told),
            )
            &&& status != 401 && status != 426 ==> failure == ConnectFailureView::Error(
                SamplingErrorView::Api {
                    status,
                    message: told,
                    retry_after_secs: retry_after_of(contents),
                    should_retry: should_retry_of(contents),
                    error_code: None,
                },
            )
            &&& body matches Some(bytes) ==> (trimmed(lossy_text(bytes@)).len() > 0 ==> told
                == trimmed(lossy_text(bytes@)))
            &&& !(body matches Some(bytes) && trimmed(lossy_text(bytes@)).len() > 0) ==> told
                == "Responses WebSocket handshake failed ("@ + status_text(status) + ")"@
        }),
{
}

/// A handshake that fails otherwise breaks the stream, and the reason is told; it
/// never selects HTTP for the rest of the session.
pub proof fn law_failed_handshakes_tell_why(url: Seq<char>, error: String)
    ensures
        failure_of(url, HandshakeOutcome::BadRequest(error)) == ConnectFailureView::Error(
            SamplingErrorView::EventStreamError(
                "failed to build Responses WebSocket request: "@ + error@,
            ),
        ),
        failure_of(url, HandshakeOutcome::Failed(error)) == ConnectFailureView::Error(
            SamplingErrorView::EventStreamError(
                "Responses WebSocket connection failed: "@ + error@,
            ),
        ),
        failure_of(url, HandshakeOutcome::TimedOut) == ConnectFailureView::Error(
            SamplingErrorView::EventStreamError("Responses WebSocket connection timed out"@),
        ),
{
}

} // verus!
