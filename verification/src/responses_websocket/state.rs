//! The connection of a sampler session, and how a request gets onto it.

use vstd::prelude::*;
use vstd::string::*;
use vstd::utf8::encode_utf8;
use indexmap::IndexMap;
use reqwest::header::HeaderMap;
use crate::headers::{
    empty_contents, header_at, header_contents, header_value_fits, is_value, name_of, no_headers,
    try_insert_header, with_header, ROOMY_HEADERS,
};
use crate::json::{json_text, json_to_text, Json};
use crate::ordered::{
    as_map, copy_text_pairs, law_same_map_same_values, same_text_pairs, text_pairs, value_of,
};
use crate::responses_websocket::chaining::{
    increment_after, opt_exchange, prepare_websocket_request, wire_request, CompletedExchange,
    ExchangeView, RequestMetadataView, WebSocketRequestMetadata,
};
use crate::responses_websocket::failures::{ConnectFailure, ConnectFailureView};
use crate::sampling::{
    opt_origin, ApiBackend, AuthScheme, OriginClientInfo, SamplerConfig, SamplerConfigView,
    SamplingError, SamplingErrorView,
};
use crate::text::{
    borrowed, concat, lower, opt_str, opt_text, opt_text_eq, text_eq, trim_end_slashes, trimmed,
    without_end_slashes,
};
use crate::urls::{
    parse_url, rewrite_url, url_parts, url_with, UrlParts, UrlPartsView, MAX_URL_LEN,
};

verus! {

/// The version of the WebSocket protocol that the handshake asks for.
pub const RESPONSES_WEBSOCKET_BETA: &'static str = "responses_websockets=2026-02-06";

/// What decides whether an open connection can outlive a change of the
/// configuration. The model and the sampling parameters do not: a request whose
/// properties changed is just sent in full.
pub struct WebSocketConfigurationKey {
    base_url: String,
    responses_backend: bool,
    auth_scheme: AuthScheme,
    api_key: Option<String>,
    extra_headers: IndexMap<String, String>,
    origin_client: Option<OriginClientInfo>,
    client_identifier: Option<String>,
    deployment_id: Option<String>,
    user_id: Option<String>,
    client_version: Option<String>,
    doom_loop_check: bool,
    has_bearer_resolver: bool,
    has_header_injector: bool,
}

/// The model of [`WebSocketConfigurationKey`].
#[verifier::ext_equal]
pub struct ConfigurationKeyView {
    pub base_url: Seq<char>,
    pub responses_backend: bool,
    pub auth_scheme: AuthScheme,
    pub api_key: Option<Seq<char>>,
    pub extra_headers: Map<Seq<char>, Seq<char>>,
    pub origin_client: Option<(Seq<char>, Option<Seq<char>>)>,
    pub client_identifier: Option<Seq<char>>,
    pub deployment_id: Option<Seq<char>>,
    pub user_id: Option<Seq<char>>,
    pub client_version: Option<Seq<char>>,
    pub doom_loop_check: bool,
    pub has_bearer_resolver: bool,
    pub has_header_injector: bool,
}

/// The key of a configuration. The hooks are rebuilt for every request, so only
/// whether there is one counts.
pub open spec fn key_of(config: SamplerConfigView) -> ConfigurationKeyView {
    ConfigurationKeyView {
        base_url: lower(without_end_slashes(config.base_url)),
        responses_backend: config.api_backend == ApiBackend::Responses,
        auth_scheme: config.auth_scheme,
        api_key: config.api_key,
        extra_headers: as_map(config.extra_headers),
        origin_client: config.origin_client,
        client_identifier: config.client_identifier,
        deployment_id: config.deployment_id,
        user_id: config.user_id,
        client_version: config.client_version,
        doom_loop_check: config.doom_loop_recovery,
        has_bearer_resolver: config.bearer_resolver,
        has_header_injector: config.header_injector,
    }
}

impl WebSocketConfigurationKey {
    pub closed spec fn view(&self) -> ConfigurationKeyView {
        ConfigurationKeyView {
            base_url: self.base_url@,
            responses_backend: self.responses_backend,
            auth_scheme: self.auth_scheme,
            api_key: opt_text(self.api_key),
            extra_headers: as_map(text_pairs(self.extra_headers)),
            origin_client: opt_origin(self.origin_client),
            client_identifier: opt_text(self.client_identifier),
            deployment_id: opt_text(self.deployment_id),
            user_id: opt_text(self.user_id),
            client_version: opt_text(self.client_version),
            doom_loop_check: self.doom_loop_check,
            has_bearer_resolver: self.has_bearer_resolver,
            has_header_injector: self.has_header_injector,
        }
    }

    /// The key of a configuration.
    pub fn from_config(config: &SamplerConfig) -> (r: Self)
        ensures
            r@ == key_of(config@),
    {
        WebSocketConfigurationKey {
            base_url: trim_end_slashes(config.base_url.as_str()).as_str().to_ascii_lowercase(),
            responses_backend: config.api_backend == ApiBackend::Responses,
            auth_scheme: config.auth_scheme,
            api_key: config.api_key.clone(),
            extra_headers: copy_text_pairs(&config.extra_headers),
            origin_client: match &config.origin_client {
                Some(origin) => Some(origin.clone()),
                None => None,
            },
            client_identifier: config.client_identifier.clone(),
            deployment_id: config.deployment_id.clone(),
            user_id: config.user_id.clone(),
            client_version: config.client_version.clone(),
            doom_loop_check: config.doom_loop_recovery,
            has_bearer_resolver: config.bearer_resolver,
            has_header_injector: config.header_injector,
        }
    }

    /// Whether two keys are the same.
    pub fn same(&self, other: &Self) -> (r: bool)
        ensures
            r == (self@ == other@),
    {
        let same_origin = match (&self.origin_client, &other.origin_client) {
            (Some(a), Some(b)) => text_eq(a.name.as_str(), b.name.as_str()) && opt_text_eq(
                borrowed(&a.version),
                borrowed(&b.version),
            ),
            (None, None) => true,
            _ => false,
        };
        text_eq(self.base_url.as_str(), other.base_url.as_str()) && self.responses_backend
            == other.responses_backend && self.auth_scheme == other.auth_scheme && opt_text_eq(
            borrowed(&self.api_key),
            borrowed(&other.api_key),
        ) && same_text_pairs(&self.extra_headers, &other.extra_headers) && same_origin
            && opt_text_eq(
            borrowed(&self.client_identifier),
            borrowed(&other.client_identifier),
        ) && opt_text_eq(borrowed(&self.deployment_id), borrowed(&other.deployment_id))
            && opt_text_eq(borrowed(&self.user_id), borrowed(&other.user_id)) && opt_text_eq(
            borrowed(&self.client_version),
            borrowed(&other.client_version),
        ) && self.doom_loop_check == other.doom_loop_check && self.has_bearer_resolver
            == other.has_bearer_resolver && self.has_header_injector == other.has_header_injector
    }
}

/// An open connection, if there is one, and the exchange that it has completed
/// last.
pub struct WebSocketSession {
    pub connected: bool,
    pub response_headers: HeaderMap,
    pub last_exchange: Option<CompletedExchange>,
}

/// The model of [`WebSocketSession`].
pub struct SessionView {
    pub connected: bool,
    pub response_headers: Map<Seq<char>, Seq<Seq<u8>>>,
    pub last_exchange: Option<ExchangeView>,
}

/// The session without a connection.
pub open spec fn empty_session() -> SessionView {
    SessionView { connected: false, response_headers: empty_contents(), last_exchange: None }
}

impl WebSocketSession {
    pub open spec fn view(&self) -> SessionView {
        SessionView {
            connected: self.connected,
            response_headers: header_contents(self.response_headers),
            last_exchange: opt_exchange(self.last_exchange),
        }
    }
}

impl SessionView {
    /// An exchange can only be continued on the connection that completed it, and
    /// has a response to name.
    pub open spec fn well_formed(self) -> bool {
        self.last_exchange matches Some(exchange) ==> self.connected && exchange.response_id.len()
            > 0
    }
}

impl Default for WebSocketSession {
    fn default() -> (r: Self)
        ensures
            r@ == empty_session(),
    {
        WebSocketSession { connected: false, response_headers: no_headers(), last_exchange: None }
    }
}

/// The WebSocket state of a sampler session, shared by all its requests.
pub struct ResponsesWebSocketState {
    pub configuration: WebSocketConfigurationKey,
    pub disabled: bool,
    pub session: WebSocketSession,
}

/// The model of [`ResponsesWebSocketState`].
pub struct StateView {
    pub configuration: ConfigurationKeyView,
    pub disabled: bool,
    pub session: SessionView,
}

/// The scheme of the WebSocket for a URL, only for the ChatGPT Codex endpoint
/// itself: the host and the path have to be exactly its own.
pub open spec fn codex_scheme(parts: UrlPartsView) -> Option<Seq<char>> {
    match parts.host {
        Some(host) if lower(host) == "chatgpt.com"@ && without_end_slashes(parts.path)
            == "/backend-api/codex"@ => if parts.scheme == "https"@ {
            Some("wss"@)
        } else if parts.scheme == "http"@ {
            Some("ws"@)
        } else {
            None
        },
        _ => None,
    }
}

/// The scheme of the WebSocket for the parts of a URL, if it has one.
pub fn codex_websocket_scheme(parts: &UrlParts) -> (r: Option<&'static str>)
    ensures
        opt_str(r) == codex_scheme(parts@),
{
    let on_host = match &parts.host {
        Some(host) => text_eq(host.as_str().to_ascii_lowercase().as_str(), "chatgpt.com"),
        None => false,
    };
    if !on_host || !text_eq(
        trim_end_slashes(parts.path.as_str()).as_str(),
        "/backend-api/codex",
    ) {
        return None;
    }
    if text_eq(parts.scheme.as_str(), "https") {
        Some("wss")
    } else if text_eq(parts.scheme.as_str(), "http") {
        Some("ws")
    } else {
        None
    }
}

/// The URL of the WebSocket for a base URL, if it has one.
pub open spec fn websocket_url_of(base_url: Seq<char>) -> Option<Seq<char>> {
    let url = trimmed(base_url);
    match url_parts(url) {
        Some(parts) => match codex_scheme(parts) {
            Some(scheme) => url_with(url, scheme, "/backend-api/codex/responses"@),
            None => None,
        },
        None => None,
    }
}

/// The URL of the WebSocket for a base URL, if it has one.
pub fn websocket_url(base_url: &str) -> (r: Option<String>)
    requires
        base_url@.len() <= MAX_URL_LEN,
    ensures
        opt_text(r) == websocket_url_of(base_url@),
        r is Some <==> (url_parts(trimmed(base_url@)) matches Some(parts) && codex_scheme(
            parts,
        ) is Some),
{
    proof {
        crate::text::lemma_trimmed_len(base_url@);
        reveal_strlit("/backend-api/codex/responses");
        reveal_strlit("ws");
        reveal_strlit("wss");
        reveal_strlit("chatgpt.com");
        assert("chatgpt.com"@.len() == 11);
    }
    let url = base_url.trim();
    match parse_url(url) {
        Some(parts) => match codex_websocket_scheme(&parts) {
            Some(scheme) => rewrite_url(url, scheme, "/backend-api/codex/responses"),
            None => None,
        },
        None => None,
    }
}

/// The headers with a value put under a name, unless it is empty or no value.
pub open spec fn with_header_if_fit(
    headers: Map<Seq<char>, Seq<Seq<u8>>>,
    name: Seq<char>,
    value: Seq<char>,
) -> Map<Seq<char>, Seq<Seq<u8>>> {
    if value.len() > 0 && is_value(value) {
        with_header(headers, name, value)
    } else {
        headers
    }
}

/// The headers of the handshake for a request.
pub open spec fn handshake_headers(
    headers: Map<Seq<char>, Seq<Seq<u8>>>,
    metadata: RequestMetadataView,
) -> Map<Seq<char>, Seq<Seq<u8>>> {
    let a = with_header(headers, "openai-beta"@, RESPONSES_WEBSOCKET_BETA@);
    let b = with_header_if_fit(a, "x-client-request-id"@, metadata.conversation_id);
    let c = with_header_if_fit(b, "session-id"@, metadata.session_id);
    with_header_if_fit(c, "thread-id"@, metadata.conversation_id)
}

/// Whether each header is either the one of the first headers or the one of the
/// second.
pub open spec fn each_either(
    headers: Map<Seq<char>, Seq<Seq<u8>>>,
    first: Map<Seq<char>, Seq<Seq<u8>>>,
    second: Map<Seq<char>, Seq<Seq<u8>>>,
) -> bool {
    forall|name: Seq<char>|
        #[trigger] header_at(headers, name) == header_at(first, name) || header_at(headers, name)
            == header_at(second, name)
}

/// Puts a value under a name, unless it is empty or no value. A map that has no
/// room for it is left as it is.
pub fn insert_header(headers: &mut HeaderMap, name: &'static str, value: &str)
    requires
        name_of(name@) == Some(name@),
    ensures
        ({
            let before = header_contents(*old(headers));
            let after = header_contents(*final(headers));
            after == before || after == with_header_if_fit(before, name@, value@)
        }),
        header_contents(*old(headers)).dom().finite() && header_contents(*old(headers)).dom().len()
            < ROOMY_HEADERS ==> header_contents(*final(headers)) == with_header_if_fit(
            header_contents(*old(headers)),
            name@,
            value@,
        ),
{
    if value.is_empty() {
        return ;
    }
    if header_value_fits(value) {
        try_insert_header(headers, name, value);
    }
}

/// Puts the identity of a request into the headers of the handshake, as far as a
/// map has room for it.
pub fn apply_handshake_headers(headers: &mut HeaderMap, metadata: &WebSocketRequestMetadata)
    ensures
        each_either(
            header_contents(*final(headers)),
            header_contents(*old(headers)),
            handshake_headers(header_contents(*old(headers)), metadata@),
        ),
        header_contents(*old(headers)).dom().finite() && header_contents(*old(headers)).dom().len()
            + 3 < ROOMY_HEADERS ==> header_contents(*final(headers)) == handshake_headers(
            header_contents(*old(headers)),
            metadata@,
        ),
{
    proof {
        reveal_strlit("openai-beta");
        reveal_strlit("responses_websockets=2026-02-06");
        reveal_strlit("x-client-request-id");
        reveal_strlit("session-id");
        reveal_strlit("thread-id");
        assert(lower("openai-beta"@) =~= "openai-beta"@);
        assert(lower("x-client-request-id"@) =~= "x-client-request-id"@);
        assert(lower("session-id"@) =~= "session-id"@);
        assert(lower("thread-id"@) =~= "thread-id"@);
    }
    try_insert_header(headers, "openai-beta", RESPONSES_WEBSOCKET_BETA);
    insert_header(headers, "x-client-request-id", metadata.conversation_id.as_str());
    insert_header(headers, "session-id", metadata.session_id.as_str());
    insert_header(headers, "thread-id", metadata.conversation_id.as_str());
}

/// The handshake asks for the protocol version, carries the identity of the
/// request where it can be a header, and leaves every header of the caller that
/// has another name as it is.
pub proof fn law_handshake_headers(
    headers: Map<Seq<char>, Seq<Seq<u8>>>,
    metadata: RequestMetadataView,
    name: Seq<char>,
)
    ensures
        ({
            let sent = handshake_headers(headers, metadata);
            let conversation = seq![encode_utf8(metadata.conversation_id)];
            let conversation_fits = metadata.conversation_id.len() > 0 && is_value(
                metadata.conversation_id,
            );
            &&& header_at(sent, "openai-beta"@) == Some(
                seq![encode_utf8(RESPONSES_WEBSOCKET_BETA@)],
            )
            &&& RESPONSES_WEBSOCKET_BETA@ == "responses_websockets=2026-02-06"@
            &&& conversation_fits ==> header_at(sent, "x-client-request-id"@) == Some(conversation)
                && header_at(sent, "thread-id"@) == Some(conversation)
            &&& metadata.session_id.len() > 0 && is_value(metadata.session_id) ==> header_at(
                sent,
                "session-id"@,
            ) == Some(seq![encode_utf8(metadata.session_id)])
            &&& name != "openai-beta"@ && name != "x-client-request-id"@ && name != "session-id"@
                && name != "thread-id"@ ==> header_at(sent, name) == header_at(headers, name)
        }),
{
    reveal_strlit("openai-beta");
    reveal_strlit("x-client-request-id");
    reveal_strlit("session-id");
    reveal_strlit("thread-id");
    assert("openai-beta"@.len() == 11 && "x-client-request-id"@.len() == 19 && "session-id"@.len()
        == 10 && "thread-id"@.len() == 9);
}

/// What happens while a request gets onto the connection.
pub enum StreamEvent {
    /// The request is there to be sent.
    Started,
    /// A connection was opened; the endpoint answered with these headers.
    Connected(HeaderMap),
    /// No connection could be opened.
    NotConnected(ConnectFailure),
    /// The request went out.
    Sent,
    /// Sending failed.
    SendFailed(String),
    /// Sending took too long.
    SendTimedOut,
}

/// What is to be done next for a request.
pub enum StreamAction {
    /// Use HTTP instead.
    FallbackToHttp,
    /// Open a connection.
    Connect,
    /// Send this text over the connection.
    Send { text: String, connection_reused: bool, unchained_reason: Option<&'static str> },
    /// Read the response.
    Read,
    /// Give up.
    Fail(SamplingError),
}

/// The model of [`StreamAction`].
pub enum StreamActionView {
    FallbackToHttp,
    Connect,
    Send { text: Seq<char>, connection_reused: bool, unchained_reason: Option<Seq<char>> },
    Read,
    Fail(SamplingErrorView),
}

impl StreamAction {
    pub open spec fn view(&self) -> StreamActionView {
        match self {
            StreamAction::FallbackToHttp => StreamActionView::FallbackToHttp,
            StreamAction::Connect => StreamActionView::Connect,
            StreamAction::Send { text, connection_reused, unchained_reason } => StreamActionView::Send {
                text: text@,
                connection_reused: *connection_reused,
                unchained_reason: opt_str(*unchained_reason),
            },
            StreamAction::Read => StreamActionView::Read,
            StreamAction::Fail(e) => StreamActionView::Fail(e@),
        }
    }
}

/// A request on its way to the connection.
pub struct StreamRequest {
    pub body: Json,
    pub metadata: WebSocketRequestMetadata,
    /// When the request starts, in milliseconds since the epoch.
    pub start_ms: u128,
}

/// Sending the request over the connection of a session.
pub open spec fn send_action(
    session: SessionView,
    request: StreamRequest,
    connection_reused: bool,
) -> StreamActionView {
    StreamActionView::Send {
        text: json_text(
            wire_request(
                request.body@,
                session.last_exchange,
                request.metadata@,
                request.start_ms as nat,
            ).settled(),
        ),
        connection_reused,
        unchained_reason: match increment_after(session.last_exchange, request.body@) {
            Ok(_) => None,
            Err(reason) => Some(reason),
        },
    }
}

/// The state after an event and what is to be done then.
pub open spec fn stream_step(state: StateView, request: StreamRequest, event: StreamEvent) -> (
    StateView,
    StreamActionView,
) {
    let reset = StateView { session: empty_session(), ..state };
    match event {
        StreamEvent::Started => if state.disabled {
            (state, StreamActionView::FallbackToHttp)
        } else if state.session.connected {
            (state, send_action(state.session, request, true))
        } else {
            (state, StreamActionView::Connect)
        },
        StreamEvent::Connected(headers) => {
            let session = SessionView {
                connected: true,
                response_headers: header_contents(headers),
                ..state.session
            };
            (StateView { session, ..state }, send_action(session, request, false))
        },
        StreamEvent::NotConnected(failure) => match failure@ {
            ConnectFailureView::UpgradeRequired => (
                StateView { disabled: true, ..reset },
                StreamActionView::FallbackToHttp,
            ),
            ConnectFailureView::Error(error) => (reset, StreamActionView::Fail(error)),
        },
        StreamEvent::Sent => (state, StreamActionView::Read),
        StreamEvent::SendFailed(error) => (
            reset,
            StreamActionView::Fail(
                SamplingErrorView::EventStreamError(
                    "failed to send Responses WebSocket request: "@ + error@,
                ),
            ),
        ),
        StreamEvent::SendTimedOut => (
            reset,
            StreamActionView::Fail(
                SamplingErrorView::EventStreamError(
                    "timed out sending Responses WebSocket request"@,
                ),
            ),
        ),
    }
}

impl ResponsesWebSocketState {
    pub open spec fn view(&self) -> StateView {
        StateView {
            configuration: self.configuration@,
            disabled: self.disabled,
            session: self.session@,
        }
    }

    /// The state of a session that has not connected yet.
    pub fn new(config: &SamplerConfig) -> (r: Self)
        ensures
            r@ == (StateView {
                configuration: key_of(config@),
                disabled: false,
                session: empty_session(),
            }),
    {
        ResponsesWebSocketState {
            configuration: WebSocketConfigurationKey::from_config(config),
            disabled: false,
            session: WebSocketSession::default(),
        }
    }

    /// Whether the connection can be kept under a configuration.
    pub fn matches_config(&self, config: &SamplerConfig) -> (r: bool)
        ensures
            r == (self@.configuration == key_of(config@)),
    {
        self.configuration.same(&WebSocketConfigurationKey::from_config(config))
    }

    /// Whether requests to an endpoint are to be tried over a WebSocket.
    pub fn enabled_for(&self, base_url: &str, backend: &ApiBackend) -> (r: bool)
        requires
            !self@.disabled && *backend == ApiBackend::Responses ==> base_url@.len()
                <= MAX_URL_LEN,
        ensures
            r == (*backend == ApiBackend::Responses && !self@.disabled && websocket_url_of(
                base_url@,
            ) is Some),
    {
        *backend == ApiBackend::Responses && !self.disabled && websocket_url(base_url).is_some()
    }

    /// Selects HTTP for the rest of the session. Says whether it was this call
    /// that did.
    pub fn force_http_fallback(&mut self) -> (r: bool)
        ensures
            r == !old(self)@.disabled,
            final(self)@ == if r {
                StateView { disabled: true, session: empty_session(), ..old(self)@ }
            } else {
                old(self)@
            },
    {
        if self.disabled {
            return false;
        }
        self.disabled = true;
        self.session = WebSocketSession::default();
        true
    }

    /// The URL to stream a request to, or nothing where HTTP is to be used.
    pub fn stream(&self, base_url: &str) -> (r: Option<String>)
        requires
            !self@.disabled ==> base_url@.len() <= MAX_URL_LEN,
        ensures
            opt_text(r) == if self@.disabled {
                None
            } else {
                websocket_url_of(base_url@)
            },
    {
        if self.disabled {
            return None;
        }
        websocket_url(base_url)
    }

    /// Takes the next event of a request on its way to the connection.
    pub fn stream_at_url(&mut self, request: &StreamRequest, event: StreamEvent) -> (r: StreamAction)
        requires
            request.body is Object || request.body is Null,
        ensures
            (final(self)@, r@) == stream_step(old(self)@, *request, event),
    {
        match event {
            StreamEvent::Started => {
                if self.disabled {
                    return StreamAction::FallbackToHttp;
                }
                if self.session.connected {
                    self.prepare_send(request, true)
                } else {
                    StreamAction::Connect
                }
            },
            StreamEvent::Connected(headers) => {
                self.session.connected = true;
                self.session.response_headers = headers;
                self.prepare_send(request, false)
            },
            StreamEvent::NotConnected(ConnectFailure::UpgradeRequired) => {
                self.disabled = true;
                self.session = WebSocketSession::default();
                StreamAction::FallbackToHttp
            },
            StreamEvent::NotConnected(ConnectFailure::Error(error)) => {
                self.session = WebSocketSession::default();
                StreamAction::Fail(error)
            },
            StreamEvent::Sent => StreamAction::Read,
            StreamEvent::SendFailed(error) => {
                self.session = WebSocketSession::default();
                StreamAction::Fail(
                    SamplingError::EventStreamError(
                        concat("failed to send Responses WebSocket request: ", error.as_str()),
                    ),
                )
            },
            StreamEvent::SendTimedOut => {
                self.session = WebSocketSession::default();
                StreamAction::Fail(
                    SamplingError::EventStreamError(
                        "timed out sending Responses WebSocket request".to_owned(),
                    ),
                )
            },
        }
    }

    fn prepare_send(&self, request: &StreamRequest, connection_reused: bool) -> (r: StreamAction)
        requires
            request.body is Object || request.body is Null,
        ensures
            r@ == send_action(self@.session, *request, connection_reused),
    {
        let (wire, unchained_reason) = prepare_websocket_request(
            &request.body,
            self.session.last_exchange.as_ref(),
            &request.metadata,
            request.start_ms,
        );
        StreamAction::Send { text: json_to_text(&wire), connection_reused, unchained_reason }
    }
}

/// Once HTTP has been selected for a session it stays selected, and every request
/// is answered by falling back to it.
pub proof fn law_fallback_is_permanent(
    state: StateView,
    request: StreamRequest,
    event: StreamEvent,
)
    requires
        state.disabled,
    ensures
        stream_step(state, request, event).0.disabled,
        stream_step(state, request, StreamEvent::Started) == (
            state,
            StreamActionView::FallbackToHttp,
        ),
{
}

/// An endpoint that cannot upgrade selects HTTP for the rest of the session.
pub proof fn law_upgrade_required_selects_http(
    state: StateView,
    request: StreamRequest,
    failure: ConnectFailure,
    later: StreamRequest,
)
    requires
        failure@ == ConnectFailureView::UpgradeRequired,
    ensures
        ({
            let (after, action) = stream_step(state, request, StreamEvent::NotConnected(failure));
            &&& action == StreamActionView::FallbackToHttp
            &&& stream_step(after, later, StreamEvent::Started).1 == StreamActionView::FallbackToHttp
        }),
{
}

/// A request that comes while a connection is open goes out on it, and a
/// connection is opened only where there is none.
pub proof fn law_open_connection_is_reused(state: StateView, request: StreamRequest)
    requires
        !state.disabled,
    ensures
        stream_step(state, request, StreamEvent::Started) == (
            state,
            if state.session.connected {
                send_action(state.session, request, true)
            } else {
                StreamActionView::Connect
            },
        ),
{
}

/// A connection is not kept under other credentials: two configurations have the
/// same key only if they share the API key, the way to authenticate, the endpoint
/// but for letter case and slashes at its end, and whether they have each of the
/// hooks.
pub proof fn law_credentials_are_material(a: SamplerConfigView, b: SamplerConfigView)
    requires
        key_of(a) == key_of(b),
    ensures
        a.api_key == b.api_key,
        a.auth_scheme == b.auth_scheme,
        lower(without_end_slashes(a.base_url)) == lower(without_end_slashes(b.base_url)),
        a.bearer_resolver == b.bearer_resolver,
        a.header_injector == b.header_injector,
{
}

/// A failure leaves no connection and no exchange to continue.
pub proof fn law_failure_resets_session(
    state: StateView,
    request: StreamRequest,
    event: StreamEvent,
)
    ensures
        stream_step(state, request, event).1 is Fail ==> stream_step(
            state,
            request,
            event,
        ).0.session == empty_session(),
        state.session.well_formed() ==> stream_step(
            state,
            request,
            event,
        ).0.session.well_formed(),
{
}

/// An open connection is kept for another configuration exactly if nothing has
/// changed that the connection depends on: the endpoint, but for case and slashes
/// at its end, whether the protocol is that of responses, the credentials, the
/// headers in whatever order, who the client and the user are, and which hooks
/// there are.
pub proof fn law_what_a_connection_depends_on(a: SamplerConfigView, b: SamplerConfigView)
    ensures
        key_of(a) == key_of(b) <==> {
            &&& lower(without_end_slashes(a.base_url)) == lower(without_end_slashes(b.base_url))
            &&& (a.api_backend == ApiBackend::Responses) == (b.api_backend == ApiBackend::Responses)
            &&& a.auth_scheme == b.auth_scheme
            &&& a.api_key == b.api_key
            &&& forall|name: Seq<char>| #[trigger]
                value_of(a.extra_headers, name) == value_of(b.extra_headers, name)
            &&& a.origin_client == b.origin_client
            &&& a.client_identifier == b.client_identifier
            &&& a.deployment_id == b.deployment_id
            &&& a.user_id == b.user_id
            &&& a.client_version == b.client_version
            &&& a.doom_loop_recovery == b.doom_loop_recovery
            &&& a.bearer_resolver == b.bearer_resolver
            &&& a.header_injector == b.header_injector
        },
{
    law_same_map_same_values(a.extra_headers, b.extra_headers);
}

/// A WebSocket is used exactly for the ChatGPT Codex endpoint: the host is its own
/// but for case, the path is its own but for slashes at its end, and the scheme
/// is that of the web, of which it keeps whether it is encrypted.
pub proof fn law_websocket_for_the_codex_endpoint(parts: UrlPartsView)
    ensures
        ({
            let ours = parts.host matches Some(host) && lower(host) == "chatgpt.com"@
                && without_end_slashes(parts.path) == "/backend-api/codex"@;
            &&& codex_scheme(parts) == Some("wss"@) <==> ours && parts.scheme == "https"@
            &&& codex_scheme(parts) == Some("ws"@) <==> ours && parts.scheme == "http"@
            &&& codex_scheme(parts) is Some ==> ours
        }),
{
    reveal_strlit("wss");
    reveal_strlit("ws");
    reveal_strlit("https");
    reveal_strlit("http");
    assert("wss"@.len() == 3 && "ws"@.len() == 2 && "https"@.len() == 5 && "http"@.len() == 4);
}

/// The URL of the WebSocket is that of the base URL without white space at its
/// ends, under the scheme of the WebSocket and the path of responses.
pub proof fn law_websocket_url_keeps_the_base(base_url: Seq<char>)
    ensures
        url_parts(trimmed(base_url)) is None ==> websocket_url_of(base_url) is None,
        url_parts(trimmed(base_url)) matches Some(parts) ==> (match codex_scheme(parts) {
            Some(scheme) => websocket_url_of(base_url) == url_with(
                trimmed(base_url),
                scheme,
                "/backend-api/codex/responses"@,
            ),
            None => websocket_url_of(base_url) is None,
        }),
{
}

/// Once a connection has been opened the request goes out on it, said to be on a
/// new connection; a request that finds one open is said to reuse it. Either way
/// what is sent is the request as it goes over the wire after the exchange that
/// the session has, with the reason where it is sent in full.
pub proof fn law_requests_go_out_on_the_connection(
    state: StateView,
    request: StreamRequest,
    headers: HeaderMap,
)
    ensures
        ({
            let (after, sent) = stream_step(state, request, StreamEvent::Connected(headers));
            let wire = wire_request(
                request.body@,
                state.session.last_exchange,
                request.metadata@,
                request.start_ms as nat,
            );
            let reason = match increment_after(state.session.last_exchange, request.body@) {
                Ok(_) => None,
                Err(why) => Some(why),
            };
            &&& after.session.connected
            &&& after.session.response_headers == header_contents(headers)
            &&& after.session.last_exchange == state.session.last_exchange
            &&& after.disabled == state.disabled
            &&& after.configuration == state.configuration
            &&& sent == (StreamActionView::Send {
                text: json_text(wire.settled()),
                connection_reused: false,
                unchained_reason: reason,
            })
            &&& !state.disabled && state.session.connected ==> stream_step(
                state,
                request,
                StreamEvent::Started,
            ) == (
                state,
                StreamActionView::Send {
                    text: json_text(wire.settled()),
                    connection_reused: true,
                    unchained_reason: reason,
                },
            )
        }),
{
}

/// A request that cannot be sent fails with the reason and leaves no connection,
/// but a WebSocket is tried again; one that has been sent is followed by reading
/// its response.
pub proof fn law_failures_to_send(
    state: StateView,
    request: StreamRequest,
    error: String,
    failure: ConnectFailure,
)
    ensures
        ({
            let failed = stream_step(state, request, StreamEvent::SendFailed(error));
            let late = stream_step(state, request, StreamEvent::SendTimedOut);
            &&& failed.1 == StreamActionView::Fail(
                SamplingErrorView::EventStreamError(
                    "failed to send Responses WebSocket request: "@ + error@,
                ),
            )
            &&& !failed.0.session.connected && failed.0.session.last_exchange is None
            &&& failed.0.disabled == state.disabled
            &&& late.1 is Fail
            &&& !late.0.session.connected && late.0.session.last_exchange is None
            &&& late.0.disabled == state.disabled
            &&& stream_step(state, request, StreamEvent::Sent) == (state, StreamActionView::Read)
            &&& failure@ matches ConnectFailureView::Error(why) ==> {
                let refused = stream_step(state, request, StreamEvent::NotConnected(failure));
                &&& refused.1 == StreamActionView::Fail(why)
                &&& !refused.0.session.connected && refused.0.session.last_exchange is None
                &&& refused.0.disabled == state.disabled
            }
        }),
{
}

/// A header of the handshake whose value is empty, or can be no header, is left as
/// the caller had it.
pub proof fn law_unfit_identity_is_left_out(
    headers: Map<Seq<char>, Seq<Seq<u8>>>,
    metadata: RequestMetadataView,
)
    ensures
        ({
            let sent = handshake_headers(headers, metadata);
            &&& metadata.conversation_id.len() == 0 || !is_value(metadata.conversation_id)
                ==> header_at(sent, "x-client-request-id"@) == header_at(
                headers,
                "x-client-request-id"@,
            ) && header_at(sent, "thread-id"@) == header_at(headers, "thread-id"@)
            &&& metadata.session_id.len() == 0 || !is_value(metadata.session_id) ==> header_at(
                sent,
                "session-id"@,
            ) == header_at(headers, "session-id"@)
        }),
{
    reveal_strlit("openai-beta");
    reveal_strlit("x-client-request-id");
    reveal_strlit("session-id");
    reveal_strlit("thread-id");
    assert("openai-beta"@.len() == 11 && "x-client-request-id"@.len() == 19 && "session-id"@.len()
        == 10 && "thread-id"@.len() == 9);
}

} // verus!
