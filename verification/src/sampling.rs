//! What every sampling backend shares: protocols, authentication schemes, errors
//! and the configuration of a sampler.

use vstd::prelude::*;
use vstd::string::*;
use indexmap::IndexMap;
use crate::ordered::{copy_text_pairs, no_pairs, no_text_pairs, text_pairs};
use crate::text::opt_text;

verus! {

/// The wire protocol of a model endpoint.
#[derive(Clone, Copy, Debug, PartialEq, Eq, Structural)]
pub enum ApiBackend {
    ChatCompletions,
    Responses,
    Messages,
}

/// How requests present the API key.
#[derive(Clone, Copy, Debug, PartialEq, Eq, Structural)]
pub enum AuthScheme {
    Bearer,
    XApiKey,
}

/// The code of an error that an API reported.
#[derive(Debug)]
pub struct ApiErrorCode {
    pub code: String,
}

impl ApiErrorCode {
    /// The text of the code.
    pub open spec fn view(&self) -> Seq<char> {
        self.code@
    }

    /// The code with that text.
    pub fn parse(code: &str) -> (r: ApiErrorCode)
        ensures
            r@ == code@,
    {
        ApiErrorCode { code: code.to_owned() }
    }
}

/// Why sampling failed.
#[derive(Debug)]
pub enum SamplingError {
    /// The stream of events broke.
    EventStreamError(String),
    /// The credentials were refused.
    Auth(String),
    /// The API answered with an error status.
    Api {
        status: u16,
        message: String,
        retry_after_secs: Option<u64>,
        should_retry: Option<bool>,
        error_code: Option<ApiErrorCode>,
    },
    /// The API reported an error inside the stream.
    StreamError { code: Option<ApiErrorCode>, error_type: String, message: String },
}

/// The model of [`SamplingError`].
pub enum SamplingErrorView {
    EventStreamError(Seq<char>),
    Auth(Seq<char>),
    Api {
        status: u16,
        message: Seq<char>,
        retry_after_secs: Option<u64>,
        should_retry: Option<bool>,
        error_code: Option<Seq<char>>,
    },
    StreamError { code: Option<Seq<char>>, error_type: Seq<char>, message: Seq<char> },
}

/// The text of an error code that may be missing.
pub open spec fn opt_code(code: Option<ApiErrorCode>) -> Option<Seq<char>> {
    match code {
        Some(c) => Some(c@),
        None => None,
    }
}

impl SamplingError {
    pub open spec fn view(&self) -> SamplingErrorView {
        match self {
            SamplingError::EventStreamError(m) => SamplingErrorView::EventStreamError(m@),
            SamplingError::Auth(m) => SamplingErrorView::Auth(m@),
            SamplingError::Api {
                status,
                message,
                retry_after_secs,
                should_retry,
                error_code,
            } => SamplingErrorView::Api {
                status: *status,
                message: message@,
                retry_after_secs: *retry_after_secs,
                should_retry: *should_retry,
                error_code: opt_code(*error_code),
            },
            SamplingError::StreamError { code, error_type, message } => SamplingErrorView::StreamError {
                code: opt_code(*code),
                error_type: error_type@,
                message: message@,
            },
        }
    }
}

/// Whether the number can be an HTTP status code.
pub open spec fn is_status(status: int) -> bool {
    100 <= status < 1000
}

/// Whether the HTTP status code says that the request succeeded.
pub open spec fn is_success(status: u16) -> bool {
    200 <= status < 300
}

/// The text that `reqwest::StatusCode` is displayed as.
pub uninterp spec fn status_text(status: u16) -> Seq<char>;

/// `reqwest::StatusCode::from_u16`, then its `Display`: the text is named.
#[verifier::external_body]
pub(crate) fn show_status(status: u16) -> (r: String)
    requires
        is_status(status as int),
    ensures
        r@ == status_text(status),
{
    reqwest::StatusCode::from_u16(status).expect("a status code").to_string()
}

/// The client that a session was started from.
#[derive(Debug)]
pub struct OriginClientInfo {
    pub name: String,
    pub version: Option<String>,
}

impl OriginClientInfo {
    /// The name and version of the client.
    pub open spec fn view(&self) -> (Seq<char>, Option<Seq<char>>) {
        (self.name@, opt_text(self.version))
    }
}

/// The name and version of a client that may be missing.
pub open spec fn opt_origin(origin: Option<OriginClientInfo>) -> Option<
    (Seq<char>, Option<Seq<char>>),
> {
    match origin {
        Some(o) => Some(o@),
        None => None,
    }
}

impl Clone for OriginClientInfo {
    fn clone(&self) -> (r: Self)
        ensures
            r@ == self@,
    {
        OriginClientInfo { name: self.name.clone(), version: self.version.clone() }
    }
}

/// How a sampler reaches its model.
pub struct SamplerConfig {
    pub base_url: String,
    pub api_backend: ApiBackend,
    pub auth_scheme: AuthScheme,
    pub api_key: Option<String>,
    pub extra_headers: IndexMap<String, String>,
    pub origin_client: Option<OriginClientInfo>,
    pub client_identifier: Option<String>,
    pub deployment_id: Option<String>,
    pub user_id: Option<String>,
    pub client_version: Option<String>,
    /// Whether repeated output is recovered from.
    pub doom_loop_recovery: bool,
    /// Whether a hook resolves the bearer token of each request.
    pub bearer_resolver: bool,
    /// Whether a hook adds headers to each request.
    pub header_injector: bool,
}

/// The model of [`SamplerConfig`].
pub struct SamplerConfigView {
    pub base_url: Seq<char>,
    pub api_backend: ApiBackend,
    pub auth_scheme: AuthScheme,
    pub api_key: Option<Seq<char>>,
    pub extra_headers: Seq<(Seq<char>, Seq<char>)>,
    pub origin_client: Option<(Seq<char>, Option<Seq<char>>)>,
    pub client_identifier: Option<Seq<char>>,
    pub deployment_id: Option<Seq<char>>,
    pub user_id: Option<Seq<char>>,
    pub client_version: Option<Seq<char>>,
    pub doom_loop_recovery: bool,
    pub bearer_resolver: bool,
    pub header_injector: bool,
}

impl SamplerConfig {
    pub open spec fn view(&self) -> SamplerConfigView {
        SamplerConfigView {
            base_url: self.base_url@,
            api_backend: self.api_backend,
            auth_scheme: self.auth_scheme,
            api_key: opt_text(self.api_key),
            extra_headers: text_pairs(self.extra_headers),
            origin_client: opt_origin(self.origin_client),
            client_identifier: opt_text(self.client_identifier),
            deployment_id: opt_text(self.deployment_id),
            user_id: opt_text(self.user_id),
            client_version: opt_text(self.client_version),
            doom_loop_recovery: self.doom_loop_recovery,
            bearer_resolver: self.bearer_resolver,
            header_injector: self.header_injector,
        }
    }
}

impl Default for SamplerConfig {
    fn default() -> (r: Self)
        ensures
            r@ == (SamplerConfigView {
                base_url: Seq::empty(),
                api_backend: ApiBackend::ChatCompletions,
                auth_scheme: AuthScheme::Bearer,
                api_key: None,
                extra_headers: no_pairs(),
                origin_client: None,
                client_identifier: None,
                deployment_id: None,
                user_id: None,
                client_version: None,
                doom_loop_recovery: false,
                bearer_resolver: false,
                header_injector: false,
            }),
    {
        SamplerConfig {
            base_url: String::new(),
            api_backend: ApiBackend::ChatCompletions,
            auth_scheme: AuthScheme::Bearer,
            api_key: None,
            extra_headers: no_text_pairs(),
            origin_client: None,
            client_identifier: None,
            deployment_id: None,
            user_id: None,
            client_version: None,
            doom_loop_recovery: false,
            bearer_resolver: false,
            header_injector: false,
        }
    }
}

impl Clone for SamplerConfig {
    fn clone(&self) -> (r: Self)
        ensures
            r@ == self@,
    {
        SamplerConfig {
            base_url: self.base_url.clone(),
            api_backend: self.api_backend,
            auth_scheme: self.auth_scheme,
            api_key: self.api_key.clone(),
            extra_headers: copy_text_pairs(&self.extra_headers),
            origin_client: match &self.origin_client {
                Some(origin) => Some(origin.clone()),
                None => None,
            },
            client_identifier: self.client_identifier.clone(),
            deployment_id: self.deployment_id.clone(),
            user_id: self.user_id.clone(),
            client_version: self.client_version.clone(),
            doom_loop_recovery: self.doom_loop_recovery,
            bearer_resolver: self.bearer_resolver,
            header_injector: self.header_injector,
        }
    }
}

} // verus!
