//! The requests of clients that connect and disconnect providers.

use vstd::prelude::*;
use vstd::string::*;
use crate::json::{members_view, Json, JsonView, Member, Number, NumberView};
use crate::providers::credentials::{clear, cleared, ProviderStore};
use crate::providers::{provider_named, ProviderId};
use crate::text::{concat, opt_text, text_eq, trimmed};

verus! {

/// A request that is understood.
#[derive(Clone, Copy, Debug, PartialEq, Eq, Structural)]
pub enum ProviderMethod {
    Connect,
    Disconnect,
}

/// The request that a method names.
pub open spec fn method_named(name: Seq<char>) -> Option<ProviderMethod> {
    if name == "x.ai/providers/connect"@ {
        Some(ProviderMethod::Connect)
    } else if name == "x.ai/providers/disconnect"@ {
        Some(ProviderMethod::Disconnect)
    } else {
        None
    }
}

/// The request that a method names, if it is one of these.
pub fn provider_method(name: &str) -> (r: Option<ProviderMethod>)
    ensures
        r == method_named(name@),
{
    if text_eq(name, "x.ai/providers/connect") {
        Some(ProviderMethod::Connect)
    } else if text_eq(name, "x.ai/providers/disconnect") {
        Some(ProviderMethod::Disconnect)
    } else {
        None
    }
}

/// A request to connect a provider.
pub struct ConnectParams {
    pub provider: String,
    pub api_key: Option<String>,
}

/// What the parameters of a request have wrong.
#[derive(Debug)]
pub enum InvalidParams {
    /// The provider is not one that can be connected.
    UnknownProvider(String),
    /// The provider needs a key and got none.
    ApiKeyRequired,
}

/// The model of [`InvalidParams`].
pub enum InvalidParamsView {
    UnknownProvider(Seq<char>),
    ApiKeyRequired,
}

impl InvalidParamsView {
    /// What the client is told.
    pub open spec fn text(self) -> Seq<char> {
        match self {
            InvalidParamsView::UnknownProvider(name) => "unknown provider: "@ + name,
            InvalidParamsView::ApiKeyRequired => "apiKey required"@,
        }
    }
}

impl InvalidParams {
    pub open spec fn view(&self) -> InvalidParamsView {
        match self {
            InvalidParams::UnknownProvider(name) => InvalidParamsView::UnknownProvider(name@),
            InvalidParams::ApiKeyRequired => InvalidParamsView::ApiKeyRequired,
        }
    }

    /// What the client is told.
    pub fn message(&self) -> (r: String)
        ensures
            r@ == self@.text(),
    {
        match self {
            InvalidParams::UnknownProvider(name) => concat("unknown provider: ", name.as_str()),
            InvalidParams::ApiKeyRequired => "apiKey required".to_owned(),
        }
    }
}

/// The provider that a request names, if it is one that can be connected: xAI's
/// own account is not.
pub open spec fn connectable(provider: Seq<char>) -> Result<ProviderId, InvalidParamsView> {
    match provider_named(provider) {
        Some(ProviderId::Xai) | None => Err(InvalidParamsView::UnknownProvider(provider)),
        Some(id) => Ok(id),
    }
}

/// The model of an outcome with wrong parameters.
pub open spec fn params_view<T>(r: Result<T, InvalidParams>) -> Result<T, InvalidParamsView> {
    match r {
        Ok(v) => Ok(v),
        Err(e) => Err(e@),
    }
}

/// The provider that a request names, if it is one that can be connected.
pub fn parse_connectable_provider(provider: &str) -> (r: Result<ProviderId, InvalidParams>)
    ensures
        params_view(r) == connectable(provider@),
{
    match ProviderId::parse(provider) {
        Some(ProviderId::OpenRouter) => Ok(ProviderId::OpenRouter),
        Some(ProviderId::ChatGpt) => Ok(ProviderId::ChatGpt),
        _ => Err(InvalidParams::UnknownProvider(provider.to_owned())),
    }
}

/// How a provider is connected.
#[derive(Debug)]
pub enum ConnectStep {
    /// By storing this key.
    StoreKey(String),
    /// By signing in in a browser.
    SignIn,
}

/// The model of [`ConnectStep`].
pub enum ConnectStepView {
    StoreKey(Seq<char>),
    SignIn,
}

impl ConnectStep {
    pub open spec fn view(&self) -> ConnectStepView {
        match self {
            ConnectStep::StoreKey(key) => ConnectStepView::StoreKey(key@),
            ConnectStep::SignIn => ConnectStepView::SignIn,
        }
    }
}

/// How a request connects its provider: OpenRouter by a key that is more than
/// white space, ChatGPT by signing in.
pub open spec fn connect_step_of(provider: Seq<char>, api_key: Option<Seq<char>>) -> Result<
    (ProviderId, ConnectStepView),
    InvalidParamsView,
> {
    match connectable(provider) {
        Err(e) => Err(e),
        Ok(ProviderId::OpenRouter) => match api_key {
            Some(key) if trimmed(key).len() > 0 => Ok(
                (ProviderId::OpenRouter, ConnectStepView::StoreKey(trimmed(key))),
            ),
            _ => Err(InvalidParamsView::ApiKeyRequired),
        },
        Ok(id) => Ok((id, ConnectStepView::SignIn)),
    }
}

/// The model of how a provider is connected.
pub open spec fn step_view(r: Result<(ProviderId, ConnectStep), InvalidParams>) -> Result<
    (ProviderId, ConnectStepView),
    InvalidParamsView,
> {
    match r {
        Ok((id, step)) => Ok((id, step@)),
        Err(e) => Err(e@),
    }
}

/// How a request connects its provider.
pub fn connect_step(params: &ConnectParams) -> (r: Result<(ProviderId, ConnectStep), InvalidParams>)
    ensures
        step_view(r) == connect_step_of(params.provider@, opt_text(params.api_key)),
{
    match parse_connectable_provider(params.provider.as_str()) {
        Err(e) => Err(e),
        Ok(ProviderId::OpenRouter) => {
            if let Some(key) = &params.api_key {
                let bare = key.as_str().trim();
                if !bare.is_empty() {
                    return Ok((ProviderId::OpenRouter, ConnectStep::StoreKey(bare.to_owned())));
                }
            }
            Err(InvalidParams::ApiKeyRequired)
        },
        Ok(id) => Ok((id, ConnectStep::SignIn)),
    }
}

/// Forgets the credentials of the provider that a request names.
pub fn disconnect(store: &mut ProviderStore, provider: &str) -> (r: Result<
    ProviderId,
    InvalidParams,
>)
    ensures
        params_view(r) == connectable(provider@),
        final(store)@ == match connectable(provider@) {
            Ok(id) => cleared(old(store)@, id),
            Err(_) => old(store)@,
        },
{
    match parse_connectable_provider(provider) {
        Ok(id) => {
            clear(store, id);
            Ok(id)
        },
        Err(e) => Err(e),
    }
}

/// What a request is answered with.
pub open spec fn answer_of(id: ProviderId, models: u64) -> JsonView {
    JsonView::Object(
        seq![
            ("ok"@, JsonView::Bool(true)),
            ("provider"@, JsonView::Text(id.name())),
            ("models"@, JsonView::Number(NumberView::Unsigned(models))),
        ],
    )
}

/// What a request is answered with: the provider, and how many models there are
/// now.
pub fn provider_answer(id: ProviderId, models: u64) -> (r: Json)
    ensures
        r@ == answer_of(id, models),
{
    let mut members: Vec<Member> = Vec::new();
    members.push(Member { name: "ok".to_owned(), value: Json::Bool(true) });
    members.push(
        Member { name: "provider".to_owned(), value: Json::Text(id.as_str().to_owned()) },
    );
    members.push(
        Member { name: "models".to_owned(), value: Json::Number(Number::Unsigned(models)) },
    );
    assert(members_view(members@) =~= answer_of(id, models)->Object_0);
    Json::Object(members)
}

/// OpenRouter and ChatGPT can be connected, by any name that they go by; xAI's own
/// account and names that are not known cannot, and the client is told the name.
pub proof fn law_connectable_providers(provider: Seq<char>)
    ensures
        provider_named(provider) == Some(ProviderId::OpenRouter) ==> connectable(provider) == Ok::<
            ProviderId,
            InvalidParamsView,
        >(ProviderId::OpenRouter),
        provider_named(provider) == Some(ProviderId::ChatGpt) ==> connectable(provider) == Ok::<
            ProviderId,
            InvalidParamsView,
        >(ProviderId::ChatGpt),
        provider_named(provider) == Some(ProviderId::Xai) || provider_named(provider) is None
            ==> connectable(provider) == Err::<ProviderId, InvalidParamsView>(
            InvalidParamsView::UnknownProvider(provider),
        ),
{
}

/// OpenRouter is connected by storing the key without white space at its ends, and
/// not without one; ChatGPT by signing in, whatever key comes along.
pub proof fn law_connecting_stores_the_key(
    provider: Seq<char>,
    api_key: Option<Seq<char>>,
)
    ensures
        provider_named(provider) == Some(ProviderId::OpenRouter) && (api_key matches Some(key)
            && trimmed(key).len() > 0) ==> connect_step_of(provider, api_key) == Ok::<
            (ProviderId, ConnectStepView),
            InvalidParamsView,
        >((ProviderId::OpenRouter, ConnectStepView::StoreKey(trimmed(api_key->0)))),
        provider_named(provider) == Some(ProviderId::OpenRouter) && !(api_key matches Some(key)
            && trimmed(key).len() > 0) ==> connect_step_of(provider, api_key) == Err::<
            (ProviderId, ConnectStepView),
            InvalidParamsView,
        >(InvalidParamsView::ApiKeyRequired),
        provider_named(provider) == Some(ProviderId::ChatGpt) ==> connect_step_of(
            provider,
            api_key,
        ) == Ok::<(ProviderId, ConnectStepView), InvalidParamsView>(
            (ProviderId::ChatGpt, ConnectStepView::SignIn),
        ),
        provider_named(provider) == Some(ProviderId::Xai) || provider_named(provider) is None
            ==> connect_step_of(provider, api_key) == Err::<
            (ProviderId, ConnectStepView),
            InvalidParamsView,
        >(InvalidParamsView::UnknownProvider(provider)),
{
}

/// The answer to a request names the provider and how many models there are now.
pub proof fn law_answers_name_the_provider(id: ProviderId, models: u64)
    ensures
        answer_of(id, models).get("ok"@) == Some(JsonView::Bool(true)),
        answer_of(id, models).get("provider"@) == Some(JsonView::Text(id.name())),
        answer_of(id, models).get("models"@) == Some(
            JsonView::Number(NumberView::Unsigned(models)),
        ),
        provider_named(id.name()) == Some(id),
{
    crate::providers::law_provider_names_round_trip(id);
    reveal_strlit("ok");
    reveal_strlit("provider");
    reveal_strlit("models");
    assert("ok"@.len() == 2 && "provider"@.len() == 8 && "models"@.len() == 6);
    let members = answer_of(id, models)->Object_0;
    crate::json::law_first_member_counts(members, "ok"@);
    crate::json::law_first_member_counts(members, "provider"@);
    crate::json::law_first_member_counts(members, "models"@);
    assert(members[0] == ("ok"@, JsonView::Bool(true)));
    assert(members[1] == ("provider"@, JsonView::Text(id.name())));
    assert(members[2] == ("models"@, JsonView::Number(NumberView::Unsigned(models))));
}

/// Two methods are understood, each by its own name alone.
pub proof fn law_methods_by_name(name: Seq<char>)
    ensures
        method_named(name) == Some(ProviderMethod::Connect) <==> name == "x.ai/providers/connect"@,
        method_named(name) == Some(ProviderMethod::Disconnect) <==> name
            == "x.ai/providers/disconnect"@,
{
    reveal_strlit("x.ai/providers/connect");
    reveal_strlit("x.ai/providers/disconnect");
    assert("x.ai/providers/connect"@.len() == 22 && "x.ai/providers/disconnect"@.len() == 25);
}

} // verus!
