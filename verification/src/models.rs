//! Catalog entries: what is known of a model and how to reach it.

use vstd::prelude::*;
use vstd::string::*;
use indexmap::IndexMap;
use crate::efforts::{menu, EffortOptionView, ReasoningEffort, ReasoningEffortOption};
use crate::ordered::{no_pairs, no_text_pairs, text_pairs};
use crate::sampling::{ApiBackend, AuthScheme};
use crate::text::{opt_text, texts};

verus! {

/// The context window of a model of which nothing is known, in tokens.
pub const FALLBACK_CONTEXT_WINDOW: u64 = 256_000;

/// The environment variables that may hold the key of a model.
#[derive(Debug)]
pub struct EnvKeys {
    pub names: Vec<String>,
}

impl EnvKeys {
    pub open spec fn view(&self) -> Seq<Seq<char>> {
        texts(self.names@)
    }

    /// Just one variable.
    pub fn single(name: &str) -> (r: EnvKeys)
        ensures
            r@ == seq![name@],
    {
        let mut names: Vec<String> = Vec::new();
        names.push(name.to_owned());
        assert(texts(names@) =~= seq![name@]);
        EnvKeys { names }
    }
}

/// What is known of a model.
pub struct ModelInfo {
    pub id: Option<String>,
    pub model: String,
    pub name: Option<String>,
    pub provider: Option<String>,
    pub base_url: String,
    pub api_backend: ApiBackend,
    pub auth_scheme: AuthScheme,
    pub extra_headers: IndexMap<String, String>,
    /// The context window in tokens, at least one.
    pub context_window: u64,
    pub supported_in_api: bool,
    pub user_selectable: bool,
    pub hidden: bool,
    pub supports_reasoning_effort: bool,
    pub max_completion_tokens: Option<u32>,
    pub reasoning_effort: Option<ReasoningEffort>,
    pub reasoning_efforts: Vec<ReasoningEffortOption>,
    pub supports_fast_mode: bool,
}

/// The model of [`ModelInfo`].
#[verifier::ext_equal]
pub struct ModelInfoView {
    pub id: Option<Seq<char>>,
    pub model: Seq<char>,
    pub name: Option<Seq<char>>,
    pub provider: Option<Seq<char>>,
    pub base_url: Seq<char>,
    pub api_backend: ApiBackend,
    pub auth_scheme: AuthScheme,
    pub extra_headers: Seq<(Seq<char>, Seq<char>)>,
    pub context_window: u64,
    pub supported_in_api: bool,
    pub user_selectable: bool,
    pub hidden: bool,
    pub supports_reasoning_effort: bool,
    pub max_completion_tokens: Option<u32>,
    pub reasoning_effort: Option<ReasoningEffort>,
    pub reasoning_efforts: Seq<EffortOptionView>,
    pub supports_fast_mode: bool,
}

/// What is assumed of a model of which only the slug is known.
pub open spec fn fallback_info(slug: Seq<char>) -> ModelInfoView {
    ModelInfoView {
        id: None,
        model: slug,
        name: None,
        provider: None,
        base_url: Seq::empty(),
        api_backend: ApiBackend::ChatCompletions,
        auth_scheme: AuthScheme::Bearer,
        extra_headers: no_pairs(),
        context_window: FALLBACK_CONTEXT_WINDOW,
        supported_in_api: true,
        user_selectable: false,
        hidden: false,
        supports_reasoning_effort: false,
        max_completion_tokens: None,
        reasoning_effort: None,
        reasoning_efforts: Seq::empty(),
        supports_fast_mode: false,
    }
}

impl ModelInfo {
    pub open spec fn view(&self) -> ModelInfoView {
        ModelInfoView {
            id: opt_text(self.id),
            model: self.model@,
            name: opt_text(self.name),
            provider: opt_text(self.provider),
            base_url: self.base_url@,
            api_backend: self.api_backend,
            auth_scheme: self.auth_scheme,
            extra_headers: text_pairs(self.extra_headers),
            context_window: self.context_window,
            supported_in_api: self.supported_in_api,
            user_selectable: self.user_selectable,
            hidden: self.hidden,
            supports_reasoning_effort: self.supports_reasoning_effort,
            max_completion_tokens: self.max_completion_tokens,
            reasoning_effort: self.reasoning_effort,
            reasoning_efforts: menu(self.reasoning_efforts@),
            supports_fast_mode: self.supports_fast_mode,
        }
    }

    /// What is assumed of a model of which only the slug is known.
    pub fn fallback(slug: &str) -> (r: ModelInfo)
        ensures
            r@ == fallback_info(slug@),
    {
        let info = ModelInfo {
            id: None,
            model: slug.to_owned(),
            name: None,
            provider: None,
            base_url: String::new(),
            api_backend: ApiBackend::ChatCompletions,
            auth_scheme: AuthScheme::Bearer,
            extra_headers: no_text_pairs(),
            context_window: FALLBACK_CONTEXT_WINDOW,
            supported_in_api: true,
            user_selectable: false,
            hidden: false,
            supports_reasoning_effort: false,
            max_completion_tokens: None,
            reasoning_effort: None,
            reasoning_efforts: Vec::new(),
            supports_fast_mode: false,
        };
        assert(menu(info.reasoning_efforts@) =~= Seq::<EffortOptionView>::empty());
        info
    }
}

/// A catalog entry: a model and its credentials.
pub struct ModelEntry {
    pub info: ModelInfo,
    pub api_key: Option<String>,
    pub env_key: Option<EnvKeys>,
    pub auth_provider: Option<String>,
    pub api_base_url: Option<String>,
}

/// The model of [`ModelEntry`].
#[verifier::ext_equal]
pub struct ModelEntryView {
    pub info: ModelInfoView,
    pub api_key: Option<Seq<char>>,
    pub env_key: Option<Seq<Seq<char>>>,
    pub auth_provider: Option<Seq<char>>,
    pub api_base_url: Option<Seq<char>>,
}

/// The names of environment variables that may be missing.
pub open spec fn opt_env_keys(keys: Option<EnvKeys>) -> Option<Seq<Seq<char>>> {
    match keys {
        Some(k) => Some(k@),
        None => None,
    }
}

/// Where models without a provider of their own are reached.
pub struct EndpointsConfig {
    pub base_url: String,
}

impl Default for EndpointsConfig {
    fn default() -> (r: Self)
        ensures
            r.base_url@ == "https://api.x.ai/v1"@,
    {
        EndpointsConfig { base_url: "https://api.x.ai/v1".to_owned() }
    }
}

/// The entry of a model of which only the slug is known.
pub open spec fn fallback_entry(slug: Seq<char>, base_url: Seq<char>) -> ModelEntryView {
    ModelEntryView {
        info: ModelInfoView { base_url, ..fallback_info(slug) },
        api_key: None,
        env_key: None,
        auth_provider: None,
        api_base_url: None,
    }
}

impl ModelEntry {
    pub open spec fn view(&self) -> ModelEntryView {
        ModelEntryView {
            info: self.info@,
            api_key: opt_text(self.api_key),
            env_key: opt_env_keys(self.env_key),
            auth_provider: opt_text(self.auth_provider),
            api_base_url: opt_text(self.api_base_url),
        }
    }

    /// The entry of a model of which only the slug is known, at the endpoint for
    /// models without a provider of their own.
    pub fn fallback(slug: &str, endpoints: &EndpointsConfig) -> (r: ModelEntry)
        ensures
            r@ == fallback_entry(slug@, endpoints.base_url@),
    {
        let mut info = ModelInfo::fallback(slug);
        info.base_url = endpoints.base_url.clone();
        ModelEntry {
            info,
            api_key: None,
            env_key: None,
            auth_provider: None,
            api_base_url: None,
        }
    }
}

/// Which connected providers the user wants to see.
pub struct UiConfig {
    pub show_openrouter_models: Option<bool>,
    pub show_chatgpt_models: Option<bool>,
}

/// A model of which only the slug is known is asked for by the slug, at the given
/// endpoint and without credentials of its own, and is not offered to users.
pub proof fn law_unknown_models_are_asked_for_by_slug(slug: Seq<char>, base_url: Seq<char>)
    ensures
        ({
            let entry = fallback_entry(slug, base_url);
            &&& entry.info.model == slug
            &&& entry.info.base_url == base_url
            &&& entry.info.context_window == 256_000
            &&& entry.info.api_backend == ApiBackend::ChatCompletions
            &&& entry.info.auth_scheme == AuthScheme::Bearer
            &&& !entry.info.user_selectable && !entry.info.hidden && entry.info.supported_in_api
            &&& entry.api_key is None && entry.env_key is None && entry.auth_provider is None
            &&& entry.info.extra_headers.len() == 0
            &&& entry.info.reasoning_efforts.len() == 0 && entry.info.reasoning_effort is None
            &&& !entry.info.supports_reasoning_effort && !entry.info.supports_fast_mode
            &&& entry.info.max_completion_tokens is None && entry.api_base_url is None
            &&& entry.info.id is None && entry.info.name is None && entry.info.provider is None
        }),
{
}

} // verus!
