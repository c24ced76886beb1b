//! The catalog entries of connected providers.

use vstd::prelude::*;
use vstd::string::*;
use indexmap::IndexMap;
use crate::models::{
    fallback_info, EnvKeys, ModelEntry, ModelEntryView, ModelInfo, ModelInfoView,
};
use crate::ordered::text_pairs;
use crate::sampling::ApiBackend;
use crate::text::{opt_str, trim_end_slashes, without_end_slashes};

verus! {

/// What a provider says of one of its models.
pub struct ProviderModelSpec<'a> {
    pub catalog_id: &'a str,
    pub routing_slug: &'a str,
    pub display_name: &'a str,
    pub provider: &'a str,
    pub base_url: &'a str,
    pub api_backend: ApiBackend,
    pub api_key: String,
    pub env_key: Option<&'a str>,
    pub context_window: u64,
    pub extra_headers: IndexMap<String, String>,
    pub supports_reasoning: bool,
    pub max_completion_tokens: Option<u32>,
}

/// The model of [`ProviderModelSpec`].
pub struct ModelSpecView {
    pub catalog_id: Seq<char>,
    pub routing_slug: Seq<char>,
    pub display_name: Seq<char>,
    pub provider: Seq<char>,
    pub base_url: Seq<char>,
    pub api_backend: ApiBackend,
    pub api_key: Seq<char>,
    pub env_key: Option<Seq<char>>,
    pub context_window: u64,
    pub extra_headers: Seq<(Seq<char>, Seq<char>)>,
    pub supports_reasoning: bool,
    pub max_completion_tokens: Option<u32>,
}

impl<'a> ProviderModelSpec<'a> {
    pub open spec fn view(&self) -> ModelSpecView {
        ModelSpecView {
            catalog_id: self.catalog_id@,
            routing_slug: self.routing_slug@,
            display_name: self.display_name@,
            provider: self.provider@,
            base_url: self.base_url@,
            api_backend: self.api_backend,
            api_key: self.api_key@,
            env_key: opt_str(self.env_key),
            context_window: self.context_window,
            extra_headers: text_pairs(self.extra_headers),
            supports_reasoning: self.supports_reasoning,
            max_completion_tokens: self.max_completion_tokens,
        }
    }
}

/// At least one.
pub open spec fn at_least_one(n: u64) -> u64 {
    if n == 0 {
        1
    } else {
        n
    }
}

/// The catalog entry of a model: it can be selected and is not hidden, its base
/// URL has no slashes at its end, and its context window is at least one token.
pub open spec fn entry_of(spec_view: ModelSpecView) -> ModelEntryView {
    ModelEntryView {
        info: ModelInfoView {
            id: Some(spec_view.catalog_id),
            name: Some(spec_view.display_name),
            provider: Some(spec_view.provider),
            base_url: without_end_slashes(spec_view.base_url),
            api_backend: spec_view.api_backend,
            extra_headers: spec_view.extra_headers,
            context_window: at_least_one(spec_view.context_window),
            supported_in_api: true,
            user_selectable: true,
            hidden: false,
            supports_reasoning_effort: spec_view.supports_reasoning,
            max_completion_tokens: spec_view.max_completion_tokens,
            ..fallback_info(spec_view.routing_slug)
        },
        api_key: Some(spec_view.api_key),
        env_key: match spec_view.env_key {
            Some(name) => Some(seq![name]),
            None => None,
        },
        auth_provider: None,
        api_base_url: None,
    }
}

/// The id and the catalog entry of a model.
pub fn build_entry(model: ProviderModelSpec<'_>) -> (r: (String, ModelEntry))
    ensures
        r.0@ == model.catalog_id@,
        r.1@ == entry_of(model@),
{
    let mut info = ModelInfo::fallback(model.routing_slug);
    info.id = Some(model.catalog_id.to_owned());
    info.model = model.routing_slug.to_owned();
    info.name = Some(model.display_name.to_owned());
    info.provider = Some(model.provider.to_owned());
    info.base_url = trim_end_slashes(model.base_url);
    info.api_backend = model.api_backend;
    info.extra_headers = model.extra_headers;
    info.context_window =
    if model.context_window == 0 {
        1
    } else {
        model.context_window
    };
    info.supported_in_api = true;
    info.user_selectable = true;
    info.hidden = false;
    info.supports_reasoning_effort = model.supports_reasoning;
    info.max_completion_tokens = model.max_completion_tokens;
    let entry = ModelEntry {
        info,
        api_key: Some(model.api_key),
        env_key: match model.env_key {
            Some(name) => Some(EnvKeys::single(name)),
            None => None,
        },
        auth_provider: None,
        api_base_url: None,
    };
    (model.catalog_id.to_owned(), entry)
}

/// An entry asks its provider for the model by the slug, whatever id it stands
/// under in the catalog, and reaches it with the key, the headers and the protocol
/// that the provider names. It can be selected and is not hidden.
pub proof fn law_entry_asks_for_the_slug(model: ModelSpecView)
    ensures
        ({
            let entry = entry_of(model);
            &&& entry.info.model == model.routing_slug
            &&& entry.info.id == Some(model.catalog_id)
            &&& entry.info.name == Some(model.display_name)
            &&& entry.info.provider == Some(model.provider)
            &&& entry.api_key == Some(model.api_key)
            &&& entry.info.extra_headers == model.extra_headers
            &&& entry.info.api_backend == model.api_backend
            &&& entry.info.auth_scheme == crate::sampling::AuthScheme::Bearer
            &&& entry.info.supports_reasoning_effort == model.supports_reasoning
            &&& entry.info.max_completion_tokens == model.max_completion_tokens
            &&& entry.info.user_selectable && entry.info.supported_in_api && !entry.info.hidden
            &&& entry.info.context_window == (if model.context_window == 0 {
                1
            } else {
                model.context_window
            })
            &&& model.env_key matches Some(name) ==> entry.env_key == Some(seq![name])
            &&& model.env_key is None ==> entry.env_key is None
            &&& (model.base_url.len() > 0 && model.base_url.last() != '/') ==> entry.info.base_url
                == model.base_url
            &&& entry.info.base_url.len() > 0 ==> entry.info.base_url.last() != '/'
            &&& entry.auth_provider is None && entry.api_base_url is None
        }),
{
    crate::text::law_only_end_slashes_go(model.base_url);
}

} // verus!
