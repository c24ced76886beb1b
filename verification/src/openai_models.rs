//! The models that come with OpenAI as the active provider.

use vstd::prelude::*;
use vstd::string::*;
use indexmap::IndexMap;
use crate::auth::provider::{
    active_of, active_provider, ProviderConfig, ProviderId, OPENAI_CODEX_API_BASE,
};
use crate::catalog::{catalog_entries_of, insert_entry, new_catalog, no_entries};
use crate::models::{
    fallback_entry, EndpointsConfig, ModelEntry, ModelEntryView, ModelInfoView,
};
use crate::ordered::{
    insert_text, lemma_value_of_with, lemma_with_value_contains, no_pairs, value_of, with_value,
};
use crate::sampling::{ApiBackend, AuthScheme};
use crate::text::opt_str;

verus! {

/// The entry of a model that comes with OpenAI.
pub open spec fn builtin_entry(
    id: Seq<char>,
    name: Seq<char>,
    context_window: u64,
) -> ModelEntryView {
    let fallback = fallback_entry(id, "https://api.x.ai/v1"@);
    ModelEntryView {
        info: ModelInfoView {
            model: id,
            name: Some(name),
            base_url: OPENAI_CODEX_API_BASE@,
            api_backend: ApiBackend::Responses,
            auth_scheme: AuthScheme::Bearer,
            context_window,
            user_selectable: true,
            extra_headers: with_value(no_pairs(), "originator"@, "grok_build"@),
            ..fallback.info
        },
        ..fallback
    }
}

/// The models that come with OpenAI.
pub open spec fn builtin_entries() -> Seq<(Seq<char>, ModelEntryView)> {
    let a = with_value(
        no_entries(),
        "gpt-5.4"@,
        builtin_entry("gpt-5.4"@, "GPT-5.4"@, 400_000),
    );
    let b = with_value(
        a,
        "gpt-5.4-mini"@,
        builtin_entry("gpt-5.4-mini"@, "GPT-5.4 Mini"@, 200_000),
    );
    let c = with_value(
        b,
        "gpt-5.3-codex"@,
        builtin_entry("gpt-5.3-codex"@, "GPT-5.3 Codex"@, 400_000),
    );
    with_value(c, "gpt-5.2"@, builtin_entry("gpt-5.2"@, "GPT-5.2"@, 400_000))
}

fn insert_builtin(
    map: &mut IndexMap<String, ModelEntry>,
    id: &str,
    name: &str,
    context_window: u64,
)
    ensures
        catalog_entries_of(*final(map)) == with_value(
            catalog_entries_of(*old(map)),
            id@,
            builtin_entry(id@, name@, context_window),
        ),
{
    let mut entry = ModelEntry::fallback(id, &EndpointsConfig::default());
    entry.info.model = id.to_owned();
    entry.info.name = Some(name.to_owned());
    entry.info.base_url = OPENAI_CODEX_API_BASE.to_owned();
    entry.info.api_backend = ApiBackend::Responses;
    entry.info.auth_scheme = AuthScheme::Bearer;
    entry.info.context_window = context_window;
    entry.info.user_selectable = true;
    insert_text(
        &mut entry.info.extra_headers,
        "originator".to_owned(),
        "grok_build".to_owned(),
    );
    insert_entry(map, id.to_owned(), entry);
}

/// The models that come with OpenAI.
pub fn openai_builtin_models() -> (r: IndexMap<String, ModelEntry>)
    ensures
        catalog_entries_of(r) == builtin_entries(),
{
    let mut map = new_catalog();
    insert_builtin(&mut map, "gpt-5.4", "GPT-5.4", 400_000);
    insert_builtin(&mut map, "gpt-5.4-mini", "GPT-5.4 Mini", 200_000);
    insert_builtin(&mut map, "gpt-5.3-codex", "GPT-5.3 Codex", 400_000);
    insert_builtin(&mut map, "gpt-5.2", "GPT-5.2", 400_000);
    map
}

/// Whether OpenAI is the active provider.
pub fn openai_provider_active(from_env: Option<&str>, config: &ProviderConfig) -> (r: bool)
    ensures
        r == (active_of(opt_str(from_env), *config) == ProviderId::Openai),
{
    active_provider(from_env, config) == ProviderId::Openai
}

/// Every model that comes with OpenAI stands under the name that requests ask for,
/// is reached at the Codex endpoint as a ChatGPT account is, and can be selected.
pub proof fn law_builtin_models_are_routed_by_name(i: int)
    requires
        0 <= i < builtin_entries().len(),
    ensures
        ({
            let (id, entry) = builtin_entries()[i];
            &&& entry.info.model == id
            &&& entry.info.name is Some
            &&& entry.info.base_url == "https://chatgpt.com/backend-api/codex"@
            &&& entry.info.api_backend == ApiBackend::Responses
            &&& entry.info.auth_scheme == AuthScheme::Bearer
            &&& entry.info.user_selectable && !entry.info.hidden
            &&& entry.info.context_window >= 200_000
            &&& value_of(entry.info.extra_headers, "originator"@) == Some("grok_build"@)
            &&& entry.api_key is None
        }),
{
    let a = builtin_entry("gpt-5.4"@, "GPT-5.4"@, 400_000);
    let b = builtin_entry("gpt-5.4-mini"@, "GPT-5.4 Mini"@, 200_000);
    let c = builtin_entry("gpt-5.3-codex"@, "GPT-5.3 Codex"@, 400_000);
    let d = builtin_entry("gpt-5.2"@, "GPT-5.2"@, 400_000);
    let one = with_value(no_entries(), "gpt-5.4"@, a);
    let two = with_value(one, "gpt-5.4-mini"@, b);
    let three = with_value(two, "gpt-5.3-codex"@, c);
    lemma_with_value_contains(three, "gpt-5.2"@, d, i);
    let found = builtin_entries()[i];
    if found != ("gpt-5.2"@, d) {
        let j = choose|j: int| 0 <= j < three.len() && three[j] == found;
        lemma_with_value_contains(two, "gpt-5.3-codex"@, c, j);
        if found != ("gpt-5.3-codex"@, c) {
            let k = choose|k: int| 0 <= k < two.len() && two[k] == found;
            lemma_with_value_contains(one, "gpt-5.4-mini"@, b, k);
            if found != ("gpt-5.4-mini"@, b) {
                assert(one =~= seq![("gpt-5.4"@, a)]);
                assert(found == ("gpt-5.4"@, a));
            }
        }
    }
    lemma_value_of_with(no_pairs(), "originator"@, "grok_build"@, "originator"@);
}

/// The models that come with OpenAI, by their names, each with its context window.
pub proof fn law_builtin_models(id: Seq<char>)
    ensures
        value_of(builtin_entries(), id) is Some <==> (id == "gpt-5.4"@ || id == "gpt-5.4-mini"@ || id
            == "gpt-5.3-codex"@ || id == "gpt-5.2"@),
        value_of(builtin_entries(), id) matches Some(entry) ==> entry.info.context_window == (if id
            == "gpt-5.4-mini"@ {
            200_000u64
        } else {
            400_000
        }),
{
    let a = builtin_entry("gpt-5.4"@, "GPT-5.4"@, 400_000);
    let b = builtin_entry("gpt-5.4-mini"@, "GPT-5.4 Mini"@, 200_000);
    let c = builtin_entry("gpt-5.3-codex"@, "GPT-5.3 Codex"@, 400_000);
    let d = builtin_entry("gpt-5.2"@, "GPT-5.2"@, 400_000);
    let one = with_value(no_entries(), "gpt-5.4"@, a);
    let two = with_value(one, "gpt-5.4-mini"@, b);
    let three = with_value(two, "gpt-5.3-codex"@, c);
    lemma_value_of_with(no_entries(), "gpt-5.4"@, a, id);
    lemma_value_of_with(one, "gpt-5.4-mini"@, b, id);
    lemma_value_of_with(two, "gpt-5.3-codex"@, c, id);
    lemma_value_of_with(three, "gpt-5.2"@, d, id);
    reveal_strlit("gpt-5.4");
    reveal_strlit("gpt-5.4-mini");
    reveal_strlit("gpt-5.3-codex");
    reveal_strlit("gpt-5.2");
    assert("gpt-5.4"@.len() == 7 && "gpt-5.4-mini"@.len() == 12 && "gpt-5.3-codex"@.len() == 13
        && "gpt-5.2"@.len() == 7);
    assert("gpt-5.4"@[6] == '4' && "gpt-5.2"@[6] == '2');
}

} // verus!
