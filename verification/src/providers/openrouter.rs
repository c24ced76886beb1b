//! The catalog of OpenRouter.

use vstd::prelude::*;
use vstd::string::*;
use indexmap::IndexMap;
use crate::catalog::{
    catalog_entries_of, has_entry, insert_entry, new_catalog, no_entries,
};
use crate::models::{ModelEntry, ModelEntryView};
use crate::ordered::{
    insert_text, keys_differ, lemma_value_of_at, lemma_value_of_with, lemma_with_value_keys,
    lemma_with_value_new, no_pairs, no_text_pairs, value_of, with_value,
};
use crate::providers::credentials::{resolve_api_key, resolved_key, ProviderStore};
use crate::providers::entry::{build_entry, entry_of, ModelSpecView, ProviderModelSpec};
use crate::sampling::ApiBackend;
use crate::text::{concat, lower, opt_str, pieces, split_on, texts, trimmed};

verus! {

/// Where its models are reached.
pub const API_URL: &'static str = "https://openrouter.ai/api/v1";

/// OpenRouter takes requests of the Responses API for all its models.
pub const API_BACKEND: ApiBackend = ApiBackend::Responses;

/// The environment variable that may hold its key.
pub const ENV_KEY: &'static str = "OPENROUTER_API_KEY";

/// The label of its models.
pub const PROVIDER_LABEL: &'static str = "OpenRouter";

/// The page that requests say they come from.
pub const REFERER: &'static str = "https://grok.com";

/// The title that requests go under.
pub const TITLE: &'static str = "Grok";

/// The context window of a model that lists none, in tokens.
pub const DEFAULT_CONTEXT_LENGTH: u64 = 200_000;

/// The context window of the router, in tokens.
pub const AUTO_CONTEXT_LENGTH: u64 = 2_000_000;

/// A model as OpenRouter lists it.
pub struct ListedModel {
    pub id: String,
    pub name: String,
    pub context_length: Option<u64>,
    pub supported_parameters: Vec<String>,
}

/// The headers of requests to OpenRouter.
pub open spec fn openrouter_headers() -> Seq<(Seq<char>, Seq<char>)> {
    with_value(
        with_value(no_pairs(), "HTTP-Referer"@, REFERER@),
        "X-OpenRouter-Title"@,
        TITLE@,
    )
}

/// The entry of a model.
pub open spec fn openrouter_entry(
    catalog_id: Seq<char>,
    slug: Seq<char>,
    display_name: Seq<char>,
    api_key: Seq<char>,
    context_window: u64,
    supports_reasoning: bool,
) -> ModelEntryView {
    entry_of(
        ModelSpecView {
            catalog_id,
            routing_slug: slug,
            display_name,
            provider: PROVIDER_LABEL@,
            base_url: API_URL@,
            api_backend: API_BACKEND,
            api_key,
            env_key: Some(ENV_KEY@),
            context_window,
            extra_headers: openrouter_headers(),
            supports_reasoning,
            max_completion_tokens: None,
        },
    )
}

/// The name that a listed model is shown under: what follows the last colon, so
/// that the vendor is left out.
pub open spec fn display_of(name: Seq<char>) -> Seq<char> {
    trimmed(pieces(name, ':').last())
}

/// Whether a listed model can reason.
pub open spec fn lists_reasoning(parameters: Seq<Seq<char>>) -> bool {
    exists|i: int|
        0 <= i < parameters.len() && lower(#[trigger] parameters[i]) == lower("reasoning"@)
}

/// The entries with those of listed models put in, each under the first model of
/// its id.
pub open spec fn with_listed(
    entries: Seq<(Seq<char>, ModelEntryView)>,
    models: Seq<ListedModel>,
    api_key: Seq<char>,
) -> Seq<(Seq<char>, ModelEntryView)>
    decreases models.len(),
{
    if models.len() == 0 {
        entries
    } else {
        let front = with_listed(entries, models.drop_last(), api_key);
        let model = models.last();
        let id = "openrouter/"@ + model.id@;
        if value_of(front, id) is Some {
            front
        } else {
            with_value(
                front,
                id,
                openrouter_entry(
                    id,
                    model.id@,
                    display_of(model.name@),
                    api_key,
                    match model.context_length {
                        Some(n) => n,
                        None => DEFAULT_CONTEXT_LENGTH,
                    },
                    lists_reasoning(texts(model.supported_parameters@)),
                ),
            )
        }
    }
}

/// The catalog of OpenRouter: nothing without a key, else the router and the
/// listed models.
pub open spec fn openrouter_entries(
    stored: Option<Seq<char>>,
    from_env: Option<Seq<char>>,
    models: Seq<ListedModel>,
) -> Seq<(Seq<char>, ModelEntryView)> {
    match resolved_key(stored, from_env) {
        None => no_entries(),
        Some(key) => with_listed(
            with_value(
                no_entries(),
                "openrouter/auto"@,
                openrouter_entry(
                    "openrouter/auto"@,
                    "openrouter/auto"@,
                    "Auto Router"@,
                    key,
                    AUTO_CONTEXT_LENGTH,
                    false,
                ),
            ),
            models,
            key,
        ),
    }
}

/// Puts the entry of a model into the catalog.
fn insert_model(
    out: &mut IndexMap<String, ModelEntry>,
    catalog_id: &str,
    routing_slug: &str,
    display_name: &str,
    api_key: &str,
    context_window: u64,
    supports_reasoning: bool,
)
    ensures
        catalog_entries_of(*final(out)) == with_value(
            catalog_entries_of(*old(out)),
            catalog_id@,
            openrouter_entry(
                catalog_id@,
                routing_slug@,
                display_name@,
                api_key@,
                context_window,
                supports_reasoning,
            ),
        ),
{
    let mut extra_headers = no_text_pairs();
    insert_text(&mut extra_headers, "HTTP-Referer".to_owned(), REFERER.to_owned());
    insert_text(&mut extra_headers, "X-OpenRouter-Title".to_owned(), TITLE.to_owned());
    let (id, entry) = build_entry(
        ProviderModelSpec {
            catalog_id,
            routing_slug,
            display_name,
            provider: PROVIDER_LABEL,
            base_url: API_URL,
            api_backend: API_BACKEND,
            api_key: api_key.to_owned(),
            env_key: Some(ENV_KEY),
            context_window,
            extra_headers,
            supports_reasoning,
            max_completion_tokens: None,
        },
    );
    insert_entry(out, id, entry);
}

fn can_reason(parameters: &Vec<String>) -> (r: bool)
    ensures
        r == lists_reasoning(texts(parameters@)),
{
    let ghost all = texts(parameters@);
    let mut i: usize = 0;
    while i < parameters.len()
        invariant
            i <= parameters.len(),
            all == texts(parameters@),
            forall|j: int| 0 <= j < i ==> lower(#[trigger] all[j]) != lower("reasoning"@),
        decreases parameters.len() - i,
    {
        assert(all[i as int] == parameters@[i as int]@);
        if parameters[i].as_str().eq_ignore_ascii_case("reasoning") {
            return true;
        }
        i += 1;
    }
    false
}

fn shown_name(name: &str) -> (r: String)
    ensures
        r@ == display_of(name@),
{
    let parts = split_on(name, ':');
    let last: usize = parts.len() - 1;
    assert(texts(parts@)[last as int] == parts@[last as int]@);
    parts[last].as_str().trim().to_owned()
}

/// The catalog of OpenRouter for the stored key, or that of the environment.
pub fn catalog_entries(
    store: &ProviderStore,
    from_env: Option<&str>,
    models: &Vec<ListedModel>,
) -> (r: IndexMap<String, ModelEntry>)
    ensures
        catalog_entries_of(r) == openrouter_entries(
            store@.openrouter,
            opt_str(from_env),
            models@,
        ),
{
    let mut out = new_catalog();
    let key = match resolve_api_key(store.openrouter.as_ref(), from_env) {
        Some(key) => key,
        None => {
            return out;
        },
    };
    insert_model(
        &mut out,
        "openrouter/auto",
        "openrouter/auto",
        "Auto Router",
        key.as_str(),
        AUTO_CONTEXT_LENGTH,
        false,
    );
    let ghost start = catalog_entries_of(out);
    let mut i: usize = 0;
    assert(models@.take(0) =~= Seq::<ListedModel>::empty());
    while i < models.len()
        invariant
            i <= models.len(),
            catalog_entries_of(out) == with_listed(start, models@.take(i as int), key@),
        decreases models.len() - i,
    {
        assert(models@.take(i + 1).drop_last() =~= models@.take(i as int));
        let model = &models[i];
        let id = concat("openrouter/", model.id.as_str());
        if !has_entry(&out, id.as_str()) {
            insert_model(
                &mut out,
                id.as_str(),
                model.id.as_str(),
                shown_name(model.name.as_str()).as_str(),
                key.as_str(),
                match model.context_length {
                    Some(n) => n,
                    None => DEFAULT_CONTEXT_LENGTH,
                },
                can_reason(&model.supported_parameters),
            );
        }
        i += 1;
    }
    assert(models@.take(i as int) =~= models@);
    out
}

proof fn lemma_openrouter_entry(
    catalog_id: Seq<char>,
    slug: Seq<char>,
    display_name: Seq<char>,
    api_key: Seq<char>,
    context_window: u64,
    supports_reasoning: bool,
)
    ensures
        ({
            let entry = openrouter_entry(
                catalog_id,
                slug,
                display_name,
                api_key,
                context_window,
                supports_reasoning,
            );
            &&& entry.info.id == Some(catalog_id)
            &&& entry.info.model == slug
            &&& entry.info.name == Some(display_name)
            &&& is_openrouter_entry(entry, api_key)
            &&& entry.info.context_window == (if context_window == 0 {
                1
            } else {
                context_window
            })
            &&& entry.info.supports_reasoning_effort == supports_reasoning
        }),
{
    reveal_strlit("https://openrouter.ai/api/v1");
    let url = "https://openrouter.ai/api/v1"@;
    assert(url.len() == 28 && url[27] == '1');
    assert(crate::text::without_end_slashes(url) == url);
    reveal_strlit("HTTP-Referer");
    reveal_strlit("X-OpenRouter-Title");
    assert("HTTP-Referer"@.len() == 12 && "X-OpenRouter-Title"@.len() == 18);
    let a = with_value(no_pairs(), "HTTP-Referer"@, REFERER@);
    lemma_value_of_with(no_pairs(), "HTTP-Referer"@, REFERER@, "HTTP-Referer"@);
    lemma_value_of_with(a, "X-OpenRouter-Title"@, TITLE@, "HTTP-Referer"@);
    lemma_value_of_with(a, "X-OpenRouter-Title"@, TITLE@, "X-OpenRouter-Title"@);
}

/// Whether an entry is reached at OpenRouter, with a key and under its headers.
pub open spec fn is_openrouter_entry(entry: ModelEntryView, api_key: Seq<char>) -> bool {
    &&& entry.info.provider == Some("OpenRouter"@)
    &&& entry.info.base_url == "https://openrouter.ai/api/v1"@
    &&& entry.info.api_backend == ApiBackend::Responses
    &&& entry.api_key == Some(api_key)
    &&& entry.env_key == Some(seq!["OPENROUTER_API_KEY"@])
    &&& value_of(entry.info.extra_headers, "HTTP-Referer"@) == Some("https://grok.com"@)
    &&& value_of(entry.info.extra_headers, "X-OpenRouter-Title"@) == Some("Grok"@)
    &&& entry.info.user_selectable && !entry.info.hidden
}

/// Whether an entry is the one of a listed model: it stands under the id with a
/// prefix, and asks for the model by the id without it.
pub open spec fn is_listed_entry(
    id: Seq<char>,
    entry: ModelEntryView,
    model: ListedModel,
    api_key: Seq<char>,
) -> bool {
    &&& id == "openrouter/"@ + model.id@
    &&& entry.info.id == Some(id)
    &&& entry.info.model == model.id@
    &&& entry.info.name == Some(display_of(model.name@))
    &&& is_openrouter_entry(entry, api_key)
    &&& entry.info.context_window == (match model.context_length {
        Some(n) => if n == 0 {
            1
        } else {
            n
        },
        None => 200_000u64,
    })
    &&& entry.info.supports_reasoning_effort == (exists|i: int|
        0 <= i < model.supported_parameters@.len() && lower(
            (#[trigger] model.supported_parameters@[i])@,
        ) == "reasoning"@)
}

proof fn lemma_reasoning(model: ListedModel)
    ensures
        lists_reasoning(texts(model.supported_parameters@)) == (exists|i: int|
            0 <= i < model.supported_parameters@.len() && lower(
                (#[trigger] model.supported_parameters@[i])@,
            ) == "reasoning"@),
{
    reveal_strlit("reasoning");
    assert(lower("reasoning"@) =~= "reasoning"@);
    let all = texts(model.supported_parameters@);
    if lists_reasoning(all) {
        let i = choose|i: int|
            0 <= i < all.len() && lower(#[trigger] all[i]) == lower("reasoning"@);
        assert(lower(model.supported_parameters@[i]@) == "reasoning"@);
    }
    if exists|i: int|
        0 <= i < model.supported_parameters@.len() && lower(
            (#[trigger] model.supported_parameters@[i])@,
        ) == "reasoning"@ {
        let i = choose|i: int|
            0 <= i < model.supported_parameters@.len() && lower(
                (#[trigger] model.supported_parameters@[i])@,
            ) == "reasoning"@;
        assert(lower(all[i]) == lower("reasoning"@));
    }
}

proof fn lemma_listed_entries(
    start: Seq<(Seq<char>, ModelEntryView)>,
    models: Seq<ListedModel>,
    api_key: Seq<char>,
)
    requires
        keys_differ(start),
    ensures
        ({
            let entries = with_listed(start, models, api_key);
            &&& keys_differ(entries)
            &&& start.len() <= entries.len()
            &&& entries.take(start.len() as int) == start
            &&& forall|i: int|
                start.len() <= i < entries.len() ==> exists|k: int|
                    0 <= k < models.len() && is_listed_entry(
                        (#[trigger] entries[i]).0,
                        entries[i].1,
                        #[trigger] models[k],
                        api_key,
                    ) && forall|m: int| 0 <= m < k ==> (#[trigger] models[m]).id@ != models[k].id@
            &&& forall|k: int|
                0 <= k < models.len() ==> value_of(
                    entries,
                    "openrouter/"@ + (#[trigger] models[k]).id@,
                ) is Some
        }),
    decreases models.len(),
{
    if models.len() == 0 {
        assert(start.take(start.len() as int) =~= start);
    } else {
        let front = models.drop_last();
        let model = models.last();
        assert(models[models.len() - 1] == model);
        let before = with_listed(start, front, api_key);
        let entries = with_listed(start, models, api_key);
        let id = "openrouter/"@ + model.id@;
        lemma_listed_entries(start, front, api_key);
        let window = match model.context_length {
            Some(n) => n,
            None => DEFAULT_CONTEXT_LENGTH,
        };
        let reasons = lists_reasoning(texts(model.supported_parameters@));
        let entry = openrouter_entry(
            id,
            model.id@,
            display_of(model.name@),
            api_key,
            window,
            reasons,
        );
        lemma_openrouter_entry(id, model.id@, display_of(model.name@), api_key, window, reasons);
        lemma_reasoning(model);
        assert(is_listed_entry(id, entry, model, api_key));
        if value_of(before, id) is None {
            assert forall|j: int| 0 <= j < before.len() implies (#[trigger] before[j]).0 != id by {
                lemma_value_of_at(before, j);
            }
            lemma_with_value_new(before, id, entry);
            lemma_with_value_keys(before, id, entry);
            assert(entries =~= before.push((id, entry)));
            assert(entries.take(start.len() as int) =~= before.take(start.len() as int));
        }
        assert forall|i: int| start.len() <= i < entries.len() implies exists|k: int|
            0 <= k < models.len() && is_listed_entry(
                (#[trigger] entries[i]).0,
                entries[i].1,
                #[trigger] models[k],
                api_key,
            ) && forall|m: int| 0 <= m < k ==> (#[trigger] models[m]).id@ != models[k].id@ by {
            if i < before.len() {
                assert(entries[i] == before[i]);
                let k = choose|k: int|
                    0 <= k < front.len() && is_listed_entry(
                        before[i].0,
                        before[i].1,
                        #[trigger] front[k],
                        api_key,
                    ) && forall|m: int| 0 <= m < k ==> (#[trigger] front[m]).id@ != front[k].id@;
                assert(models[k] == front[k]);
                assert forall|m: int| 0 <= m < k implies (#[trigger] models[m]).id@
                    != models[k].id@ by {
                    assert(front[m] == models[m]);
                }
            } else {
                let k = models.len() - 1;
                assert(is_listed_entry(entries[i].0, entries[i].1, models[k], api_key));
                assert forall|m: int| 0 <= m < k implies (#[trigger] models[m]).id@
                    != models[k].id@ by {
                    assert(front[m] == models[m]);
                    assert(value_of(before, "openrouter/"@ + front[m].id@) is Some);
                }
            }
        }
        assert forall|k: int| 0 <= k < models.len() implies value_of(
            entries,
            "openrouter/"@ + (#[trigger] models[k]).id@,
        ) is Some by {
            lemma_value_of_with(before, id, entry, "openrouter/"@ + models[k].id@);
            if k < front.len() {
                assert(front[k] == models[k]);
            }
        }
    }
}

/// The catalog of OpenRouter with a key: first the router, which is asked for by
/// its own id, then the listed models, each under its id with a prefix and asked
/// for by the id itself. Every listed model has an entry, and of several models of
/// one id the first one counts.
pub proof fn law_openrouter_models_are_routed_by_id(
    stored: Option<Seq<char>>,
    from_env: Option<Seq<char>>,
    models: Seq<ListedModel>,
    key: Seq<char>,
    i: int,
    k: int,
)
    requires
        resolved_key(stored, from_env) == Some(key),
    ensures
        ({
            let entries = openrouter_entries(stored, from_env, models);
            &&& keys_differ(entries)
            &&& entries.len() > 0
            &&& entries[0].0 == "openrouter/auto"@
            &&& entries[0].1.info.id == Some("openrouter/auto"@)
            &&& entries[0].1.info.model == "openrouter/auto"@
            &&& entries[0].1.info.name == Some("Auto Router"@)
            &&& entries[0].1.info.context_window == 2_000_000
            &&& is_openrouter_entry(entries[0].1, key)
            &&& 0 < i < entries.len() ==> exists|j: int|
                0 <= j < models.len() && is_listed_entry(
                    entries[i].0,
                    entries[i].1,
                    #[trigger] models[j],
                    key,
                ) && forall|m: int| 0 <= m < j ==> (#[trigger] models[m]).id@ != models[j].id@
            &&& 0 <= k < models.len() ==> value_of(entries, "openrouter/"@ + models[k].id@) is Some
        }),
{
    let auto = openrouter_entry(
        "openrouter/auto"@,
        "openrouter/auto"@,
        "Auto Router"@,
        key,
        AUTO_CONTEXT_LENGTH,
        false,
    );
    let start = with_value(no_entries(), "openrouter/auto"@, auto);
    lemma_openrouter_entry(
        "openrouter/auto"@,
        "openrouter/auto"@,
        "Auto Router"@,
        key,
        AUTO_CONTEXT_LENGTH,
        false,
    );
    lemma_listed_entries(start, models, key);
    let entries = openrouter_entries(stored, from_env, models);
    assert(start =~= seq![("openrouter/auto"@, auto)]);
    assert(entries.take(1)[0] == entries[0]);
}

/// A listed model is shown under what follows the last colon of its name, without
/// white space at the ends, and under its whole name where it has no colon.
pub proof fn law_vendor_is_left_out(vendor: Seq<char>, name: Seq<char>)
    requires
        forall|i: int| 0 <= i < name.len() ==> name[i] != ':',
    ensures
        display_of(vendor + seq![':'] + name) == trimmed(name),
        display_of(name) == trimmed(name),
{
    crate::text::law_last_piece(vendor, name, ':');
    crate::text::law_pieces_of_one(name, ':');
}

} // verus!
