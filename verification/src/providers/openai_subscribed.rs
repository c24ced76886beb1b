//! The catalog of a ChatGPT subscription.

use vstd::prelude::*;
use vstd::string::*;
use indexmap::IndexMap;
use crate::catalog::{catalog_entries_of, insert_entry, new_catalog, no_entries};
use crate::efforts::{menu, EffortOptionView, ReasoningEffort, ReasoningEffortOption};
use crate::models::{ModelEntry, ModelEntryView, ModelInfoView};
use crate::ordered::{
    copy_text_pairs, insert_text, keys_differ, lemma_value_of_at, lemma_value_of_with,
    lemma_with_value_contains, lemma_with_value_keys, no_pairs, no_text_pairs, text_pairs, value_of,
    with_value,
};
use crate::providers::credentials::{ChatGptCreds, ChatGptCredsView, ProviderStore};
use crate::providers::entry::{build_entry, entry_of, ModelSpecView, ProviderModelSpec};
use crate::sampling::ApiBackend;
use crate::text::{concat, lower, opt_text, text_eq, texts, trimmed};

verus! {

/// The label of its models.
pub const PROVIDER_LABEL: &'static str = "ChatGPT Subscription";

/// Where its models are reached.
pub const CODEX_BASE_URL: &'static str = "https://chatgpt.com/backend-api/codex";

/// The context window in use where the subscription lists none, in tokens. The
/// largest window that a model could have is listed apart and is not the one in
/// use.
pub const DEFAULT_CODEX_CONTEXT_WINDOW: u64 = 272_000;

/// A level of reasoning that a listed model has.
pub struct ReasoningEffortPreset {
    pub effort: String,
}

/// A tier of service that a listed model has.
pub struct ModelServiceTier {
    pub id: String,
}

/// Whether a listed model is shown.
#[derive(Clone, Copy, Debug, PartialEq, Eq, Structural)]
pub enum ModelVisibility {
    List,
    Hide,
    Unlisted,
}

/// A model as the subscription lists it.
pub struct CatalogModel {
    pub slug: String,
    pub display_name: String,
    pub supported_reasoning_levels: Vec<ReasoningEffortPreset>,
    pub context_window: Option<u64>,
    pub visibility: ModelVisibility,
    pub priority: i32,
    pub additional_speed_tiers: Vec<String>,
    pub service_tiers: Vec<ModelServiceTier>,
}

/// A model that is offered where the subscription cannot be asked.
pub struct FallbackModel {
    pub id: &'static str,
    pub name: &'static str,
    pub supports_fast_mode: bool,
}

/// The model of [`FallbackModel`].
pub open spec fn fallback_row(model: FallbackModel) -> (Seq<char>, Seq<char>, bool) {
    (model.id@, model.name@, model.supports_fast_mode)
}

/// The models that are offered where the subscription cannot be asked.
pub open spec fn fallback_models() -> Seq<(Seq<char>, Seq<char>, bool)> {
    seq![
        ("gpt-5.6-sol"@, "GPT-5.6 Sol"@, true),
        ("gpt-5.6-terra"@, "GPT-5.6 Terra"@, true),
        ("gpt-5.6-luna"@, "GPT-5.6 Luna"@, true),
        ("gpt-5.5"@, "GPT-5.5"@, true),
        ("gpt-5.4"@, "GPT-5.4"@, true),
        ("gpt-5.4-mini"@, "GPT-5.4 Mini"@, false),
    ]
}

/// The models that are offered where the subscription cannot be asked.
pub fn fallback_model_list() -> (r: Vec<FallbackModel>)
    ensures
        r@.map_values(|m: FallbackModel| fallback_row(m)) == fallback_models(),
{
    let mut out: Vec<FallbackModel> = Vec::new();
    out.push(FallbackModel { id: "gpt-5.6-sol", name: "GPT-5.6 Sol", supports_fast_mode: true });
    out.push(
        FallbackModel { id: "gpt-5.6-terra", name: "GPT-5.6 Terra", supports_fast_mode: true },
    );
    out.push(FallbackModel { id: "gpt-5.6-luna", name: "GPT-5.6 Luna", supports_fast_mode: true });
    out.push(FallbackModel { id: "gpt-5.5", name: "GPT-5.5", supports_fast_mode: true });
    out.push(FallbackModel { id: "gpt-5.4", name: "GPT-5.4", supports_fast_mode: true });
    out.push(FallbackModel { id: "gpt-5.4-mini", name: "GPT-5.4 Mini", supports_fast_mode: false });
    assert(out@.map_values(|m: FallbackModel| fallback_row(m)) =~= fallback_models());
    out
}

/// The effort that every model of a subscription starts with.
pub open spec fn default_effort() -> ReasoningEffort {
    ReasoningEffort::High
}

/// The row of an effort menu.
pub open spec fn effort_row(id: Seq<char>, value: ReasoningEffort) -> EffortOptionView {
    EffortOptionView {
        id,
        value,
        label: id,
        description: None,
        default: value == default_effort(),
    }
}

fn effort_opt(id: &str, value: ReasoningEffort) -> (r: ReasoningEffortOption)
    ensures
        r@ == effort_row(id@, value),
{
    ReasoningEffortOption {
        id: id.to_owned(),
        value,
        label: id.to_owned(),
        description: None,
        default: value == ReasoningEffort::High,
    }
}

/// The menu of a model of which no levels are known.
pub open spec fn fallback_menu() -> Seq<EffortOptionView> {
    seq![
        effort_row("low"@, ReasoningEffort::Low),
        effort_row("medium"@, ReasoningEffort::Medium),
        effort_row("high"@, ReasoningEffort::High),
        effort_row("xhigh"@, ReasoningEffort::Xhigh),
    ]
}

/// The menu of a model of which no levels are known.
pub fn fallback_effort_options() -> (r: Vec<ReasoningEffortOption>)
    ensures
        menu(r@) == fallback_menu(),
{
    let mut out: Vec<ReasoningEffortOption> = Vec::new();
    out.push(effort_opt("low", ReasoningEffort::Low));
    out.push(effort_opt("medium", ReasoningEffort::Medium));
    out.push(effort_opt("high", ReasoningEffort::High));
    out.push(effort_opt("xhigh", ReasoningEffort::Xhigh));
    assert(menu(out@) =~= fallback_menu());
    out
}

/// The effort that a level stands for.
pub open spec fn level_effort(level: Seq<char>) -> Option<ReasoningEffort> {
    let name = lower(trimmed(level));
    if name == "none"@ {
        Some(ReasoningEffort::Off)
    } else if name == "minimal"@ {
        Some(ReasoningEffort::Minimal)
    } else if name == "low"@ {
        Some(ReasoningEffort::Low)
    } else if name == "medium"@ {
        Some(ReasoningEffort::Medium)
    } else if name == "high"@ {
        Some(ReasoningEffort::High)
    } else if name == "xhigh"@ || name == "max"@ {
        Some(ReasoningEffort::Xhigh)
    } else {
        None
    }
}

/// The effort that a level stands for, if there is one.
pub fn parse_effort(raw: Option<&str>) -> (r: Option<ReasoningEffort>)
    ensures
        r == match raw {
            Some(level) => level_effort(level@),
            None => None,
        },
{
    let lowered = match raw {
        Some(level) => level.trim().to_ascii_lowercase(),
        None => {
            return None;
        },
    };
    let name = lowered.as_str();
    if text_eq(name, "none") {
        Some(ReasoningEffort::Off)
    } else if text_eq(name, "minimal") {
        Some(ReasoningEffort::Minimal)
    } else if text_eq(name, "low") {
        Some(ReasoningEffort::Low)
    } else if text_eq(name, "medium") {
        Some(ReasoningEffort::Medium)
    } else if text_eq(name, "high") {
        Some(ReasoningEffort::High)
    } else if text_eq(name, "xhigh") || text_eq(name, "max") {
        Some(ReasoningEffort::Xhigh)
    } else {
        None
    }
}

/// Whether a menu has a row for an effort.
pub open spec fn has_value(rows: Seq<EffortOptionView>, value: ReasoningEffort) -> bool {
    exists|i: int| 0 <= i < rows.len() && (#[trigger] rows[i]).value == value
}

/// The rows for listed levels: one for each effort, under the first level that
/// stands for it.
pub open spec fn level_rows(levels: Seq<Seq<char>>) -> Seq<EffortOptionView>
    decreases levels.len(),
{
    if levels.len() == 0 {
        Seq::empty()
    } else {
        let front = level_rows(levels.drop_last());
        match level_effort(levels.last()) {
            Some(value) if !has_value(front, value) => front.push(
                effort_row(trimmed(levels.last()), value),
            ),
            _ => front,
        }
    }
}

/// The menu of a listed model: a row for each of its levels, and one for the
/// default where no level stands for it.
pub open spec fn level_menu(levels: Seq<Seq<char>>) -> Seq<EffortOptionView> {
    let rows = level_rows(levels);
    if has_value(rows, default_effort()) {
        rows
    } else {
        rows.push(effort_row(default_effort().name(), default_effort()))
    }
}

/// The levels of a listed model.
pub open spec fn levels_of(model: CatalogModel) -> Seq<Seq<char>> {
    model.supported_reasoning_levels@.map_values(|p: ReasoningEffortPreset| p.effort@)
}

fn offers_value(options: &Vec<ReasoningEffortOption>, value: ReasoningEffort) -> (r: bool)
    ensures
        r == has_value(menu(options@), value),
{
    let ghost rows = menu(options@);
    let mut i: usize = 0;
    while i < options.len()
        invariant
            i <= options.len(),
            rows == menu(options@),
            forall|j: int| 0 <= j < i ==> (#[trigger] rows[j]).value != value,
        decreases options.len() - i,
    {
        assert(rows[i as int].value == options@[i as int].value);
        if options[i].value == value {
            return true;
        }
        i += 1;
    }
    false
}

/// The menu of a listed model.
pub fn catalog_effort_options(model: &CatalogModel) -> (r: Vec<ReasoningEffortOption>)
    ensures
        menu(r@) == level_menu(levels_of(*model)),
{
    let ghost levels = levels_of(*model);
    let mut options: Vec<ReasoningEffortOption> = Vec::new();
    let mut i: usize = 0;
    assert(levels.take(0) =~= Seq::<Seq<char>>::empty());
    assert(menu(options@) =~= Seq::<EffortOptionView>::empty());
    while i < model.supported_reasoning_levels.len()
        invariant
            i <= model.supported_reasoning_levels.len(),
            levels == levels_of(*model),
            menu(options@) =~= level_rows(levels.take(i as int)),
        decreases model.supported_reasoning_levels.len() - i,
    {
        let level = model.supported_reasoning_levels[i].effort.as_str();
        assert(levels.take(i + 1).drop_last() =~= levels.take(i as int));
        assert(levels.take(i + 1).last() == level@);
        let ghost rows = menu(options@);
        if let Some(value) = parse_effort(Some(level)) {
            if !offers_value(&options, value) {
                let row = effort_opt(level.trim(), value);
                options.push(row);
                assert(menu(options@) =~= rows.push(row@));
            }
        }
        i += 1;
    }
    assert(levels.take(i as int) =~= levels);
    if !offers_value(&options, ReasoningEffort::High) {
        let ghost rows = menu(options@);
        let row = effort_opt(ReasoningEffort::High.as_str(), ReasoningEffort::High);
        options.push(row);
        assert(menu(options@) =~= rows.push(row@));
    }
    options
}

proof fn lemma_level_rows(levels: Seq<Seq<char>>)
    ensures
        ({
            let rows = level_rows(levels);
            &&& forall|i: int|
                0 <= i < rows.len() ==> ((#[trigger] rows[i]).default <==> rows[i].value
                    == default_effort())
            &&& forall|i: int, j: int|
                0 <= i < j < rows.len() ==> (#[trigger] rows[i]).value != (#[trigger] rows[j]).value
        }),
    decreases levels.len(),
{
    if levels.len() > 0 {
        lemma_level_rows(levels.drop_last());
    }
}

/// The menu of a listed model has exactly one default row, the one for the high
/// effort, and no two rows for the same effort.
pub proof fn law_high_is_the_only_default(levels: Seq<Seq<char>>)
    ensures
        ({
            let rows = level_menu(levels);
            &&& has_value(rows, ReasoningEffort::High)
            &&& forall|i: int|
                0 <= i < rows.len() ==> ((#[trigger] rows[i]).default <==> rows[i].value
                    == ReasoningEffort::High)
            &&& forall|i: int, j: int|
                0 <= i < j < rows.len() ==> (#[trigger] rows[i]).value != (#[trigger] rows[j]).value
        }),
{
    lemma_level_rows(levels);
    let rows = level_rows(levels);
    if !has_value(rows, default_effort()) {
        let last = effort_row(default_effort().name(), default_effort());
        assert(rows.push(last)[rows.len() as int].value == ReasoningEffort::High);
    }
}

/// The context window in use: the listed one, at least one token.
pub open spec fn window_of(context_window: Option<u64>) -> u64 {
    match context_window {
        Some(n) => crate::providers::entry::at_least_one(n),
        None => DEFAULT_CODEX_CONTEXT_WINDOW,
    }
}

/// Whether one of the texts is the given one, but for case.
pub open spec fn has_text(all: Seq<Seq<char>>, text: Seq<char>) -> bool {
    exists|i: int| 0 <= i < all.len() && lower(#[trigger] all[i]) == lower(text)
}

/// The ids of the tiers of service of a listed model.
pub open spec fn tier_ids(tiers: Seq<ModelServiceTier>) -> Seq<Seq<char>> {
    tiers.map_values(|t: ModelServiceTier| t.id@)
}

/// Whether a listed model has a fast mode.
pub open spec fn is_fast(model: CatalogModel) -> bool {
    has_text(texts(model.additional_speed_tiers@), "fast"@) || has_text(
        tier_ids(model.service_tiers@),
        "priority"@,
    )
}

impl CatalogModel {
    /// The context window in use.
    pub fn effective_context_window(&self) -> (r: u64)
        ensures
            r == window_of(self.context_window),
    {
        match self.context_window {
            Some(n) => if n == 0 {
                1
            } else {
                n
            },
            None => DEFAULT_CODEX_CONTEXT_WINDOW,
        }
    }

    /// Whether the model has a fast mode.
    pub fn supports_fast_mode(&self) -> (r: bool)
        ensures
            r == is_fast(*self),
    {
        let ghost speeds = texts(self.additional_speed_tiers@);
        let ghost ids = tier_ids(self.service_tiers@);
        let mut i: usize = 0;
        while i < self.additional_speed_tiers.len()
            invariant
                i <= self.additional_speed_tiers.len(),
                speeds == texts(self.additional_speed_tiers@),
                forall|j: int| 0 <= j < i ==> lower(#[trigger] speeds[j]) != lower("fast"@),
            decreases self.additional_speed_tiers.len() - i,
        {
            assert(speeds[i as int] == self.additional_speed_tiers@[i as int]@);
            if self.additional_speed_tiers[i].as_str().eq_ignore_ascii_case("fast") {
                return true;
            }
            i += 1;
        }
        let mut k: usize = 0;
        while k < self.service_tiers.len()
            invariant
                k <= self.service_tiers.len(),
                ids == tier_ids(self.service_tiers@),
                forall|j: int| 0 <= j < k ==> lower(#[trigger] ids[j]) != lower("priority"@),
            decreases self.service_tiers.len() - k,
        {
            assert(ids[k as int] == self.service_tiers@[k as int].id@);
            if self.service_tiers[k].id.as_str().eq_ignore_ascii_case("priority") {
                return true;
            }
            k += 1;
        }
        false
    }
}

/// The headers of requests on behalf of a subscription.
pub open spec fn chatgpt_headers(account_id: Option<Seq<char>>) -> Seq<(Seq<char>, Seq<char>)> {
    let pairs = with_value(
        with_value(no_pairs(), "originator"@, "grog"@),
        "openai-beta"@,
        "responses=experimental"@,
    );
    match account_id {
        Some(id) if id.len() > 0 => with_value(pairs, "chatgpt-account-id"@, id),
        _ => pairs,
    }
}

/// The headers of requests on behalf of a subscription.
pub fn request_headers(creds: &ChatGptCreds) -> (r: IndexMap<String, String>)
    ensures
        text_pairs(r) == chatgpt_headers(opt_text(creds.account_id)),
{
    let mut headers = no_text_pairs();
    insert_text(&mut headers, "originator".to_owned(), "grog".to_owned());
    insert_text(&mut headers, "openai-beta".to_owned(), "responses=experimental".to_owned());
    if let Some(id) = &creds.account_id {
        if !id.as_str().is_empty() {
            insert_text(&mut headers, "chatgpt-account-id".to_owned(), id.clone());
        }
    }
    headers
}

/// What the catalog says of a model of a subscription.
pub struct OfferView {
    pub slug: Seq<char>,
    pub name: Seq<char>,
    pub context_window: u64,
    pub supports_reasoning: bool,
    pub efforts: Seq<EffortOptionView>,
    pub supports_fast_mode: bool,
}

/// The entry of a model of a subscription.
pub open spec fn chatgpt_entry(
    offer: OfferView,
    headers: Seq<(Seq<char>, Seq<char>)>,
    access_token: Seq<char>,
) -> ModelEntryView {
    let bare = entry_of(
        ModelSpecView {
            catalog_id: "chatgpt/"@ + offer.slug,
            routing_slug: offer.slug,
            display_name: offer.name,
            provider: PROVIDER_LABEL@,
            base_url: CODEX_BASE_URL@,
            api_backend: ApiBackend::Responses,
            api_key: access_token,
            env_key: None,
            context_window: offer.context_window,
            extra_headers: headers,
            supports_reasoning: offer.supports_reasoning,
            max_completion_tokens: None,
        },
    );
    ModelEntryView {
        info: ModelInfoView {
            reasoning_effort: Some(default_effort()),
            reasoning_efforts: offer.efforts,
            supports_fast_mode: offer.supports_fast_mode,
            ..bare.info
        },
        ..bare
    }
}

/// The catalog of the models on offer, each under its slug.
pub open spec fn offer_entries(
    offers: Seq<OfferView>,
    headers: Seq<(Seq<char>, Seq<char>)>,
    access_token: Seq<char>,
) -> Seq<(Seq<char>, ModelEntryView)>
    decreases offers.len(),
{
    if offers.len() == 0 {
        no_entries()
    } else {
        with_value(
            offer_entries(offers.drop_last(), headers, access_token),
            "chatgpt/"@ + offers.last().slug,
            chatgpt_entry(offers.last(), headers, access_token),
        )
    }
}

/// What is on offer of a listed model.
pub open spec fn listed_offer(model: CatalogModel) -> OfferView {
    OfferView {
        slug: model.slug@,
        name: model.display_name@,
        context_window: window_of(model.context_window),
        supports_reasoning: level_menu(levels_of(model)).len() > 0,
        efforts: level_menu(levels_of(model)),
        supports_fast_mode: is_fast(model),
    }
}

/// What is on offer of a model of the fallback list.
pub open spec fn fallback_offer(row: (Seq<char>, Seq<char>, bool)) -> OfferView {
    OfferView {
        slug: row.0,
        name: row.1,
        context_window: DEFAULT_CODEX_CONTEXT_WINDOW,
        supports_reasoning: true,
        efforts: fallback_menu(),
        supports_fast_mode: row.2,
    }
}

/// The models on offer: those that the subscription lists, else the fallback list.
pub open spec fn offers(models: Seq<CatalogModel>) -> Seq<OfferView> {
    if models.len() == 0 {
        fallback_models().map_values(|row: (Seq<char>, Seq<char>, bool)| fallback_offer(row))
    } else {
        models.map_values(|m: CatalogModel| listed_offer(m))
    }
}

/// The catalog of a subscription: nothing without stored tokens. Fresh tokens are
/// used where there are some, else the stored ones.
pub open spec fn chatgpt_entries(
    stored: Option<ChatGptCredsView>,
    fresh: Option<ChatGptCredsView>,
    models: Seq<CatalogModel>,
) -> Seq<(Seq<char>, ModelEntryView)> {
    match stored {
        None => no_entries(),
        Some(creds) => {
            let used = match fresh {
                Some(f) => f,
                None => creds,
            };
            offer_entries(offers(models), chatgpt_headers(used.account_id), used.access_token)
        },
    }
}

/// Puts the entry of a model into the catalog.
fn insert_model(
    out: &mut IndexMap<String, ModelEntry>,
    slug: &str,
    name: &str,
    context_window: u64,
    supports_reasoning: bool,
    reasoning_efforts: Vec<ReasoningEffortOption>,
    supports_fast_mode: bool,
    extra_headers: IndexMap<String, String>,
    api_key: String,
)
    ensures
        catalog_entries_of(*final(out)) == with_value(
            catalog_entries_of(*old(out)),
            "chatgpt/"@ + slug@,
            chatgpt_entry(
                OfferView {
                    slug: slug@,
                    name: name@,
                    context_window,
                    supports_reasoning,
                    efforts: menu(reasoning_efforts@),
                    supports_fast_mode,
                },
                text_pairs(extra_headers),
                api_key@,
            ),
        ),
{
    let catalog_id = concat("chatgpt/", slug);
    let (id, mut entry) = build_entry(
        ProviderModelSpec {
            catalog_id: catalog_id.as_str(),
            routing_slug: slug,
            display_name: name,
            provider: PROVIDER_LABEL,
            base_url: CODEX_BASE_URL,
            api_backend: ApiBackend::Responses,
            api_key,
            env_key: None,
            context_window,
            extra_headers,
            supports_reasoning,
            max_completion_tokens: None,
        },
    );
    entry.info.reasoning_effort = Some(ReasoningEffort::High);
    entry.info.reasoning_efforts = reasoning_efforts;
    entry.info.supports_fast_mode = supports_fast_mode;
    insert_entry(out, id, entry);
}

/// The model of borrowed tokens that may be missing.
pub open spec fn borrowed_creds(creds: Option<&ChatGptCreds>) -> Option<ChatGptCredsView> {
    match creds {
        Some(c) => Some(c@),
        None => None,
    }
}

/// The catalog of a subscription. `fresh` are the tokens after an attempt to
/// refresh them, `discovered` the models that the subscription lists.
pub fn catalog_entries(
    store: &ProviderStore,
    fresh: Option<&ChatGptCreds>,
    discovered: &Vec<CatalogModel>,
) -> (r: IndexMap<String, ModelEntry>)
    ensures
        catalog_entries_of(r) == chatgpt_entries(
            store@.openai_subscribed,
            borrowed_creds(fresh),
            discovered@,
        ),
{
    let mut out = new_catalog();
    let stored = match &store.openai_subscribed {
        Some(creds) => creds,
        None => {
            return out;
        },
    };
    let creds = match fresh {
        Some(f) => f,
        None => stored,
    };
    let extra_headers = request_headers(creds);
    let ghost headers = text_pairs(extra_headers);
    let ghost all = offers(discovered@);
    assert(all.take(0) =~= Seq::<OfferView>::empty());
    if discovered.len() == 0 {
        let fallbacks = fallback_model_list();
        let ghost rows = fallbacks@.map_values(|m: FallbackModel| fallback_row(m));
        let mut i: usize = 0;
        while i < fallbacks.len()
            invariant
                i <= fallbacks.len() == all.len(),
                rows == fallbacks@.map_values(|m: FallbackModel| fallback_row(m)),
                rows == fallback_models(),
                all == fallback_models().map_values(
                    |row: (Seq<char>, Seq<char>, bool)| fallback_offer(row),
                ),
                headers == text_pairs(extra_headers),
                catalog_entries_of(out) == offer_entries(
                    all.take(i as int),
                    headers,
                    creds.access_token@,
                ),
            decreases fallbacks.len() - i,
        {
            proof {
                assert(all.take(i + 1).drop_last() =~= all.take(i as int));
                assert(rows[i as int] == fallback_row(fallbacks@[i as int]));
                assert(all[i as int] == fallback_offer(rows[i as int]));
            }
            let model = &fallbacks[i];
            insert_model(
                &mut out,
                model.id,
                model.name,
                DEFAULT_CODEX_CONTEXT_WINDOW,
                true,
                fallback_effort_options(),
                model.supports_fast_mode,
                copy_text_pairs(&extra_headers),
                creds.access_token.clone(),
            );
            i += 1;
        }
        assert(all.take(i as int) =~= all);
    } else {
        let mut i: usize = 0;
        while i < discovered.len()
            invariant
                i <= discovered.len() == all.len(),
                all == discovered@.map_values(|m: CatalogModel| listed_offer(m)),
                headers == text_pairs(extra_headers),
                catalog_entries_of(out) == offer_entries(
                    all.take(i as int),
                    headers,
                    creds.access_token@,
                ),
            decreases discovered.len() - i,
        {
            proof {
                assert(all.take(i + 1).drop_last() =~= all.take(i as int));
                assert(all[i as int] == listed_offer(discovered@[i as int]));
            }
            let model = &discovered[i];
            let reasoning_efforts = catalog_effort_options(model);
            let fast = model.supports_fast_mode();
            let can_reason = reasoning_efforts.len() > 0;
            insert_model(
                &mut out,
                model.slug.as_str(),
                model.display_name.as_str(),
                model.effective_context_window(),
                can_reason,
                reasoning_efforts,
                fast,
                copy_text_pairs(&extra_headers),
                creds.access_token.clone(),
            );
            i += 1;
        }
        assert(all.take(i as int) =~= all);
    }
    out
}

/// The listed models that are shown.
pub open spec fn shown(models: Seq<CatalogModel>) -> Seq<CatalogModel> {
    models.filter(|m: CatalogModel| m.visibility == ModelVisibility::List)
}

/// The models of a priority, in their order.
pub open spec fn of_priority(models: Seq<CatalogModel>, priority: i32) -> Seq<CatalogModel> {
    models.filter(|m: CatalogModel| m.priority == priority)
}

/// Whether no model has a lower priority number than one before it.
pub open spec fn is_by_priority(models: Seq<CatalogModel>) -> bool {
    forall|i: int, j: int|
        0 <= i < j < models.len() ==> (#[trigger] models[i]).priority <= (
        #[trigger] models[j]).priority
}

proof fn lemma_filter_front(
    first: CatalogModel,
    rest: Seq<CatalogModel>,
    pred: spec_fn(CatalogModel) -> bool,
)
    ensures
        (seq![first] + rest).filter(pred) == if pred(first) {
            seq![first] + rest.filter(pred)
        } else {
            rest.filter(pred)
        },
{
    Seq::filter_distributes_over_add(seq![first], rest, pred);
    reveal_with_fuel(Seq::<_>::filter, 2);
    assert(seq![first].drop_last() =~= Seq::<CatalogModel>::empty());
    assert(Seq::<CatalogModel>::empty().push(first) =~= seq![first]);
    assert(Seq::<CatalogModel>::empty() + rest.filter(pred) =~= rest.filter(pred));
}

proof fn lemma_priority_none(models: Seq<CatalogModel>, priority: i32)
    requires
        forall|i: int| 0 <= i < models.len() ==> (#[trigger] models[i]).priority < priority,
    ensures
        of_priority(models, priority) == Seq::<CatalogModel>::empty(),
    decreases models.len(),
{
    reveal(Seq::filter);
    if models.len() > 0 {
        lemma_priority_none(models.drop_last(), priority);
        assert(models.last() == models[models.len() - 1]);
    }
}

proof fn lemma_priority_insert(
    models: Seq<CatalogModel>,
    position: int,
    model: CatalogModel,
    priority: i32,
)
    requires
        0 <= position <= models.len(),
        forall|i: int| 0 <= i < position ==> (#[trigger] models[i]).priority < model.priority,
    ensures
        of_priority(models.insert(position, model), priority) == if model.priority == priority {
            seq![model] + of_priority(models, priority)
        } else {
            of_priority(models, priority)
        },
{
    let pred = |m: CatalogModel| m.priority == priority;
    let low = models.take(position);
    let high = models.skip(position);
    assert(models =~= low + high);
    assert(models.insert(position, model) =~= low + (seq![model] + high));
    Seq::filter_distributes_over_add(low, high, pred);
    Seq::filter_distributes_over_add(low, seq![model] + high, pred);
    lemma_filter_front(model, high, pred);
    if model.priority == priority {
        lemma_priority_none(low, priority);
        assert(Seq::<CatalogModel>::empty() + of_priority(high, priority) =~= of_priority(
            high,
            priority,
        ));
        assert(Seq::<CatalogModel>::empty() + (seq![model] + of_priority(high, priority))
            =~= seq![model] + of_priority(high, priority));
    }
}

/// The models of an answer in the order in which they are offered: those that are
/// shown, by their priority, and as answered where the priority is the same.
pub fn listed_models(models: Vec<CatalogModel>) -> (r: Vec<CatalogModel>)
    ensures
        is_by_priority(r@),
        forall|priority: i32| #[trigger]
            of_priority(r@, priority) == of_priority(shown(models@), priority),
{
    let ghost all = models@;
    let mut rest = models;
    let mut out: Vec<CatalogModel> = Vec::new();
    proof {
        assert(all.skip(all.len() as int) =~= Seq::<CatalogModel>::empty());
        reveal(Seq::filter);
    }
    while rest.len() > 0
        invariant
            rest@.len() <= all.len(),
            rest@ =~= all.take(rest@.len() as int),
            is_by_priority(out@),
            forall|priority: i32| #[trigger]
                of_priority(out@, priority) == of_priority(
                    shown(all.skip(rest@.len() as int)),
                    priority,
                ),
        decreases rest.len(),
    {
        let ghost n = rest@.len() as int;
        let ghost later = shown(all.skip(n));
        if let Some(model) = rest.pop() {
            proof {
                assert(model == all[n - 1]);
                assert(all.skip(n - 1) =~= seq![model] + all.skip(n));
                lemma_filter_front(
                    model,
                    all.skip(n),
                    |m: CatalogModel| m.visibility == ModelVisibility::List,
                );
            }
            if model.visibility == ModelVisibility::List {
                let mut position: usize = 0;
                while position < out.len() && out[position].priority < model.priority
                    invariant
                        position <= out.len(),
                        forall|i: int|
                            0 <= i < position ==> (#[trigger] out@[i]).priority < model.priority,
                    decreases out.len() - position,
                {
                    position += 1;
                }
                let ghost before = out@;
                proof {
                    assert forall|priority: i32| #[trigger]
                        of_priority(before.insert(position as int, model), priority) == of_priority(
                            seq![model] + later,
                            priority,
                        ) by {
                        lemma_priority_insert(before, position as int, model, priority);
                        lemma_filter_front(model, later, |m: CatalogModel| m.priority == priority);
                        assert(of_priority(before, priority) == of_priority(later, priority));
                    }
                }
                out.insert(position, model);
                assert(is_by_priority(out@)) by {
                    assert forall|i: int, j: int| 0 <= i < j < out@.len() implies (
                    #[trigger] out@[i]).priority <= (#[trigger] out@[j]).priority by {
                        let before_i = if i < position { i } else { i - 1 };
                        let before_j = if j < position { j } else { j - 1 };
                        if i != position && j != position {
                            assert(before[before_i].priority <= before[before_j].priority);
                        } else if i == position {
                            if position < before.len() {
                                assert(before[position as int].priority >= model.priority);
                                if before_j > position {
                                    assert(before[position as int].priority
                                        <= before[before_j].priority);
                                }
                            }
                        } else {
                            assert(before[i].priority < model.priority);
                        }
                    }
                }
            }
        }
    }
    assert(all.skip(0) =~= all);
    out
}

proof fn lemma_value_put<V>(pairs: Seq<(Seq<char>, V)>, key: Seq<char>, value: V, i: int)
    requires
        0 <= i < with_value(pairs, key, value).len(),
    ensures
        with_value(pairs, key, value)[i] == (key, value) || pairs.contains(
            with_value(pairs, key, value)[i],
        ),
{
    lemma_with_value_contains(pairs, key, value, i);
}

/// Whether a menu has the high effort as its only default.
pub open spec fn high_is_default(rows: Seq<EffortOptionView>) -> bool {
    &&& has_value(rows, ReasoningEffort::High)
    &&& forall|i: int|
        0 <= i < rows.len() ==> ((#[trigger] rows[i]).default <==> rows[i].value
            == ReasoningEffort::High)
}

/// Every model of a subscription is offered under its id at the Codex endpoint,
/// with the access token as its key, a context window of at least one token, and
/// the high effort as its own and the only default of its menu.
pub proof fn law_subscription_models(
    models: Seq<CatalogModel>,
    headers: Seq<(Seq<char>, Seq<char>)>,
    access_token: Seq<char>,
    i: int,
)
    requires
        0 <= i < offer_entries(offers(models), headers, access_token).len(),
    ensures
        ({
            let (id, entry) = offer_entries(offers(models), headers, access_token)[i];
            &&& crate::text::begins_with(id, "chatgpt/"@)
            &&& entry.info.id == Some(id)
            &&& entry.info.provider == Some(PROVIDER_LABEL@)
            &&& entry.info.api_backend == ApiBackend::Responses
            &&& entry.info.context_window >= 1
            &&& entry.api_key == Some(access_token)
            &&& entry.info.reasoning_effort == Some(ReasoningEffort::High)
            &&& high_is_default(entry.info.reasoning_efforts)
        }),
{
    let all = offers(models);
    assert forall|k: int| 0 <= k < all.len() implies high_is_default(
        (#[trigger] all[k]).efforts,
    ) && all[k].context_window >= 1 by {
        if models.len() == 0 {
            lemma_fallback_menu();
        } else {
            law_high_is_the_only_default(levels_of(models[k]));
        }
    }
    lemma_offer_entries(all, headers, access_token, i);
}

proof fn lemma_fallback_menu()
    ensures
        high_is_default(fallback_menu()),
{
    assert(fallback_menu()[2].value == ReasoningEffort::High);
}

proof fn lemma_offer_entries(
    all: Seq<OfferView>,
    headers: Seq<(Seq<char>, Seq<char>)>,
    access_token: Seq<char>,
    i: int,
)
    requires
        0 <= i < offer_entries(all, headers, access_token).len(),
        forall|k: int|
            0 <= k < all.len() ==> high_is_default((#[trigger] all[k]).efforts)
                && all[k].context_window >= 1,
    ensures
        ({
            let (id, entry) = offer_entries(all, headers, access_token)[i];
            &&& crate::text::begins_with(id, "chatgpt/"@)
            &&& entry.info.id == Some(id)
            &&& entry.info.provider == Some(PROVIDER_LABEL@)
            &&& entry.info.api_backend == ApiBackend::Responses
            &&& entry.info.context_window >= 1
            &&& entry.api_key == Some(access_token)
            &&& entry.info.reasoning_effort == Some(ReasoningEffort::High)
            &&& high_is_default(entry.info.reasoning_efforts)
        }),
    decreases all.len(),
{
    if all.len() > 0 {
        let front = offer_entries(all.drop_last(), headers, access_token);
        let offer = all.last();
        let id = "chatgpt/"@ + offer.slug;
        let entry = chatgpt_entry(offer, headers, access_token);
        lemma_value_put(front, id, entry, i);
        let found = offer_entries(all, headers, access_token)[i];
        assert(id.subrange(0, "chatgpt/"@.len() as int) =~= "chatgpt/"@);
        assert(high_is_default(all[all.len() - 1].efforts));
        if found != (id, entry) {
            let k = choose|k: int| 0 <= k < front.len() && front[k] == found;
            assert forall|m: int| 0 <= m < all.drop_last().len() implies high_is_default(
                (#[trigger] all.drop_last()[m]).efforts,
            ) && all.drop_last()[m].context_window >= 1 by {
                assert(all.drop_last()[m] == all[m]);
            }
            lemma_offer_entries(all.drop_last(), headers, access_token, k);
        }
    }
}

/// Whether an entry is the one of a model on offer: it stands under the slug with
/// a prefix, and asks for the model by the slug without it.
pub open spec fn is_entry_for(
    id: Seq<char>,
    entry: ModelEntryView,
    offer: OfferView,
    headers: Seq<(Seq<char>, Seq<char>)>,
    access_token: Seq<char>,
) -> bool {
    &&& id == "chatgpt/"@ + offer.slug
    &&& entry.info.id == Some("chatgpt/"@ + offer.slug)
    &&& entry.info.model == offer.slug
    &&& entry.info.name == Some(offer.name)
    &&& entry.info.provider == Some("ChatGPT Subscription"@)
    &&& entry.info.base_url == "https://chatgpt.com/backend-api/codex"@
    &&& entry.info.api_backend == ApiBackend::Responses
    &&& entry.info.extra_headers == headers
    &&& entry.info.context_window == (if offer.context_window == 0 {
        1
    } else {
        offer.context_window
    })
    &&& entry.info.supports_reasoning_effort == offer.supports_reasoning
    &&& entry.info.reasoning_efforts == offer.efforts
    &&& entry.info.reasoning_effort == Some(ReasoningEffort::High)
    &&& entry.info.supports_fast_mode == offer.supports_fast_mode
    &&& entry.info.user_selectable && !entry.info.hidden
    &&& entry.api_key == Some(access_token)
}

proof fn lemma_entry_for(
    offer: OfferView,
    headers: Seq<(Seq<char>, Seq<char>)>,
    access_token: Seq<char>,
)
    ensures
        is_entry_for(
            "chatgpt/"@ + offer.slug,
            chatgpt_entry(offer, headers, access_token),
            offer,
            headers,
            access_token,
        ),
{
    reveal_strlit("https://chatgpt.com/backend-api/codex");
    let url = "https://chatgpt.com/backend-api/codex"@;
    assert(url.len() == 37 && url[36] == 'x');
    assert(crate::text::without_end_slashes(url) == url);
}

proof fn lemma_entries_are_for_offers(
    all: Seq<OfferView>,
    headers: Seq<(Seq<char>, Seq<char>)>,
    access_token: Seq<char>,
)
    ensures
        ({
            let entries = offer_entries(all, headers, access_token);
            &&& keys_differ(entries)
            &&& forall|i: int|
                0 <= i < entries.len() ==> exists|k: int|
                    0 <= k < all.len() && is_entry_for(
                        (#[trigger] entries[i]).0,
                        entries[i].1,
                        #[trigger] all[k],
                        headers,
                        access_token,
                    ) && forall|m: int| k < m < all.len() ==> (#[trigger] all[m]).slug != all[k].slug
            &&& forall|k: int|
                0 <= k < all.len() ==> value_of(
                    entries,
                    "chatgpt/"@ + (#[trigger] all[k]).slug,
                ) is Some
        }),
    decreases all.len(),
{
    if all.len() > 0 {
        let front = all.drop_last();
        let offer = all.last();
        let before = offer_entries(front, headers, access_token);
        let id = "chatgpt/"@ + offer.slug;
        let entry = chatgpt_entry(offer, headers, access_token);
        let entries = offer_entries(all, headers, access_token);
        lemma_entries_are_for_offers(front, headers, access_token);
        lemma_entry_for(offer, headers, access_token);
        lemma_with_value_keys(before, id, entry);
        lemma_value_of_with(before, id, entry, id);
        assert(all[all.len() - 1] == offer);
        assert forall|i: int| 0 <= i < entries.len() implies exists|k: int|
            0 <= k < all.len() && is_entry_for(
                (#[trigger] entries[i]).0,
                entries[i].1,
                #[trigger] all[k],
                headers,
                access_token,
            ) && forall|m: int| k < m < all.len() ==> (#[trigger] all[m]).slug != all[k].slug by {
            lemma_value_put(before, id, entry, i);
            if entries[i].0 == id {
                lemma_value_of_at(entries, i);
                assert(entries[i].1 == entry);
                assert(is_entry_for(
                    entries[i].0,
                    entries[i].1,
                    all[all.len() - 1],
                    headers,
                    access_token,
                ));
            } else {
                let b = choose|b: int| 0 <= b < before.len() && before[b] == entries[i];
                let k = choose|k: int|
                    0 <= k < front.len() && is_entry_for(
                        before[b].0,
                        before[b].1,
                        #[trigger] front[k],
                        headers,
                        access_token,
                    ) && forall|m: int|
                        k < m < front.len() ==> (#[trigger] front[m]).slug != front[k].slug;
                assert(all[k] == front[k]);
                assert(offer.slug != all[k].slug);
                assert forall|m: int| k < m < all.len() implies (#[trigger] all[m]).slug
                    != all[k].slug by {
                    if m < front.len() {
                        assert(front[m] == all[m]);
                    }
                }
            }
        }
        assert forall|k: int| 0 <= k < all.len() implies value_of(
            entries,
            "chatgpt/"@ + (#[trigger] all[k]).slug,
        ) is Some by {
            lemma_value_of_with(before, id, entry, "chatgpt/"@ + all[k].slug);
            if k < front.len() {
                assert(front[k] == all[k]);
            }
        }
    }
}

/// The catalog of a subscription that lists models has an entry for each of them,
/// under its slug with a prefix, and no other. Requests ask for the model by the
/// slug itself, at the Codex endpoint, with the tokens in use. Of several models
/// of one slug the last one counts.
pub proof fn law_listed_models_are_routed_by_slug(
    stored: ChatGptCredsView,
    fresh: Option<ChatGptCredsView>,
    models: Seq<CatalogModel>,
    i: int,
    k: int,
)
    requires
        models.len() > 0,
    ensures
        ({
            let entries = chatgpt_entries(Some(stored), fresh, models);
            let token = match fresh {
                Some(f) => f.access_token,
                None => stored.access_token,
            };
            &&& keys_differ(entries)
            &&& 0 <= i < entries.len() ==> exists|j: int|
                0 <= j < models.len() && {
                    let model = #[trigger] models[j];
                    let (id, entry) = entries[i];
                    &&& id == "chatgpt/"@ + model.slug@
                    &&& entry.info.id == Some("chatgpt/"@ + model.slug@)
                    &&& entry.info.model == model.slug@
                    &&& entry.info.name == Some(model.display_name@)
                    &&& entry.info.base_url == "https://chatgpt.com/backend-api/codex"@
                    &&& entry.info.api_backend == ApiBackend::Responses
                    &&& entry.api_key == Some(token)
                    &&& entry.info.context_window == (match model.context_window {
                        Some(n) => if n == 0 {
                            1
                        } else {
                            n
                        },
                        None => 272_000u64,
                    })
                    &&& entry.info.reasoning_efforts == level_menu(levels_of(model))
                    &&& entry.info.supports_reasoning_effort
                    &&& entry.info.reasoning_effort == Some(ReasoningEffort::High)
                    &&& entry.info.supports_fast_mode == is_fast(model)
                } && forall|m: int|
                    j < m < models.len() ==> (#[trigger] models[m]).slug@ != models[j].slug@
            &&& 0 <= k < models.len() ==> value_of(entries, "chatgpt/"@ + models[k].slug@) is Some
        }),
{
    let used = match fresh {
        Some(f) => f,
        None => stored,
    };
    let all = offers(models);
    let headers = chatgpt_headers(used.account_id);
    lemma_entries_are_for_offers(all, headers, used.access_token);
    let entries = chatgpt_entries(Some(stored), fresh, models);
    if 0 <= i < entries.len() {
        let j = choose|j: int|
            0 <= j < all.len() && is_entry_for(
                entries[i].0,
                entries[i].1,
                #[trigger] all[j],
                headers,
                used.access_token,
            ) && forall|m: int| j < m < all.len() ==> (#[trigger] all[m]).slug != all[j].slug;
        assert(all[j] == listed_offer(models[j]));
        law_high_is_the_only_default(levels_of(models[j]));
        assert forall|m: int| j < m < models.len() implies (#[trigger] models[m]).slug@
            != models[j].slug@ by {
            assert(all[m].slug != all[j].slug);
        }
    }
    if 0 <= k < models.len() {
        assert(all[k].slug == models[k].slug@);
    }
}

/// The catalog of a subscription that cannot be asked has an entry for each model
/// of the fallback list, and requests ask for it by its id without the prefix.
pub proof fn law_fallback_models_are_routed_by_slug(
    stored: ChatGptCredsView,
    fresh: Option<ChatGptCredsView>,
    i: int,
    k: int,
)
    ensures
        ({
            let entries = chatgpt_entries(Some(stored), fresh, Seq::empty());
            let token = match fresh {
                Some(f) => f.access_token,
                None => stored.access_token,
            };
            &&& 0 <= i < entries.len() ==> exists|j: int|
                0 <= j < fallback_models().len() && {
                    let (slug, name, fast) = #[trigger] fallback_models()[j];
                    let (id, entry) = entries[i];
                    &&& id == "chatgpt/"@ + slug
                    &&& entry.info.id == Some("chatgpt/"@ + slug)
                    &&& entry.info.model == slug
                    &&& entry.info.name == Some(name)
                    &&& entry.info.supports_fast_mode == fast
                    &&& entry.info.base_url == "https://chatgpt.com/backend-api/codex"@
                    &&& entry.info.api_backend == ApiBackend::Responses
                    &&& entry.info.context_window == 272_000
                    &&& entry.info.supports_reasoning_effort
                    &&& entry.api_key == Some(token)
                }
            &&& 0 <= k < fallback_models().len() ==> value_of(
                entries,
                "chatgpt/"@ + fallback_models()[k].0,
            ) is Some
        }),
{
    let used = match fresh {
        Some(f) => f,
        None => stored,
    };
    let all = offers(Seq::empty());
    let headers = chatgpt_headers(used.account_id);
    lemma_entries_are_for_offers(all, headers, used.access_token);
    let entries = chatgpt_entries(Some(stored), fresh, Seq::empty());
    if 0 <= i < entries.len() {
        let j = choose|j: int|
            0 <= j < all.len() && is_entry_for(
                entries[i].0,
                entries[i].1,
                #[trigger] all[j],
                headers,
                used.access_token,
            ) && forall|m: int| j < m < all.len() ==> (#[trigger] all[m]).slug != all[j].slug;
        assert(all[j] == fallback_offer(fallback_models()[j]));
    }
    if 0 <= k < fallback_models().len() {
        assert(all[k].slug == fallback_models()[k].0);
    }
}

/// Requests on behalf of a subscription name the account of the tokens in use,
/// where it is known, and who they come from.
pub proof fn law_requests_name_the_account(
    stored: ChatGptCredsView,
    fresh: Option<ChatGptCredsView>,
    models: Seq<CatalogModel>,
    i: int,
)
    requires
        0 <= i < chatgpt_entries(Some(stored), fresh, models).len(),
    ensures
        ({
            let account = match fresh {
                Some(f) => f.account_id,
                None => stored.account_id,
            };
            let headers = chatgpt_entries(Some(stored), fresh, models)[i].1.info.extra_headers;
            &&& account matches Some(id) ==> value_of(headers, "chatgpt-account-id"@) == (if id.len()
                > 0 {
                Some(id)
            } else {
                None
            })
            &&& account is None ==> value_of(headers, "chatgpt-account-id"@) is None
            &&& value_of(headers, "originator"@) == Some("grog"@)
            &&& value_of(headers, "openai-beta"@) == Some("responses=experimental"@)
        }),
{
    let used = match fresh {
        Some(f) => f,
        None => stored,
    };
    let all = offers(models);
    let headers = chatgpt_headers(used.account_id);
    lemma_entries_are_for_offers(all, headers, used.access_token);
    let entries = chatgpt_entries(Some(stored), fresh, models);
    let j = choose|j: int|
        0 <= j < all.len() && is_entry_for(
            entries[i].0,
            entries[i].1,
            #[trigger] all[j],
            headers,
            used.access_token,
        ) && forall|m: int| j < m < all.len() ==> (#[trigger] all[m]).slug != all[j].slug;
    law_subscription_headers(used.account_id);
}

/// The headers of requests on behalf of a subscription: the account where one is
/// named, and who they come from.
pub proof fn law_subscription_headers(account_id: Option<Seq<char>>)
    ensures
        ({
            let headers = chatgpt_headers(account_id);
            &&& account_id matches Some(id) ==> value_of(headers, "chatgpt-account-id"@) == (
            if id.len() > 0 {
                Some(id)
            } else {
                None
            })
            &&& account_id is None ==> value_of(headers, "chatgpt-account-id"@) is None
            &&& value_of(headers, "originator"@) == Some("grog"@)
            &&& value_of(headers, "openai-beta"@) == Some("responses=experimental"@)
        }),
{
    reveal_strlit("originator");
    reveal_strlit("openai-beta");
    reveal_strlit("chatgpt-account-id");
    assert("originator"@.len() == 10 && "openai-beta"@.len() == 11 && "chatgpt-account-id"@.len()
        == 18);
    let a = with_value(no_pairs(), "originator"@, "grog"@);
    let b = with_value(a, "openai-beta"@, "responses=experimental"@);
    let names = seq!["originator"@, "openai-beta"@, "chatgpt-account-id"@];
    assert forall|n: int| 0 <= n < 3 implies value_of(b, #[trigger] names[n]) == (if n == 0 {
        Some("grog"@)
    } else if n == 1 {
        Some("responses=experimental"@)
    } else {
        None
    }) by {
        lemma_value_of_with(no_pairs(), "originator"@, "grog"@, names[n]);
        lemma_value_of_with(a, "openai-beta"@, "responses=experimental"@, names[n]);
    }
    assert(names[0] == "originator"@ && names[1] == "openai-beta"@ && names[2]
        == "chatgpt-account-id"@);
    if let Some(id) = account_id {
        lemma_value_of_with(b, "chatgpt-account-id"@, id, "chatgpt-account-id"@);
        lemma_value_of_with(b, "chatgpt-account-id"@, id, "originator"@);
        lemma_value_of_with(b, "chatgpt-account-id"@, id, "openai-beta"@);
    }
}

/// The rows of a menu come from the levels: each has the trimmed level as its id
/// and label and the effort that it stands for, it comes from the first level for
/// that effort, and every effort that a level stands for has a row.
pub proof fn law_rows_come_from_levels(levels: Seq<Seq<char>>, i: int, k: int)
    ensures
        ({
            let rows = level_rows(levels);
            &&& 0 <= i < rows.len() ==> exists|j: int|
                0 <= j < levels.len() && rows[i].id == trimmed(#[trigger] levels[j])
                    && rows[i].label == trimmed(levels[j]) && level_effort(levels[j]) == Some(
                    rows[i].value,
                ) && rows[i].description is None && forall|m: int|
                    0 <= m < j ==> level_effort(#[trigger] levels[m]) != Some(rows[i].value)
            &&& 0 <= k < levels.len() && (level_effort(levels[k]) matches Some(value)) ==> has_value(
                rows,
                level_effort(levels[k])->0,
            )
        }),
    decreases levels.len(),
{
    if levels.len() > 0 {
        let front = levels.drop_last();
        let before = level_rows(front);
        let rows = level_rows(levels);
        let last = levels.last();
        assert(levels[levels.len() - 1] == last);
        if 0 <= i < before.len() {
            law_rows_come_from_levels(front, i, k);
            let j = choose|j: int|
                0 <= j < front.len() && before[i].id == trimmed(#[trigger] front[j])
                    && before[i].label == trimmed(front[j]) && level_effort(front[j]) == Some(
                    before[i].value,
                ) && before[i].description is None && forall|m: int|
                    0 <= m < j ==> level_effort(#[trigger] front[m]) != Some(before[i].value);
            assert(levels[j] == front[j]);
            assert(rows[i] == before[i]);
            assert forall|m: int| 0 <= m < j implies level_effort(#[trigger] levels[m]) != Some(
                rows[i].value,
            ) by {
                assert(front[m] == levels[m]);
            }
        } else if i == before.len() && i < rows.len() {
            let value = level_effort(last)->0;
            assert(rows[i] == effort_row(trimmed(last), value));
            assert forall|m: int| 0 <= m < levels.len() - 1 implies level_effort(
                #[trigger] levels[m],
            ) != Some(value) by {
                law_rows_come_from_levels(front, 0, m);
                assert(front[m] == levels[m]);
            }
        }
        if 0 <= k < levels.len() {
            if let Some(value) = level_effort(levels[k]) {
                if k < front.len() {
                    law_rows_come_from_levels(front, i, k);
                    assert(front[k] == levels[k]);
                }
                if has_value(before, value) {
                    let b = choose|b: int|
                        0 <= b < before.len() && (#[trigger] before[b]).value == value;
                    assert(rows[b].value == value);
                } else {
                    assert(rows[before.len() as int].value == value);
                }
            }
        }
    }
}

/// The rows stand in the order of the levels: those for the first levels come
/// first, however many levels follow. The menu is these rows, with a row for the
/// high effort behind them where no level stands for it.
pub proof fn law_rows_follow_the_levels(levels: Seq<Seq<char>>, n: int)
    requires
        0 <= n <= levels.len(),
    ensures
        level_rows(levels.take(n)).len() <= level_rows(levels).len(),
        level_rows(levels.take(n)) == level_rows(levels).take(
            level_rows(levels.take(n)).len() as int,
        ),
        level_menu(levels).take(level_rows(levels).len() as int) == level_rows(levels),
        has_value(level_rows(levels), ReasoningEffort::High) ==> level_menu(levels) == level_rows(
            levels,
        ),
        !has_value(level_rows(levels), ReasoningEffort::High) ==> level_menu(levels).len()
            == level_rows(levels).len() + 1 && level_menu(levels).last().value
            == ReasoningEffort::High && level_menu(levels).last().id == "high"@,
    decreases levels.len(),
{
    let rows = level_rows(levels);
    assert(level_menu(levels).take(rows.len() as int) =~= rows);
    if n == levels.len() {
        assert(levels.take(n) =~= levels);
        assert(rows =~= rows.take(rows.len() as int));
    } else {
        let front = levels.drop_last();
        law_rows_follow_the_levels(front, n);
        assert(front.take(n) =~= levels.take(n));
        let first = level_rows(levels.take(n));
        assert(first =~= rows.take(first.len() as int));
    }
}

/// A level stands for the effort of its name, whatever its case and the white
/// space around it; `max` stands for the strongest effort that is offered, and
/// other names stand for none.
pub proof fn law_levels_stand_for_efforts(level: Seq<char>, other: Seq<char>)
    ensures
        ({
            let name = lower(trimmed(level));
            &&& name == "none"@ <==> level_effort(level) == Some(ReasoningEffort::Off)
            &&& name == "minimal"@ <==> level_effort(level) == Some(ReasoningEffort::Minimal)
            &&& name == "low"@ <==> level_effort(level) == Some(ReasoningEffort::Low)
            &&& name == "medium"@ <==> level_effort(level) == Some(ReasoningEffort::Medium)
            &&& name == "high"@ <==> level_effort(level) == Some(ReasoningEffort::High)
            &&& name == "xhigh"@ || name == "max"@ <==> level_effort(level) == Some(
                ReasoningEffort::Xhigh,
            )
            &&& level_effort(level) != Some(ReasoningEffort::Max)
            &&& lower(trimmed(other)) == name ==> level_effort(other) == level_effort(level)
        }),
{
    reveal_strlit("none");
    reveal_strlit("minimal");
    reveal_strlit("low");
    reveal_strlit("medium");
    reveal_strlit("high");
    reveal_strlit("xhigh");
    reveal_strlit("max");
    assert("none"@.len() == 4 && "minimal"@.len() == 7 && "low"@.len() == 3 && "medium"@.len() == 6
        && "high"@.len() == 4 && "xhigh"@.len() == 5 && "max"@.len() == 3);
    assert("none"@[0] == 'n' && "high"@[0] == 'h' && "low"@[0] == 'l' && "max"@[0] == 'm');
}

/// A model has a fast mode exactly if it lists a fast speed tier or the priority
/// tier of service, whatever their case.
pub proof fn law_fast_tiers(model: CatalogModel)
    ensures
        is_fast(model) <==> (exists|i: int|
            0 <= i < model.additional_speed_tiers@.len() && lower(
                (#[trigger] model.additional_speed_tiers@[i])@,
            ) == "fast"@) || (exists|i: int|
            0 <= i < model.service_tiers@.len() && lower((#[trigger] model.service_tiers@[i]).id@)
                == "priority"@),
{
    reveal_strlit("fast");
    reveal_strlit("priority");
    assert(lower("fast"@) =~= "fast"@);
    assert(lower("priority"@) =~= "priority"@);
    let speeds = texts(model.additional_speed_tiers@);
    let ids = tier_ids(model.service_tiers@);
    assert(forall|i: int|
        0 <= i < speeds.len() ==> #[trigger] speeds[i] == model.additional_speed_tiers@[i]@);
    assert(forall|i: int| 0 <= i < ids.len() ==> #[trigger] ids[i] == model.service_tiers@[i].id@);
    if exists|i: int|
        0 <= i < model.additional_speed_tiers@.len() && lower(
            (#[trigger] model.additional_speed_tiers@[i])@,
        ) == "fast"@ {
        let i = choose|i: int|
            0 <= i < model.additional_speed_tiers@.len() && lower(
                (#[trigger] model.additional_speed_tiers@[i])@,
            ) == "fast"@;
        assert(lower(speeds[i]) == lower("fast"@));
    }
    if exists|i: int|
        0 <= i < model.service_tiers@.len() && lower((#[trigger] model.service_tiers@[i]).id@)
            == "priority"@ {
        let i = choose|i: int|
            0 <= i < model.service_tiers@.len() && lower((#[trigger] model.service_tiers@[i]).id@)
                == "priority"@;
        assert(lower(ids[i]) == lower("priority"@));
    }
    if has_text(speeds, "fast"@) {
        let i = choose|i: int| 0 <= i < speeds.len() && lower(#[trigger] speeds[i]) == lower("fast"@);
        assert(lower(model.additional_speed_tiers@[i]@) == "fast"@);
    }
    if has_text(ids, "priority"@) {
        let i = choose|i: int|
            0 <= i < ids.len() && lower(#[trigger] ids[i]) == lower("priority"@);
        assert(lower(model.service_tiers@[i].id@) == "priority"@);
    }
}

/// The models that a subscription shows are the ones that it lists to be shown, by
/// their priority, and those of the same priority in the order of the list.
pub proof fn law_shown_models(models: Seq<CatalogModel>, out: Seq<CatalogModel>, model: CatalogModel)
    requires
        is_by_priority(out),
        forall|priority: i32|
            of_priority(out, priority) == #[trigger] of_priority(shown(models), priority),
    ensures
        out.contains(model) <==> models.contains(model) && model.visibility
            == ModelVisibility::List,
        forall|i: int, j: int|
            0 <= i < j < out.len() ==> (#[trigger] out[i]).priority <= (#[trigger] out[j]).priority,
        out.filter(|m: CatalogModel| m.priority == model.priority) == models.filter(
            |m: CatalogModel| m.visibility == ModelVisibility::List,
        ).filter(|m: CatalogModel| m.priority == model.priority),
{
    let same = |m: CatalogModel| m.priority == model.priority;
    assert(of_priority(out, model.priority) == of_priority(shown(models), model.priority));
    lemma_kept(out, same, model);
    lemma_kept(shown(models), same, model);
    lemma_kept(models, |m: CatalogModel| m.visibility == ModelVisibility::List, model);
    assert(of_priority(out, model.priority) == out.filter(same));
    assert(of_priority(shown(models), model.priority) == shown(models).filter(same));
}

proof fn lemma_kept(
    models: Seq<CatalogModel>,
    pred: spec_fn(CatalogModel) -> bool,
    model: CatalogModel,
)
    ensures
        models.filter(pred).contains(model) <==> models.contains(model) && pred(model),
    decreases models.len(),
{
    reveal(Seq::filter);
    if models.len() > 0 {
        let front = models.drop_last();
        let last = models.last();
        lemma_kept(front, pred, model);
        assert(models =~= front.push(last));
        lemma_pushed(front, last, model);
        if pred(last) {
            assert(models.filter(pred) == front.filter(pred).push(last));
            lemma_pushed(front.filter(pred), last, model);
        }
    }
}

proof fn lemma_pushed(models: Seq<CatalogModel>, last: CatalogModel, model: CatalogModel)
    ensures
        models.push(last).contains(model) <==> models.contains(model) || model == last,
{
    let all = models.push(last);
    assert(all[models.len() as int] == last);
    if models.contains(model) {
        let k = choose|k: int| 0 <= k < models.len() && models[k] == model;
        assert(all[k] == model);
    }
    if all.contains(model) && model != last {
        let k = choose|k: int| 0 <= k < all.len() && all[k] == model;
        assert(models[k] == model);
    }
}

/// The menu of a model that is not listed goes from the low effort to the highest,
/// each row by the name of its effort, and only the high effort is the default.
pub proof fn law_fallback_menu(effort: ReasoningEffort, i: int, j: int)
    ensures
        ({
            let rows = fallback_menu();
            &&& has_value(rows, effort) <==> effort == ReasoningEffort::Low || effort
                == ReasoningEffort::Medium || effort == ReasoningEffort::High || effort
                == ReasoningEffort::Xhigh
            &&& 0 <= i < rows.len() ==> rows[i].id == rows[i].value.name() && rows[i].label
                == rows[i].id && (rows[i].default <==> rows[i].value == ReasoningEffort::High)
            &&& 0 <= i < j < rows.len() ==> crate::slash::effort_levels::strength(rows[i].value)
                < crate::slash::effort_levels::strength(rows[j].value)
        }),
{
    let rows = fallback_menu();
    assert(rows[0].value == ReasoningEffort::Low);
    assert(rows[1].value == ReasoningEffort::Medium);
    assert(rows[2].value == ReasoningEffort::High);
    assert(rows[3].value == ReasoningEffort::Xhigh);
}

/// The models that are on offer without a list, by their slugs, with their names.
/// All have a fast mode but the smallest.
pub proof fn law_fallback_list(slug: Seq<char>, i: int)
    ensures
        ({
            let rows = fallback_models();
            &&& (exists|k: int| 0 <= k < rows.len() && (#[trigger] rows[k]).0 == slug) <==> (slug
                == "gpt-5.6-sol"@ || slug == "gpt-5.6-terra"@ || slug == "gpt-5.6-luna"@ || slug
                == "gpt-5.5"@ || slug == "gpt-5.4"@ || slug == "gpt-5.4-mini"@)
            &&& 0 <= i < rows.len() ==> (rows[i].2 <==> rows[i].0 != "gpt-5.4-mini"@)
            &&& 0 <= i < rows.len() && rows[i].0 == slug ==> rows[i].1 == (if slug
                == "gpt-5.6-sol"@ {
                "GPT-5.6 Sol"@
            } else if slug == "gpt-5.6-terra"@ {
                "GPT-5.6 Terra"@
            } else if slug == "gpt-5.6-luna"@ {
                "GPT-5.6 Luna"@
            } else if slug == "gpt-5.5"@ {
                "GPT-5.5"@
            } else if slug == "gpt-5.4"@ {
                "GPT-5.4"@
            } else {
                "GPT-5.4 Mini"@
            })
        }),
{
    let rows = fallback_models();
    assert(rows[0].0 == "gpt-5.6-sol"@ && rows[1].0 == "gpt-5.6-terra"@ && rows[2].0
        == "gpt-5.6-luna"@ && rows[3].0 == "gpt-5.5"@ && rows[4].0 == "gpt-5.4"@ && rows[5].0
        == "gpt-5.4-mini"@);
    reveal_strlit("gpt-5.6-sol");
    reveal_strlit("gpt-5.6-terra");
    reveal_strlit("gpt-5.6-luna");
    reveal_strlit("gpt-5.5");
    reveal_strlit("gpt-5.4");
    reveal_strlit("gpt-5.4-mini");
    assert("gpt-5.6-sol"@.len() == 11 && "gpt-5.6-terra"@.len() == 13 && "gpt-5.6-luna"@.len() == 12
        && "gpt-5.5"@.len() == 7 && "gpt-5.4"@.len() == 7 && "gpt-5.4-mini"@.len() == 12);
    assert("gpt-5.6-luna"@[6] == '6' && "gpt-5.4-mini"@[6] == '4' && "gpt-5.5"@[6] == '5'
        && "gpt-5.4"@[6] == '4');
}

} // verus!
