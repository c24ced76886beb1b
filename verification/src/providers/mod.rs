//! Connected providers: OpenRouter and ChatGPT subscriptions.
//!
//! Their models join the catalog where there are credentials for them. They are
//! reached over the same protocols as all other models.

pub mod credentials;
pub mod entry;
pub mod openai_subscribed;
pub mod openrouter;
pub mod subscription_tokens;

use vstd::prelude::*;
use vstd::string::*;
use indexmap::IndexMap;
use crate::catalog::{
    catalog_entries_of, entry_at, entry_count, insert_absent, into_entries, listed, no_entries,
    with_absent,
};
use crate::models::{ModelEntry, ModelEntryView, ModelInfo, ModelInfoView, UiConfig};
use crate::ordered::{reversed, value_of};
use crate::providers::credentials::{
    opt_creds, resolve_api_key, resolved_key, ChatGptCreds, ProviderStore, StoreView,
    EXPIRY_MARGIN_MS,
};
use crate::providers::openai_subscribed::{chatgpt_entries, CatalogModel};
use crate::providers::openrouter::{openrouter_entries, ListedModel};
use crate::text::{
    begins_with, begins_with_text, contains_text, has_part, lemma_not_blank,
    lemma_trimmed_not_blank, lower, opt_str, opt_text, text_eq, trim_end_slashes, trimmed,
    without_end_slashes,
};
use crate::urls::{is_unbroken, parse_url, url_parts, UrlParts, UrlPartsView};

verus! {

/// Which connected providers show their models.
#[derive(Clone, Copy, Debug, PartialEq, Eq, Structural)]
pub struct ProviderVisibility {
    pub openrouter: bool,
    pub chatgpt: bool,
}

impl Default for ProviderVisibility {
    fn default() -> (r: Self)
        ensures
            r == (ProviderVisibility { openrouter: true, chatgpt: true }),
    {
        ProviderVisibility { openrouter: true, chatgpt: true }
    }
}

impl From<&UiConfig> for ProviderVisibility {
    /// What the user wants to see: everything that is not turned off.
    fn from(ui: &UiConfig) -> (r: Self) {
        ProviderVisibility {
            openrouter: match ui.show_openrouter_models {
                Some(show) => show,
                None => true,
            },
            chatgpt: match ui.show_chatgpt_models {
                Some(show) => show,
                None => true,
            },
        }
    }
}

impl vstd::std_specs::convert::FromSpecImpl<&UiConfig> for ProviderVisibility {
    open spec fn obeys_from_spec() -> bool {
        true
    }

    open spec fn from_spec(ui: &UiConfig) -> Self {
        ProviderVisibility {
            openrouter: ui.show_openrouter_models != Some(false),
            chatgpt: ui.show_chatgpt_models != Some(false),
        }
    }
}

/// A provider of models.
#[derive(Clone, Copy, Debug, PartialEq, Eq, Structural)]
pub enum ProviderId {
    Xai,
    OpenRouter,
    ChatGpt,
}

/// The provider that a text names, by its name or another that it goes by.
pub open spec fn provider_named(text: Seq<char>) -> Option<ProviderId> {
    let name = lower(trimmed(text));
    if name == "xai"@ || name == "x.ai"@ || name == "grok"@ {
        Some(ProviderId::Xai)
    } else if name == "openrouter"@ || name == "or"@ {
        Some(ProviderId::OpenRouter)
    } else if name == "chatgpt"@ || name == "openai-subscribed"@ || name == "openai_subscribed"@
        || name == "codex"@ {
        Some(ProviderId::ChatGpt)
    } else {
        None
    }
}

impl ProviderId {
    /// The name of the provider.
    pub open spec fn name(self) -> Seq<char> {
        match self {
            ProviderId::Xai => "xai"@,
            ProviderId::OpenRouter => "openrouter"@,
            ProviderId::ChatGpt => "chatgpt"@,
        }
    }

    /// The provider that a text names, by its name or another that it goes by.
    pub fn parse(s: &str) -> (r: Option<Self>)
        ensures
            r == provider_named(s@),
    {
        let lowered = s.trim().to_ascii_lowercase();
        let name = lowered.as_str();
        if text_eq(name, "xai") || text_eq(name, "x.ai") || text_eq(name, "grok") {
            Some(ProviderId::Xai)
        } else if text_eq(name, "openrouter") || text_eq(name, "or") {
            Some(ProviderId::OpenRouter)
        } else if text_eq(name, "chatgpt") || text_eq(name, "openai-subscribed") || text_eq(
            name,
            "openai_subscribed",
        ) || text_eq(name, "codex") {
            Some(ProviderId::ChatGpt)
        } else {
            None
        }
    }

    /// The name of the provider.
    pub fn as_str(self) -> (r: &'static str)
        ensures
            r@ == self.name(),
    {
        match self {
            ProviderId::Xai => "xai",
            ProviderId::OpenRouter => "openrouter",
            ProviderId::ChatGpt => "chatgpt",
        }
    }
}

/// Every provider is read back from its name.
pub proof fn law_provider_names_round_trip(id: ProviderId)
    ensures
        provider_named(id.name()) == Some(id),
{
    reveal_strlit("xai");
    reveal_strlit("x.ai");
    reveal_strlit("grok");
    reveal_strlit("openrouter");
    reveal_strlit("or");
    reveal_strlit("chatgpt");
    let name = id.name();
    assert(trimmed(name) == name) by {
        reveal_with_fuel(crate::text::trim_start, 2);
        reveal_with_fuel(crate::text::trim_end, 2);
    }
    assert(lower(name) =~= name);
    assert("xai"@.len() == 3 && "x.ai"@.len() == 4 && "grok"@.len() == 4 && "openrouter"@.len() == 10
        && "or"@.len() == 2 && "chatgpt"@.len() == 7);
}

/// The label that the parts of a URL suggest: its host.
pub open spec fn label_of_parts(parts: UrlPartsView) -> Seq<char> {
    match parts.host {
        Some(host) if host.len() > 0 => host,
        _ => "Custom"@,
    }
}

/// The label that the parts of a URL suggest: its host.
pub fn host_label(parts: &UrlParts) -> (r: String)
    ensures
        r@ == label_of_parts(parts@),
{
    match &parts.host {
        Some(host) => if host.as_str().is_empty() {
            "Custom".to_owned()
        } else {
            host.clone()
        },
        None => "Custom".to_owned(),
    }
}

/// The label that a base URL alone suggests.
pub open spec fn label_of_url(base_url: Seq<char>) -> Seq<char> {
    let url = trimmed(base_url);
    let low = lower(url);
    if url.len() == 0 {
        "xAI"@
    } else if has_part(low, "openrouter.ai"@) {
        "OpenRouter"@
    } else if has_part(low, "chatgpt.com"@) || has_part(low, "backend-api/codex"@) {
        "ChatGPT Subscription"@
    } else if has_part(low, "api.openai.com"@) || has_part(low, "openai.com"@) {
        "OpenAI"@
    } else if has_part(low, "anthropic.com"@) {
        "Anthropic"@
    } else if has_part(low, "x.ai"@) || has_part(low, "grok.com"@) {
        "xAI"@
    } else {
        match url_parts(url) {
            Some(parts) => label_of_parts(parts),
            None => "Custom"@,
        }
    }
}

/// The label of a provider: the explicit one, else what the base URL suggests.
pub open spec fn label_of(base_url: Seq<char>, explicit: Option<Seq<char>>) -> Seq<char> {
    match explicit {
        Some(label) if trimmed(label).len() > 0 => trimmed(label),
        _ => label_of_url(base_url),
    }
}

/// A short label for a provider, from an explicit value or the base URL.
pub fn infer_provider(base_url: &str, explicit: Option<&str>) -> (r: String)
    ensures
        r@ == label_of(base_url@, opt_str(explicit)),
        trimmed(r@).len() > 0,
{
    proof {
        lemma_labels_not_blank();
    }
    if let Some(label) = explicit {
        let bare = label.trim();
        if !bare.is_empty() {
            proof {
                lemma_trimmed_not_blank(label@);
            }
            return bare.to_owned();
        }
    }
    let url = base_url.trim();
    if url.is_empty() {
        return "xAI".to_owned();
    }
    let lowered = url.to_ascii_lowercase();
    let low = lowered.as_str();
    if contains_text(low, "openrouter.ai") {
        return "OpenRouter".to_owned();
    }
    if contains_text(low, "chatgpt.com") || contains_text(low, "backend-api/codex") {
        return "ChatGPT Subscription".to_owned();
    }
    if contains_text(low, "api.openai.com") || contains_text(low, "openai.com") {
        return "OpenAI".to_owned();
    }
    if contains_text(low, "anthropic.com") {
        return "Anthropic".to_owned();
    }
    if contains_text(low, "x.ai") || contains_text(low, "grok.com") {
        return "xAI".to_owned();
    }
    match parse_url(url) {
        Some(parts) => {
            proof {
                if let Some(host) = parts@.host {
                    if host.len() > 0 {
                        lemma_not_blank(host, 0);
                    }
                }
            }
            host_label(&parts)
        },
        None => "Custom".to_owned(),
    }
}

proof fn lemma_labels_not_blank()
    ensures
        trimmed("xAI"@).len() > 0,
        trimmed("OpenRouter"@).len() > 0,
        trimmed("ChatGPT Subscription"@).len() > 0,
        trimmed("OpenAI"@).len() > 0,
        trimmed("Anthropic"@).len() > 0,
        trimmed("Custom"@).len() > 0,
{
    reveal_strlit("xAI");
    reveal_strlit("OpenRouter");
    reveal_strlit("ChatGPT Subscription");
    reveal_strlit("OpenAI");
    reveal_strlit("Anthropic");
    reveal_strlit("Custom");
    lemma_not_blank("xAI"@, 0);
    lemma_not_blank("OpenRouter"@, 0);
    lemma_not_blank("ChatGPT Subscription"@, 0);
    lemma_not_blank("OpenAI"@, 0);
    lemma_not_blank("Anthropic"@, 0);
    lemma_not_blank("Custom"@, 0);
}

/// Whether a model has a label for its provider that is not blank.
pub open spec fn has_label(info: ModelInfoView) -> bool {
    info.provider matches Some(label) && trimmed(label).len() > 0
}

/// Whether every entry has a label for its provider that is not blank.
pub open spec fn all_have_labels(entries: Seq<(Seq<char>, ModelEntryView)>) -> bool {
    forall|i: int| 0 <= i < entries.len() ==> has_label((#[trigger] entries[i]).1.info)
}

/// What is known of a model, with a label for its provider where it had none.
pub open spec fn with_label(info: ModelInfoView) -> ModelInfoView {
    match info.provider {
        Some(label) if trimmed(label).len() > 0 => info,
        _ => ModelInfoView { provider: Some(label_of(info.base_url, None)), ..info },
    }
}

/// Gives a model a label for its provider where it has none. Doing so again
/// changes nothing.
pub fn fill_missing_provider(info: &mut ModelInfo)
    ensures
        final(info)@ == with_label(old(info)@),
        has_label(final(info)@),
        with_label(final(info)@) == final(info)@,
{
    let missing = match &info.provider {
        Some(label) => label.as_str().trim().is_empty(),
        None => true,
    };
    if missing {
        info.provider = Some(infer_provider(info.base_url.as_str(), None));
    }
}

/// Whether a path is `base` or lies below it.
pub open spec fn is_below(path: Seq<char>, base: Seq<char>) -> bool {
    path == base || begins_with(path, base + "/"@)
}

/// Whether a URL belongs to a connected provider: its host has to be exactly that
/// of the provider.
pub open spec fn is_provider_url(parts: UrlPartsView) -> bool {
    match parts.host {
        Some(host) => {
            let path = without_end_slashes(parts.path);
            ||| lower(host) == "openrouter.ai"@ && is_below(path, "/api/v1"@)
            ||| lower(host) == "chatgpt.com"@ && is_below(path, "/backend-api/codex"@)
        },
        None => false,
    }
}

/// Whether the parts are those of a URL of a connected provider.
pub fn is_provider_endpoint(parts: &UrlParts) -> (r: bool)
    ensures
        r == is_provider_url(parts@),
{
    let host = match &parts.host {
        Some(host) => host.as_str().to_ascii_lowercase(),
        None => {
            return false;
        },
    };
    let path = trim_end_slashes(parts.path.as_str());
    proof {
        reveal_strlit("/api/v1");
        reveal_strlit("/api/v1/");
        reveal_strlit("/backend-api/codex");
        reveal_strlit("/backend-api/codex/");
        reveal_strlit("/");
        reveal_strlit("openrouter.ai");
        reveal_strlit("chatgpt.com");
        assert("/api/v1"@ + "/"@ =~= "/api/v1/"@);
        assert("/backend-api/codex"@ + "/"@ =~= "/backend-api/codex/"@);
        assert("openrouter.ai"@.len() == 13 && "chatgpt.com"@.len() == 11);
    }
    if text_eq(host.as_str(), "openrouter.ai") {
        text_eq(path.as_str(), "/api/v1") || begins_with_text(path.as_str(), "/api/v1/")
    } else if text_eq(host.as_str(), "chatgpt.com") {
        text_eq(path.as_str(), "/backend-api/codex") || begins_with_text(
            path.as_str(),
            "/backend-api/codex/",
        )
    } else {
        false
    }
}

/// Whether requests to a base URL carry the credentials of a connected provider.
pub open spec fn uses_provider_credentials(base_url: Seq<char>) -> bool {
    match url_parts(trimmed(base_url)) {
        Some(parts) => is_provider_url(parts),
        None => false,
    }
}

/// Whether requests to a base URL carry the credentials of a connected provider
/// and not those of the xAI login.
pub fn endpoint_uses_provider_credentials(base_url: &str) -> (r: bool)
    ensures
        r == uses_provider_credentials(base_url@),
{
    match parse_url(base_url.trim()) {
        Some(parts) => is_provider_endpoint(&parts),
        None => false,
    }
}

/// What is to be known from outside before the catalogs of connected providers
/// can be merged.
pub struct ProviderFindings {
    /// The value of the environment variable that may hold the OpenRouter key.
    pub openrouter_env_key: Option<String>,
    /// The models that OpenRouter lists, none if it could not be asked.
    pub openrouter_models: Vec<ListedModel>,
    /// The ChatGPT tokens after an attempt to refresh them.
    pub chatgpt_creds: Option<ChatGptCreds>,
    /// The models that the subscription lists, none if it could not be asked.
    pub chatgpt_models: Vec<CatalogModel>,
}

/// What the connected providers are to be asked.
pub struct CatalogQuestions {
    /// The key to ask OpenRouter for its models with, if it is to be asked.
    pub openrouter_key: Option<String>,
    /// The tokens to ask the subscription for its models with, if it is to be asked.
    pub chatgpt_creds: Option<ChatGptCreds>,
    /// Whether these tokens are to be refreshed first.
    pub refresh_chatgpt: bool,
}

/// What the connected providers are to be asked: only those that are to be seen
/// and have credentials.
pub fn catalog_questions(
    store: &ProviderStore,
    visibility: ProviderVisibility,
    openrouter_env_key: Option<&str>,
    now_ms: u64,
) -> (r: CatalogQuestions)
    requires
        visibility.chatgpt && store.openai_subscribed is Some ==> now_ms + EXPIRY_MARGIN_MS
            <= u64::MAX,
    ensures
        opt_text(r.openrouter_key) == if visibility.openrouter {
            resolved_key(store@.openrouter, opt_str(openrouter_env_key))
        } else {
            None
        },
        opt_creds(r.chatgpt_creds) == if visibility.chatgpt {
            store@.openai_subscribed
        } else {
            None
        },
        r.refresh_chatgpt == (visibility.chatgpt && (store@.openai_subscribed matches Some(creds)
            && now_ms + EXPIRY_MARGIN_MS >= creds.expires_at_ms)),
{
    let openrouter_key = if visibility.openrouter {
        resolve_api_key(store.openrouter.as_ref(), openrouter_env_key)
    } else {
        None
    };
    match &store.openai_subscribed {
        Some(creds) if visibility.chatgpt => CatalogQuestions {
            openrouter_key,
            chatgpt_creds: Some(creds.clone()),
            refresh_chatgpt: creds.is_expired(now_ms),
        },
        _ => CatalogQuestions { openrouter_key, chatgpt_creds: None, refresh_chatgpt: false },
    }
}

/// The entries with those put in whose id is not there yet.
pub open spec fn absorbed(
    entries: Seq<(Seq<char>, ModelEntryView)>,
    more: Seq<(Seq<char>, ModelEntryView)>,
) -> Seq<(Seq<char>, ModelEntryView)>
    decreases more.len(),
{
    if more.len() == 0 {
        entries
    } else {
        with_absent(absorbed(entries, more.drop_last()), more.last().0, more.last().1)
    }
}

/// An entry with a label for its provider.
pub open spec fn labelled(entry: ModelEntryView) -> ModelEntryView {
    ModelEntryView { info: with_label(entry.info), ..entry }
}

/// The entries, each with a label for its provider.
pub open spec fn all_labelled(entries: Seq<(Seq<char>, ModelEntryView)>) -> Seq<
    (Seq<char>, ModelEntryView),
> {
    entries.map_values(|e: (Seq<char>, ModelEntryView)| (e.0, labelled(e.1)))
}

/// What the connected providers have to offer, in the order in which they are
/// merged.
pub open spec fn offered(
    store: StoreView,
    visibility: ProviderVisibility,
    findings: ProviderFindings,
) -> Seq<(Seq<char>, ModelEntryView)> {
    let from_openrouter = if visibility.openrouter {
        openrouter_entries(
            store.openrouter,
            opt_text(findings.openrouter_env_key),
            findings.openrouter_models@,
        )
    } else {
        no_entries()
    };
    let from_chatgpt = if visibility.chatgpt {
        chatgpt_entries(
            store.openai_subscribed,
            opt_creds(findings.chatgpt_creds),
            findings.chatgpt_models@,
        )
    } else {
        no_entries()
    };
    from_openrouter + from_chatgpt
}

proof fn lemma_absorbed_split(
    entries: Seq<(Seq<char>, ModelEntryView)>,
    first: Seq<(Seq<char>, ModelEntryView)>,
    second: Seq<(Seq<char>, ModelEntryView)>,
)
    ensures
        absorbed(entries, first + second) == absorbed(absorbed(entries, first), second),
    decreases second.len(),
{
    if second.len() == 0 {
        assert(first + second =~= first);
    } else {
        assert((first + second).drop_last() =~= first + second.drop_last());
        lemma_absorbed_split(entries, first, second.drop_last());
    }
}

/// Puts the entries of one catalog into another, where their id is not there yet.
fn absorb(catalog: &mut IndexMap<String, ModelEntry>, more: IndexMap<String, ModelEntry>)
    ensures
        catalog_entries_of(*final(catalog)) == absorbed(
            catalog_entries_of(*old(catalog)),
            catalog_entries_of(more),
        ),
{
    let ghost before = catalog_entries_of(*catalog);
    let ghost all = catalog_entries_of(more);
    let mut queue = reversed(into_entries(more));
    let total: usize = queue.len();
    let mut done: usize = 0;
    proof {
        assert(all.take(0) =~= no_entries());
        assert(all.skip(0) =~= all);
        assert(listed(queue@) =~= all.reverse());
    }
    while queue.len() > 0
        invariant
            total == all.len(),
            done + queue@.len() == total,
            listed(queue@) =~= all.skip(done as int).reverse(),
            catalog_entries_of(*catalog) == absorbed(before, all.take(done as int)),
        decreases queue.len(),
    {
        let ghost had = queue@;
        assert(listed(had).last() == all[done as int]);
        if let Some((id, entry)) = queue.pop() {
            proof {
                assert(listed(queue@) =~= listed(had).drop_last());
                assert(all.skip(done + 1).reverse() =~= all.skip(done as int).reverse().drop_last());
                assert(all.take(done + 1).drop_last() =~= all.take(done as int));
            }
            insert_absent(catalog, id, entry);
            done += 1;
        }
    }
    assert(all.take(done as int) =~= all);
}

/// Gives every entry a label for its provider where it has none.
pub fn label_catalog(catalog: &mut IndexMap<String, ModelEntry>)
    ensures
        catalog_entries_of(*final(catalog)) == all_labelled(catalog_entries_of(*old(catalog))),
        all_have_labels(catalog_entries_of(*final(catalog))),
{
    let ghost before = catalog_entries_of(*catalog);
    let n: usize = entry_count(catalog);
    let mut i: usize = 0;
    while i < n
        invariant
            i <= n == before.len(),
            catalog_entries_of(*catalog) =~= all_labelled(before).take(i as int) + before.skip(
                i as int,
            ),
            all_have_labels(all_labelled(before).take(i as int)),
        decreases n - i,
    {
        let ghost now = catalog_entries_of(*catalog);
        assert(now[i as int] == before[i as int]);
        let entry = entry_at(catalog, i);
        fill_missing_provider(&mut entry.info);
        assert(catalog_entries_of(*catalog) =~= now.update(
            i as int,
            (before[i as int].0, labelled(before[i as int].1)),
        ));
        assert(all_labelled(before).take(i + 1) =~= all_labelled(before).take(i as int).push(
            (before[i as int].0, labelled(before[i as int].1)),
        ));
        i += 1;
    }
    assert(all_labelled(before).take(n as int) + before.skip(n as int) =~= all_labelled(before));
    assert(all_labelled(before).take(n as int) =~= all_labelled(before));
}

/// Merges what the connected providers have to offer into the catalog. Entries
/// that are there already win. Then every entry gets a label for its provider.
pub fn merge_from_store(
    catalog: &mut IndexMap<String, ModelEntry>,
    store: &ProviderStore,
    visibility: ProviderVisibility,
    findings: &ProviderFindings,
)
    ensures
        catalog_entries_of(*final(catalog)) == all_labelled(
            absorbed(
                catalog_entries_of(*old(catalog)),
                offered(store@, visibility, *findings),
            ),
        ),
        all_have_labels(catalog_entries_of(*final(catalog))),
{
    let ghost before = catalog_entries_of(*catalog);
    let ghost mut first = no_entries();
    let ghost mut second = no_entries();
    if visibility.openrouter {
        let entries = openrouter::catalog_entries(
            store,
            crate::text::borrowed(&findings.openrouter_env_key),
            &findings.openrouter_models,
        );
        proof {
            first = catalog_entries_of(entries);
        }
        absorb(catalog, entries);
    }
    if visibility.chatgpt {
        let entries = openai_subscribed::catalog_entries(
            store,
            findings.chatgpt_creds.as_ref(),
            &findings.chatgpt_models,
        );
        proof {
            second = catalog_entries_of(entries);
        }
        absorb(catalog, entries);
    }
    proof {
        lemma_absorbed_split(before, first, second);
        assert(offered(store@, visibility, *findings) =~= first + second);
    }
    label_catalog(catalog);
}

proof fn lemma_value_pushed<V>(
    pairs: Seq<(Seq<char>, V)>,
    last: (Seq<char>, V),
    key: Seq<char>,
)
    ensures
        value_of(pairs.push(last), key) == if value_of(pairs, key) is Some {
            value_of(pairs, key)
        } else if last.0 == key {
            Some(last.1)
        } else {
            None
        },
    decreases pairs.len(),
{
    let all = pairs.push(last);
    if pairs.len() == 0 {
        assert(all.drop_first() =~= pairs);
    } else {
        lemma_value_pushed(pairs.drop_first(), last, key);
        assert(all.drop_first() =~= pairs.drop_first().push(last));
    }
}

proof fn lemma_value_labelled(entries: Seq<(Seq<char>, ModelEntryView)>, id: Seq<char>)
    ensures
        value_of(all_labelled(entries), id) == match value_of(entries, id) {
            Some(entry) => Some(labelled(entry)),
            None => None,
        },
    decreases entries.len(),
{
    if entries.len() > 0 {
        lemma_value_labelled(entries.drop_first(), id);
        assert(all_labelled(entries).drop_first() =~= all_labelled(entries.drop_first()));
    }
}

proof fn lemma_value_absorbed(
    entries: Seq<(Seq<char>, ModelEntryView)>,
    more: Seq<(Seq<char>, ModelEntryView)>,
    id: Seq<char>,
)
    ensures
        value_of(absorbed(entries, more), id) == if value_of(entries, id) is Some {
            value_of(entries, id)
        } else {
            value_of(more, id)
        },
    decreases more.len(),
{
    if more.len() > 0 {
        let front = more.drop_last();
        let last = more.last();
        lemma_value_absorbed(entries, front, id);
        lemma_value_absorbed(entries, front, last.0);
        lemma_value_pushed(front, last, id);
        lemma_value_pushed(absorbed(entries, front), last, id);
        assert(front.push(last) =~= more);
    }
}

/// Merging keeps every entry that the catalog has, but for a missing label, and
/// adds the first entry that is offered under each other id.
pub proof fn law_existing_entries_win(
    entries: Seq<(Seq<char>, ModelEntryView)>,
    more: Seq<(Seq<char>, ModelEntryView)>,
    id: Seq<char>,
)
    ensures
        value_of(all_labelled(absorbed(entries, more)), id) == match (
            value_of(entries, id),
            value_of(more, id),
        ) {
            (Some(entry), _) => Some(labelled(entry)),
            (None, Some(entry)) => Some(labelled(entry)),
            (None, None) => None,
        },
{
    lemma_value_absorbed(entries, more, id);
    lemma_value_labelled(absorbed(entries, more), id);
}

/// A provider that is not to be seen adds nothing to the catalog, whatever
/// credentials it has; with neither to be seen the catalog keeps its entries.
pub proof fn law_hidden_providers_add_nothing(
    store: StoreView,
    visibility: ProviderVisibility,
    findings: ProviderFindings,
    entries: Seq<(Seq<char>, ModelEntryView)>,
)
    ensures
        !visibility.openrouter && !visibility.chatgpt ==> absorbed(
            entries,
            offered(store, visibility, findings),
        ) == entries,
        !visibility.openrouter && visibility.chatgpt ==> offered(store, visibility, findings)
            == chatgpt_entries(
            store.openai_subscribed,
            opt_creds(findings.chatgpt_creds),
            findings.chatgpt_models@,
        ),
        visibility.openrouter && !visibility.chatgpt ==> offered(store, visibility, findings)
            == openrouter_entries(
            store.openrouter,
            opt_text(findings.openrouter_env_key),
            findings.openrouter_models@,
        ),
{
    let nothing = Seq::<(Seq<char>, ModelEntryView)>::empty();
    assert(nothing + nothing =~= nothing);
    if !visibility.openrouter && visibility.chatgpt {
        let from_chatgpt = chatgpt_entries(
            store.openai_subscribed,
            opt_creds(findings.chatgpt_creds),
            findings.chatgpt_models@,
        );
        assert(nothing + from_chatgpt =~= from_chatgpt);
    }
    if visibility.openrouter && !visibility.chatgpt {
        let from_openrouter = openrouter_entries(
            store.openrouter,
            opt_text(findings.openrouter_env_key),
            findings.openrouter_models@,
        );
        assert(from_openrouter + nothing =~= from_openrouter);
    }
}

/// A provider without credentials adds nothing to the catalog.
pub proof fn law_no_credentials_no_models(
    fresh: Option<credentials::ChatGptCredsView>,
    listed_by_chatgpt: Seq<CatalogModel>,
    from_env: Option<Seq<char>>,
    listed_by_openrouter: Seq<ListedModel>,
)
    ensures
        chatgpt_entries(None, fresh, listed_by_chatgpt) == no_entries(),
        credentials::usable_key(from_env) is None ==> openrouter_entries(
            None,
            from_env,
            listed_by_openrouter,
        ) == no_entries(),
{
}

/// After labels have been filled in every model has one that is not blank, one
/// that was there is kept, and filling them in again changes nothing. The host of
/// the base URL holds no white space, as no host that is read from a URL does.
pub proof fn law_every_model_gets_a_label(info: ModelInfoView)
    requires
        url_parts(trimmed(info.base_url)) matches Some(parts) ==> is_unbroken(parts.host),
    ensures
        has_label(with_label(info)),
        has_label(info) ==> with_label(info) == info,
        !has_label(info) ==> with_label(info) == (ModelInfoView {
            provider: Some(label_of(info.base_url, None)),
            ..info
        }),
        with_label(with_label(info)) == with_label(info),
{
    lemma_labels_not_blank();
    if let Some(parts) = url_parts(trimmed(info.base_url)) {
        if let Some(host) = parts.host {
            if host.len() > 0 {
                lemma_not_blank(host, 0);
            }
        }
    }
}

/// Whether a text is one of the names of a provider is told without regard to case
/// and to white space around it, and by these names alone.
pub proof fn law_provider_aliases(text: Seq<char>)
    ensures
        ({
            let name = lower(trimmed(text));
            &&& provider_named(text) == Some(ProviderId::Xai) <==> name == "xai"@ || name == "x.ai"@
                || name == "grok"@
            &&& provider_named(text) == Some(ProviderId::OpenRouter) <==> name == "openrouter"@
                || name == "or"@
            &&& provider_named(text) == Some(ProviderId::ChatGpt) <==> name == "chatgpt"@ || name
                == "openai-subscribed"@ || name == "openai_subscribed"@ || name == "codex"@
        }),
{
    reveal_strlit("xai");
    reveal_strlit("x.ai");
    reveal_strlit("grok");
    reveal_strlit("openrouter");
    reveal_strlit("or");
    reveal_strlit("chatgpt");
    reveal_strlit("openai-subscribed");
    reveal_strlit("openai_subscribed");
    reveal_strlit("codex");
    assert("xai"@.len() == 3 && "x.ai"@.len() == 4 && "grok"@.len() == 4 && "openrouter"@.len() == 10
        && "or"@.len() == 2 && "chatgpt"@.len() == 7 && "openai-subscribed"@.len() == 17
        && "openai_subscribed"@.len() == 17 && "codex"@.len() == 5);
}

/// An explicit label counts before everything else, without white space at its
/// ends. A URL without one is labelled by the provider whose domain it holds
/// anywhere, in this order: OpenRouter, ChatGPT, OpenAI, Anthropic, xAI; an empty
/// one belongs to xAI.
pub proof fn law_labels_by_domain(base_url: Seq<char>, explicit: Option<Seq<char>>)
    ensures
        ({
            let label = label_of(base_url, explicit);
            let url = lower(trimmed(base_url));
            let named = explicit matches Some(text) && trimmed(text).len() > 0;
            let router = has_part(url, "openrouter.ai"@);
            let chatgpt = has_part(url, "chatgpt.com"@) || has_part(url, "backend-api/codex"@);
            let openai = has_part(url, "openai.com"@);
            let anthropic = has_part(url, "anthropic.com"@);
            let xai = has_part(url, "x.ai"@) || has_part(url, "grok.com"@);
            let known = router || chatgpt || openai || anthropic || xai;
            &&& named ==> label == trimmed(explicit->0)
            &&& !named && trimmed(base_url).len() == 0 ==> label == "xAI"@
            &&& !named && trimmed(base_url).len() > 0 && router ==> label == "OpenRouter"@
            &&& !named && trimmed(base_url).len() > 0 && !router && chatgpt ==> label
                == "ChatGPT Subscription"@
            &&& !named && trimmed(base_url).len() > 0 && !router && !chatgpt && openai ==> label
                == "OpenAI"@
            &&& !named && trimmed(base_url).len() > 0 && !router && !chatgpt && !openai && anthropic
                ==> label == "Anthropic"@
            &&& !named && trimmed(base_url).len() > 0 && !router && !chatgpt && !openai && !anthropic
                && xai ==> label == "xAI"@
            &&& !named && trimmed(base_url).len() > 0 && !known ==> label == (match url_parts(
                trimmed(base_url),
            ) {
                Some(parts) => match parts.host {
                    Some(host) => if host.len() > 0 {
                        host
                    } else {
                        "Custom"@
                    },
                    None => "Custom"@,
                },
                None => "Custom"@,
            })
        }),
{
    let url = lower(trimmed(base_url));
    if has_part(url, "api.openai.com"@) {
        reveal_strlit("api.openai.com");
        reveal_strlit("openai.com");
        let i = choose|i: int| #[trigger] crate::text::stands_at(url, "api.openai.com"@, i);
        assert(url.subrange(i + 4, i + 14) =~= "openai.com"@) by {
            assert(url.subrange(i, i + 14) == "api.openai.com"@);
            assert forall|k: int| 0 <= k < 10 implies url.subrange(i + 4, i + 14)[k]
                == "openai.com"@[k] by {
                assert(url.subrange(i, i + 14)[k + 4] == "api.openai.com"@[k + 4]);
            }
        }
        assert(crate::text::stands_at(url, "openai.com"@, i + 4));
    }
}

/// A URL belongs to a connected provider exactly if its host is that of the
/// provider, but for case, and its path, but for slashes at its end, is that of
/// the provider's endpoint or goes on from there behind a slash.
pub proof fn law_provider_urls(parts: UrlPartsView)
    ensures
        is_provider_url(parts) <==> (parts.host matches Some(host) && {
            let path = without_end_slashes(parts.path);
            let base = if lower(host) == "openrouter.ai"@ {
                "/api/v1"@
            } else {
                "/backend-api/codex"@
            };
            &&& lower(host) == "openrouter.ai"@ || lower(host) == "chatgpt.com"@
            &&& path.len() >= base.len()
            &&& path.take(base.len() as int) == base
            &&& path.len() > base.len() ==> path[base.len() as int] == '/'
        }),
{
    reveal_strlit("openrouter.ai");
    reveal_strlit("chatgpt.com");
    reveal_strlit("/");
    assert("openrouter.ai"@.len() == 13 && "chatgpt.com"@.len() == 11);
    if let Some(host) = parts.host {
        let path = without_end_slashes(parts.path);
        lemma_below(path, "/api/v1"@);
        lemma_below(path, "/backend-api/codex"@);
    }
}

proof fn lemma_below(path: Seq<char>, base: Seq<char>)
    ensures
        is_below(path, base) <==> path.len() >= base.len() && path.take(base.len() as int) == base
            && (path.len() > base.len() ==> path[base.len() as int] == '/'),
{
    reveal_strlit("/");
    let n = base.len() as int;
    let longer = base + "/"@;
    assert("/"@.len() == 1 && "/"@[0] == '/');
    if path == base {
        assert(path.take(n) =~= base);
    }
    if begins_with(path, longer) {
        assert(path.subrange(0, n + 1) == longer);
        assert(path[n] == path.subrange(0, n + 1)[n]);
        assert(path.take(n) =~= longer.take(n));
        assert(longer.take(n) =~= base);
    }
    if path.len() >= n && path.take(n) == base {
        if path.len() == n {
            assert(path =~= path.take(n));
        } else if path[n] == '/' {
            assert(path.subrange(0, n + 1) =~= longer) by {
                assert forall|k: int| 0 <= k < n implies path[k] == base[k] by {
                    assert(path.take(n)[k] == path[k]);
                }
            }
        }
    }
}

/// Merging puts new entries behind those that are there, which keep their places;
/// filling in labels changes nothing of an entry but a label that was missing.
pub proof fn law_merged_entries_go_last(
    entries: Seq<(Seq<char>, ModelEntryView)>,
    more: Seq<(Seq<char>, ModelEntryView)>,
    i: int,
)
    ensures
        absorbed(entries, more).len() >= entries.len(),
        absorbed(entries, more).take(entries.len() as int) == entries,
        all_labelled(absorbed(entries, more)).len() == absorbed(entries, more).len(),
        0 <= i < absorbed(entries, more).len() ==> {
            let (id, entry) = all_labelled(absorbed(entries, more))[i];
            let (old_id, old_entry) = absorbed(entries, more)[i];
            &&& id == old_id
            &&& (ModelEntryView {
                info: ModelInfoView { provider: old_entry.info.provider, ..entry.info },
                ..entry
            }) == old_entry
            &&& (old_entry.info.provider matches Some(label) && trimmed(label).len() > 0)
                ==> entry == old_entry
            &&& !(old_entry.info.provider matches Some(label) && trimmed(label).len() > 0)
                ==> entry.info.provider == Some(label_of(old_entry.info.base_url, None))
        },
    decreases more.len(),
{
    if more.len() == 0 {
        assert(entries.take(entries.len() as int) =~= entries);
    } else {
        let front = absorbed(entries, more.drop_last());
        law_merged_entries_go_last(entries, more.drop_last(), i);
        assert(absorbed(entries, more).take(entries.len() as int) =~= front.take(
            entries.len() as int,
        ));
    }
}

/// What is offered comes from OpenRouter first and then from the subscription,
/// each only where it is to be seen.
pub proof fn law_offers_in_order(
    store: StoreView,
    visibility: ProviderVisibility,
    findings: ProviderFindings,
)
    ensures
        ({
            let router = openrouter_entries(
                store.openrouter,
                opt_text(findings.openrouter_env_key),
                findings.openrouter_models@,
            );
            let chatgpt = chatgpt_entries(
                store.openai_subscribed,
                opt_creds(findings.chatgpt_creds),
                findings.chatgpt_models@,
            );
            let all = offered(store, visibility, findings);
            &&& visibility.openrouter && visibility.chatgpt ==> all == router + chatgpt
            &&& visibility.openrouter && !visibility.chatgpt ==> all == router
            &&& !visibility.openrouter && visibility.chatgpt ==> all == chatgpt
            &&& !visibility.openrouter && !visibility.chatgpt ==> all.len() == 0
        }),
{
    law_hidden_providers_add_nothing(store, visibility, findings, no_entries());
}

/// An endpoint uses the credentials of a connected provider exactly if its address,
/// without white space around it, is a URL that belongs to one.
pub proof fn law_endpoints_of_providers(base_url: Seq<char>, other: Seq<char>)
    ensures
        url_parts(trimmed(base_url)) matches Some(parts) ==> (uses_provider_credentials(base_url)
            <==> is_provider_url(parts)),
        url_parts(trimmed(base_url)) is None ==> !uses_provider_credentials(base_url),
        trimmed(other) == trimmed(base_url) ==> uses_provider_credentials(other)
            == uses_provider_credentials(base_url),
{
}

} // verus!
