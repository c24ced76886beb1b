use base64::engine::general_purpose::URL_SAFE_NO_PAD;
use base64::Engine;
use grok_providers::efforts::ReasoningEffort;
use grok_providers::extensions::{
    connect_step, disconnect, parse_connectable_provider, provider_answer, provider_method,
    ConnectParams, ConnectStep, ProviderMethod,
};
use grok_providers::json::{parse_json, Json};
use grok_providers::models::{EndpointsConfig, ModelEntry, ModelInfo, UiConfig};
use grok_providers::providers::credentials::{
    clear, load, load_from, resolve_api_key, save, save_chatgpt, set_api_key, store_from_json,
    ApiKeyCreds, ChatGptCreds, ProviderStore, SetKeyError, UnreadableStore,
};
use grok_providers::providers::openai_subscribed;
use grok_providers::providers::openai_subscribed::{
    catalog_effort_options, fallback_model_list, listed_models, parse_effort, CatalogModel,
    ModelServiceTier, ModelVisibility, ReasoningEffortPreset, CODEX_BASE_URL,
    DEFAULT_CODEX_CONTEXT_WINDOW,
};
use grok_providers::providers::openrouter;
use grok_providers::providers::openrouter::ListedModel;
use grok_providers::providers::subscription_tokens::{
    authorize_url, creds_from_tokens, exchange_form, extract_jwt_claims, finish_sign_in,
    handle_callback, redirect_uri, refresh_body, sign_in_from, start_sign_in, CallbackParams,
    SignInWait, TokenError, TokenResponse,
};
use grok_providers::providers::{
    catalog_questions, endpoint_uses_provider_credentials, fill_missing_provider, host_label,
    infer_provider, is_provider_endpoint, label_catalog, merge_from_store, ProviderFindings, ProviderId, ProviderVisibility,
};
use grok_providers::records::{Loose, LooseMember};
use grok_providers::sampling::ApiBackend;
use grok_providers::urls::UrlParts;
use indexmap::IndexMap;

const NOW_MS: u64 = 1_700_000_000_000;

fn nothing_found() -> ProviderFindings {
    ProviderFindings {
        openrouter_env_key: None,
        openrouter_models: vec![],
        chatgpt_creds: None,
        chatgpt_models: vec![],
    }
}

fn key(api_key: &str) -> ApiKeyCreds {
    ApiKeyCreds { api_key: api_key.into() }
}

fn creds(account_id: Option<&str>) -> ChatGptCreds {
    ChatGptCreds {
        access_token: "tok".into(),
        refresh_token: "ref".into(),
        expires_at_ms: u64::MAX,
        account_id: account_id.map(str::to_owned),
        email: None,
    }
}

fn with_key() -> ProviderStore {
    ProviderStore { openrouter: Some(key("sk-or-test")), openai_subscribed: None }
}

fn with_creds(account_id: Option<&str>) -> ProviderStore {
    ProviderStore { openrouter: None, openai_subscribed: Some(creds(account_id)) }
}

fn merged(store: &ProviderStore) -> IndexMap<String, ModelEntry> {
    let mut catalog = IndexMap::new();
    merge_from_store(&mut catalog, store, ProviderVisibility::default(), &nothing_found());
    catalog
}

#[test]
fn missing_file_is_empty_store() {
    let store = load_from(None).unwrap();
    assert!(store.openrouter.is_none());
    assert!(store.openai_subscribed.is_none());
}

#[test]
fn round_trip_api_key() {
    let text = save(&with_key());
    let loaded = load_from(Some(&text)).unwrap();
    assert_eq!(loaded.openrouter.as_ref().unwrap().api_key, "sk-or-test");
}

#[test]
fn resolve_prefers_stored_over_env() {
    assert_eq!(resolve_api_key(Some(&key("stored")), None), Some("stored".into()));
    assert_eq!(resolve_api_key(Some(&key(" stored ")), Some("env")), Some("stored".into()));
    assert_eq!(resolve_api_key(Some(&key("  ")), Some(" env ")), Some("env".into()));
    assert_eq!(resolve_api_key(None, Some(" ")), None);
    assert_eq!(resolve_api_key(None, None), None);
}

#[test]
fn stored_file_has_the_documented_shape() {
    let mut store = with_key();
    store.openai_subscribed = Some(creds(Some("acct")));
    let text = save(&store);
    assert_eq!(
        text,
        "{\n  \"openrouter\": {\n    \"api_key\": \"sk-or-test\"\n  },\n  \"openai_subscribed\": {\n    \"access_token\": \"tok\",\n    \"refresh_token\": \"ref\",\n    \"expires_at_ms\": 18446744073709551615,\n    \"account_id\": \"acct\"\n  }\n}"
    );
    let loaded = load(Some(&text));
    let read = loaded.openai_subscribed.unwrap();
    assert_eq!(read.expires_at_ms, u64::MAX);
    assert_eq!(read.account_id.as_deref(), Some("acct"));
    assert_eq!(read.email, None);
    assert_eq!(save(&ProviderStore::default()), "{}");
}

#[test]
fn unreadable_files_are_reported_and_loaded_as_empty() {
    assert!(load_from(Some("  ")).unwrap().openrouter.is_none());
    for text in [
        "{",
        "3",
        r#"{"openrouter":{}}"#,
        r#"{"openrouter":{"api_key":1}}"#,
        r#"{"openai_subscribed":{"access_token":"a","refresh_token":"b","expires_at_ms":-1}}"#,
        r#"{"openrouter":null,"openrouter":null}"#,
        r#"{"openrouter":{"api_key":"a","api_key":"a"}}"#,
        r#"{"openrouter":{"api_key":"a"}} x"#,
        r#"{"openrouter":{"api_key":"a"},"other":[1,]}"#,
        r#"[null,null,null]"#,
    ] {
        assert_eq!(load_from(Some(text)).err(), Some(UnreadableStore), "{text}");
        assert!(load(Some(text)).openrouter.is_none());
    }
    let partial = load_from(Some(r#"{"openrouter":null,"other":1}"#)).unwrap();
    assert!(partial.openrouter.is_none());
    let nested = format!("{}{}", "[".repeat(300), "]".repeat(300));
    let text = format!(
        r#"{{"other":1e999,"other":{nested},"openrouter":{{"x":{{}},"x":{nested},"api_key":"a"}}}}"#
    );
    assert_eq!(load_from(Some(&text)).unwrap().openrouter.unwrap().api_key, "a");
    assert_eq!(load_from(Some(r#"[["a"]]"#)).unwrap().openrouter.unwrap().api_key, "a");
}

#[test]
fn stores_are_read_from_given_values() {
    let member = |name: &str, value: Loose| LooseMember { name: name.into(), value };
    let text = |text: &str| Loose::Plain(Json::Text(text.into()));
    let store = store_from_json(&Loose::Named(vec![
        member("other", Loose::Unread),
        member("openrouter", Loose::Named(vec![member("api_key", text("a"))])),
        member("other", Loose::Unread),
    ]));
    assert_eq!(store.unwrap().openrouter.unwrap().api_key, "a");
    let twice = vec![member("api_key", text("a")), member("api_key", text("a"))];
    assert!(store_from_json(&Loose::Named(vec![member("openrouter", Loose::Named(twice))]))
        .is_none());
    assert!(store_from_json(&Loose::Named(vec![member("openrouter", Loose::Unread)])).is_none());
}

fn parts(scheme: &str, host: Option<&str>, path: &str) -> UrlParts {
    UrlParts { scheme: scheme.into(), host: host.map(String::from), path: path.into() }
}

#[test]
fn provider_endpoints_are_told_by_their_parts() {
    for (host, path, expected) in [
        ("openrouter.ai", "/api/v1", true),
        ("OpenRouter.AI", "/api/v1/chat//", true),
        ("chatgpt.com", "/backend-api/codex/", true),
        ("openrouter.ai", "/api/v10", false),
        ("openrouter.ai", "/backend-api/codex", false),
        ("openrouter.ai.evil.test", "/api/v1", false),
        ("evil-openrouter.ai", "/api/v1", false),
        ("chatgpt.com.evil.test", "/backend-api/codex", false),
        ("chatgpt.com", "/backend-api/codex2", false),
    ] {
        let parts = parts("https", Some(host), path);
        assert_eq!(is_provider_endpoint(&parts), expected, "{host}{path}");
    }
    assert!(!is_provider_endpoint(&parts("data", None, "/api/v1")));
    assert_eq!(host_label(&parts("https", Some("llm.test"), "/")), "llm.test");
    assert_eq!(host_label(&parts("file", Some(""), "/")), "Custom");
    assert_eq!(host_label(&parts("data", None, "x")), "Custom");
}

#[test]
fn storing_and_forgetting_credentials() {
    let mut store = ProviderStore::default();
    assert_eq!(set_api_key(&mut store, ProviderId::OpenRouter, "k".into()), Ok(()));
    assert_eq!(store.openrouter.as_ref().unwrap().api_key, "k");
    assert_eq!(
        set_api_key(&mut store, ProviderId::ChatGpt, "k".into()),
        Err(SetKeyError::ChatGptUsesOAuth)
    );
    assert_eq!(
        set_api_key(&mut store, ProviderId::Xai, "k".into()).unwrap_err().message(),
        "xAI uses /login"
    );
    assert_eq!(
        SetKeyError::ChatGptUsesOAuth.message(),
        "ChatGPT uses OAuth; run /connect chatgpt"
    );
    save_chatgpt(&mut store, creds(None));
    clear(&mut store, ProviderId::Xai);
    assert!(store.openrouter.is_some() && store.openai_subscribed.is_some());
    clear(&mut store, ProviderId::OpenRouter);
    assert!(store.openrouter.is_none() && store.openai_subscribed.is_some());
    clear(&mut store, ProviderId::ChatGpt);
    assert!(store.openai_subscribed.is_none());
}

#[test]
fn tokens_expire_five_minutes_early() {
    let mut creds = creds(None);
    creds.expires_at_ms = NOW_MS + 300_000;
    assert!(creds.is_expired(NOW_MS));
    creds.expires_at_ms += 1;
    assert!(!creds.is_expired(NOW_MS));
}

#[test]
fn infer_empty_url_is_xai() {
    assert_eq!(infer_provider("", None), "xAI");
}

#[test]
fn infer_xai_hosts() {
    assert_eq!(infer_provider("https://api.x.ai/v1", None), "xAI");
    assert_eq!(infer_provider("https://cli-chat-proxy.grok.com/v1", None), "xAI");
}

#[test]
fn infer_named_providers() {
    assert_eq!(infer_provider("https://openrouter.ai/api/v1", None), "OpenRouter");
    assert_eq!(
        infer_provider("https://chatgpt.com/backend-api/codex", None),
        "ChatGPT Subscription"
    );
    assert_eq!(infer_provider("https://api.openai.com/v1", None), "OpenAI");
    assert_eq!(infer_provider("https://api.anthropic.com", None), "Anthropic");
}

#[test]
fn infer_explicit_wins() {
    assert_eq!(infer_provider("https://openrouter.ai/api/v1", Some("Mine")), "Mine");
    assert_eq!(infer_provider("https://openrouter.ai/api/v1", Some("  ")), "OpenRouter");
}

#[test]
fn infer_other_hosts() {
    assert_eq!(infer_provider(" http://LLM.example:8080/v1 ", None), "llm.example");
    assert_eq!(infer_provider("not a url", None), "Custom");
    assert_eq!(infer_provider("data:text/plain,hi", None), "Custom");
    let mut info = ModelInfo::fallback("m");
    info.base_url = "https://host.test".into();
    info.provider = Some(" ".into());
    fill_missing_provider(&mut info);
    assert_eq!(info.provider.as_deref(), Some("host.test"));
    info.provider = Some(" kept ".into());
    fill_missing_provider(&mut info);
    assert_eq!(info.provider.as_deref(), Some(" kept "));
}

#[test]
fn provider_ids_round_trip() {
    for id in [ProviderId::Xai, ProviderId::OpenRouter, ProviderId::ChatGpt] {
        assert_eq!(ProviderId::parse(id.as_str()), Some(id));
    }
    assert_eq!(ProviderId::parse(" OR "), Some(ProviderId::OpenRouter));
    assert_eq!(ProviderId::parse("openai_subscribed"), Some(ProviderId::ChatGpt));
}

#[test]
fn merge_without_creds_only_fills_provider() {
    let mut catalog = IndexMap::new();
    let mut entry = ModelEntry::fallback("grok-4.5", &EndpointsConfig::default());
    entry.info.base_url = "https://api.x.ai/v1".into();
    catalog.insert("grok-4.5".into(), entry);
    merge_from_store(
        &mut catalog,
        &ProviderStore::default(),
        ProviderVisibility::default(),
        &nothing_found(),
    );
    assert_eq!(catalog.len(), 1);
    assert_eq!(catalog["grok-4.5"].info.provider.as_deref(), Some("xAI"));
}

#[test]
fn merge_injects_openrouter() {
    let catalog = merged(&with_key());
    assert!(catalog.contains_key("openrouter/auto"));
    assert!(!catalog.contains_key("chatgpt/gpt-5.4"));
}

#[test]
fn merge_injects_chatgpt_fallbacks() {
    let catalog = merged(&with_creds(None));
    assert!(catalog.contains_key("chatgpt/gpt-5.4"));
    assert_eq!(
        catalog["chatgpt/gpt-5.4"].info.provider.as_deref(),
        Some(openai_subscribed::PROVIDER_LABEL)
    );
}

#[test]
fn existing_catalog_key_wins() {
    let mut catalog = IndexMap::new();
    let mut entry = ModelEntry::fallback("openrouter/auto", &EndpointsConfig::default());
    entry.info.name = Some("Mine".into());
    catalog.insert("openrouter/auto".into(), entry);
    merge_from_store(
        &mut catalog,
        &with_key(),
        ProviderVisibility::default(),
        &nothing_found(),
    );
    assert_eq!(catalog["openrouter/auto"].info.name.as_deref(), Some("Mine"));
}

fn authenticated() -> ProviderStore {
    ProviderStore { openrouter: Some(key("sk-or-test")), openai_subscribed: Some(creds(None)) }
}

const HIDDEN: ProviderVisibility = ProviderVisibility { openrouter: false, chatgpt: false };

#[test]
fn disabled_connected_providers_are_not_merged() {
    let mut catalog = IndexMap::new();
    merge_from_store(&mut catalog, &authenticated(), HIDDEN, &nothing_found());
    assert!(!catalog.keys().any(|id| id.starts_with("openrouter/")));
    assert!(!catalog.keys().any(|id| id.starts_with("chatgpt/")));
}

#[test]
fn provider_catalog_merge_is_safe_on_current_thread_runtime() {
    let runtime = tokio::runtime::Builder::new_current_thread()
        .enable_all()
        .build()
        .expect("current-thread runtime");

    runtime.block_on(async {
        let mut catalog = IndexMap::new();
        merge_from_store(&mut catalog, &ProviderStore::default(), HIDDEN, &nothing_found());
    });
}

#[test]
fn disabled_authenticated_providers_do_not_contribute_models() {
    let store = ProviderStore {
        openrouter: Some(key("sk-or-test")),
        openai_subscribed: Some(ChatGptCreds {
            access_token: "access-test".into(),
            refresh_token: "refresh-test".into(),
            expires_at_ms: u64::MAX,
            account_id: None,
            email: None,
        }),
    };
    let mut catalog = IndexMap::new();
    merge_from_store(&mut catalog, &store, HIDDEN, &nothing_found());
    assert!(!catalog.keys().any(|id| id.starts_with("openrouter/")));
    assert!(!catalog.keys().any(|id| id.starts_with("chatgpt/")));
}

#[test]
fn visibility_follows_the_interface_settings() {
    let shown = |openrouter, chatgpt| {
        ProviderVisibility::from(&UiConfig {
            show_openrouter_models: openrouter,
            show_chatgpt_models: chatgpt,
        })
    };
    assert_eq!(shown(None, None), ProviderVisibility::default());
    assert_eq!(shown(Some(false), Some(false)), HIDDEN);
    let mut catalog = IndexMap::new();
    merge_from_store(
        &mut catalog,
        &authenticated(),
        shown(Some(false), None),
        &nothing_found(),
    );
    assert_eq!(catalog.len(), 6);
}

#[test]
fn only_connected_and_visible_providers_are_asked() {
    let store = authenticated();
    let seen = ProviderVisibility { openrouter: true, chatgpt: true };
    let asked = catalog_questions(&store, seen, Some("from-env"), NOW_MS);
    assert_eq!(asked.openrouter_key.as_deref(), Some("sk-or-test"));
    assert_eq!(asked.chatgpt_creds.unwrap().access_token, "tok");
    assert!(!asked.refresh_chatgpt);
    let hidden = catalog_questions(&store, HIDDEN, Some("from-env"), NOW_MS);
    assert!(hidden.openrouter_key.is_none() && hidden.chatgpt_creds.is_none());
    let none = catalog_questions(&ProviderStore::default(), seen, Some(" k "), NOW_MS);
    assert_eq!(none.openrouter_key.as_deref(), Some("k"));
    assert!(none.chatgpt_creds.is_none() && !none.refresh_chatgpt);
    let mut old = with_creds(None);
    old.openai_subscribed.as_mut().unwrap().expires_at_ms = NOW_MS + 300_000;
    assert!(catalog_questions(&old, seen, None, NOW_MS).refresh_chatgpt);
}

#[test]
fn labels_are_filled_on_every_entry() {
    let mut catalog = IndexMap::new();
    for (id, url) in [("a", "https://openrouter.ai/x"), ("b", "")] {
        let mut entry = ModelEntry::fallback(id, &EndpointsConfig::default());
        entry.info.base_url = url.into();
        catalog.insert(id.to_string(), entry);
    }
    label_catalog(&mut catalog);
    assert_eq!(catalog["a"].info.provider.as_deref(), Some("OpenRouter"));
    assert_eq!(catalog["b"].info.provider.as_deref(), Some("xAI"));
}

#[test]
fn no_key_yields_empty_catalog() {
    let store = ProviderStore::default();
    assert!(openrouter::catalog_entries(&store, None, &vec![]).is_empty());
}

#[test]
fn stored_key_injects_auto_router() {
    let catalog = openrouter::catalog_entries(&with_key(), None, &vec![]);
    assert!(catalog.contains_key("openrouter/auto"));
    let auto = &catalog["openrouter/auto"];
    assert_eq!(auto.info.provider.as_deref(), Some(openrouter::PROVIDER_LABEL));
    assert_eq!(auto.info.base_url, openrouter::API_URL);
    assert_eq!(auto.info.api_backend, ApiBackend::Responses);
    assert_eq!(
        auto.info.extra_headers.get("X-OpenRouter-Title").map(String::as_str),
        Some(openrouter::TITLE)
    );
    assert_eq!(auto.api_key.as_deref(), Some("sk-or-test"));
    assert_eq!(auto.info.context_window, 2_000_000);
    assert_eq!(auto.env_key.as_ref().unwrap().names, ["OPENROUTER_API_KEY"]);
}

#[test]
fn listed_openrouter_models_are_offered_once() {
    let listed = |id: &str, name: &str, context_length, parameters: &[&str]| ListedModel {
        id: id.into(),
        name: name.into(),
        context_length,
        supported_parameters: parameters.iter().map(|p| p.to_string()).collect(),
    };
    let models = vec![
        listed("auto", "Another", None, &[]),
        listed("x/y", "Vendor: Model ", None, &["tools", "Reasoning"]),
        listed("x/y", "Again", Some(7), &[]),
        listed("z", "Plain", Some(0), &[]),
    ];
    let catalog = openrouter::catalog_entries(&ProviderStore::default(), Some(" env "), &models);
    let ids: Vec<_> = catalog.keys().map(String::as_str).collect();
    assert_eq!(ids, ["openrouter/auto", "openrouter/x/y", "openrouter/z"]);
    assert_eq!(catalog["openrouter/auto"].info.name.as_deref(), Some("Auto Router"));
    let xy = &catalog["openrouter/x/y"];
    assert_eq!(xy.info.name.as_deref(), Some("Model"));
    assert_eq!(xy.info.model, "x/y");
    assert_eq!(xy.info.context_window, 200_000);
    assert!(xy.info.supports_reasoning_effort);
    assert_eq!(xy.api_key.as_deref(), Some("env"));
    assert_eq!(catalog["openrouter/z"].info.context_window, 1);
    assert!(!catalog["openrouter/z"].info.supports_reasoning_effort);
}

#[test]
fn no_creds_yields_empty() {
    assert!(
        openai_subscribed::catalog_entries(&ProviderStore::default(), None, &vec![]).is_empty()
    );
}

#[test]
fn stored_creds_inject_fallback_models() {
    let store = ProviderStore {
        openrouter: None,
        openai_subscribed: Some(ChatGptCreds {
            access_token: "tok".into(),
            refresh_token: "ref".into(),
            expires_at_ms: NOW_MS + 60_000,
            account_id: Some("acct".into()),
            email: Some("user@example.com".into()),
        }),
    };
    let catalog = openai_subscribed::catalog_entries(&store, None, &vec![]);
    assert!(catalog.contains_key("chatgpt/gpt-5.4"));
    let model = &catalog["chatgpt/gpt-5.4"];
    assert_eq!(model.info.provider.as_deref(), Some(openai_subscribed::PROVIDER_LABEL));
    assert_eq!(model.info.api_backend, ApiBackend::Responses);
    assert_eq!(model.info.base_url, CODEX_BASE_URL);
    assert_eq!(model.info.extra_headers.get("originator").map(String::as_str), Some("grog"));
    assert_eq!(
        model.info.extra_headers.get("chatgpt-account-id").map(String::as_str),
        Some("acct")
    );
    assert!(model.info.supports_reasoning_effort);
    assert!(model.info.supports_fast_mode);
    assert!(!catalog["chatgpt/gpt-5.4-mini"].info.supports_fast_mode);
    for (model_id, model) in &catalog {
        assert_eq!(
            model.info.reasoning_effort,
            Some(ReasoningEffort::High),
            "{model_id} must default to high reasoning effort",
        );
        let defaults: Vec<_> = model
            .info
            .reasoning_efforts
            .iter()
            .filter(|option| option.default)
            .map(|option| option.value)
            .collect();
        assert_eq!(
            defaults,
            vec![ReasoningEffort::High],
            "{model_id} must expose high as its only menu default",
        );
    }
}

fn live(slug: &str, display_name: &str, efforts: &[&str]) -> CatalogModel {
    CatalogModel {
        slug: slug.into(),
        display_name: display_name.into(),
        supported_reasoning_levels: efforts
            .iter()
            .map(|e| ReasoningEffortPreset { effort: e.to_string() })
            .collect(),
        context_window: None,
        visibility: ModelVisibility::List,
        priority: 0,
        additional_speed_tiers: vec![],
        service_tiers: vec![],
    }
}

/// A model as the subscription lists it; what is not named here is not read.
fn listed_record(record: &str) -> CatalogModel {
    let record = parse_json(record).unwrap();
    let items = |name: &str| record.get(name).and_then(Json::as_items);
    CatalogModel {
        slug: record.get_text("slug").unwrap().into(),
        display_name: record.get_text("display_name").unwrap().into(),
        supported_reasoning_levels: items("supported_reasoning_levels")
            .into_iter()
            .flatten()
            .map(|level| ReasoningEffortPreset { effort: level.get_text("effort").unwrap().into() })
            .collect(),
        context_window: record.get("context_window").and_then(Json::as_unsigned),
        visibility: ModelVisibility::List,
        priority: 0,
        additional_speed_tiers: items("additional_speed_tiers")
            .into_iter()
            .flatten()
            .map(|tier| tier.as_text().unwrap().into())
            .collect(),
        service_tiers: items("service_tiers")
            .into_iter()
            .flatten()
            .map(|tier| ModelServiceTier { id: tier.get_text("id").unwrap().into() })
            .collect(),
    }
}

#[test]
fn live_catalog_efforts_override_upstream_default_with_high() {
    let model = listed_record(
        r#"{"slug": "gpt-live", "display_name": "GPT Live", "default_reasoning_level": "low",
            "supported_reasoning_levels": [
                { "effort": "low" }, { "effort": "medium" }, { "effort": "high" }]}"#,
    );
    let options = catalog_effort_options(&model);
    assert_eq!(
        options.iter().find(|option| option.default).map(|option| option.value),
        Some(ReasoningEffort::High),
    );
    assert_eq!(options.iter().filter(|option| option.default).count(), 1);
}

#[test]
fn live_catalog_efforts_add_high_when_upstream_omits_it() {
    let model = listed_record(
        r#"{"slug": "gpt-live", "display_name": "GPT Live",
            "supported_reasoning_levels": [{ "effort": "low" }]}"#,
    );
    let options = catalog_effort_options(&model);
    assert!(options
        .iter()
        .any(|option| option.value == ReasoningEffort::High && option.default));
}

#[test]
fn live_catalog_efforts_are_read_once_each() {
    let model = live("m", "M", &[" Max ", "xhigh", "odd", "NONE"]);
    let options = catalog_effort_options(&model);
    let rows: Vec<_> = options.iter().map(|o| (o.id.as_str(), o.value)).collect();
    assert_eq!(
        rows,
        [
            ("Max", ReasoningEffort::Xhigh),
            ("NONE", ReasoningEffort::Off),
            ("high", ReasoningEffort::High),
        ]
    );
    assert_eq!(parse_effort(None), None);
    assert_eq!(parse_effort(Some(" Minimal")), Some(ReasoningEffort::Minimal));
}

#[test]
fn fallback_catalog_uses_active_context_window() {
    let store = ProviderStore {
        openrouter: None,
        openai_subscribed: Some(ChatGptCreds {
            access_token: "tok".into(),
            refresh_token: "ref".into(),
            expires_at_ms: NOW_MS + 60_000,
            account_id: None,
            email: None,
        }),
    };
    let catalog = openai_subscribed::catalog_entries(&store, None, &vec![]);
    for model in fallback_model_list() {
        let catalog_id = format!("chatgpt/{}", model.id);
        assert_eq!(
            catalog[&catalog_id].info.context_window,
            DEFAULT_CODEX_CONTEXT_WINDOW,
            "{} must use the active Codex prompt window",
            model.id,
        );
    }
    assert_eq!(catalog.len(), fallback_model_list().len());
    assert!(catalog["chatgpt/gpt-5.5"].info.extra_headers.get("chatgpt-account-id").is_none());
}

#[test]
fn max_context_window_is_not_the_active_window() {
    let mut model = listed_record(
        r#"{"slug": "gpt-5.6-sol", "display_name": "GPT-5.6 Sol", "context_window": null,
            "max_context_window": 872000}"#,
    );
    assert_eq!(model.effective_context_window(), DEFAULT_CODEX_CONTEXT_WINDOW);
    model.context_window = Some(0);
    assert_eq!(model.effective_context_window(), 1);
}

#[test]
fn catalog_speed_metadata_enables_fast_mode() {
    let by_speed = listed_record(
        r#"{"slug": "gpt-fast", "display_name": "GPT Fast", "additional_speed_tiers": ["fast"]}"#,
    );
    assert!(by_speed.supports_fast_mode());
    assert!(!live("gpt-fast", "GPT Fast", &[]).supports_fast_mode());

    let by_service_tier = listed_record(
        r#"{"slug": "gpt-priority", "display_name": "GPT Priority",
            "service_tiers": [{ "id": "priority" }]}"#,
    );
    assert!(by_service_tier.supports_fast_mode());
}

#[test]
fn discovered_models_are_offered_with_fresh_tokens() {
    let mut fresh = creds(None);
    fresh.access_token = "fresh".into();
    let models = vec![live("one", "One", &["low"]), live("two", "Two", &[])];
    let catalog =
        openai_subscribed::catalog_entries(&with_creds(Some("acct")), Some(&fresh), &models);
    let ids: Vec<_> = catalog.keys().map(String::as_str).collect();
    assert_eq!(ids, ["chatgpt/one", "chatgpt/two"]);
    let one = &catalog["chatgpt/one"];
    assert_eq!(one.api_key.as_deref(), Some("fresh"));
    assert!(one.info.extra_headers.get("chatgpt-account-id").is_none());
    assert_eq!(one.info.reasoning_efforts.len(), 2);
    assert!(one.env_key.is_none());
}

#[test]
fn hidden_models_are_dropped_and_the_rest_sorted() {
    let ranked = |slug: &str, priority, visibility| CatalogModel {
        priority,
        visibility,
        ..live(slug, slug, &[])
    };
    let kept = listed_models(vec![
        ranked("a", 2, ModelVisibility::List),
        ranked("b", 1, ModelVisibility::Hide),
        ranked("c", -1, ModelVisibility::List),
        ranked("d", 2, ModelVisibility::List),
        ranked("e", 0, ModelVisibility::Unlisted),
    ]);
    let slugs: Vec<_> = kept.iter().map(|m| m.slug.as_str()).collect();
    assert_eq!(slugs, ["c", "a", "d"]);
}

#[test]
fn openrouter_uses_the_unified_responses_endpoint() {
    assert_eq!(openrouter::API_URL, "https://openrouter.ai/api/v1");
    assert_eq!(openrouter::API_BACKEND, ApiBackend::Responses);
    assert!(ProviderId::parse("opencode").is_none());
}

#[test]
fn connected_provider_endpoints_do_not_inherit_ambient_xai_auth() {
    assert!(endpoint_uses_provider_credentials("https://chatgpt.com/backend-api/codex"));
    assert!(endpoint_uses_provider_credentials("https://openrouter.ai/api/v1"));
    assert!(!endpoint_uses_provider_credentials("https://api.x.ai/v1"));
    assert!(!endpoint_uses_provider_credentials(
        "https://chatgpt.com.evil.example/backend-api/codex"
    ));
    assert!(endpoint_uses_provider_credentials(" https://OpenRouter.ai/api/v1/models "));
    assert!(!endpoint_uses_provider_credentials("https://openrouter.ai/api/v10"));
    assert!(!endpoint_uses_provider_credentials("nonsense"));
}

#[test]
fn jwt_extracts_chatgpt_account_id() {
    let payload = URL_SAFE_NO_PAD
        .encode(r#"{"chatgpt_account_id":"acct-1","email":"a@b.c","exp":1900000000}"#);
    let jwt = format!("h.{payload}.s");
    let claims = extract_jwt_claims(&jwt);
    assert_eq!(claims.account_id.as_deref(), Some("acct-1"));
    assert_eq!(claims.email.as_deref(), Some("a@b.c"));
    assert_eq!(claims.expires_at_ms, Some(1_900_000_000_000));
}

#[test]
fn unreadable_tokens_claim_nothing() {
    for token in ["", "a", "a.%%.c", "a.e30.c"] {
        let claims = extract_jwt_claims(token);
        assert!(claims.account_id.is_none() && claims.expires_at_ms.is_none(), "{token}");
    }
    let nested = URL_SAFE_NO_PAD.encode(r#"{"organizations":[{"id":"org"}],"exp":99999999999999999}"#);
    let claims = extract_jwt_claims(&format!(".{nested}"));
    assert_eq!(claims.account_id.as_deref(), Some("org"));
    assert_eq!(claims.expires_at_ms, Some(u64::MAX));
}

fn answer(access: Option<&str>, refresh: Option<&str>, expires_in: Option<u64>) -> TokenResponse {
    TokenResponse {
        access_token: access.map(str::to_owned),
        refresh_token: refresh.map(str::to_owned),
        expires_in,
        id_token: None,
        email: None,
    }
}

#[test]
fn refresh_token_patch_preserves_omitted_stored_fields() {
    let previous = ChatGptCreds {
        access_token: "old-access".into(),
        refresh_token: "old-refresh".into(),
        expires_at_ms: 123,
        account_id: Some("acct-1".into()),
        email: Some("user@example.com".into()),
    };
    let refreshed =
        creds_from_tokens(answer(Some("new-access"), None, Some(3600)), Some(&previous), NOW_MS)
            .unwrap();

    assert_eq!(refreshed.access_token, "new-access");
    assert_eq!(refreshed.refresh_token, "old-refresh");
    assert_eq!(refreshed.account_id.as_deref(), Some("acct-1"));
    assert_eq!(refreshed.email.as_deref(), Some("user@example.com"));
    assert!(refreshed.expires_at_ms > NOW_MS);
    assert_eq!(refreshed.expires_at_ms, NOW_MS + 3_600_000);
}

#[test]
fn token_answers_need_both_tokens() {
    let refused = |tokens| creds_from_tokens(tokens, None, NOW_MS).unwrap_err();
    assert_eq!(refused(answer(None, Some("r"), None)), TokenError::NoAccessToken);
    assert_eq!(refused(answer(Some(""), Some("r"), None)), TokenError::NoAccessToken);
    assert_eq!(refused(answer(Some("a"), None, None)), TokenError::NoRefreshToken);
    assert_eq!(
        TokenError::NoAccessToken.message(),
        "ChatGPT token response omitted access_token"
    );
    assert_eq!(
        TokenError::NoRefreshToken.message(),
        "ChatGPT token response omitted refresh_token"
    );
    let made = creds_from_tokens(answer(Some("a"), Some("r"), None), None, NOW_MS).unwrap();
    assert_eq!(made.expires_at_ms, NOW_MS + 3_600_000);
    let far = creds_from_tokens(answer(Some("a"), Some("r"), Some(u64::MAX)), None, NOW_MS);
    assert_eq!(far.unwrap().expires_at_ms, u64::MAX);
    let payload = URL_SAFE_NO_PAD.encode(r#"{"email":"x@y.z","exp":5}"#);
    let claimed =
        creds_from_tokens(answer(Some(&format!("h.{payload}.s")), Some("r"), None), None, 0)
            .unwrap();
    assert_eq!(claimed.expires_at_ms, 5000);
    assert_eq!(claimed.email.as_deref(), Some("x@y.z"));
}

#[test]
fn token_requests_have_the_codex_shape() {
    assert!(refresh_body(&creds(None)).same(
        &parse_json(
            r#"{"grant_type":"refresh_token","client_id":"app_EMoamEEZ73f0CkXaXp7hrann","refresh_token":"ref"}"#
        )
        .unwrap()
    ));
    let form = exchange_form("c", "v", "r");
    let pairs: Vec<_> = form.iter().map(|(k, v)| (k.as_str(), v.as_str())).collect();
    assert_eq!(
        pairs,
        [
            ("grant_type", "authorization_code"),
            ("client_id", "app_EMoamEEZ73f0CkXaXp7hrann"),
            ("code", "c"),
            ("redirect_uri", "r"),
            ("code_verifier", "v"),
        ]
    );
}

#[test]
fn sign_in_url_carries_the_challenge_and_state() {
    let sign_in = sign_in_from(&[0; 32], &[0x0a, 0xff]);
    assert_eq!(sign_in.state, "0aff");
    assert_eq!(sign_in.pkce.verifier, "A".repeat(43));
    let url = authorize_url(&redirect_uri(1457), &sign_in);
    assert_eq!(
        url,
        format!(
            "https://auth.openai.com/oauth/authorize?client_id=app_EMoamEEZ73f0CkXaXp7hrann&redirect_uri=http%3A%2F%2Flocalhost%3A1457%2Fauth%2Fcallback&scope=openid+profile+email+offline_access+api.connectors.read+api.connectors.invoke&response_type=code&code_challenge={}&code_challenge_method=S256&id_token_add_organizations=true&state=0aff&codex_cli_simplified_flow=true&originator=grog",
            sign_in.pkce.challenge
        )
    );
    let fresh = start_sign_in();
    assert_eq!(fresh.pkce.verifier.len(), 43);
    assert_eq!(fresh.state.len(), 32);
    assert_ne!(fresh.state, start_sign_in().state);
}

fn callback(
    error: Option<&str>,
    description: Option<&str>,
    code: Option<&str>,
    state: Option<&str>,
) -> CallbackParams {
    CallbackParams {
        error: error.map(str::to_owned),
        error_description: description.map(str::to_owned),
        code: code.map(str::to_owned),
        state: state.map(str::to_owned),
    }
}

#[test]
fn sign_in_callback_needs_code_and_state() {
    let ok = callback(None, None, Some("auth-code"), Some("expected-state"));
    let (result, page) = handle_callback(&ok, "expected-state");
    assert_eq!(result, Ok("auth-code".to_string()));
    assert_eq!(page.status, 200);
    assert_eq!(page.title, "Signed in to ChatGPT");
    assert_eq!(page.message, "You can close this tab and return to GROG.");
    assert!(page.is_success);

    let refused = |params: CallbackParams| {
        let (result, page) = handle_callback(&params, "s");
        assert_eq!(page.status, 400);
        assert_eq!(page.title, "ChatGPT sign-in failed");
        assert!(!page.is_success);
        let error = result.unwrap_err();
        assert_eq!(page.message, error);
        error
    };
    assert_eq!(refused(callback(Some("e"), Some("d"), Some("c"), Some("s"))), "e: d");
    assert_eq!(refused(callback(Some("e"), Some(""), None, None)), "e");
    assert_eq!(refused(callback(None, None, None, Some("s"))), "Missing authorization code");
    assert_eq!(refused(callback(None, None, Some("c"), Some("t"))), "OAuth state mismatch");
    assert_eq!(refused(callback(None, None, Some("c"), None)), "OAuth state mismatch");
}

#[test]
fn sign_in_ends_with_a_code_or_a_reason() {
    assert_eq!(
        finish_sign_in(SignInWait::TimedOut),
        Err("ChatGPT sign-in timed out after 10 minutes".to_string())
    );
    assert_eq!(
        finish_sign_in(SignInWait::Cancelled),
        Err("ChatGPT sign-in was cancelled".to_string())
    );
    assert_eq!(finish_sign_in(SignInWait::Ended(Err("e".into()))), Err("e".to_string()));
    assert_eq!(finish_sign_in(SignInWait::Ended(Ok("c".into()))), Ok("c".to_string()));
}

fn connect(provider: &str, api_key: Option<&str>) -> ConnectParams {
    ConnectParams { provider: provider.into(), api_key: api_key.map(str::to_owned) }
}

#[test]
fn provider_requests_are_decided() {
    assert_eq!(provider_method("x.ai/providers/connect"), Some(ProviderMethod::Connect));
    assert_eq!(provider_method("x.ai/providers/disconnect"), Some(ProviderMethod::Disconnect));
    assert_eq!(provider_method("x.ai/providers/other"), None);

    match connect_step(&connect("OR", Some(" k "))).unwrap() {
        (ProviderId::OpenRouter, ConnectStep::StoreKey(k)) => assert_eq!(k, "k"),
        other => panic!("expected a key to store, got {other:?}"),
    }
    assert!(matches!(
        connect_step(&connect("codex", None)),
        Ok((ProviderId::ChatGpt, ConnectStep::SignIn))
    ));
    assert_eq!(
        connect_step(&connect("openrouter", Some(" "))).unwrap_err().message(),
        "apiKey required"
    );
    assert_eq!(
        parse_connectable_provider("grok").unwrap_err().message(),
        "unknown provider: grok"
    );

    let mut store = authenticated();
    assert_eq!(
        disconnect(&mut store, "nope").unwrap_err().message(),
        "unknown provider: nope"
    );
    assert!(store.openrouter.is_some());
    assert_eq!(disconnect(&mut store, "or").unwrap(), ProviderId::OpenRouter);
    assert!(store.openrouter.is_none() && store.openai_subscribed.is_some());
    assert!(provider_answer(ProviderId::ChatGpt, 7)
        .same(&parse_json(r#"{"ok":true,"provider":"chatgpt","models":7}"#).unwrap()));
}
