use base64::engine::general_purpose::URL_SAFE_NO_PAD;
use base64::Engine;
use grok_providers::auth::chatgpt::login::{
    auth_from_tokens, build_authorize_url, callback_message, callback_uri, exchange_request,
    finish_login, generate_pkce, generate_state, persist_openai_auth, read_callback,
    simple_callback_page, state_from, Callback, CallbackWait, TokenResponse,
};
use grok_providers::auth::chatgpt::refresh::{
    refresh_refused, refresh_request, refreshed_auth, RefreshError,
};
use grok_providers::auth::chatgpt::token::{
    account_id_from_tokens, claims_from_value, email_from_tokens, extract_account_id,
    extract_email, is_unsecured_token, names_no_algorithm, parse_jwt_claims,
};
use grok_providers::auth::model::{
    AuthMode, AuthProfile, AuthStore, GrokAuth, Timestamp, API_KEY_SCOPE, XAI_OAUTH2_ISSUER,
};
use grok_providers::auth::provider::{
    active_provider, format_provider_status, grok_default_oauth_scope, is_grok_provider_auth,
    is_openai_auth, load_provider_config, lookup_provider_auth, openai_auth_scope,
    provider_statuses, ProviderConfig, ProviderId, OPENAI_OAUTH_CLIENT_ID, OPENAI_OAUTH_ISSUER,
};
use grok_providers::encoding::{pkce_from, Pkce};
use grok_providers::json::{parse_json, Json};
use grok_providers::records::{read_loose, Loose, LooseMember};
use grok_providers::openai_models::{openai_builtin_models, openai_provider_active};
use grok_providers::privacy::optional_uploads_disabled;
use grok_providers::providers::subscription_tokens::CallbackParams;
use grok_providers::sampling::{ApiBackend, AuthScheme};

const NOW: Timestamp = Timestamp { secs: 1_700_000_000, nanos: 5 };

fn blank() -> GrokAuth {
    GrokAuth {
        key: String::new(),
        auth_mode: AuthMode::ApiKey,
        create_time: NOW,
        user_id: String::new(),
        email: None,
        refresh_token: None,
        expires_at: None,
        oidc_issuer: None,
        oidc_client_id: None,
        chatgpt_account_id: None,
        has_grok_code_access: None,
        profile: AuthProfile::default(),
    }
}

fn sample_auth(issuer: &str, client_id: &str) -> GrokAuth {
    GrokAuth {
        key: "tok".into(),
        auth_mode: AuthMode::Oidc,
        create_time: NOW,
        user_id: "u".into(),
        oidc_issuer: Some(issuer.into()),
        oidc_client_id: Some(client_id.into()),
        ..blank()
    }
}

#[test]
fn parse_aliases() {
    assert_eq!(ProviderId::parse("GROK"), Some(ProviderId::Grok));
    assert_eq!(ProviderId::parse("chatgpt"), Some(ProviderId::Openai));
    assert_eq!(ProviderId::parse("codex"), Some(ProviderId::Openai));
    assert_eq!(ProviderId::parse("nope"), None);
    for id in [ProviderId::Grok, ProviderId::Openai] {
        assert_eq!(ProviderId::parse(id.as_str()), Some(id));
    }
}

#[test]
fn openai_scope_matches_codex_client() {
    assert_eq!(
        openai_auth_scope(),
        "https://auth.openai.com::app_EMoamEEZ73f0CkXaXp7hrann"
    );
    assert_eq!(
        grok_default_oauth_scope(),
        "https://auth.x.ai::b1a00492-073a-47ea-816f-4c329264a828"
    );
}

#[test]
fn is_openai_auth_detects_issuer() {
    let a = sample_auth(OPENAI_OAUTH_ISSUER, OPENAI_OAUTH_CLIENT_ID);
    assert!(is_openai_auth(&a));
    assert!(!is_grok_provider_auth(&a));
    let g = sample_auth(XAI_OAUTH2_ISSUER, "b1a00492-073a-47ea-816f-4c329264a828");
    assert!(!is_openai_auth(&g));
    assert!(is_grok_provider_auth(&g));
    assert!(is_openai_auth(&sample_auth("https://auth.openai.com//", "other")));
}

#[test]
fn lookup_separates_providers() {
    let mut map = AuthStore::new();
    map.insert(
        openai_auth_scope(),
        sample_auth(OPENAI_OAUTH_ISSUER, OPENAI_OAUTH_CLIENT_ID),
    );
    map.insert(
        grok_default_oauth_scope(),
        sample_auth(XAI_OAUTH2_ISSUER, "b1a00492-073a-47ea-816f-4c329264a828"),
    );
    assert!(lookup_provider_auth(&map, ProviderId::Openai).is_some());
    assert!(lookup_provider_auth(&map, ProviderId::Grok).is_some());
}

#[test]
fn grok_credentials_are_looked_up_by_preference() {
    let keyed = |key: &str, mode| GrokAuth {
        key: key.into(),
        auth_mode: mode,
        ..blank()
    };
    let mut map = AuthStore::new();
    map.insert(openai_auth_scope(), sample_auth(OPENAI_OAUTH_ISSUER, OPENAI_OAUTH_CLIENT_ID));
    assert!(lookup_provider_auth(&map, ProviderId::Grok).is_none());
    map.insert("a".into(), keyed("web", AuthMode::WebLogin));
    assert!(lookup_provider_auth(&map, ProviderId::Grok).is_none());
    map.insert("b".into(), keyed("ext", AuthMode::External));
    assert_eq!(lookup_provider_auth(&map, ProviderId::Grok).unwrap().key, "ext");
    map.insert(API_KEY_SCOPE.into(), keyed("api", AuthMode::ApiKey));
    assert_eq!(lookup_provider_auth(&map, ProviderId::Grok).unwrap().key, "api");
    map.insert(grok_default_oauth_scope(), keyed("oauth", AuthMode::Oidc));
    assert_eq!(lookup_provider_auth(&map, ProviderId::Grok).unwrap().key, "oauth");
}

#[test]
fn environment_wins_over_the_configured_provider() {
    let root = parse_json(r#"{"provider":{"active":"openai"}}"#).unwrap();
    let config = load_provider_config(Some(&root));
    assert_eq!(config.active, Some(ProviderId::Openai));
    assert_eq!(active_provider(None, &config), ProviderId::Openai);
    assert_eq!(active_provider(Some(" XAI "), &config), ProviderId::Grok);
    assert_eq!(active_provider(Some("nope"), &config), ProviderId::Openai);
    assert!(openai_provider_active(None, &config));
    assert!(!openai_provider_active(Some("grok"), &config));
    let none = ProviderConfig { active: None };
    assert_eq!(none.active_or_default(), ProviderId::Grok);
    assert_eq!(load_provider_config(None), none);
    let odd = parse_json(r#"{"provider":{"active":"nope"}}"#).unwrap();
    assert_eq!(load_provider_config(Some(&odd)), none);
}

#[test]
fn status_lines_name_the_account() {
    let mut map = AuthStore::new();
    let mut auth = sample_auth(OPENAI_OAUTH_ISSUER, OPENAI_OAUTH_CLIENT_ID);
    auth.email = Some("a@b.c".into());
    auth.chatgpt_account_id = Some("acct-1".into());
    map.insert(openai_auth_scope(), auth);
    let statuses = provider_statuses(&map, ProviderId::Openai);
    assert_eq!(statuses.len(), 2);
    assert!(!statuses[0].logged_in && !statuses[0].active);
    assert_eq!(statuses[1].account_label.as_deref(), Some("acct-1"));
    assert_eq!(
        format_provider_status(&statuses),
        "Providers:\n    Grok (xAI) — not logged in\n  * OpenAI (ChatGPT OAuth) — logged in as a@b.c (acct-1)\n\nUsage: /provider <grok|openai> | /provider login <grok|openai>"
    );
    let mut teamed = blank();
    teamed.profile.team_name = Some("team".into());
    let mut map = AuthStore::new();
    map.insert(API_KEY_SCOPE.into(), teamed);
    let text = format_provider_status(&provider_statuses(&map, ProviderId::Openai));
    assert!(text.contains("    Grok (xAI) — logged in (team)\n"));
}

#[test]
fn authorize_url_contains_codex_params() {
    let pkce = generate_pkce();
    let url = build_authorize_url("http://localhost:1455/auth/callback", &pkce, "state123");
    assert!(url.contains("codex_cli_simplified_flow=true"));
    assert!(url.contains("id_token_add_organizations=true"));
    assert!(url.contains("client_id=app_EMoamEEZ73f0CkXaXp7hrann"));
    assert!(url.contains("originator=grok_build"));
    assert!(url.starts_with("https://auth.openai.com/oauth/authorize?"));
}

#[test]
fn authorize_url_encodes_what_it_is_given() {
    let pkce = Pkce { verifier: "v".into(), challenge: "c/d".into() };
    assert_eq!(
        build_authorize_url(&callback_uri(1455), &pkce, "s t"),
        "https://auth.openai.com/oauth/authorize?response_type=code&client_id=app_EMoamEEZ73f0CkXaXp7hrann&redirect_uri=http%3A%2F%2Flocalhost%3A1455%2Fauth%2Fcallback&scope=openid%20profile%20email%20offline_access&code_challenge=c%2Fd&code_challenge_method=S256&id_token_add_organizations=true&codex_cli_simplified_flow=true&state=s%20t&originator=grok_build"
    );
}

#[test]
fn pkce_challenge_is_the_hash_of_the_verifier() {
    let pkce = pkce_from(&[
        116, 24, 223, 180, 151, 153, 224, 37, 79, 250, 96, 125, 216, 173, 187, 186, 22, 212, 37,
        77, 105, 214, 191, 240, 91, 88, 5, 88, 83, 132, 141, 121,
    ]);
    assert_eq!(pkce.verifier, "dBjftJeZ4CVP-mB92K27uhbUJU1p1r_wW1gFWFOEjXk");
    assert_eq!(pkce.challenge, "E9Melhoa2OwvFrEMTJguCHaoeK1t8URWbuGJSstw-cM");
    assert_eq!(generate_pkce().verifier.len(), 86);
    assert_eq!(generate_state().len(), 43);
    assert_ne!(generate_state(), generate_state());
    assert_eq!(state_from(&[0xff, 0xfe]), "__4");
}

fn jwt(payload: &str) -> String {
    format!(
        "{}.{}.sig",
        URL_SAFE_NO_PAD.encode(r#"{"alg":"none"}"#),
        URL_SAFE_NO_PAD.encode(payload)
    )
}

#[test]
fn extracts_account_from_nested_claim() {
    let token =
        jwt(r#"{"https://api.openai.com/auth":{"chatgpt_account_id":"acct-1"},"email":"a@b.c"}"#);
    let claims = parse_jwt_claims(&token).unwrap();
    assert_eq!(extract_account_id(&claims).as_deref(), Some("acct-1"));
    assert_eq!(extract_email(&claims).as_deref(), Some("a@b.c"));
}

fn account(payload: &str) -> Option<String> {
    extract_account_id(&claims_from_value(&read_loose(payload.as_bytes(), 3)).unwrap())
}

#[test]
fn account_claims_are_taken_in_order() {
    let all = r#"{"chatgpt_account_id":"a","https://api.openai.com/auth":{"chatgpt_account_id":"b"},"organizations":[{"id":"c"}]}"#;
    assert_eq!(account(all).as_deref(), Some("a"));
    let two = r#"{"https://api.openai.com/auth":{},"organizations":[{"id":"c"},{"id":"d"}]}"#;
    assert_eq!(account(two).as_deref(), Some("c"));
    assert_eq!(account(r#"{"chatgpt_account_id":"","organizations":[{"id":"c"}]}"#), None);
    assert_eq!(account(r#"{"organizations":[]}"#), None);
    assert!(claims_from_value(&read_loose(br#"{"email":3}"#, 3)).is_none());
    assert!(parse_jwt_claims("not a token").is_none());
}

fn text_claim(name: &str, text: &str) -> LooseMember {
    LooseMember { name: name.into(), value: Loose::Plain(Json::Text(text.into())) }
}

#[test]
fn claims_are_read_from_given_values() {
    let claims = claims_from_value(&Loose::Named(vec![
        text_claim("email", "a@b.c"),
        LooseMember { name: "exp".into(), value: Loose::Unread },
        LooseMember {
            name: "organizations".into(),
            value: Loose::Listed(vec![Loose::Named(vec![text_claim("id", "c")])]),
        },
    ]))
    .unwrap();
    assert_eq!(extract_email(&claims).as_deref(), Some("a@b.c"));
    assert_eq!(extract_account_id(&claims).as_deref(), Some("c"));
    let repeated = vec![text_claim("email", "a@b.c"), text_claim("email", "a@b.c")];
    assert!(claims_from_value(&Loose::Named(repeated)).is_none());
    let in_order = vec![
        Loose::Plain(Json::Text("a@b.c".into())),
        Loose::Plain(Json::Text("acct".into())),
    ];
    let claims = claims_from_value(&Loose::Listed(in_order)).unwrap();
    assert_eq!(extract_account_id(&claims).as_deref(), Some("acct"));
    assert!(claims_from_value(&Loose::Unread).is_none());
}

#[test]
fn only_known_claims_are_looked_into() {
    let nested = format!("{}{}", "[".repeat(300), "]".repeat(300));
    let token = jwt(&format!(
        r#" {{"aud":1,"aud":2,"far":1e999,"deep":{nested},"half":"\ud800","email":"a@b.c"}} "#
    ));
    assert_eq!(email_from_tokens(None, &token).as_deref(), Some("a@b.c"));
    for payload in [
        r#"{"email":"a","email":"a"}"#,
        r#"{"chatgpt_account_id":"a","x":1,"chatgpt_account_id":"a"}"#,
        r#"{"organizations":[{"id":"a","id":"b"}]}"#,
        r#"{"email":"a"}}"#,
        r#"{"email":"a",}"#,
        r#"{"email":"\ud800"}"#,
        r#"{"email" "a"}"#,
        "",
    ] {
        assert!(parse_jwt_claims(&jwt(payload)).is_none(), "{payload}");
    }
    assert!(parse_jwt_claims(&jwt(r#"{"organizations":[{"x":1,"x":2}]}"#)).is_some());
}

#[test]
fn tokens_need_a_readable_header() {
    let payload = URL_SAFE_NO_PAD.encode(r#"{"email":"a@b.c"}"#);
    let email = |header: &str| {
        parse_jwt_claims(&format!("{}.{payload}.sig", URL_SAFE_NO_PAD.encode(header)))
            .and_then(|claims| claims.email)
    };
    assert_eq!(email(r#"{"alg":"RS256","typ":"JWT"}"#).as_deref(), Some("a@b.c"));
    assert_eq!(email(r#"{"alg":"none"}"#).as_deref(), Some("a@b.c"));
    assert_eq!(email(r#"{"typ":"JWT"}"#), None);
    assert_eq!(email("garbage"), None);
    assert!(parse_jwt_claims(&format!("%%.{payload}.sig")).is_none());
    assert!(is_unsecured_token(&jwt("{}")));
    assert!(!is_unsecured_token("a.b"));
    assert!(!names_no_algorithm(&parse_json(r#"{"alg":"HS256"}"#).unwrap()));
}

#[test]
fn identity_token_is_preferred_for_the_account() {
    let identity = jwt(r#"{"chatgpt_account_id":"id","email":""}"#);
    let access = jwt(r#"{"chatgpt_account_id":"access","email":"x@y.z"}"#);
    assert_eq!(account_id_from_tokens(Some(&identity), &access).as_deref(), Some("id"));
    assert_eq!(account_id_from_tokens(None, &access).as_deref(), Some("access"));
    assert_eq!(email_from_tokens(Some(&identity), &access).as_deref(), Some("x@y.z"));
    assert_eq!(email_from_tokens(Some("junk"), "junk"), None);
}

fn tokens(access: &str, expires_in: Option<u64>) -> TokenResponse {
    TokenResponse {
        access_token: access.into(),
        refresh_token: None,
        id_token: None,
        expires_in,
    }
}

#[test]
fn login_makes_an_openai_credential() {
    let access = jwt(r#"{"chatgpt_account_id":"acct","email":"a@b.c"}"#);
    let auth = auth_from_tokens(tokens(&access, Some(60)), NOW);
    assert_eq!(auth.key, access);
    assert_eq!(auth.user_id, "a@b.c");
    assert_eq!(auth.chatgpt_account_id.as_deref(), Some("acct"));
    assert_eq!(auth.expires_at, Some(Timestamp { secs: NOW.secs + 60, nanos: NOW.nanos }));
    assert!(is_openai_auth(&auth));
    let nameless = auth_from_tokens(tokens("opaque", None), NOW);
    assert_eq!(nameless.user_id, "chatgpt-user");
    assert_eq!(nameless.expires_at, None);

    let mut store = AuthStore::new();
    persist_openai_auth(&mut store, &auth);
    assert_eq!(lookup_provider_auth(&store, ProviderId::Openai).unwrap().key, access);
}

#[test]
fn tokens_end_at_a_calendar_date() {
    let ends = |seconds: u64| auth_from_tokens(tokens("junk", Some(seconds)), NOW).expires_at;
    assert_eq!(ends(3600), Some(Timestamp { secs: NOW.secs + 3600, nanos: 5 }));
    assert_eq!(ends(u64::MAX), Some(Timestamp { secs: NOW.secs - 1, nanos: 5 }));
    assert!(NOW.can_reach(8_210_266_876_799 - 1_700_000_000));
    assert!(!NOW.can_reach(8_210_266_876_800 - 1_700_000_000));
    assert!(!NOW.can_reach(i64::MAX as u64 + 1));
}

#[test]
fn openai_login_leaves_the_grok_login_alone() {
    let mut store = AuthStore::new();
    store.insert("custom".to_string(), GrokAuth { key: "grok".into(), ..blank() });
    persist_openai_auth(&mut store, &sample_auth(OPENAI_OAUTH_ISSUER, OPENAI_OAUTH_CLIENT_ID));
    assert_eq!(lookup_provider_auth(&store, ProviderId::Grok).unwrap().key, "grok");
    assert_eq!(lookup_provider_auth(&store, ProviderId::Openai).unwrap().key, "tok");
    persist_openai_auth(&mut store, &GrokAuth { key: "new".into(), ..blank() });
    assert_eq!(store.entries.len(), 2);
    assert_eq!(store.entries[1].1.key, "new");
}

#[test]
fn code_is_exchanged_at_the_issuer() {
    let (url, form) = exchange_request("c", "r", "v");
    assert_eq!(url, "https://auth.openai.com/oauth/token");
    let pairs: Vec<_> = form.iter().map(|(k, v)| (k.as_str(), v.as_str())).collect();
    assert_eq!(
        pairs,
        [
            ("grant_type", "authorization_code"),
            ("code", "c"),
            ("redirect_uri", "r"),
            ("client_id", "app_EMoamEEZ73f0CkXaXp7hrann"),
            ("code_verifier", "v"),
        ]
    );
}

fn params(pairs: [Option<&str>; 4]) -> CallbackParams {
    let [code, state, error, error_description] = pairs.map(|p| p.map(str::to_owned));
    CallbackParams { error, error_description, code, state }
}

#[test]
fn login_callback_is_read_and_answered() {
    let came = read_callback(&params([Some("c"), None, Some("e"), None])).ok().unwrap();
    assert_eq!(came.code, "c");
    assert_eq!(came.state, "");
    assert_eq!(
        read_callback(&params([None, None, Some("denied"), Some("no")])).err().as_deref(),
        Some("denied: no")
    );
    assert_eq!(read_callback(&params([None; 4])).err().as_deref(), Some(""));
    assert_eq!(callback_message(true).0, "Signed in");
    assert_eq!(callback_message(false), ("Access denied", "Close this window and try again."));
    let page = simple_callback_page("T", "M", false);
    assert!(page.starts_with("<!DOCTYPE html><html><head><meta charset=\"utf-8\"/><title>T</title>"));
    assert!(page.contains("h1{color:#ef4444}"));
    assert!(page.ends_with("<h1>T</h1><p>M</p></div></body></html>"));
    assert!(simple_callback_page("T", "M", true).contains("h1{color:#22c55e}"));
}

#[test]
fn login_needs_a_fitting_callback() {
    let came = |state: &str| {
        CallbackWait::Came(Ok(Callback { code: "c".into(), state: state.into() }))
    };
    assert_eq!(finish_login(came("s"), "s"), Ok("c".to_string()));
    assert_eq!(finish_login(came(""), "s"), Ok("c".to_string()));
    assert_eq!(finish_login(came("t"), "s"), Err("ChatGPT OAuth state mismatch".to_string()));
    assert_eq!(
        finish_login(CallbackWait::TimedOut, "s"),
        Err("Login timed out after 10 minutes. Please try again.".to_string())
    );
    assert_eq!(
        finish_login(CallbackWait::Closed, "s"),
        Err("ChatGPT OAuth callback channel closed".to_string())
    );
    assert_eq!(
        finish_login(CallbackWait::Came(Err("e".into())), "s"),
        Err("ChatGPT OAuth failed: e".to_string())
    );
}

#[test]
fn refresh_asks_the_stored_issuer() {
    let mut auth = sample_auth("https://auth.openai.com/", "mine");
    assert!(matches!(refresh_request(&auth), Err(RefreshError::NoRefreshToken)));
    auth.refresh_token = Some("r".into());
    let request = refresh_request(&auth).ok().unwrap();
    assert_eq!(request.token_url, "https://auth.openai.com/oauth/token");
    let pairs: Vec<_> =
        request.form.iter().map(|(k, v)| (k.as_str(), v.as_str())).collect();
    assert_eq!(
        pairs,
        [("grant_type", "refresh_token"), ("refresh_token", "r"), ("client_id", "mine")]
    );
    let other = sample_auth(XAI_OAUTH2_ISSUER, "x");
    assert_eq!(
        refresh_request(&other).err().unwrap().message(),
        "not a ChatGPT OAuth credential"
    );
    assert_eq!(RefreshError::NoRefreshToken.message(), "missing refresh_token");
    assert_eq!(
        refresh_refused(400, "bad"),
        "ChatGPT token refresh failed: HTTP 400 Bad Request — bad"
    );
}

#[test]
fn refreshed_credentials_keep_what_the_answer_omits() {
    let mut auth = sample_auth("https://auth.openai.com/", OPENAI_OAUTH_CLIENT_ID);
    auth.refresh_token = Some("r".into());
    auth.email = Some("a@b.c".into());
    auth.chatgpt_account_id = Some("acct".into());
    auth.profile.first_name = Some("F".into());
    auth.has_grok_code_access = Some(true);
    let later = refreshed_auth(&auth, tokens("opaque", Some(1)), NOW);
    assert_eq!(later.key, "opaque");
    assert_eq!(later.refresh_token.as_deref(), Some("r"));
    assert_eq!(later.email.as_deref(), Some("a@b.c"));
    assert_eq!(later.chatgpt_account_id.as_deref(), Some("acct"));
    assert_eq!(later.profile.first_name.as_deref(), Some("F"));
    assert_eq!(later.oidc_issuer.as_deref(), Some("https://auth.openai.com"));
    assert_eq!(later.has_grok_code_access, None);
    assert!(refresh_request(&later).is_ok());
}

#[test]
fn builtin_models_use_the_codex_endpoint() {
    let models = openai_builtin_models();
    let ids: Vec<_> = models.keys().map(String::as_str).collect();
    assert_eq!(ids, ["gpt-5.4", "gpt-5.4-mini", "gpt-5.3-codex", "gpt-5.2"]);
    let mini = &models["gpt-5.4-mini"].info;
    assert_eq!(mini.name.as_deref(), Some("GPT-5.4 Mini"));
    assert_eq!(mini.context_window, 200_000);
    assert_eq!(mini.base_url, "https://chatgpt.com/backend-api/codex");
    assert_eq!(mini.api_backend, ApiBackend::Responses);
    assert_eq!(mini.auth_scheme, AuthScheme::Bearer);
    assert_eq!(mini.extra_headers.get("originator").map(String::as_str), Some("grok_build"));
}

#[test]
fn optional_uploads_stay_off() {
    assert!(optional_uploads_disabled());
}
