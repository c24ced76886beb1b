//! Choosing between providers.
//!
//! The active provider decides which credentials are used. The credentials of all
//! providers are stored side by side, each under a scope of its own.

use vstd::prelude::*;
use vstd::string::*;
use crate::auth::model::{
    opt_auth, AuthMode, AuthStore, AuthView, GrokAuth, API_KEY_SCOPE, XAI_OAUTH2_ISSUER,
};
use crate::json::{Json, JsonView};
use crate::ordered::{lemma_value_of_with, value_of, with_value};
use crate::text::{
    concat, first_some, join, joined, lower, opt_str, opt_text, text_eq, texts, trim_end_slashes,
    trimmed, without_end_slashes,
};

verus! {

/// A provider to log in to.
#[derive(Clone, Copy, Debug, PartialEq, Eq, Structural)]
pub enum ProviderId {
    /// Grok, by xAI.
    Grok,
    /// OpenAI, with a ChatGPT account.
    Openai,
}

impl Default for ProviderId {
    fn default() -> (r: Self)
        ensures
            r == ProviderId::Grok,
    {
        ProviderId::Grok
    }
}

/// The provider that a text names, by its name or another that it goes by.
pub open spec fn provider_named(text: Seq<char>) -> Option<ProviderId> {
    let name = lower(trimmed(text));
    if name == "grok"@ || name == "xai"@ || name == "x.ai"@ {
        Some(ProviderId::Grok)
    } else if name == "openai"@ || name == "chatgpt"@ || name == "codex"@ {
        Some(ProviderId::Openai)
    } else {
        None
    }
}

impl ProviderId {
    /// The name of the provider.
    pub open spec fn name(self) -> Seq<char> {
        match self {
            ProviderId::Grok => "grok"@,
            ProviderId::Openai => "openai"@,
        }
    }

    /// The name that users see.
    pub open spec fn shown_name(self) -> Seq<char> {
        match self {
            ProviderId::Grok => "Grok (xAI)"@,
            ProviderId::Openai => "OpenAI (ChatGPT OAuth)"@,
        }
    }

    /// The name of the provider.
    pub fn as_str(self) -> (r: &'static str)
        ensures
            r@ == self.name(),
    {
        match self {
            ProviderId::Grok => "grok",
            ProviderId::Openai => "openai",
        }
    }

    /// The name that users see.
    pub fn display_name(self) -> (r: &'static str)
        ensures
            r@ == self.shown_name(),
    {
        match self {
            ProviderId::Grok => "Grok (xAI)",
            ProviderId::Openai => "OpenAI (ChatGPT OAuth)",
        }
    }

    /// The provider that a text names, by its name or another that it goes by.
    pub fn parse(s: &str) -> (r: Option<Self>)
        ensures
            r == provider_named(s@),
    {
        let lowered = s.trim().to_ascii_lowercase();
        let name = lowered.as_str();
        if text_eq(name, "grok") || text_eq(name, "xai") || text_eq(name, "x.ai") {
            Some(ProviderId::Grok)
        } else if text_eq(name, "openai") || text_eq(name, "chatgpt") || text_eq(name, "codex") {
            Some(ProviderId::Openai)
        } else {
            None
        }
    }
}

/// Every provider is read back from its name.
pub proof fn law_provider_names_round_trip(id: ProviderId)
    ensures
        provider_named(id.name()) == Some(id),
{
    reveal_strlit("grok");
    reveal_strlit("xai");
    reveal_strlit("x.ai");
    reveal_strlit("openai");
    let name = id.name();
    assert(trimmed(name) == name) by {
        reveal_with_fuel(crate::text::trim_start, 2);
        reveal_with_fuel(crate::text::trim_end, 2);
    }
    assert(lower(name) =~= name);
    assert("grok"@.len() == 4 && "xai"@.len() == 3 && "x.ai"@.len() == 4 && "openai"@.len() == 6);
}

/// The choice of a provider in the configuration.
#[derive(Clone, Copy, Debug, PartialEq, Eq, Structural)]
pub struct ProviderConfig {
    pub active: Option<ProviderId>,
}

impl Default for ProviderConfig {
    fn default() -> (r: Self)
        ensures
            r.active is None,
    {
        ProviderConfig { active: None }
    }
}

impl ProviderConfig {
    /// The chosen provider, Grok where none is.
    pub open spec fn chosen(self) -> ProviderId {
        match self.active {
            Some(id) => id,
            None => ProviderId::Grok,
        }
    }

    /// The chosen provider, Grok where none is.
    pub fn active_or_default(&self) -> (r: ProviderId)
        ensures
            r == self.chosen(),
    {
        match self.active {
            Some(id) => id,
            None => ProviderId::Grok,
        }
    }
}

/// The choice of a provider that a configuration holds, none where it does not
/// hold one of the names.
pub open spec fn config_of(root: Option<JsonView>) -> ProviderConfig {
    match root {
        Some(config) => match config.get_in("provider"@, "active"@) {
            Some(JsonView::Text(name)) => ProviderConfig {
                active: if name == "grok"@ {
                    Some(ProviderId::Grok)
                } else if name == "openai"@ {
                    Some(ProviderId::Openai)
                } else {
                    None
                },
            },
            _ => ProviderConfig { active: None },
        },
        None => ProviderConfig { active: None },
    }
}

/// The choice of a provider that the effective configuration holds, if it could
/// be read.
pub fn load_provider_config(root: Option<&Json>) -> (r: ProviderConfig)
    ensures
        r == config_of(crate::json::opt_json(root)),
{
    proof {
        reveal_strlit("grok");
        reveal_strlit("openai");
        assert("grok"@.len() == 4 && "openai"@.len() == 6);
    }
    let active = match root {
        Some(config) => match config.get_in("provider", "active") {
            Some(value) => match value.as_text() {
                Some(name) => if text_eq(name, "grok") {
                    Some(ProviderId::Grok)
                } else if text_eq(name, "openai") {
                    Some(ProviderId::Openai)
                } else {
                    None
                },
                None => None,
            },
            None => None,
        },
        None => None,
    };
    ProviderConfig { active }
}

/// The active provider: the one that the environment names, else the chosen one.
pub open spec fn active_of(from_env: Option<Seq<char>>, config: ProviderConfig) -> ProviderId {
    match from_env {
        Some(text) => match provider_named(text) {
            Some(id) => id,
            None => config.chosen(),
        },
        None => config.chosen(),
    }
}

/// The active provider. `from_env` is the value of the environment variable that
/// overrides the configuration.
pub fn active_provider(from_env: Option<&str>, config: &ProviderConfig) -> (r: ProviderId)
    ensures
        r == active_of(opt_str(from_env), *config),
{
    if let Some(text) = from_env {
        if let Some(id) = ProviderId::parse(text) {
            return id;
        }
    }
    config.active_or_default()
}

/// The client that logs in with a ChatGPT account.
pub const OPENAI_OAUTH_CLIENT_ID: &'static str = "app_EMoamEEZ73f0CkXaXp7hrann";

/// The issuer of the tokens of ChatGPT accounts.
pub const OPENAI_OAUTH_ISSUER: &'static str = "https://auth.openai.com";

/// Where the models of ChatGPT accounts are reached.
pub const OPENAI_CODEX_API_BASE: &'static str = "https://chatgpt.com/backend-api/codex";

/// The port that callbacks of the client may use.
pub const OPENAI_OAUTH_CALLBACK_PORT: u16 = 1455;

/// The client of xAI's own login.
pub const GROK_OAUTH_CLIENT_ID: &'static str = "b1a00492-073a-47ea-816f-4c329264a828";

/// The scope of the tokens that an issuer gives to a client.
pub open spec fn scope_of(issuer: Seq<char>, client_id: Seq<char>) -> Seq<char> {
    without_end_slashes(issuer) + "::"@ + client_id
}

fn make_scope(issuer: &str, client_id: &str) -> (r: String)
    ensures
        r@ == scope_of(issuer@, client_id@),
{
    let mut scope = trim_end_slashes(issuer);
    scope.append("::");
    scope.append(client_id);
    scope
}

/// The scope of credentials for a ChatGPT account.
pub fn openai_auth_scope() -> (r: String)
    ensures
        r@ == scope_of(OPENAI_OAUTH_ISSUER@, OPENAI_OAUTH_CLIENT_ID@),
{
    make_scope(OPENAI_OAUTH_ISSUER, OPENAI_OAUTH_CLIENT_ID)
}

/// The scope of credentials of xAI's own login.
pub fn grok_default_oauth_scope() -> (r: String)
    ensures
        r@ == scope_of(XAI_OAUTH2_ISSUER@, GROK_OAUTH_CLIENT_ID@),
{
    make_scope(XAI_OAUTH2_ISSUER, GROK_OAUTH_CLIENT_ID)
}

/// Whether a credential is for a ChatGPT account.
pub open spec fn is_openai(auth: AuthView) -> bool {
    ||| (auth.oidc_issuer matches Some(issuer) && without_end_slashes(issuer)
        == OPENAI_OAUTH_ISSUER@)
    ||| auth.oidc_client_id == Some(OPENAI_OAUTH_CLIENT_ID@)
}

/// Whether a credential is for Grok.
pub open spec fn is_grok(auth: AuthView) -> bool {
    &&& !is_openai(auth)
    &&& auth.auth_mode == AuthMode::Oidc ==> (auth.oidc_issuer matches Some(issuer)
        ==> without_end_slashes(issuer) == XAI_OAUTH2_ISSUER@)
}

/// Whether a credential is for a ChatGPT account.
pub fn is_openai_auth(auth: &GrokAuth) -> (r: bool)
    ensures
        r == is_openai(auth@),
{
    let by_issuer = match &auth.oidc_issuer {
        Some(issuer) => text_eq(
            trim_end_slashes(issuer.as_str()).as_str(),
            OPENAI_OAUTH_ISSUER,
        ),
        None => false,
    };
    let by_client = match &auth.oidc_client_id {
        Some(client) => text_eq(client.as_str(), OPENAI_OAUTH_CLIENT_ID),
        None => false,
    };
    by_issuer || by_client
}

/// Whether a credential is for Grok.
pub fn is_grok_provider_auth(auth: &GrokAuth) -> (r: bool)
    ensures
        r == is_grok(auth@),
{
    if is_openai_auth(auth) {
        return false;
    }
    match auth.auth_mode {
        AuthMode::Oidc => match &auth.oidc_issuer {
            Some(issuer) => text_eq(trim_end_slashes(issuer.as_str()).as_str(), XAI_OAUTH2_ISSUER),
            None => true,
        },
        AuthMode::ApiKey | AuthMode::External | AuthMode::WebLogin => true,
    }
}

/// No credential is for both providers.
pub proof fn law_providers_are_apart(auth: AuthView)
    ensures
        !(is_openai(auth) && is_grok(auth)),
{
}

/// The first credential for Grok that does not come from a web login.
pub open spec fn first_grok(entries: Seq<(Seq<char>, AuthView)>) -> Option<AuthView>
    decreases entries.len(),
{
    if entries.len() == 0 {
        None
    } else if is_grok(entries[0].1) && entries[0].1.auth_mode != AuthMode::WebLogin {
        Some(entries[0].1)
    } else {
        first_grok(entries.drop_first())
    }
}

/// The credential of a provider.
pub open spec fn auth_of(entries: Seq<(Seq<char>, AuthView)>, id: ProviderId) -> Option<AuthView> {
    match id {
        ProviderId::Openai => value_of(
            entries,
            scope_of(OPENAI_OAUTH_ISSUER@, OPENAI_OAUTH_CLIENT_ID@),
        ),
        ProviderId::Grok => first_some(
            value_of(entries, scope_of(XAI_OAUTH2_ISSUER@, GROK_OAUTH_CLIENT_ID@)),
            first_some(value_of(entries, API_KEY_SCOPE@), first_grok(entries)),
        ),
    }
}

/// The credential of a provider. For Grok, xAI's own login counts first, then an
/// API key, then the first credential that is for Grok.
pub fn lookup_provider_auth(map: &AuthStore, id: ProviderId) -> (r: Option<GrokAuth>)
    ensures
        opt_auth(r) == auth_of(map@, id),
{
    match id {
        ProviderId::Openai => map.get(openai_auth_scope().as_str()),
        ProviderId::Grok => {
            if let Some(auth) = map.get(grok_default_oauth_scope().as_str()) {
                return Some(auth);
            }
            if let Some(auth) = map.get(API_KEY_SCOPE) {
                return Some(auth);
            }
            let ghost all = map@;
            let mut i: usize = 0;
            assert(all.skip(0) =~= all);
            while i < map.entries.len()
                invariant
                    i <= map.entries@.len() == all.len(),
                    all == map@,
                    id == ProviderId::Grok,
                    value_of(all, scope_of(XAI_OAUTH2_ISSUER@, GROK_OAUTH_CLIENT_ID@)) is None,
                    value_of(all, API_KEY_SCOPE@) is None,
                    first_grok(all) == first_grok(all.skip(i as int)),
                decreases map.entries@.len() - i,
            {
                assert(all.skip(i as int)[0] == all[i as int]);
                assert(all.skip(i as int).drop_first() =~= all.skip(i + 1));
                let auth = &map.entries[i].1;
                assert(all[i as int].1 == auth@);
                if is_grok_provider_auth(auth) && auth.auth_mode != AuthMode::WebLogin {
                    return Some(auth.clone());
                }
                i += 1;
            }
            None
        },
    }
}

/// Storing a credential for a ChatGPT account makes it the one of that provider.
pub proof fn law_openai_login_is_found(entries: Seq<(Seq<char>, AuthView)>, auth: AuthView)
    ensures
        auth_of(
            with_value(entries, scope_of(OPENAI_OAUTH_ISSUER@, OPENAI_OAUTH_CLIENT_ID@), auth),
            ProviderId::Openai,
        ) == Some(auth),
{
    let scope = scope_of(OPENAI_OAUTH_ISSUER@, OPENAI_OAUTH_CLIENT_ID@);
    lemma_value_of_with(entries, scope, auth, scope);
}

proof fn lemma_first_grok_with(
    entries: Seq<(Seq<char>, AuthView)>,
    scope: Seq<char>,
    auth: AuthView,
)
    requires
        !is_grok(auth),
        value_of(entries, scope) matches Some(old_auth) ==> !is_grok(old_auth),
    ensures
        first_grok(with_value(entries, scope, auth)) == first_grok(entries),
    decreases entries.len(),
{
    let after = with_value(entries, scope, auth);
    if entries.len() == 0 {
        assert(after.drop_first() =~= entries);
    } else if entries[0].0 == scope {
        assert(after.drop_first() =~= entries.drop_first());
    } else {
        lemma_first_grok_with(entries.drop_first(), scope, auth);
        assert(after.drop_first() =~= with_value(entries.drop_first(), scope, auth));
    }
}

/// Credentials of the providers stand side by side: storing one for a ChatGPT
/// account leaves the credential of Grok as it was.
pub proof fn law_openai_login_keeps_grok(entries: Seq<(Seq<char>, AuthView)>, auth: AuthView)
    requires
        is_openai(auth),
        auth_of(entries, ProviderId::Openai) matches Some(old_auth) ==> is_openai(old_auth),
    ensures
        auth_of(
            with_value(entries, scope_of(OPENAI_OAUTH_ISSUER@, OPENAI_OAUTH_CLIENT_ID@), auth),
            ProviderId::Grok,
        ) == auth_of(entries, ProviderId::Grok),
{
    reveal_strlit("https://auth.openai.com");
    reveal_strlit("app_EMoamEEZ73f0CkXaXp7hrann");
    reveal_strlit("https://auth.x.ai");
    reveal_strlit("b1a00492-073a-47ea-816f-4c329264a828");
    reveal_strlit("xai::api_key");
    reveal_strlit("::");
    let scope = scope_of(OPENAI_OAUTH_ISSUER@, OPENAI_OAUTH_CLIENT_ID@);
    let grok_scope = scope_of(XAI_OAUTH2_ISSUER@, GROK_OAUTH_CLIENT_ID@);
    assert(scope.len() == 53 && grok_scope.len() == 55 && API_KEY_SCOPE@.len() == 12);
    lemma_value_of_with(entries, scope, auth, grok_scope);
    lemma_value_of_with(entries, scope, auth, API_KEY_SCOPE@);
    lemma_first_grok_with(entries, scope, auth);
}

/// Whether a user is logged in to a provider.
#[derive(Debug)]
pub struct ProviderStatus {
    pub id: ProviderId,
    pub active: bool,
    pub logged_in: bool,
    pub email: Option<String>,
    pub account_label: Option<String>,
}

/// The model of [`ProviderStatus`].
#[verifier::ext_equal]
pub struct StatusView {
    pub id: ProviderId,
    pub active: bool,
    pub logged_in: bool,
    pub email: Option<Seq<char>>,
    pub account_label: Option<Seq<char>>,
}

impl ProviderStatus {
    pub open spec fn view(&self) -> StatusView {
        StatusView {
            id: self.id,
            active: self.active,
            logged_in: self.logged_in,
            email: opt_text(self.email),
            account_label: opt_text(self.account_label),
        }
    }
}

/// The models of statuses.
pub open spec fn status_views(statuses: Seq<ProviderStatus>) -> Seq<StatusView> {
    statuses.map_values(|s: ProviderStatus| s@)
}

/// What the account of a credential is called.
pub open spec fn account_label_of(auth: AuthView) -> Option<Seq<char>> {
    first_some(
        auth.chatgpt_account_id,
        first_some(auth.profile.organization_id, auth.profile.team_name),
    )
}

/// The status of a provider.
pub open spec fn status_of(
    entries: Seq<(Seq<char>, AuthView)>,
    active: ProviderId,
    id: ProviderId,
) -> StatusView {
    let auth = auth_of(entries, id);
    StatusView {
        id,
        active: id == active,
        logged_in: auth is Some,
        email: match auth {
            Some(a) => a.email,
            None => None,
        },
        account_label: match auth {
            Some(a) => account_label_of(a),
            None => None,
        },
    }
}

fn provider_status(map: &AuthStore, active: ProviderId, id: ProviderId) -> (r: ProviderStatus)
    ensures
        r@ == status_of(map@, active, id),
{
    match lookup_provider_auth(map, id) {
        Some(auth) => {
            let account_label = match (&auth.chatgpt_account_id, &auth.profile.organization_id) {
                (Some(label), _) => Some(label.clone()),
                (None, Some(label)) => Some(label.clone()),
                (None, None) => auth.profile.team_name.clone(),
            };
            ProviderStatus {
                id,
                active: id == active,
                logged_in: true,
                email: auth.email.clone(),
                account_label,
            }
        },
        None => ProviderStatus {
            id,
            active: id == active,
            logged_in: false,
            email: None,
            account_label: None,
        },
    }
}

/// The status of every provider.
pub fn provider_statuses(store: &AuthStore, active: ProviderId) -> (r: Vec<ProviderStatus>)
    ensures
        status_views(r@) == seq![
            status_of(store@, active, ProviderId::Grok),
            status_of(store@, active, ProviderId::Openai),
        ],
{
    let mut out: Vec<ProviderStatus> = Vec::new();
    out.push(provider_status(store, active, ProviderId::Grok));
    out.push(provider_status(store, active, ProviderId::Openai));
    assert(status_views(out@) =~= seq![
        status_of(store@, active, ProviderId::Grok),
        status_of(store@, active, ProviderId::Openai),
    ]);
    out
}

/// What is said of the login at a provider.
pub open spec fn login_text(status: StatusView) -> Seq<char> {
    if !status.logged_in {
        "not logged in"@
    } else {
        match (status.email, status.account_label) {
            (Some(email), Some(account)) => "logged in as "@ + email + " ("@ + account + ")"@,
            (Some(email), None) => "logged in as "@ + email,
            (None, Some(account)) => "logged in ("@ + account + ")"@,
            (None, None) => "logged in"@,
        }
    }
}

/// The line for a provider; a star marks the active one.
pub open spec fn status_line(status: StatusView) -> Seq<char> {
    "  "@ + (if status.active {
        "*"@
    } else {
        " "@
    }) + " "@ + status.id.shown_name() + " — "@ + login_text(status)
}

/// The lines for all providers, between a heading and the usage.
pub open spec fn status_lines(statuses: Seq<StatusView>) -> Seq<Seq<char>> {
    seq!["Providers:"@] + statuses.map_values(|s: StatusView| status_line(s)) + seq![
        ""@,
        "Usage: /provider <grok|openai> | /provider login <grok|openai>"@,
    ]
}

fn describe_login(status: &ProviderStatus) -> (r: String)
    ensures
        r@ == login_text(status@),
{
    if !status.logged_in {
        return "not logged in".to_owned();
    }
    match (&status.email, &status.account_label) {
        (Some(email), Some(account)) => {
            let mut text = concat("logged in as ", email.as_str());
            text.append(" (");
            text.append(account.as_str());
            text.append(")");
            text
        },
        (Some(email), None) => concat("logged in as ", email.as_str()),
        (None, Some(account)) => {
            let mut text = concat("logged in (", account.as_str());
            text.append(")");
            text
        },
        (None, None) => "logged in".to_owned(),
    }
}

fn describe_status(status: &ProviderStatus) -> (r: String)
    ensures
        r@ == status_line(status@),
{
    let mut line = concat(
        "  ",
        if status.active {
            "*"
        } else {
            " "
        },
    );
    line.append(" ");
    line.append(status.id.display_name());
    line.append(" — ");
    line.append(describe_login(status).as_str());
    line
}

/// The statuses as text, one line for each provider.
pub fn format_provider_status(statuses: &[ProviderStatus]) -> (r: String)
    ensures
        r@ == joined(status_lines(status_views(statuses@)), "\n"@),
{
    let ghost views = status_views(statuses@);
    let ghost rows = views.map_values(|s: StatusView| status_line(s));
    let mut lines: Vec<String> = Vec::new();
    lines.push("Providers:".to_owned());
    let mut i: usize = 0;
    assert(texts(lines@) =~= seq!["Providers:"@] + rows.take(0));
    while i < statuses.len()
        invariant
            i <= statuses@.len(),
            views == status_views(statuses@),
            rows == views.map_values(|s: StatusView| status_line(s)),
            texts(lines@) =~= seq!["Providers:"@] + rows.take(i as int),
        decreases statuses@.len() - i,
    {
        let ghost before = texts(lines@);
        let line = describe_status(&statuses[i]);
        assert(rows[i as int] == status_line(views[i as int]));
        lines.push(line);
        assert(texts(lines@) =~= before.push(line@));
        i += 1;
    }
    let ghost before = texts(lines@);
    lines.push("".to_owned());
    lines.push("Usage: /provider <grok|openai> | /provider login <grok|openai>".to_owned());
    proof {
        assert(rows.take(i as int) =~= rows);
        assert(texts(lines@) =~= before.push(""@).push(
            "Usage: /provider <grok|openai> | /provider login <grok|openai>"@,
        ));
        assert(texts(lines@) =~= status_lines(views));
    }
    join(&lines, "\n")
}

/// A text names a provider by one of these names alone, without regard to case
/// and to white space around it.
pub proof fn law_provider_aliases(text: Seq<char>)
    ensures
        ({
            let name = lower(trimmed(text));
            &&& provider_named(text) == Some(ProviderId::Grok) <==> name == "grok"@ || name
                == "xai"@ || name == "x.ai"@
            &&& provider_named(text) == Some(ProviderId::Openai) <==> name == "openai"@ || name
                == "chatgpt"@ || name == "codex"@
        }),
{
    reveal_strlit("grok");
    reveal_strlit("xai");
    reveal_strlit("x.ai");
    reveal_strlit("openai");
    reveal_strlit("chatgpt");
    reveal_strlit("codex");
    assert("grok"@.len() == 4 && "xai"@.len() == 3 && "x.ai"@.len() == 4 && "openai"@.len() == 6
        && "chatgpt"@.len() == 7 && "codex"@.len() == 5);
}

/// The active provider is the one that the environment names, if it names one;
/// else the one that the configuration names exactly, and Grok where it names
/// none.
pub proof fn law_active_provider(from_env: Option<Seq<char>>, config: JsonView, id: ProviderId)
    ensures
        from_env matches Some(text) && provider_named(text) == Some(id) ==> active_of(
            from_env,
            config_of(Some(config)),
        ) == id,
        (from_env matches Some(text) ==> provider_named(text) is None) ==> active_of(
            from_env,
            config_of(Some(config)),
        ) == (if config.get_in("provider"@, "active"@) == Some(JsonView::Text("openai"@)) {
            ProviderId::Openai
        } else {
            ProviderId::Grok
        }),
        (from_env matches Some(text) ==> provider_named(text) is None) ==> active_of(
            from_env,
            config_of(None),
        ) == ProviderId::Grok,
{
    reveal_strlit("grok");
    reveal_strlit("openai");
    assert("grok"@.len() == 4 && "openai"@.len() == 6);
}

/// A credential is for a ChatGPT account by its issuer, but for slashes at its
/// end, or by its client; it is for Grok otherwise, unless it was issued by
/// someone else than xAI.
pub proof fn law_whose_credential(auth: AuthView)
    ensures
        is_openai(auth) <==> (auth.oidc_issuer matches Some(issuer) && without_end_slashes(issuer)
            == "https://auth.openai.com"@) || auth.oidc_client_id == Some(
            "app_EMoamEEZ73f0CkXaXp7hrann"@,
        ),
        is_openai(auth) ==> !is_grok(auth),
        !is_openai(auth) && auth.auth_mode != AuthMode::Oidc ==> is_grok(auth),
        !is_openai(auth) && auth.oidc_issuer is None ==> is_grok(auth),
        !is_openai(auth) && auth.auth_mode == AuthMode::Oidc && (auth.oidc_issuer matches Some(
            issuer,
        )) ==> (is_grok(auth) <==> without_end_slashes(auth.oidc_issuer->0)
            == "https://auth.x.ai"@),
{
}

/// Which credential is used. For a ChatGPT account it is the one under its scope.
/// For Grok it is the one of xAI's own login, else an API key, else the first
/// credential for Grok that does not come from a web login.
pub proof fn law_credentials_in_order_of_preference(entries: Seq<(Seq<char>, AuthView)>, k: int)
    ensures
        ({
            let own = value_of(
                entries,
                "https://auth.x.ai"@ + "::"@ + "b1a00492-073a-47ea-816f-4c329264a828"@,
            );
            let key = value_of(entries, "xai::api_key"@);
            let grok = auth_of(entries, ProviderId::Grok);
            &&& auth_of(entries, ProviderId::Openai) == value_of(
                entries,
                "https://auth.openai.com"@ + "::"@ + "app_EMoamEEZ73f0CkXaXp7hrann"@,
            )
            &&& own is Some ==> grok == own
            &&& own is None && key is Some ==> grok == key
            &&& own is None && key is None && 0 <= k < entries.len() && is_grok(entries[k].1)
                && entries[k].1.auth_mode != AuthMode::WebLogin && (forall|j: int|
                0 <= j < k ==> !is_grok((#[trigger] entries[j]).1) || entries[j].1.auth_mode
                    == AuthMode::WebLogin) ==> grok == Some(entries[k].1)
            &&& own is None && key is None && (forall|j: int|
                0 <= j < entries.len() ==> !is_grok((#[trigger] entries[j]).1)
                    || entries[j].1.auth_mode == AuthMode::WebLogin) ==> grok is None
        }),
{
    reveal_strlit("https://auth.x.ai");
    reveal_strlit("https://auth.openai.com");
    assert(without_end_slashes("https://auth.x.ai"@) == "https://auth.x.ai"@) by {
        assert("https://auth.x.ai"@.last() == 'i');
    }
    assert(without_end_slashes("https://auth.openai.com"@) == "https://auth.openai.com"@) by {
        assert("https://auth.openai.com"@.last() == 'm');
    }
    lemma_first_grok_is(entries, k);
}

proof fn lemma_first_grok_is(entries: Seq<(Seq<char>, AuthView)>, k: int)
    ensures
        0 <= k < entries.len() && is_grok(entries[k].1) && entries[k].1.auth_mode
            != AuthMode::WebLogin && (forall|j: int|
            0 <= j < k ==> !is_grok((#[trigger] entries[j]).1) || entries[j].1.auth_mode
                == AuthMode::WebLogin) ==> first_grok(entries) == Some(entries[k].1),
        (forall|j: int|
            0 <= j < entries.len() ==> !is_grok((#[trigger] entries[j]).1)
                || entries[j].1.auth_mode == AuthMode::WebLogin) ==> first_grok(entries) is None,
    decreases entries.len(),
{
    if entries.len() > 0 {
        let rest = entries.drop_first();
        lemma_first_grok_is(rest, k - 1);
        assert(forall|j: int| 0 <= j < rest.len() ==> #[trigger] rest[j] == entries[j + 1]);
        if k > 0 && (forall|j: int|
            0 <= j < k ==> !is_grok((#[trigger] entries[j]).1) || entries[j].1.auth_mode
                == AuthMode::WebLogin) {
            assert(!is_grok(entries[0].1) || entries[0].1.auth_mode == AuthMode::WebLogin);
        }
        if forall|j: int|
            0 <= j < entries.len() ==> !is_grok((#[trigger] entries[j]).1)
                || entries[j].1.auth_mode == AuthMode::WebLogin {
            assert(!is_grok(entries[0].1) || entries[0].1.auth_mode == AuthMode::WebLogin);
        }
    }
}

/// What is said of a provider: that a user is logged in exactly if there is a
/// credential, with its email address and what its account is called, the ChatGPT
/// account first, then the organization, then the team; and that it is the active
/// one exactly if it is.
pub proof fn law_status_tells_the_login(
    entries: Seq<(Seq<char>, AuthView)>,
    active: ProviderId,
    id: ProviderId,
)
    ensures
        ({
            let status = status_of(entries, active, id);
            &&& status.id == id
            &&& status.active <==> id == active
            &&& status.logged_in <==> auth_of(entries, id) is Some
            &&& auth_of(entries, id) matches Some(auth) ==> {
                &&& status.email == auth.email
                &&& auth.chatgpt_account_id is Some ==> status.account_label
                    == auth.chatgpt_account_id
                &&& auth.chatgpt_account_id is None && auth.profile.organization_id is Some
                    ==> status.account_label == auth.profile.organization_id
                &&& auth.chatgpt_account_id is None && auth.profile.organization_id is None
                    ==> status.account_label == auth.profile.team_name
            }
            &&& auth_of(entries, id) is None ==> status.email is None && status.account_label is None
        }),
{
}

/// The line for a provider has a star exactly if it is the active one, then its
/// name, then what is said of the login.
pub proof fn law_status_line_tells_the_login(status: StatusView, email: Seq<char>, account: Seq<char>)
    ensures
        status_line(status) == (if status.active {
            "  * "@
        } else {
            "    "@
        }) + status.id.shown_name() + " — "@ + login_text(status),
        !status.logged_in ==> login_text(status) == "not logged in"@,
        status.logged_in && status.email == Some(email) && status.account_label == Some(account)
            ==> login_text(status) == "logged in as "@ + email + " ("@ + account + ")"@,
        status.logged_in && status.email == Some(email) && status.account_label is None
            ==> login_text(status) == "logged in as "@ + email,
        status.logged_in && status.email is None && status.account_label == Some(account)
            ==> login_text(status) == "logged in ("@ + account + ")"@,
        status.logged_in && status.email is None && status.account_label is None ==> login_text(
            status,
        ) == "logged in"@,
{
    reveal_strlit("  ");
    reveal_strlit("*");
    reveal_strlit(" ");
    reveal_strlit("  * ");
    reveal_strlit("    ");
    assert("  "@ + "*"@ + " "@ =~= "  * "@);
    assert("  "@ + " "@ + " "@ =~= "    "@);
}

/// The text for all providers has a heading, the line for each in its place, an
/// empty line and the usage.
pub proof fn law_status_lines_in_order(statuses: Seq<StatusView>, i: int)
    ensures
        status_lines(statuses).len() == statuses.len() + 3,
        status_lines(statuses)[0] == "Providers:"@,
        0 <= i < statuses.len() ==> status_lines(statuses)[i + 1] == status_line(statuses[i]),
        status_lines(statuses)[statuses.len() as int + 1] == ""@,
{
}

/// What a provider is called where it is shown, which is not the name that it goes
/// by.
pub proof fn law_shown_names(id: ProviderId)
    ensures
        id.shown_name() == (match id {
            ProviderId::Grok => "Grok (xAI)"@,
            ProviderId::Openai => "OpenAI (ChatGPT OAuth)"@,
        }),
        id.shown_name() != id.name(),
{
    reveal_strlit("Grok (xAI)");
    reveal_strlit("OpenAI (ChatGPT OAuth)");
    reveal_strlit("grok");
    reveal_strlit("openai");
    assert("Grok (xAI)"@.len() == 10 && "OpenAI (ChatGPT OAuth)"@.len() == 22 && "grok"@.len() == 4
        && "openai"@.len() == 6);
}

} // verus!
