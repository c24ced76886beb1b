//! Logging in with a ChatGPT account in a browser.

use vstd::prelude::*;
use vstd::string::*;
use vstd::utf8::encode_utf8;
use crate::auth::chatgpt::token::{
    account_id_from_tokens, email_from_tokens, tokens_account, tokens_email,
};
use crate::auth::model::{
    no_profile, AuthMode, AuthProfile, AuthStore, AuthView, GrokAuth, Timestamp,
};
use crate::auth::provider::{
    openai_auth_scope, scope_of, OPENAI_OAUTH_CLIENT_ID, OPENAI_OAUTH_ISSUER,
};
use crate::encoding::{
    b64_encode, b64_encoded, law_percent_encoded_alphabet, percent_encode, percent_encoded,
    pkce_from, random_bytes, Pkce, MAX_ENCODED_BYTES,
};
use crate::ordered::with_value;
use crate::providers::subscription_tokens::{
    describe_error, described_error, outcome_view, CallbackParams, CallbackParamsView,
};
use crate::text::{
    begins_with, borrowed, concat, decimal, has_part, join, joined, law_joined_parts,
    law_parts_of_a_text, law_pieces_of_one, law_pieces_of_parts, opt_text, pieces, text_eq, texts, to_decimal,
};
use crate::urls::{pair, query_pairs};

verus! {

/// The path that the browser is sent back to.
pub const CALLBACK_PATH: &'static str = "/auth/callback";

/// Who the login says it is for.
pub const ORIGINATOR: &'static str = "grok_build";

/// A new verifier and its challenge.
pub fn generate_pkce() -> (r: Pkce)
    ensures
        exists|bytes: Seq<u8>|
            bytes.len() == 64 && r.verifier@ == #[trigger] b64_encoded(bytes),
        r.matches(),
        r.verifier@.len() == 86,
        r.challenge@.len() == 43,
{
    pkce_from(random_bytes(64).as_slice())
}

/// The text that a login is recognised by, made of random bytes.
pub fn state_from(bytes: &[u8]) -> (r: String)
    requires
        bytes@.len() <= MAX_ENCODED_BYTES,
    ensures
        r@ == b64_encoded(bytes@),
        bytes@.len() == 32 ==> r@.len() == 43,
{
    b64_encode(bytes)
}

/// A new text that a login is recognised by.
pub fn generate_state() -> (r: String)
    ensures
        exists|bytes: Seq<u8>| bytes.len() == 32 && r@ == #[trigger] b64_encoded(bytes),
        r@.len() == 43,
{
    state_from(random_bytes(32).as_slice())
}

/// The query of the page that the user logs in on.
pub open spec fn login_pairs(
    redirect_uri: Seq<char>,
    challenge: Seq<char>,
    state: Seq<char>,
) -> Seq<(Seq<char>, Seq<char>)> {
    seq![
        ("response_type"@, "code"@),
        ("client_id"@, OPENAI_OAUTH_CLIENT_ID@),
        ("redirect_uri"@, redirect_uri),
        ("scope"@, "openid profile email offline_access"@),
        ("code_challenge"@, challenge),
        ("code_challenge_method"@, "S256"@),
        ("id_token_add_organizations"@, "true"@),
        ("codex_cli_simplified_flow"@, "true"@),
        ("state"@, state),
        ("originator"@, ORIGINATOR@),
    ]
}

/// A name and its percent-encoded value.
pub open spec fn query_part(p: (Seq<char>, Seq<char>)) -> Seq<char> {
    p.0 + "="@ + percent_encoded(encode_utf8(p.1))
}

/// The page that the user logs in on.
pub open spec fn authorize_url_of(
    redirect_uri: Seq<char>,
    challenge: Seq<char>,
    state: Seq<char>,
) -> Seq<char> {
    OPENAI_OAUTH_ISSUER@ + "/oauth/authorize?"@ + joined(
        login_pairs(redirect_uri, challenge, state).map_values(
            |p: (Seq<char>, Seq<char>)| query_part(p),
        ),
        "&"@,
    )
}

fn encode_pair(name: &str, value: &str) -> (r: String)
    ensures
        r@ == query_part((name@, value@)),
{
    let mut text = concat(name, "=");
    text.append(percent_encode(value).as_str());
    text
}

/// The page that the user logs in on.
pub fn build_authorize_url(redirect_uri: &str, pkce: &Pkce, state: &str) -> (r: String)
    ensures
        r@ == authorize_url_of(redirect_uri@, pkce.challenge@, state@),
{
    let mut parts: Vec<String> = Vec::new();
    parts.push(encode_pair("response_type", "code"));
    parts.push(encode_pair("client_id", OPENAI_OAUTH_CLIENT_ID));
    parts.push(encode_pair("redirect_uri", redirect_uri));
    parts.push(encode_pair("scope", "openid profile email offline_access"));
    parts.push(encode_pair("code_challenge", pkce.challenge.as_str()));
    parts.push(encode_pair("code_challenge_method", "S256"));
    parts.push(encode_pair("id_token_add_organizations", "true"));
    parts.push(encode_pair("codex_cli_simplified_flow", "true"));
    parts.push(encode_pair("state", state));
    parts.push(encode_pair("originator", ORIGINATOR));
    assert(texts(parts@) =~= login_pairs(redirect_uri@, pkce.challenge@, state@).map_values(
        |p: (Seq<char>, Seq<char>)| query_part(p),
    ));
    let mut url = concat(OPENAI_OAUTH_ISSUER, "/oauth/authorize?");
    url.append(join(&parts, "&").as_str());
    url
}

/// Where the browser is sent back to when the callback listens on a port.
pub fn callback_uri(port: u16) -> (r: String)
    ensures
        r@ == "http://localhost:"@ + decimal(port as nat) + CALLBACK_PATH@,
{
    let mut uri = concat("http://localhost:", to_decimal(port as u128).as_str());
    uri.append(CALLBACK_PATH);
    uri
}

/// Where tokens are to be had.
pub open spec fn token_url_of(issuer: Seq<char>) -> Seq<char> {
    issuer + "/oauth/token"@
}

/// What the exchange of an authorization code sends.
pub open spec fn exchange_pairs(
    code: Seq<char>,
    redirect_uri: Seq<char>,
    verifier: Seq<char>,
) -> Seq<(Seq<char>, Seq<char>)> {
    seq![
        ("grant_type"@, "authorization_code"@),
        ("code"@, code),
        ("redirect_uri"@, redirect_uri),
        ("client_id"@, OPENAI_OAUTH_CLIENT_ID@),
        ("code_verifier"@, verifier),
    ]
}

/// Where an authorization code is exchanged, and what is sent there.
pub fn exchange_request(code: &str, redirect_uri: &str, verifier: &str) -> (r: (
    String,
    Vec<(String, String)>,
))
    ensures
        r.0@ == token_url_of(OPENAI_OAUTH_ISSUER@),
        query_pairs(r.1@) == exchange_pairs(code@, redirect_uri@, verifier@),
{
    let mut form: Vec<(String, String)> = Vec::new();
    form.push(pair("grant_type", "authorization_code"));
    form.push(pair("code", code));
    form.push(pair("redirect_uri", redirect_uri));
    form.push(pair("client_id", OPENAI_OAUTH_CLIENT_ID));
    form.push(pair("code_verifier", verifier));
    assert(query_pairs(form@) =~= exchange_pairs(code@, redirect_uri@, verifier@));
    (concat(OPENAI_OAUTH_ISSUER, "/oauth/token"), form)
}

/// An authorization code, and the state that came with it.
pub struct Callback {
    pub code: String,
    pub state: String,
}

/// A text that may be missing, empty where it is.
pub open spec fn or_empty(text: Option<Seq<char>>) -> Seq<char> {
    match text {
        Some(t) => t,
        None => Seq::empty(),
    }
}

/// What the browser brings back: a code and its state, or what went wrong.
pub open spec fn callback_of(params: CallbackParamsView) -> Result<
    (Seq<char>, Seq<char>),
    Seq<char>,
> {
    match params.code {
        Some(code) => Ok((code, or_empty(params.state))),
        None => Err(described_error(or_empty(params.error), params.error_description)),
    }
}

/// The characters of either side of a callback.
pub open spec fn callback_view(r: Result<Callback, String>) -> Result<
    (Seq<char>, Seq<char>),
    Seq<char>,
> {
    match r {
        Ok(callback) => Ok((callback.code@, callback.state@)),
        Err(message) => Err(message@),
    }
}

/// Takes what the browser brings back.
pub fn read_callback(params: &CallbackParams) -> (r: Result<Callback, String>)
    ensures
        callback_view(r) == callback_of(params@),
{
    match &params.code {
        Some(code) => Ok(
            Callback {
                code: code.clone(),
                state: match &params.state {
                    Some(state) => state.clone(),
                    None => String::new(),
                },
            },
        ),
        None => {
            let error = match &params.error {
                Some(error) => error.clone(),
                None => String::new(),
            };
            Err(describe_error(error.as_str(), borrowed(&params.error_description)))
        },
    }
}

/// The title and the message of the page that a login ends on.
pub fn callback_message(succeeded: bool) -> (r: (&'static str, &'static str))
    ensures
        (r.0@, r.1@) == if succeeded {
            ("Signed in"@, "You can close this window and return to Grok Build."@)
        } else {
            ("Access denied"@, "Close this window and try again."@)
        },
{
    if succeeded {
        ("Signed in", "You can close this window and return to Grok Build.")
    } else {
        ("Access denied", "Close this window and try again.")
    }
}

/// The page that a login ends on.
pub open spec fn page_of(title: Seq<char>, message: Seq<char>, is_success: bool) -> Seq<char> {
    "<!DOCTYPE html><html><head><meta charset=\"utf-8\"/><title>"@ + title
        + "</title>\n<style>body{font-family:system-ui,sans-serif;display:flex;align-items:center;justify-content:center;\nmin-height:100vh;background:#0a0a0a;color:#e5e5e5}.card{text-align:center}h1{color:"@
        + (if is_success {
        "#22c55e"@
    } else {
        "#ef4444"@
    }) + "}</style>\n</head><body><div class=\"card\"><h1>"@ + title + "</h1><p>"@ + message
        + "</p></div></body></html>"@
}

/// The page that a login ends on.
pub fn simple_callback_page(title: &str, message: &str, is_success: bool) -> (r: String)
    ensures
        r@ == page_of(title@, message@, is_success),
{
    let mut page = concat(
        "<!DOCTYPE html><html><head><meta charset=\"utf-8\"/><title>",
        title,
    );
    page.append(
        "</title>\n<style>body{font-family:system-ui,sans-serif;display:flex;align-items:center;justify-content:center;\nmin-height:100vh;background:#0a0a0a;color:#e5e5e5}.card{text-align:center}h1{color:",
    );
    page.append(
        if is_success {
            "#22c55e"
        } else {
            "#ef4444"
        },
    );
    page.append("}</style>\n</head><body><div class=\"card\"><h1>");
    page.append(title);
    page.append("</h1><p>");
    page.append(message);
    page.append("</p></div></body></html>");
    page
}

/// Whether a callback belongs to the login: it brings no state, or the right one.
pub open spec fn state_accepted(brought: Seq<char>, expected: Seq<char>) -> bool {
    brought.len() == 0 || brought == expected
}

/// What became of waiting for the callback.
pub enum CallbackWait {
    /// It did not come in time.
    TimedOut,
    /// Nothing waits for it any more.
    Closed,
    /// It came.
    Came(Result<Callback, String>),
}

/// The code to exchange, or why the login failed.
pub open spec fn login_outcome(wait: CallbackWait, expected: Seq<char>) -> Result<
    Seq<char>,
    Seq<char>,
> {
    match wait {
        CallbackWait::TimedOut => Err("Login timed out after 10 minutes. Please try again."@),
        CallbackWait::Closed => Err("ChatGPT OAuth callback channel closed"@),
        CallbackWait::Came(Err(error)) => Err("ChatGPT OAuth failed: "@ + error@),
        CallbackWait::Came(Ok(callback)) => if state_accepted(callback.state@, expected) {
            Ok(callback.code@)
        } else {
            Err("ChatGPT OAuth state mismatch"@)
        },
    }
}

/// The code to exchange, or why the login failed.
pub fn finish_login(wait: CallbackWait, expected: &str) -> (r: Result<String, String>)
    ensures
        outcome_view(r) == login_outcome(wait, expected@),
{
    match wait {
        CallbackWait::TimedOut => Err(
            "Login timed out after 10 minutes. Please try again.".to_owned(),
        ),
        CallbackWait::Closed => Err("ChatGPT OAuth callback channel closed".to_owned()),
        CallbackWait::Came(Err(error)) => Err(concat("ChatGPT OAuth failed: ", error.as_str())),
        CallbackWait::Came(Ok(callback)) => {
            let accepted = callback.state.as_str().is_empty() || text_eq(
                callback.state.as_str(),
                expected,
            );
            if accepted {
                Ok(callback.code)
            } else {
                Err("ChatGPT OAuth state mismatch".to_owned())
            }
        },
    }
}

/// What the token endpoint answers.
pub struct TokenResponse {
    pub access_token: String,
    pub refresh_token: Option<String>,
    pub id_token: Option<String>,
    pub expires_in: Option<u64>,
}

/// The model of [`TokenResponse`].
pub struct TokensView {
    pub access_token: Seq<char>,
    pub refresh_token: Option<Seq<char>>,
    pub id_token: Option<Seq<char>>,
    pub expires_in: Option<u64>,
}

impl TokenResponse {
    pub open spec fn view(&self) -> TokensView {
        TokensView {
            access_token: self.access_token@,
            refresh_token: opt_text(self.refresh_token),
            id_token: opt_text(self.id_token),
            expires_in: self.expires_in,
        }
    }
}

/// When tokens end that last for so many seconds.
pub open spec fn end_of(now: Timestamp, expires_in: Option<u64>) -> Option<Timestamp> {
    match expires_in {
        Some(seconds) => Some(now.later(seconds)),
        None => None,
    }
}

/// The credential of a new login. The user goes by the email address, else by the
/// account.
pub open spec fn new_auth(
    tokens: TokensView,
    account_id: Option<Seq<char>>,
    email: Option<Seq<char>>,
    now: Timestamp,
) -> AuthView {
    AuthView {
        key: tokens.access_token,
        auth_mode: AuthMode::Oidc,
        create_time: now,
        user_id: match (email, account_id) {
            (Some(address), _) => address,
            (None, Some(id)) => id,
            (None, None) => "chatgpt-user"@,
        },
        email,
        refresh_token: tokens.refresh_token,
        expires_at: end_of(now, tokens.expires_in),
        oidc_issuer: Some(OPENAI_OAUTH_ISSUER@),
        oidc_client_id: Some(OPENAI_OAUTH_CLIENT_ID@),
        chatgpt_account_id: account_id,
        has_grok_code_access: None,
        profile: no_profile(),
    }
}

/// The credential of a new login, for an account and an email address.
pub fn auth_for_account(
    tokens: TokenResponse,
    account_id: Option<String>,
    email: Option<String>,
    now: Timestamp,
) -> (r: GrokAuth)
    requires
        tokens.expires_in matches Some(seconds) ==> now.reaches(seconds),
    ensures
        r@ == new_auth(tokens@, opt_text(account_id), opt_text(email), now),
{
    let user_id = match (&email, &account_id) {
        (Some(address), _) => address.clone(),
        (None, Some(id)) => id.clone(),
        (None, None) => "chatgpt-user".to_owned(),
    };
    GrokAuth {
        key: tokens.access_token,
        auth_mode: AuthMode::Oidc,
        create_time: now,
        user_id,
        email,
        refresh_token: tokens.refresh_token,
        expires_at: match tokens.expires_in {
            Some(seconds) => Some(now.after(seconds)),
            None => None,
        },
        oidc_issuer: Some(OPENAI_OAUTH_ISSUER.to_owned()),
        oidc_client_id: Some(OPENAI_OAUTH_CLIENT_ID.to_owned()),
        chatgpt_account_id: account_id,
        has_grok_code_access: None,
        profile: AuthProfile::default(),
    }
}

/// The credential of a new login.
pub fn auth_from_tokens(tokens: TokenResponse, now: Timestamp) -> (r: GrokAuth)
    requires
        tokens.expires_in matches Some(seconds) ==> now.reaches(seconds),
    ensures
        r@ == new_auth(
            tokens@,
            tokens_account(tokens@.id_token, tokens@.access_token),
            tokens_email(tokens@.id_token, tokens@.access_token),
            now,
        ),
{
    let account_id = account_id_from_tokens(
        borrowed(&tokens.id_token),
        tokens.access_token.as_str(),
    );
    let email = email_from_tokens(borrowed(&tokens.id_token), tokens.access_token.as_str());
    auth_for_account(tokens, account_id, email, now)
}

/// Stores the credential of a ChatGPT account, in place of the one before.
pub fn persist_openai_auth(store: &mut AuthStore, auth: &GrokAuth)
    requires
        old(store).well_formed(),
    ensures
        final(store).well_formed(),
        final(store)@ == with_value(
            old(store)@,
            scope_of(OPENAI_OAUTH_ISSUER@, OPENAI_OAUTH_CLIENT_ID@),
            auth@,
        ),
{
    store.insert(openai_auth_scope(), auth.clone());
}

/// A new login makes a credential for a ChatGPT account, and for no other
/// provider.
pub proof fn law_login_is_for_openai(
    tokens: TokensView,
    account_id: Option<Seq<char>>,
    email: Option<Seq<char>>,
    now: Timestamp,
)
    ensures
        crate::auth::provider::is_openai(new_auth(tokens, account_id, email, now)),
        !crate::auth::provider::is_grok(new_auth(tokens, account_id, email, now)),
{
}

/// The credential of a new login has the tokens of the answer, belongs to the
/// account and the email address that they name, and ends when the answer says.
/// The user goes by the email address, else by the account.
pub proof fn law_login_keeps_what_was_answered(
    tokens: TokensView,
    account_id: Option<Seq<char>>,
    email: Option<Seq<char>>,
    now: Timestamp,
)
    ensures
        ({
            let auth = new_auth(tokens, account_id, email, now);
            &&& auth.key == tokens.access_token
            &&& auth.refresh_token == tokens.refresh_token
            &&& auth.chatgpt_account_id == account_id
            &&& auth.email == email
            &&& email is Some ==> Some(auth.user_id) == email
            &&& email is None && account_id is Some ==> Some(auth.user_id) == account_id
            &&& email is None && account_id is None ==> auth.user_id == "chatgpt-user"@
            &&& auth.oidc_issuer == Some("https://auth.openai.com"@)
            &&& auth.oidc_client_id == Some("app_EMoamEEZ73f0CkXaXp7hrann"@)
            &&& auth.auth_mode == AuthMode::Oidc
            &&& auth.create_time == now
            &&& tokens.expires_in is None ==> auth.expires_at is None
            &&& tokens.expires_in matches Some(seconds) ==> (seconds <= i64::MAX && now.reaches(
                seconds,
            ) ==> (auth.expires_at matches Some(end) && end.secs == now.secs + seconds && end.nanos
                == now.nanos))
        }),
{
}

/// A login ends with the code of a callback that brings the state that the login
/// started with, or none; with another state it fails.
pub proof fn law_login_needs_its_state(callback: Callback, expected: Seq<char>, error: String)
    ensures
        callback.state@ == expected || callback.state@.len() == 0 ==> login_outcome(
            CallbackWait::Came(Ok(callback)),
            expected,
        ) == Ok::<Seq<char>, Seq<char>>(callback.code@),
        callback.state@ != expected && callback.state@.len() > 0 ==> login_outcome(
            CallbackWait::Came(Ok(callback)),
            expected,
        ) == Err::<Seq<char>, Seq<char>>("ChatGPT OAuth state mismatch"@),
        login_outcome(CallbackWait::Came(Err(error)), expected) == Err::<Seq<char>, Seq<char>>(
            "ChatGPT OAuth failed: "@ + error@,
        ),
        login_outcome(CallbackWait::TimedOut, expected) is Err,
        login_outcome(CallbackWait::Closed, expected) is Err,
{
}

/// A callback with a code brings the code and its state; one without brings the
/// error and its description where that is not empty.
pub proof fn law_callback_brings_code_or_error(params: CallbackParamsView)
    ensures
        params.code matches Some(code) ==> callback_of(params) == Ok::<
            (Seq<char>, Seq<char>),
            Seq<char>,
        >(
            (
                code,
                match params.state {
                    Some(state) => state,
                    None => Seq::empty(),
                },
            ),
        ),
        params.code is None && (params.error matches Some(error) && params.error_description
            is None) ==> callback_of(params) == Err::<(Seq<char>, Seq<char>), Seq<char>>(
            params.error->0,
        ),
        params.code is None && params.error is Some && (
        params.error_description matches Some(description) && description.len() > 0)
            ==> callback_of(params) == Err::<(Seq<char>, Seq<char>), Seq<char>>(
            params.error->0 + ": "@ + params.error_description->0,
        ),
{
}

/// The exchange of a code sends the code, where it was brought to and the verifier
/// that belongs to the challenge.
pub proof fn law_exchange_sends_code_and_verifier(
    code: Seq<char>,
    redirect_uri: Seq<char>,
    verifier: Seq<char>,
)
    ensures
        ({
            let form = exchange_pairs(code, redirect_uri, verifier);
            &&& form.contains(("grant_type"@, "authorization_code"@))
            &&& form.contains(("code"@, code))
            &&& form.contains(("code_verifier"@, verifier))
            &&& form.contains(("redirect_uri"@, redirect_uri))
            &&& form.contains(("client_id"@, "app_EMoamEEZ73f0CkXaXp7hrann"@))
            &&& form.len() == 5
        }),
        token_url_of(OPENAI_OAUTH_ISSUER@) == "https://auth.openai.com/oauth/token"@,
{
    let form = exchange_pairs(code, redirect_uri, verifier);
    assert(form[0] == ("grant_type"@, "authorization_code"@));
    assert(form[1] == ("code"@, code));
    assert(form[2] == ("redirect_uri"@, redirect_uri));
    assert(form[3] == ("client_id"@, OPENAI_OAUTH_CLIENT_ID@));
    assert(form[4] == ("code_verifier"@, verifier));
    reveal_strlit("https://auth.openai.com");
    reveal_strlit("/oauth/token");
    reveal_strlit("https://auth.openai.com/oauth/token");
    assert("https://auth.openai.com"@ + "/oauth/token"@ =~= "https://auth.openai.com/oauth/token"@);
}

/// The page to log in on is asked for a code under the challenge, to be brought
/// back with the state to where the callback listens.
pub proof fn law_login_page_is_asked_for_a_code(
    redirect_uri: Seq<char>,
    challenge: Seq<char>,
    state: Seq<char>,
)
    ensures
        ({
            let query = login_pairs(redirect_uri, challenge, state);
            &&& query.contains(("response_type"@, "code"@))
            &&& query.contains(("redirect_uri"@, redirect_uri))
            &&& query.contains(("code_challenge"@, challenge))
            &&& query.contains(("code_challenge_method"@, "S256"@))
            &&& query.contains(("state"@, state))
            &&& query.contains(("client_id"@, "app_EMoamEEZ73f0CkXaXp7hrann"@))
            &&& query.contains(("scope"@, "openid profile email offline_access"@))
            &&& query.contains(("id_token_add_organizations"@, "true"@))
            &&& query.contains(("codex_cli_simplified_flow"@, "true"@))
            &&& query.contains(("originator"@, "grok_build"@))
        }),
{
    let query = login_pairs(redirect_uri, challenge, state);
    assert(query[0] == ("response_type"@, "code"@));
    assert(query[1] == ("client_id"@, OPENAI_OAUTH_CLIENT_ID@));
    assert(query[2] == ("redirect_uri"@, redirect_uri));
    assert(query[3] == ("scope"@, "openid profile email offline_access"@));
    assert(query[4] == ("code_challenge"@, challenge));
    assert(query[5] == ("code_challenge_method"@, "S256"@));
    assert(query[6] == ("id_token_add_organizations"@, "true"@));
    assert(query[7] == ("codex_cli_simplified_flow"@, "true"@));
    assert(query[8] == ("state"@, state));
    assert(query[9] == ("originator"@, ORIGINATOR@));
}

/// The address of the page to log in on ends in a query. Taken apart at its
/// ampersands, the query has one piece for each of the parameters, in their order:
/// the name, an equals sign and the value, percent-encoded.
pub proof fn law_login_address_holds_the_parameters(
    redirect_uri: Seq<char>,
    challenge: Seq<char>,
    state: Seq<char>,
    i: int,
)
    requires
        0 <= i < 10,
    ensures
        ({
            let address = authorize_url_of(redirect_uri, challenge, state);
            let page = "https://auth.openai.com"@ + "/oauth/authorize?"@;
            let query = address.skip(page.len() as int);
            let (name, value) = login_pairs(redirect_uri, challenge, state)[i];
            &&& begins_with(address, page)
            &&& pieces(query, '&').len() == 10
            &&& pieces(query, '&')[i] == name + seq!['='] + percent_encoded(encode_utf8(value))
        }),
{
    let pairs = login_pairs(redirect_uri, challenge, state);
    let parts = pairs.map_values(|p: (Seq<char>, Seq<char>)| query_part(p));
    let page = "https://auth.openai.com"@ + "/oauth/authorize?"@;
    let address = authorize_url_of(redirect_uri, challenge, state);
    reveal_strlit("&");
    reveal_strlit("=");
    assert("&"@ =~= seq!['&']);
    assert("="@ =~= seq!['=']);
    assert(address.skip(page.len() as int) =~= joined(parts, "&"@));
    assert(address.subrange(0, page.len() as int) =~= page);
    assert forall|k: int| 0 <= k < parts.len() implies no_ampersand(#[trigger] parts[k]) by {
        lemma_names_without_ampersand(redirect_uri, challenge, state, k);
        let part = parts[k];
        let name = pairs[k].0;
        assert forall|j: int| 0 <= j < part.len() implies part[j] != '&' by {
            if j < name.len() {
                assert(part[j] == name[j]);
            } else if j > name.len() {
                law_percent_encoded_alphabet(encode_utf8(pairs[k].1), j - name.len() - 1);
            }
        }
    }
    lemma_pieces_of_joined(parts);
}

spec fn no_ampersand(text: Seq<char>) -> bool {
    forall|j: int| 0 <= j < text.len() ==> text[j] != '&'
}

proof fn lemma_names_without_ampersand(
    redirect_uri: Seq<char>,
    challenge: Seq<char>,
    state: Seq<char>,
    k: int,
)
    requires
        0 <= k < 10,
    ensures
        no_ampersand(login_pairs(redirect_uri, challenge, state)[k].0),
{
    reveal_strlit("response_type");
    reveal_strlit("client_id");
    reveal_strlit("redirect_uri");
    reveal_strlit("scope");
    reveal_strlit("code_challenge");
    reveal_strlit("code_challenge_method");
    reveal_strlit("id_token_add_organizations");
    reveal_strlit("codex_cli_simplified_flow");
    reveal_strlit("state");
    reveal_strlit("originator");
}

proof fn lemma_pieces_of_joined(parts: Seq<Seq<char>>)
    requires
        parts.len() > 0,
        forall|k: int| 0 <= k < parts.len() ==> no_ampersand(#[trigger] parts[k]),
    ensures
        pieces(joined(parts, seq!['&']), '&') == parts,
    decreases parts.len(),
{
    let first = parts[0];
    let rest = parts.drop_first();
    assert(no_ampersand(first));
    law_joined_parts(first, rest, seq!['&']);
    if rest.len() == 0 {
        assert(parts =~= seq![first]);
        law_pieces_of_one(first, '&');
    } else {
        assert(parts =~= seq![first] + rest);
        assert forall|k: int| 0 <= k < rest.len() implies no_ampersand(#[trigger] rest[k]) by {
            assert(rest[k] == parts[k + 1]);
        }
        lemma_pieces_of_joined(rest);
        law_pieces_of_parts(first, joined(rest, seq!['&']), '&');
    }
}

/// The page that a login ends on shows its message under its title, in green
/// exactly for a success.
pub proof fn law_page_shows_title_and_message(
    title: Seq<char>,
    message: Seq<char>,
    is_success: bool,
)
    ensures
        has_part(
            page_of(title, message, is_success),
            "<h1>"@ + title + "</h1><p>"@ + message + "</p>"@,
        ),
        has_part(page_of(title, message, true), "h1{color:"@ + "#22c55e"@ + "}"@),
        has_part(page_of(title, message, false), "h1{color:"@ + "#ef4444"@ + "}"@),
{
    let a = "<!DOCTYPE html><html><head><meta charset=\"utf-8\"/><title>"@;
    let b = "</title>\n<style>body{font-family:system-ui,sans-serif;display:flex;align-items:center;justify-content:center;\nmin-height:100vh;background:#0a0a0a;color:#e5e5e5}.card{text-align:center}h1{color:"@;
    let c = "}</style>\n</head><body><div class=\"card\"><h1>"@;
    let end = "</p></div></body></html>"@;
    assert(b =~= b.take(b.len() - 9) + "h1{color:"@) by {
        reveal_strlit(
            "</title>\n<style>body{font-family:system-ui,sans-serif;display:flex;align-items:center;justify-content:center;\nmin-height:100vh;background:#0a0a0a;color:#e5e5e5}.card{text-align:center}h1{color:",
        );
        reveal_strlit("h1{color:");
    }
    assert(c =~= "}"@ + c.skip(1) && c =~= c.take(c.len() - 4) + "<h1>"@) by {
        reveal_strlit("}</style>\n</head><body><div class=\"card\"><h1>");
        reveal_strlit("}");
        reveal_strlit("<h1>");
    }
    assert(end =~= "</p>"@ + end.skip(4)) by {
        reveal_strlit("</p></div></body></html>");
        reveal_strlit("</p>");
    }
    let color = if is_success {
        "#22c55e"@
    } else {
        "#ef4444"@
    };
    lemma_parts_of_page(
        a + title + b + color,
        c.take(c.len() - 4),
        ("<h1>"@, title, "</h1><p>"@, message, "</p>"@),
        end.skip(4),
        page_of(title, message, is_success),
    );
    lemma_style_of_page(
        a + title,
        (b.take(b.len() - 9), "h1{color:"@, "#22c55e"@, "}"@, c.skip(1)),
        (title, "</h1><p>"@, message, end),
        page_of(title, message, true),
    );
    lemma_style_of_page(
        a + title,
        (b.take(b.len() - 9), "h1{color:"@, "#ef4444"@, "}"@, c.skip(1)),
        (title, "</h1><p>"@, message, end),
        page_of(title, message, false),
    );
}

proof fn lemma_parts_of_page(
    head: Seq<char>,
    before: Seq<char>,
    body: (Seq<char>, Seq<char>, Seq<char>, Seq<char>, Seq<char>),
    after: Seq<char>,
    page: Seq<char>,
)
    requires
        page == head + (before + body.0) + body.1 + body.2 + body.3 + (body.4 + after),
    ensures
        has_part(page, body.0 + body.1 + body.2 + body.3 + body.4),
{
    let part = body.0 + body.1 + body.2 + body.3 + body.4;
    assert(page =~= (head + before) + part + after);
    law_parts_of_a_text(head + before, part, after, page);
}

proof fn lemma_style_of_page(
    head: Seq<char>,
    style: (Seq<char>, Seq<char>, Seq<char>, Seq<char>, Seq<char>),
    tail: (Seq<char>, Seq<char>, Seq<char>, Seq<char>),
    page: Seq<char>,
)
    requires
        page == head + (style.0 + style.1) + style.2 + (style.3 + style.4) + tail.0 + tail.1 + tail.2
            + tail.3,
    ensures
        has_part(page, style.1 + style.2 + style.3),
{
    let part = style.1 + style.2 + style.3;
    let after = style.4 + tail.0 + tail.1 + tail.2 + tail.3;
    assert(page =~= (head + style.0) + part + after);
    law_parts_of_a_text(head + style.0, part, after, page);
}

} // verus!
