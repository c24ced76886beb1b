//! Signing in to a ChatGPT subscription, and keeping its tokens fresh.

use vstd::prelude::*;
use vstd::string::*;
use crate::encoding::{
    b64_decode, b64_decoded, b64_encoded, pkce_from, random_bytes, Pkce, MAX_ENCODED_BYTES,
};
use crate::json::{
    json_bytes_reading, members_view, parse_json_bytes, text_of, Json, JsonView, Member,
    NumberView,
};
use crate::providers::credentials::{ChatGptCreds, ChatGptCredsView};
use crate::providers::openai_subscribed::borrowed_creds;
use crate::text::{
    borrowed, concat, decimal, first_some, hex, law_pieces_of_one, law_pieces_of_parts,
    lemma_pieces_some, non_empty, opt_str, opt_text, owned, pieces, split_on, text_eq, texts,
    to_decimal, to_hex,
};
use crate::urls::{append_query, is_plain_url, pair, query_pairs, url_with_query};

verus! {

/// Where tokens are to be had.
pub const OPENAI_TOKEN_URL: &'static str = "https://auth.openai.com/oauth/token";

/// Where the user signs in.
pub const OPENAI_AUTHORIZE_URL: &'static str = "https://auth.openai.com/oauth/authorize";

/// The client that signs in.
pub const CLIENT_ID: &'static str = "app_EMoamEEZ73f0CkXaXp7hrann";

/// The port that the callback listens on.
pub const CODEX_CALLBACK_PORT: u16 = 1455;

/// The port that the callback listens on where the first one is taken.
pub const CODEX_CALLBACK_FALLBACK_PORT: u16 = 1457;

/// The path that the browser is sent back to.
pub const CODEX_CALLBACK_PATH: &'static str = "/auth/callback";

/// How long tokens without a known end are taken to last, in milliseconds.
pub const ASSUMED_LIFETIME_MS: u64 = 3_600_000;

/// What the token endpoint answers. A refresh may leave out what did not change.
pub struct TokenResponse {
    pub access_token: Option<String>,
    pub refresh_token: Option<String>,
    pub expires_in: Option<u64>,
    pub id_token: Option<String>,
    pub email: Option<String>,
}

/// The model of [`TokenResponse`].
pub struct TokenResponseView {
    pub access_token: Option<Seq<char>>,
    pub refresh_token: Option<Seq<char>>,
    pub expires_in: Option<u64>,
    pub id_token: Option<Seq<char>>,
    pub email: Option<Seq<char>>,
}

impl TokenResponse {
    pub open spec fn view(&self) -> TokenResponseView {
        TokenResponseView {
            access_token: opt_text(self.access_token),
            refresh_token: opt_text(self.refresh_token),
            expires_in: self.expires_in,
            id_token: opt_text(self.id_token),
            email: opt_text(self.email),
        }
    }
}

/// What a token says of its account.
pub struct JwtClaims {
    pub account_id: Option<String>,
    pub email: Option<String>,
    pub expires_at_ms: Option<u64>,
}

/// The model of [`JwtClaims`].
pub struct JwtClaimsView {
    pub account_id: Option<Seq<char>>,
    pub email: Option<Seq<char>>,
    pub expires_at_ms: Option<u64>,
}

impl JwtClaims {
    pub open spec fn view(&self) -> JwtClaimsView {
        JwtClaimsView {
            account_id: opt_text(self.account_id),
            email: opt_text(self.email),
            expires_at_ms: self.expires_at_ms,
        }
    }
}

impl Default for JwtClaims {
    fn default() -> (r: Self)
        ensures
            r@ == no_claims(),
    {
        JwtClaims { account_id: None, email: None, expires_at_ms: None }
    }
}

/// No claims at all.
pub open spec fn no_claims() -> JwtClaimsView {
    JwtClaimsView { account_id: None, email: None, expires_at_ms: None }
}

/// The sum, or the largest number where it is larger.
pub open spec fn capped_sum(a: int, b: int) -> u64 {
    if a + b <= u64::MAX {
        (a + b) as u64
    } else {
        u64::MAX
    }
}

/// Seconds as milliseconds, or the largest number where they are more.
pub open spec fn capped_ms(seconds: u64) -> u64 {
    if seconds * 1000 <= u64::MAX {
        (seconds * 1000) as u64
    } else {
        u64::MAX
    }
}

/// The id of the first organization that a token lists.
pub open spec fn first_organization(claims: JsonView) -> Option<Seq<char>> {
    match claims.get("organizations"@) {
        Some(JsonView::Array(all)) if all.len() > 0 => all[0].get_text("id"@),
        _ => None,
    }
}

/// What the claims of a token say.
pub open spec fn claims_of(claims: JsonView) -> JwtClaimsView {
    JwtClaimsView {
        account_id: first_some(
            claims.get_text("chatgpt_account_id"@),
            first_some(
                text_of(claims.get_in("https://api.openai.com/auth"@, "chatgpt_account_id"@)),
                first_organization(claims),
            ),
        ),
        email: claims.get_text("email"@),
        expires_at_ms: match claims.get("exp"@) {
            Some(v) => match v.as_unsigned() {
                Some(seconds) => Some(capped_ms(seconds)),
                None => None,
            },
            None => None,
        },
    }
}

/// What a token says: nothing where its middle part is no base64 of JSON.
pub open spec fn token_claims(jwt: Seq<char>) -> JwtClaimsView {
    let parts = pieces(jwt, '.');
    if parts.len() < 2 {
        no_claims()
    } else {
        match b64_decoded(parts[1]) {
            None => no_claims(),
            Some(payload) => match json_bytes_reading(payload) {
                Some(claims) => claims_of(claims),
                None => no_claims(),
            },
        }
    }
}

/// Seconds as milliseconds, or the largest number where they are more.
fn to_ms(seconds: u64) -> (r: u64)
    ensures
        r == capped_ms(seconds),
{
    if seconds <= u64::MAX / 1000 {
        seconds * 1000
    } else {
        u64::MAX
    }
}

/// What the claims of a token say.
pub fn claims_from_json(claims: &Json) -> (r: JwtClaims)
    ensures
        r@ == claims_of(claims@),
{
    let direct = claims.get_text("chatgpt_account_id");
    let nested = match claims.get_in("https://api.openai.com/auth", "chatgpt_account_id") {
        Some(id) => id.as_text(),
        None => None,
    };
    let organization = match claims.get("organizations") {
        Some(Json::Array(all)) => if all.len() > 0 {
            all[0].get_text("id")
        } else {
            None
        },
        _ => None,
    };
    let account_id = match (direct, nested) {
        (Some(id), _) => Some(id),
        (None, Some(id)) => Some(id),
        (None, None) => organization,
    };
    let expires_at_ms: Option<u64> = match claims.get("exp") {
        Some(v) => match v.as_unsigned() {
            Some(seconds) => Some(to_ms(seconds)),
            None => None,
        },
        None => None,
    };
    JwtClaims {
        account_id: owned(account_id),
        email: owned(claims.get_text("email")),
        expires_at_ms,
    }
}

/// What a token says of its account. Its signature is not looked at.
pub fn extract_jwt_claims(jwt: &str) -> (r: JwtClaims)
    ensures
        r@ == token_claims(jwt@),
{
    let parts = split_on(jwt, '.');
    assert(texts(parts@).len() == parts@.len());
    if parts.len() < 2 {
        return JwtClaims::default();
    }
    assert(texts(parts@)[1] == parts@[1]@);
    match b64_decode(parts[1].as_str()) {
        Some(payload) => match parse_json_bytes(payload.as_slice()) {
            Some(claims) => claims_from_json(&claims),
            None => JwtClaims::default(),
        },
        None => JwtClaims::default(),
    }
}

/// What is missing in an answer of the token endpoint.
#[derive(Clone, Copy, Debug, PartialEq, Eq, Structural)]
pub enum TokenError {
    NoAccessToken,
    NoRefreshToken,
}

impl TokenError {
    /// What the user is told.
    pub open spec fn text(self) -> Seq<char> {
        match self {
            TokenError::NoAccessToken => "ChatGPT token response omitted access_token"@,
            TokenError::NoRefreshToken => "ChatGPT token response omitted refresh_token"@,
        }
    }

    /// What the user is told.
    pub fn message(self) -> (r: &'static str)
        ensures
            r@ == self.text(),
    {
        match self {
            TokenError::NoAccessToken => "ChatGPT token response omitted access_token",
            TokenError::NoRefreshToken => "ChatGPT token response omitted refresh_token",
        }
    }
}

/// When the access token ends: as answered, else as the tokens claim, else soon.
pub open spec fn expiry_of(
    expires_in: Option<u64>,
    access: JwtClaimsView,
    identity: JwtClaimsView,
    now_ms: u64,
) -> u64 {
    match (expires_in, access.expires_at_ms, identity.expires_at_ms) {
        (Some(seconds), _, _) => capped_sum(now_ms as int, capped_ms(seconds) as int),
        (None, Some(ms), _) => ms,
        (None, None, Some(ms)) => ms,
        (None, None, None) => capped_sum(now_ms as int, ASSUMED_LIFETIME_MS as int),
    }
}

/// A field of the credentials before, if there were some.
pub open spec fn before_access(previous: Option<ChatGptCredsView>) -> Option<Seq<char>> {
    match previous {
        Some(p) => Some(p.access_token),
        None => None,
    }
}

/// A field of the credentials before, if there were some.
pub open spec fn before_refresh(previous: Option<ChatGptCredsView>) -> Option<Seq<char>> {
    match previous {
        Some(p) => Some(p.refresh_token),
        None => None,
    }
}

/// A field of the credentials before, if there were some.
pub open spec fn before_account(previous: Option<ChatGptCredsView>) -> Option<Seq<char>> {
    match previous {
        Some(p) => p.account_id,
        None => None,
    }
}

/// A field of the credentials before, if there were some.
pub open spec fn before_email(previous: Option<ChatGptCredsView>) -> Option<Seq<char>> {
    match previous {
        Some(p) => p.email,
        None => None,
    }
}

/// The credentials after an answer of the token endpoint: what the answer leaves
/// out is kept. What the identity token claims counts before what the access
/// token claims.
pub open spec fn updated_creds(
    tokens: TokenResponseView,
    previous: Option<ChatGptCredsView>,
    access: JwtClaimsView,
    identity: JwtClaimsView,
    now_ms: u64,
) -> Result<ChatGptCredsView, TokenError> {
    match (
        non_empty(first_some(tokens.access_token, before_access(previous))),
        non_empty(first_some(tokens.refresh_token, before_refresh(previous))),
    ) {
        (None, _) => Err(TokenError::NoAccessToken),
        (Some(_), None) => Err(TokenError::NoRefreshToken),
        (Some(access_token), Some(refresh_token)) => Ok(
            ChatGptCredsView {
                access_token,
                refresh_token,
                expires_at_ms: expiry_of(tokens.expires_in, access, identity, now_ms),
                account_id: first_some(
                    identity.account_id,
                    first_some(access.account_id, before_account(previous)),
                ),
                email: first_some(
                    identity.email,
                    first_some(access.email, first_some(tokens.email, before_email(previous))),
                ),
            },
        ),
    }
}

/// The first of the two texts that is there.
fn either(a: Option<String>, b: Option<String>) -> (r: Option<String>)
    ensures
        opt_text(r) == first_some(opt_text(a), opt_text(b)),
{
    match a {
        Some(_) => a,
        None => b,
    }
}

fn kept(text: Option<String>) -> (r: Option<String>)
    ensures
        opt_text(r) == non_empty(opt_text(text)),
{
    match text {
        Some(t) => if t.as_str().is_empty() {
            None
        } else {
            Some(t)
        },
        None => None,
    }
}

/// The model of the outcome of updating credentials.
pub open spec fn creds_result(r: Result<ChatGptCreds, TokenError>) -> Result<
    ChatGptCredsView,
    TokenError,
> {
    match r {
        Ok(creds) => Ok(creds@),
        Err(e) => Err(e),
    }
}

/// The credentials after an answer of the token endpoint, with what its access
/// and identity tokens claim.
pub fn creds_from_claims(
    tokens: TokenResponse,
    previous: Option<&ChatGptCreds>,
    access_claims: JwtClaims,
    identity_claims: JwtClaims,
    now_ms: u64,
) -> (r: Result<ChatGptCreds, TokenError>)
    ensures
        creds_result(r) == updated_creds(
            tokens@,
            borrowed_creds(previous),
            access_claims@,
            identity_claims@,
            now_ms,
        ),
{
    let (old_access, old_refresh, old_account, old_email) = match previous {
        Some(creds) => (
            Some(creds.access_token.clone()),
            Some(creds.refresh_token.clone()),
            creds.account_id.clone(),
            creds.email.clone(),
        ),
        None => (None, None, None, None),
    };
    let access_token = match kept(either(tokens.access_token, old_access)) {
        Some(token) => token,
        None => {
            return Err(TokenError::NoAccessToken);
        },
    };
    let refresh_token = match kept(either(tokens.refresh_token, old_refresh)) {
        Some(token) => token,
        None => {
            return Err(TokenError::NoRefreshToken);
        },
    };
    let expires_at_ms: u64 = match (
        tokens.expires_in,
        access_claims.expires_at_ms,
        identity_claims.expires_at_ms,
    ) {
        (Some(seconds), _, _) => now_ms.saturating_add(to_ms(seconds)),
        (None, Some(ms), _) => ms,
        (None, None, Some(ms)) => ms,
        (None, None, None) => now_ms.saturating_add(ASSUMED_LIFETIME_MS),
    };
    Ok(
        ChatGptCreds {
            access_token,
            refresh_token,
            expires_at_ms,
            account_id: either(
                identity_claims.account_id,
                either(access_claims.account_id, old_account),
            ),
            email: either(
                identity_claims.email,
                either(access_claims.email, either(tokens.email, old_email)),
            ),
        },
    )
}

/// What an identity token that may be missing claims.
pub open spec fn identity_claims_of(id_token: Option<Seq<char>>) -> JwtClaimsView {
    match id_token {
        Some(token) => token_claims(token),
        None => no_claims(),
    }
}

/// What the access token claims that the credentials will have.
pub open spec fn access_claims_of(
    tokens: TokenResponseView,
    previous: Option<ChatGptCredsView>,
) -> JwtClaimsView {
    match first_some(tokens.access_token, before_access(previous)) {
        Some(token) => token_claims(token),
        None => no_claims(),
    }
}

/// The credentials after an answer of the token endpoint. What the answer leaves
/// out is kept from the credentials before.
pub fn creds_from_tokens(
    tokens: TokenResponse,
    previous: Option<&ChatGptCreds>,
    now_ms: u64,
) -> (r: Result<ChatGptCreds, TokenError>)
    ensures
        creds_result(r) == updated_creds(
            tokens@,
            borrowed_creds(previous),
            access_claims_of(tokens@, borrowed_creds(previous)),
            identity_claims_of(tokens@.id_token),
            now_ms,
        ),
{
    let access_claims = match (&tokens.access_token, previous) {
        (Some(token), _) => extract_jwt_claims(token.as_str()),
        (None, Some(creds)) => extract_jwt_claims(creds.access_token.as_str()),
        (None, None) => JwtClaims::default(),
    };
    let identity_claims = match &tokens.id_token {
        Some(token) => extract_jwt_claims(token.as_str()),
        None => JwtClaims::default(),
    };
    creds_from_claims(tokens, previous, access_claims, identity_claims, now_ms)
}

/// A refresh that answers with an access token alone keeps the refresh token, and
/// with nothing claimed also the account and the email.
pub proof fn law_refresh_keeps_omitted_fields(
    tokens: TokenResponseView,
    previous: ChatGptCredsView,
    access: JwtClaimsView,
    identity: JwtClaimsView,
    now_ms: u64,
    token: Seq<char>,
)
    requires
        tokens.access_token == Some(token),
        token.len() > 0,
        tokens.refresh_token is None,
        previous.refresh_token.len() > 0,
    ensures
        updated_creds(tokens, Some(previous), access, identity, now_ms) matches Ok(creds) && {
            &&& creds.access_token == token
            &&& creds.refresh_token == previous.refresh_token
            &&& access.account_id is None && identity.account_id is None ==> creds.account_id
                == previous.account_id
            &&& access.email is None && identity.email is None && tokens.email is None
                ==> creds.email == previous.email
        },
{
}

/// An answer with everything in it makes credentials out of nothing.
pub proof fn law_full_answer_needs_no_credentials(
    tokens: TokenResponseView,
    access: JwtClaimsView,
    identity: JwtClaimsView,
    now_ms: u64,
)
    ensures
        updated_creds(tokens, None, access, identity, now_ms) is Ok <==> non_empty(
            tokens.access_token,
        ) is Some && non_empty(tokens.refresh_token) is Some,
{
}

/// What a refresh sends to the token endpoint.
pub open spec fn refresh_body_of(refresh_token: Seq<char>) -> JsonView {
    JsonView::Object(
        seq![
            ("grant_type"@, JsonView::Text("refresh_token"@)),
            ("client_id"@, JsonView::Text(CLIENT_ID@)),
            ("refresh_token"@, JsonView::Text(refresh_token)),
        ],
    )
}

/// What a refresh sends to the token endpoint.
pub fn refresh_body(creds: &ChatGptCreds) -> (r: Json)
    ensures
        r@ == refresh_body_of(creds.refresh_token@),
{
    let mut members: Vec<Member> = Vec::new();
    members.push(
        Member { name: "grant_type".to_owned(), value: Json::Text("refresh_token".to_owned()) },
    );
    members.push(Member { name: "client_id".to_owned(), value: Json::Text(CLIENT_ID.to_owned()) });
    members.push(
        Member {
            name: "refresh_token".to_owned(),
            value: Json::Text(creds.refresh_token.clone()),
        },
    );
    assert(members_view(members@) =~= refresh_body_of(creds.refresh_token@)->Object_0);
    Json::Object(members)
}

/// What the exchange of an authorization code sends to the token endpoint.
pub open spec fn exchange_pairs(
    code: Seq<char>,
    verifier: Seq<char>,
    redirect_uri: Seq<char>,
) -> Seq<(Seq<char>, Seq<char>)> {
    seq![
        ("grant_type"@, "authorization_code"@),
        ("client_id"@, CLIENT_ID@),
        ("code"@, code),
        ("redirect_uri"@, redirect_uri),
        ("code_verifier"@, verifier),
    ]
}

/// What the exchange of an authorization code sends to the token endpoint.
pub fn exchange_form(code: &str, verifier: &str, redirect_uri: &str) -> (r: Vec<(String, String)>)
    ensures
        query_pairs(r@) == exchange_pairs(code@, verifier@, redirect_uri@),
{
    let mut form: Vec<(String, String)> = Vec::new();
    form.push(pair("grant_type", "authorization_code"));
    form.push(pair("client_id", CLIENT_ID));
    form.push(pair("code", code));
    form.push(pair("redirect_uri", redirect_uri));
    form.push(pair("code_verifier", verifier));
    assert(query_pairs(form@) =~= exchange_pairs(code@, verifier@, redirect_uri@));
    form
}

/// Where the browser is sent back to.
pub open spec fn redirect_of(port: u16) -> Seq<char> {
    "http://localhost:"@ + decimal(port as nat) + CODEX_CALLBACK_PATH@
}

/// Where the browser is sent back to when the callback listens on a port.
pub fn redirect_uri(port: u16) -> (r: String)
    ensures
        r@ == redirect_of(port),
{
    let mut uri = concat("http://localhost:", to_decimal(port as u128).as_str());
    uri.append(CODEX_CALLBACK_PATH);
    uri
}

/// A sign-in in a browser: the secrets that it starts with.
pub struct SignIn {
    pub pkce: Pkce,
    pub state: String,
}

/// The secrets of a sign-in made of random bytes.
pub fn sign_in_from(verifier_bytes: &[u8], state_bytes: &[u8]) -> (r: SignIn)
    requires
        verifier_bytes@.len() <= MAX_ENCODED_BYTES,
    ensures
        r.pkce.verifier@ == b64_encoded(verifier_bytes@),
        verifier_bytes@.len() == 32 ==> r.pkce.verifier@.len() == 43,
        r.pkce.matches(),
        r.state@ == hex(state_bytes@),
{
    SignIn { pkce: pkce_from(verifier_bytes), state: to_hex(state_bytes) }
}

/// New secrets for a sign-in.
pub fn start_sign_in() -> (r: SignIn)
    ensures
        exists|bytes: Seq<u8>|
            bytes.len() == 32 && r.pkce.verifier@ == #[trigger] b64_encoded(bytes),
        exists|bytes: Seq<u8>| bytes.len() == 16 && r.state@ == #[trigger] hex(bytes),
        r.pkce.matches(),
        r.pkce.verifier@.len() == 43,
        r.state@.len() == 32,
{
    let verifier_bytes = random_bytes(32);
    let state_bytes = random_bytes(16);
    proof {
        lemma_hex_len(state_bytes@);
    }
    sign_in_from(verifier_bytes.as_slice(), state_bytes.as_slice())
}

proof fn lemma_hex_len(bytes: Seq<u8>)
    ensures
        hex(bytes).len() == 2 * bytes.len(),
    decreases bytes.len(),
{
    if bytes.len() > 0 {
        lemma_hex_len(bytes.drop_last());
    }
}

/// The query of the page that the user signs in on.
pub open spec fn authorize_pairs(
    redirect_uri: Seq<char>,
    challenge: Seq<char>,
    state: Seq<char>,
) -> Seq<(Seq<char>, Seq<char>)> {
    seq![
        ("client_id"@, CLIENT_ID@),
        ("redirect_uri"@, redirect_uri),
        (
            "scope"@,
            "openid profile email offline_access api.connectors.read api.connectors.invoke"@,
        ),
        ("response_type"@, "code"@),
        ("code_challenge"@, challenge),
        ("code_challenge_method"@, "S256"@),
        ("id_token_add_organizations"@, "true"@),
        ("state"@, state),
        ("codex_cli_simplified_flow"@, "true"@),
        ("originator"@, "grog"@),
    ]
}

/// The page that the user signs in on.
pub fn authorize_url(redirect_uri: &str, sign_in: &SignIn) -> (r: String)
    ensures
        Some(r@) == url_with_query(
            OPENAI_AUTHORIZE_URL@,
            authorize_pairs(redirect_uri@, sign_in.pkce.challenge@, sign_in.state@),
        ),
{
    let mut pairs: Vec<(String, String)> = Vec::new();
    pairs.push(pair("client_id", CLIENT_ID));
    pairs.push(pair("redirect_uri", redirect_uri));
    pairs.push(
        pair(
            "scope",
            "openid profile email offline_access api.connectors.read api.connectors.invoke",
        ),
    );
    pairs.push(pair("response_type", "code"));
    pairs.push(pair("code_challenge", sign_in.pkce.challenge.as_str()));
    pairs.push(pair("code_challenge_method", "S256"));
    pairs.push(pair("id_token_add_organizations", "true"));
    pairs.push(pair("state", sign_in.state.as_str()));
    pairs.push(pair("codex_cli_simplified_flow", "true"));
    pairs.push(pair("originator", "grog"));
    assert(query_pairs(pairs@) =~= authorize_pairs(
        redirect_uri@,
        sign_in.pkce.challenge@,
        sign_in.state@,
    ));
    proof {
        reveal_strlit("https://auth.openai.com/oauth/authorize");
        reveal_strlit("https://");
        assert(OPENAI_AUTHORIZE_URL@.subrange(0, 8) =~= "https://"@);
        assert(is_plain_url(OPENAI_AUTHORIZE_URL@));
    }
    append_query(OPENAI_AUTHORIZE_URL, &pairs).unwrap()
}

/// What the browser brings back from a sign-in.
pub struct CallbackParams {
    pub error: Option<String>,
    pub error_description: Option<String>,
    pub code: Option<String>,
    pub state: Option<String>,
}

/// The model of [`CallbackParams`].
pub struct CallbackParamsView {
    pub error: Option<Seq<char>>,
    pub error_description: Option<Seq<char>>,
    pub code: Option<Seq<char>>,
    pub state: Option<Seq<char>>,
}

impl CallbackParams {
    pub open spec fn view(&self) -> CallbackParamsView {
        CallbackParamsView {
            error: opt_text(self.error),
            error_description: opt_text(self.error_description),
            code: opt_text(self.code),
            state: opt_text(self.state),
        }
    }
}

/// An error and its description, where it has one.
pub open spec fn described_error(error: Seq<char>, description: Option<Seq<char>>) -> Seq<char> {
    match description {
        Some(d) if d.len() > 0 => error + ": "@ + d,
        _ => error,
    }
}

/// An error and its description, where it has one.
pub fn describe_error(error: &str, description: Option<&str>) -> (r: String)
    ensures
        r@ == described_error(error@, opt_str(description)),
{
    let mut text = error.to_owned();
    if let Some(d) = description {
        if !d.is_empty() {
            text.append(": ");
            text.append(d);
        }
    }
    text
}

/// How a sign-in ended: with an authorization code, or with what went wrong.
pub open spec fn callback_outcome(params: CallbackParamsView, expected_state: Seq<char>) -> Result<
    Seq<char>,
    Seq<char>,
> {
    match (params.error, params.code) {
        (Some(error), _) => Err(described_error(error, params.error_description)),
        (None, None) => Err("Missing authorization code"@),
        (None, Some(code)) => {
            let state = match params.state {
                Some(s) => s,
                None => Seq::empty(),
            };
            if state == expected_state {
                Ok(code)
            } else {
                Err("OAuth state mismatch"@)
            }
        },
    }
}

/// The page that a sign-in ends on.
pub struct CallbackPage {
    pub status: u16,
    pub title: &'static str,
    pub message: String,
    pub is_success: bool,
}

/// The model of [`CallbackPage`].
pub struct CallbackPageView {
    pub status: u16,
    pub title: Seq<char>,
    pub message: Seq<char>,
    pub is_success: bool,
}

impl CallbackPage {
    pub open spec fn view(&self) -> CallbackPageView {
        CallbackPageView {
            status: self.status,
            title: self.title@,
            message: self.message@,
            is_success: self.is_success,
        }
    }
}

/// The page for an outcome.
pub open spec fn page_of(outcome: Result<Seq<char>, Seq<char>>) -> CallbackPageView {
    match outcome {
        Ok(_) => CallbackPageView {
            status: 200,
            title: "Signed in to ChatGPT"@,
            message: "You can close this tab and return to GROG."@,
            is_success: true,
        },
        Err(message) => CallbackPageView {
            status: 400,
            title: "ChatGPT sign-in failed"@,
            message,
            is_success: false,
        },
    }
}

/// The characters of either side of an outcome.
pub open spec fn outcome_view(r: Result<String, String>) -> Result<Seq<char>, Seq<char>> {
    match r {
        Ok(code) => Ok(code@),
        Err(message) => Err(message@),
    }
}

/// Takes what the browser brings back: how the sign-in ended, and the page to
/// show.
pub fn handle_callback(params: &CallbackParams, expected_state: &str) -> (r: (
    Result<String, String>,
    CallbackPage,
))
    ensures
        outcome_view(r.0) == callback_outcome(params@, expected_state@),
        r.1@ == page_of(callback_outcome(params@, expected_state@)),
{
    let outcome: Result<String, String> = match (&params.error, &params.code) {
        (Some(error), _) => Err(
            describe_error(error.as_str(), borrowed(&params.error_description)),
        ),
        (None, None) => Err("Missing authorization code".to_owned()),
        (None, Some(code)) => {
            let state = match &params.state {
                Some(s) => s.as_str(),
                None => "",
            };
            proof {
                reveal_strlit("");
                assert(""@ =~= Seq::<char>::empty());
            }
            if text_eq(state, expected_state) {
                Ok(code.clone())
            } else {
                Err("OAuth state mismatch".to_owned())
            }
        },
    };
    let page = match &outcome {
        Ok(_) => CallbackPage {
            status: 200,
            title: "Signed in to ChatGPT",
            message: "You can close this tab and return to GROG.".to_owned(),
            is_success: true,
        },
        Err(message) => CallbackPage {
            status: 400,
            title: "ChatGPT sign-in failed",
            message: message.clone(),
            is_success: false,
        },
    };
    (outcome, page)
}

/// What became of waiting for the end of a sign-in.
pub enum SignInWait {
    /// It took too long.
    TimedOut,
    /// Nobody waits for it any more.
    Cancelled,
    /// It ended.
    Ended(Result<String, String>),
}

/// The code to exchange, or why the sign-in failed.
pub open spec fn sign_in_outcome(wait: SignInWait) -> Result<Seq<char>, Seq<char>> {
    match wait {
        SignInWait::TimedOut => Err("ChatGPT sign-in timed out after 10 minutes"@),
        SignInWait::Cancelled => Err("ChatGPT sign-in was cancelled"@),
        SignInWait::Ended(outcome) => outcome_view(outcome),
    }
}

/// The code to exchange, or why the sign-in failed.
pub fn finish_sign_in(wait: SignInWait) -> (r: Result<String, String>)
    ensures
        outcome_view(r) == sign_in_outcome(wait),
{
    match wait {
        SignInWait::TimedOut => Err("ChatGPT sign-in timed out after 10 minutes".to_owned()),
        SignInWait::Cancelled => Err("ChatGPT sign-in was cancelled".to_owned()),
        SignInWait::Ended(outcome) => outcome,
    }
}

/// A code is only taken from a callback that reports no error and brings back the
/// state that the sign-in started with.
pub proof fn law_code_needs_matching_state(params: CallbackParamsView, expected_state: Seq<char>)
    requires
        expected_state.len() > 0,
    ensures
        callback_outcome(params, expected_state) is Ok <==> params.error is None && params.code is Some
            && params.state == Some(expected_state),
{
}

/// Tokens that an answer brings are the ones that are kept: an access token and a
/// refresh token that are not empty replace those before, whatever these were.
/// What the answer leaves out stays as it was, and an update fails exactly where
/// a token is then missing or empty, the access token first.
pub proof fn law_answered_tokens_replace_stored_ones(
    tokens: TokenResponseView,
    previous: Option<ChatGptCredsView>,
    access: JwtClaimsView,
    identity: JwtClaimsView,
    now_ms: u64,
)
    ensures
        ({
            let outcome = updated_creds(tokens, previous, access, identity, now_ms);
            let has_access = match tokens.access_token {
                Some(token) => token.len() > 0,
                None => previous is Some && previous->0.access_token.len() > 0,
            };
            let has_refresh = match tokens.refresh_token {
                Some(token) => token.len() > 0,
                None => previous is Some && previous->0.refresh_token.len() > 0,
            };
            &&& outcome is Ok <==> has_access && has_refresh
            &&& !has_access ==> outcome == Err::<ChatGptCredsView, TokenError>(
                TokenError::NoAccessToken,
            )
            &&& has_access && !has_refresh ==> outcome == Err::<ChatGptCredsView, TokenError>(
                TokenError::NoRefreshToken,
            )
            &&& outcome matches Ok(creds) ==> {
                &&& tokens.access_token is Some ==> Some(creds.access_token) == tokens.access_token
                &&& tokens.access_token is None ==> creds.access_token
                    == previous->0.access_token
                &&& tokens.refresh_token is Some ==> Some(creds.refresh_token)
                    == tokens.refresh_token
                &&& tokens.refresh_token is None ==> creds.refresh_token
                    == previous->0.refresh_token
            }
        }),
{
}

/// Who credentials belong to: the account that the identity token names, else the
/// access token, else the account before. So with the email address, where the
/// answer itself may name one before what was stored.
pub proof fn law_claimed_account_counts_first(
    tokens: TokenResponseView,
    previous: Option<ChatGptCredsView>,
    access: JwtClaimsView,
    identity: JwtClaimsView,
    now_ms: u64,
)
    requires
        updated_creds(tokens, previous, access, identity, now_ms) is Ok,
    ensures
        ({
            let creds = updated_creds(tokens, previous, access, identity, now_ms)->Ok_0;
            &&& identity.account_id is Some ==> creds.account_id == identity.account_id
            &&& identity.account_id is None && access.account_id is Some ==> creds.account_id
                == access.account_id
            &&& identity.account_id is None && access.account_id is None && previous is Some
                ==> creds.account_id == previous->0.account_id
            &&& identity.account_id is None && access.account_id is None && previous is None
                ==> creds.account_id is None
            &&& identity.email is Some ==> creds.email == identity.email
            &&& identity.email is None && access.email is Some ==> creds.email == access.email
            &&& identity.email is None && access.email is None && tokens.email is Some
                ==> creds.email == tokens.email
            &&& identity.email is None && access.email is None && tokens.email is None && previous
                is Some ==> creds.email == previous->0.email
            &&& identity.email is None && access.email is None && tokens.email is None && previous
                is None ==> creds.email is None
        }),
{
}

/// When credentials end: so many seconds from now as the answer says, whatever the
/// tokens claim; else when the access token claims, else the identity token, else
/// an hour from now. A time that does not fit is the last one that does.
pub proof fn law_credentials_end_as_answered(
    tokens: TokenResponseView,
    previous: Option<ChatGptCredsView>,
    access: JwtClaimsView,
    identity: JwtClaimsView,
    now_ms: u64,
)
    requires
        updated_creds(tokens, previous, access, identity, now_ms) is Ok,
    ensures
        ({
            let ends = updated_creds(tokens, previous, access, identity, now_ms)->Ok_0.expires_at_ms;
            match (tokens.expires_in, access.expires_at_ms, identity.expires_at_ms) {
                (Some(seconds), _, _) => if now_ms + seconds * 1000 <= u64::MAX {
                    ends == now_ms + seconds * 1000
                } else {
                    ends == u64::MAX
                },
                (None, Some(ms), _) => ends == ms,
                (None, None, Some(ms)) => ends == ms,
                (None, None, None) => if now_ms + 3_600_000 <= u64::MAX {
                    ends == now_ms + 3_600_000
                } else {
                    ends == u64::MAX
                },
            }
        }),
{
}

/// The account that claims name: directly, else in the claim that the API adds,
/// whatever organizations there are, else the first organization. Only texts name
/// an account.
pub proof fn law_claims_name_the_account(claims: JsonView, id: Seq<char>)
    ensures
        claims.get("chatgpt_account_id"@) == Some(JsonView::Text(id)) ==> claims_of(
            claims,
        ).account_id == Some(id),
        claims.get_text("chatgpt_account_id"@) is None && claims.get_in(
            "https://api.openai.com/auth"@,
            "chatgpt_account_id"@,
        ) == Some(JsonView::Text(id)) ==> claims_of(claims).account_id == Some(id),
        claims.get_text("chatgpt_account_id"@) is None && !(claims.get_in(
            "https://api.openai.com/auth"@,
            "chatgpt_account_id"@,
        ) matches Some(JsonView::Text(_))) && (claims.get("organizations"@) matches Some(
            JsonView::Array(all),
        ) && all.len() > 0 && all[0].get("id"@) == Some(JsonView::Text(id))) ==> claims_of(
            claims,
        ).account_id == Some(id),
        claims.get_text("chatgpt_account_id"@) is None && !(claims.get_in(
            "https://api.openai.com/auth"@,
            "chatgpt_account_id"@,
        ) matches Some(JsonView::Text(_))) && !(claims.get("organizations"@) matches Some(
            JsonView::Array(all),
        ) && all.len() > 0 && (all[0].get("id"@) matches Some(JsonView::Text(_)))) ==> claims_of(
            claims,
        ).account_id is None,
{
}

/// The email address and the end that claims name: a text, and seconds since the
/// epoch as milliseconds, as far as they fit.
pub proof fn law_claims_name_email_and_end(claims: JsonView, seconds: u64, email: Seq<char>)
    ensures
        claims.get("email"@) == Some(JsonView::Text(email)) ==> claims_of(claims).email == Some(
            email,
        ),
        !(claims.get("email"@) matches Some(JsonView::Text(_))) ==> claims_of(claims).email is None,
        claims.get("exp"@) == Some(JsonView::Number(NumberView::Unsigned(seconds))) ==> (
        claims_of(claims).expires_at_ms matches Some(ms) && ms == if seconds * 1000 <= u64::MAX {
            seconds * 1000
        } else {
            u64::MAX as int
        }),
        !(claims.get("exp"@) matches Some(JsonView::Number(NumberView::Unsigned(_))))
            ==> claims_of(claims).expires_at_ms is None,
{
}

/// A token claims what the JSON in its second part says, and nothing where that
/// part cannot be read.
pub proof fn law_token_claims_its_second_part(
    first: Seq<char>,
    payload: Seq<char>,
    rest: Seq<char>,
)
    requires
        forall|i: int| 0 <= i < first.len() ==> first[i] != '.',
        forall|i: int| 0 <= i < payload.len() ==> payload[i] != '.',
    ensures
        ({
            let token = first + seq!['.'] + payload + seq!['.'] + rest;
            match b64_decoded(payload) {
                Some(bytes) => match json_bytes_reading(bytes) {
                    Some(claims) => token_claims(token) == claims_of(claims),
                    None => token_claims(token) == no_claims(),
                },
                None => token_claims(token) == no_claims(),
            }
        }),
        token_claims(first) == no_claims(),
        no_claims().account_id is None && no_claims().email is None
            && no_claims().expires_at_ms is None,
{
    law_pieces_of_parts(first, payload + seq!['.'] + rest, '.');
    law_pieces_of_parts(payload, rest, '.');
    law_pieces_of_one(first, '.');
    assert(first + seq!['.'] + (payload + seq!['.'] + rest) =~= first + seq!['.'] + payload
        + seq!['.'] + rest);
    lemma_pieces_some(rest, '.');
}

/// A refresh names the refresh token of the credentials and the client.
pub proof fn law_refresh_sends_the_refresh_token(refresh_token: Seq<char>)
    ensures
        refresh_body_of(refresh_token).get("grant_type"@) == Some(JsonView::Text("refresh_token"@)),
        refresh_body_of(refresh_token).get("refresh_token"@) == Some(JsonView::Text(refresh_token)),
        refresh_body_of(refresh_token).get("client_id"@) == Some(
            JsonView::Text("app_EMoamEEZ73f0CkXaXp7hrann"@),
        ),
{
    reveal_strlit("grant_type");
    reveal_strlit("client_id");
    reveal_strlit("refresh_token");
    assert("grant_type"@.len() == 10 && "client_id"@.len() == 9 && "refresh_token"@.len() == 13);
    reveal_with_fuel(crate::json::lookup, 4);
    let members = refresh_body_of(refresh_token)->Object_0;
    assert(members.drop_first().drop_first()[0] == members[2]);
}

/// The exchange of a code sends the code, where it was brought to and the verifier
/// that belongs to the challenge.
pub proof fn law_exchange_sends_code_and_verifier(
    code: Seq<char>,
    verifier: Seq<char>,
    redirect_uri: Seq<char>,
)
    ensures
        ({
            let form = exchange_pairs(code, verifier, redirect_uri);
            &&& form.contains(("grant_type"@, "authorization_code"@))
            &&& form.contains(("code"@, code))
            &&& form.contains(("code_verifier"@, verifier))
            &&& form.contains(("redirect_uri"@, redirect_uri))
            &&& form.contains(("client_id"@, "app_EMoamEEZ73f0CkXaXp7hrann"@))
            &&& form.len() == 5
        }),
{
    let form = exchange_pairs(code, verifier, redirect_uri);
    assert(form[0] == ("grant_type"@, "authorization_code"@));
    assert(form[1] == ("client_id"@, CLIENT_ID@));
    assert(form[2] == ("code"@, code));
    assert(form[3] == ("redirect_uri"@, redirect_uri));
    assert(form[4] == ("code_verifier"@, verifier));
}

/// The page to sign in on is asked for a code under the challenge, to be brought
/// back with the state to where the callback listens.
pub proof fn law_sign_in_page_is_asked_for_a_code(
    redirect_uri: Seq<char>,
    challenge: Seq<char>,
    state: Seq<char>,
)
    ensures
        ({
            let query = authorize_pairs(redirect_uri, challenge, state);
            &&& OPENAI_AUTHORIZE_URL@ == "https://auth.openai.com/oauth/authorize"@
            &&& query.contains(("response_type"@, "code"@))
            &&& query.contains(("redirect_uri"@, redirect_uri))
            &&& query.contains(("code_challenge"@, challenge))
            &&& query.contains(("code_challenge_method"@, "S256"@))
            &&& query.contains(("state"@, state))
            &&& query.contains(("client_id"@, "app_EMoamEEZ73f0CkXaXp7hrann"@))
            &&& query.contains(
                (
                    "scope"@,
                    "openid profile email offline_access api.connectors.read api.connectors.invoke"@,
                ),
            )
            &&& query.contains(("id_token_add_organizations"@, "true"@))
            &&& query.contains(("codex_cli_simplified_flow"@, "true"@))
            &&& query.contains(("originator"@, "grog"@))
        }),
{
    let query = authorize_pairs(redirect_uri, challenge, state);
    assert(query[2] == (
        "scope"@,
        "openid profile email offline_access api.connectors.read api.connectors.invoke"@,
    ));
    assert(query[6] == ("id_token_add_organizations"@, "true"@));
    assert(query[8] == ("codex_cli_simplified_flow"@, "true"@));
    assert(query[9] == ("originator"@, "grog"@));
    assert(query[0] == ("client_id"@, CLIENT_ID@));
    assert(query[1] == ("redirect_uri"@, redirect_uri));
    assert(query[3] == ("response_type"@, "code"@));
    assert(query[4] == ("code_challenge"@, challenge));
    assert(query[5] == ("code_challenge_method"@, "S256"@));
    assert(query[7] == ("state"@, state));
}

/// What a callback comes to: the code where it reports no error and brings the
/// right state; the error that it reports, with its description where that is not
/// empty; else what is missing or wrong. The page shows success exactly for a
/// code, and the reason otherwise.
pub proof fn law_callback_outcomes(params: CallbackParamsView, expected_state: Seq<char>)
    ensures
        ({
            let outcome = callback_outcome(params, expected_state);
            let page = page_of(outcome);
            &&& params.error matches Some(error) ==> outcome == (match params.error_description {
                Some(description) => if description.len() > 0 {
                    Err::<Seq<char>, Seq<char>>(error + ": "@ + description)
                } else {
                    Err::<Seq<char>, Seq<char>>(error)
                },
                None => Err::<Seq<char>, Seq<char>>(error),
            })
            &&& outcome matches Ok(code) ==> params.code == Some(code) && (params.state == Some(
                expected_state,
            ) || (params.state is None && expected_state.len() == 0))
            &&& params.error is None && params.code is None ==> outcome == Err::<
                Seq<char>,
                Seq<char>,
            >("Missing authorization code"@)
            &&& params.error is None && (params.code matches Some(code) && params.state == Some(
                expected_state,
            )) ==> outcome == Ok::<Seq<char>, Seq<char>>(params.code->0)
            &&& params.error is None && params.code is Some && (params.state matches Some(state)
                && state != expected_state) ==> outcome == Err::<Seq<char>, Seq<char>>(
                "OAuth state mismatch"@,
            )
            &&& page.is_success <==> outcome is Ok
            &&& outcome is Ok <==> page.status == 200
            &&& outcome matches Err(message) ==> page.message == message && page.status == 400
        }),
{
    if let Some(s) = params.state {
        if s.len() == 0 {
            assert(s =~= Seq::<char>::empty());
        }
    }
    if expected_state.len() == 0 {
        assert(expected_state =~= Seq::<char>::empty());
    }
}

/// The browser is sent back to the machine itself, on the port that the callback
/// listens on.
pub proof fn law_redirect_names_the_port(port: u16)
    ensures
        redirect_of(port) == "http://localhost:"@ + decimal(port as nat) + "/auth/callback"@,
{
}

/// The claims that count are those of the answered tokens: of the answered access
/// token, whatever token was stored, and of the stored one only where none was
/// answered. Without an identity token nothing is claimed for one.
pub proof fn law_claims_of_the_answered_tokens(
    tokens: TokenResponseView,
    previous: Option<ChatGptCredsView>,
)
    ensures
        tokens.access_token matches Some(token) ==> access_claims_of(tokens, previous)
            == token_claims(token),
        tokens.access_token is None && previous is Some ==> access_claims_of(tokens, previous)
            == token_claims(previous->0.access_token),
        tokens.access_token is None && previous is None ==> ({
            let claims = access_claims_of(tokens, previous);
            claims.account_id is None && claims.email is None && claims.expires_at_ms is None
        }),
        tokens.id_token matches Some(token) ==> identity_claims_of(tokens.id_token)
            == token_claims(token),
        tokens.id_token is None ==> ({
            let claims = identity_claims_of(tokens.id_token);
            claims.account_id is None && claims.email is None && claims.expires_at_ms is None
        }),
{
}

} // verus!
