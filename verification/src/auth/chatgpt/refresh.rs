//! Refreshing the tokens of a ChatGPT account.

use vstd::prelude::*;
use vstd::string::*;
use crate::auth::chatgpt::login::{end_of, token_url_of, TokenResponse, TokensView};
use crate::auth::chatgpt::token::{
    account_id_from_tokens, email_from_tokens, tokens_account, tokens_email,
};
use crate::auth::model::{AuthMode, AuthView, GrokAuth, Timestamp};
use crate::auth::provider::{
    is_openai, is_openai_auth, OPENAI_OAUTH_CLIENT_ID, OPENAI_OAUTH_ISSUER,
};
use crate::sampling::{is_status, show_status, status_text};
use crate::text::{
    borrowed, concat, first_some, opt_text, trim_end_slashes, without_end_slashes,
};
use crate::urls::{pair, query_pairs};

verus! {

/// Why a credential cannot be refreshed.
#[derive(Clone, Copy, Debug, PartialEq, Eq, Structural)]
pub enum RefreshError {
    /// It is not for a ChatGPT account.
    NotChatGpt,
    /// It has no refresh token.
    NoRefreshToken,
}

impl RefreshError {
    /// What the user is told.
    pub open spec fn text(self) -> Seq<char> {
        match self {
            RefreshError::NotChatGpt => "not a ChatGPT OAuth credential"@,
            RefreshError::NoRefreshToken => "missing refresh_token"@,
        }
    }

    /// What the user is told.
    pub fn message(self) -> (r: &'static str)
        ensures
            r@ == self.text(),
    {
        match self {
            RefreshError::NotChatGpt => "not a ChatGPT OAuth credential",
            RefreshError::NoRefreshToken => "missing refresh_token",
        }
    }
}

/// The issuer of a credential, without slashes at its end.
pub open spec fn issuer_of(auth: AuthView) -> Seq<char> {
    without_end_slashes(
        match auth.oidc_issuer {
            Some(issuer) => issuer,
            None => OPENAI_OAUTH_ISSUER@,
        },
    )
}

/// The client of a credential.
pub open spec fn client_of(auth: AuthView) -> Seq<char> {
    match auth.oidc_client_id {
        Some(client) => client,
        None => OPENAI_OAUTH_CLIENT_ID@,
    }
}

/// Where a refresh is asked for, and what is sent there.
pub struct RefreshRequest {
    pub token_url: String,
    pub form: Vec<(String, String)>,
}

/// The URL and the names and values that a refresh of a credential sends, or why
/// it cannot be refreshed.
pub open spec fn refresh_of(auth: AuthView) -> Result<
    (Seq<char>, Seq<(Seq<char>, Seq<char>)>),
    RefreshError,
> {
    if !is_openai(auth) {
        Err(RefreshError::NotChatGpt)
    } else {
        match auth.refresh_token {
            None => Err(RefreshError::NoRefreshToken),
            Some(refresh) => Ok(
                (
                    token_url_of(issuer_of(auth)),
                    seq![
                        ("grant_type"@, "refresh_token"@),
                        ("refresh_token"@, refresh),
                        ("client_id"@, client_of(auth)),
                    ],
                ),
            ),
        }
    }
}

/// The model of a refresh to be asked for.
pub open spec fn refresh_view(r: Result<RefreshRequest, RefreshError>) -> Result<
    (Seq<char>, Seq<(Seq<char>, Seq<char>)>),
    RefreshError,
> {
    match r {
        Ok(request) => Ok((request.token_url@, query_pairs(request.form@))),
        Err(e) => Err(e),
    }
}

fn issuer_text(auth: &GrokAuth) -> (r: String)
    ensures
        r@ == issuer_of(auth@),
{
    match &auth.oidc_issuer {
        Some(issuer) => trim_end_slashes(issuer.as_str()),
        None => trim_end_slashes(OPENAI_OAUTH_ISSUER),
    }
}

fn client_text(auth: &GrokAuth) -> (r: String)
    ensures
        r@ == client_of(auth@),
{
    match &auth.oidc_client_id {
        Some(client) => client.clone(),
        None => OPENAI_OAUTH_CLIENT_ID.to_owned(),
    }
}

/// What a refresh of a credential sends, or why it cannot be refreshed.
pub fn refresh_request(auth: &GrokAuth) -> (r: Result<RefreshRequest, RefreshError>)
    ensures
        refresh_view(r) == refresh_of(auth@),
{
    if !is_openai_auth(auth) {
        return Err(RefreshError::NotChatGpt);
    }
    let refresh = match &auth.refresh_token {
        Some(refresh) => refresh,
        None => {
            return Err(RefreshError::NoRefreshToken);
        },
    };
    let mut form: Vec<(String, String)> = Vec::new();
    form.push(pair("grant_type", "refresh_token"));
    form.push(pair("refresh_token", refresh.as_str()));
    form.push(pair("client_id", client_text(auth).as_str()));
    assert(query_pairs(form@) =~= seq![
        ("grant_type"@, "refresh_token"@),
        ("refresh_token"@, refresh@),
        ("client_id"@, client_of(auth@)),
    ]);
    Ok(RefreshRequest { token_url: concat(issuer_text(auth).as_str(), "/oauth/token"), form })
}

/// What the user is told when a refresh is refused.
pub fn refresh_refused(status: u16, body: &str) -> (r: String)
    requires
        is_status(status as int),
    ensures
        r@ == "ChatGPT token refresh failed: HTTP "@ + status_text(status) + " — "@ + body@,
{
    let mut text = concat("ChatGPT token refresh failed: HTTP ", show_status(status).as_str());
    text.append(" — ");
    text.append(body);
    text
}

/// The credential after a refresh: what the answer and its tokens leave out is
/// kept, but for the access to Grok code, which is asked for anew.
pub open spec fn refreshed(
    auth: AuthView,
    tokens: TokensView,
    account_id: Option<Seq<char>>,
    email: Option<Seq<char>>,
    now: Timestamp,
) -> AuthView {
    AuthView {
        key: tokens.access_token,
        auth_mode: AuthMode::Oidc,
        create_time: now,
        user_id: auth.user_id,
        email: first_some(email, auth.email),
        refresh_token: first_some(tokens.refresh_token, auth.refresh_token),
        expires_at: end_of(now, tokens.expires_in),
        oidc_issuer: Some(issuer_of(auth)),
        oidc_client_id: Some(client_of(auth)),
        chatgpt_account_id: first_some(account_id, auth.chatgpt_account_id),
        has_grok_code_access: None,
        profile: auth.profile,
    }
}

/// The credential after a refresh whose tokens name an account and an email
/// address.
pub fn refreshed_for_account(
    auth: &GrokAuth,
    tokens: TokenResponse,
    account_id: Option<String>,
    email: Option<String>,
    now: Timestamp,
) -> (r: GrokAuth)
    requires
        tokens.expires_in matches Some(seconds) ==> now.reaches(seconds),
    ensures
        r@ == refreshed(auth@, tokens@, opt_text(account_id), opt_text(email), now),
{
    GrokAuth {
        key: tokens.access_token,
        auth_mode: AuthMode::Oidc,
        create_time: now,
        user_id: auth.user_id.clone(),
        email: match email {
            Some(_) => email,
            None => auth.email.clone(),
        },
        refresh_token: match tokens.refresh_token {
            Some(_) => tokens.refresh_token,
            None => auth.refresh_token.clone(),
        },
        expires_at: match tokens.expires_in {
            Some(seconds) => Some(now.after(seconds)),
            None => None,
        },
        oidc_issuer: Some(issuer_text(auth)),
        oidc_client_id: Some(client_text(auth)),
        chatgpt_account_id: match account_id {
            Some(_) => account_id,
            None => auth.chatgpt_account_id.clone(),
        },
        has_grok_code_access: None,
        profile: auth.profile.clone(),
    }
}

/// The credential after a refresh.
pub fn refreshed_auth(auth: &GrokAuth, tokens: TokenResponse, now: Timestamp) -> (r: GrokAuth)
    requires
        tokens.expires_in matches Some(seconds) ==> now.reaches(seconds),
    ensures
        r@ == refreshed(
            auth@,
            tokens@,
            tokens_account(tokens@.id_token, tokens@.access_token),
            tokens_email(tokens@.id_token, tokens@.access_token),
            now,
        ),
{
    let account_id = account_id_from_tokens(
        borrowed(&tokens.id_token),
        tokens.access_token.as_str(),
    );
    let email = email_from_tokens(borrowed(&tokens.id_token), tokens.access_token.as_str());
    refreshed_for_account(auth, tokens, account_id, email, now)
}

proof fn lemma_without_end_slashes_again(s: Seq<char>)
    ensures
        without_end_slashes(without_end_slashes(s)) == without_end_slashes(s),
    decreases s.len(),
{
    if s.len() > 0 && s.last() == '/' {
        lemma_without_end_slashes_again(s.drop_last());
    }
}

/// A refreshed credential is still one for a ChatGPT account, can be refreshed
/// again at the same place, and keeps who it belongs to.
pub proof fn law_refreshed_can_be_refreshed(
    auth: AuthView,
    tokens: TokensView,
    account_id: Option<Seq<char>>,
    email: Option<Seq<char>>,
    now: Timestamp,
)
    requires
        refresh_of(auth) is Ok,
    ensures
        ({
            let after = refreshed(auth, tokens, account_id, email, now);
            &&& is_openai(after)
            &&& refresh_of(after) matches Ok(request) && request.0 == refresh_of(auth)->Ok_0.0
            &&& after.user_id == auth.user_id
            &&& after.profile == auth.profile
            &&& account_id is None ==> after.chatgpt_account_id == auth.chatgpt_account_id
            &&& email is None ==> after.email == auth.email
            &&& tokens.refresh_token is None ==> after.refresh_token == auth.refresh_token
        }),
{
    let issuer = match auth.oidc_issuer {
        Some(i) => i,
        None => OPENAI_OAUTH_ISSUER@,
    };
    lemma_without_end_slashes_again(issuer);
}

/// What a refresh brings replaces what was stored: the access token always, the
/// refresh token, the account and the email address where there are new ones. The
/// credential is as of now and ends when the answer says.
pub proof fn law_refresh_replaces_what_it_brings(
    auth: AuthView,
    tokens: TokensView,
    account_id: Option<Seq<char>>,
    email: Option<Seq<char>>,
    now: Timestamp,
)
    ensures
        ({
            let after = refreshed(auth, tokens, account_id, email, now);
            &&& after.key == tokens.access_token
            &&& tokens.refresh_token is Some ==> after.refresh_token == tokens.refresh_token
            &&& tokens.refresh_token is None ==> after.refresh_token == auth.refresh_token
            &&& account_id is Some ==> after.chatgpt_account_id == account_id
            &&& account_id is None ==> after.chatgpt_account_id == auth.chatgpt_account_id
            &&& email is Some ==> after.email == email
            &&& email is None ==> after.email == auth.email
            &&& after.user_id == auth.user_id
            &&& after.profile == auth.profile
            &&& after.create_time == now
            &&& after.auth_mode == AuthMode::Oidc
            &&& after.has_grok_code_access is None
            &&& tokens.expires_in is None ==> after.expires_at is None
            &&& tokens.expires_in matches Some(seconds) ==> (seconds <= i64::MAX && now.reaches(
                seconds,
            ) ==> (after.expires_at matches Some(end) && end.secs == now.secs + seconds && end.nanos
                == now.nanos))
            &&& auth.oidc_client_id is Some ==> after.oidc_client_id == auth.oidc_client_id
        }),
{
}

/// A refresh is asked for where the credential was issued, with its own refresh
/// token and for its own client; where it names neither, at OpenAI for the client
/// that logs in. Only credentials for ChatGPT accounts that have a refresh token
/// can be refreshed.
pub proof fn law_refresh_is_asked_with_the_stored_token(auth: AuthView, refresh: Seq<char>)
    ensures
        !is_openai(auth) ==> refresh_of(auth) == Err::<
            (Seq<char>, Seq<(Seq<char>, Seq<char>)>),
            RefreshError,
        >(RefreshError::NotChatGpt),
        is_openai(auth) && auth.refresh_token is None ==> refresh_of(auth) == Err::<
            (Seq<char>, Seq<(Seq<char>, Seq<char>)>),
            RefreshError,
        >(RefreshError::NoRefreshToken),
        is_openai(auth) && auth.refresh_token == Some(refresh) ==> (refresh_of(auth) matches Ok(
            request,
        ) && {
            &&& request.1.contains(("grant_type"@, "refresh_token"@))
            &&& request.1.contains(("refresh_token"@, refresh))
            &&& auth.oidc_client_id matches Some(client) ==> request.1.contains(
                ("client_id"@, client),
            )
            &&& auth.oidc_client_id is None ==> request.1.contains(
                ("client_id"@, "app_EMoamEEZ73f0CkXaXp7hrann"@),
            )
            &&& request.1.len() == 3
            &&& auth.oidc_issuer matches Some(issuer) ==> request.0 == without_end_slashes(issuer)
                + "/oauth/token"@
            &&& auth.oidc_issuer is None ==> request.0 == "https://auth.openai.com/oauth/token"@
        }),
{
    if is_openai(auth) && auth.refresh_token == Some(refresh) {
        let form = refresh_of(auth)->Ok_0.1;
        assert(form[0] == ("grant_type"@, "refresh_token"@));
        assert(form[1] == ("refresh_token"@, refresh));
        assert(form[2] == ("client_id"@, client_of(auth)));
        reveal_strlit("https://auth.openai.com");
        reveal_strlit("/oauth/token");
        reveal_strlit("https://auth.openai.com/oauth/token");
        assert(without_end_slashes("https://auth.openai.com"@) == "https://auth.openai.com"@) by {
            assert("https://auth.openai.com"@.last() == 'm');
        }
        assert("https://auth.openai.com"@ + "/oauth/token"@
            =~= "https://auth.openai.com/oauth/token"@);
    }
}

} // verus!
