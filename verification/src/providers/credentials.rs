//! The stored credentials of connected providers.

use vstd::prelude::*;
use vstd::string::*;
use vstd::utf8::encode_utf8;
use crate::json::{
    and_text, json_pretty, json_to_pretty, law_first_member_counts, lemma_lookup_found,
    members_view, push_text, settled_members, text_member, Json, JsonView, Member, Number, NumberView,
};
use crate::ordered::value_of;
use crate::providers::ProviderId;
use crate::records::{
    field, field_text, find_field, is_opt_text, is_record, is_record_of, loose_of, loosened,
    opt_loose, read_loose, read_text, Loose, LooseView,
};
use crate::text::{non_empty, opt_str, opt_text, str_texts, trim_end, trim_start, trimmed};

verus! {

/// How long before its end a token counts as expired, in milliseconds.
pub const EXPIRY_MARGIN_MS: u64 = 300_000;

/// The credentials of all connected providers.
#[derive(Debug)]
pub struct ProviderStore {
    pub openrouter: Option<ApiKeyCreds>,
    pub openai_subscribed: Option<ChatGptCreds>,
}

/// An API key.
#[derive(Debug)]
pub struct ApiKeyCreds {
    pub api_key: String,
}

/// The tokens of a ChatGPT subscription.
#[derive(Debug)]
pub struct ChatGptCreds {
    pub access_token: String,
    pub refresh_token: String,
    /// When the access token ends, in milliseconds since the epoch.
    pub expires_at_ms: u64,
    pub account_id: Option<String>,
    pub email: Option<String>,
}

/// The model of [`ChatGptCreds`].
pub struct ChatGptCredsView {
    pub access_token: Seq<char>,
    pub refresh_token: Seq<char>,
    pub expires_at_ms: u64,
    pub account_id: Option<Seq<char>>,
    pub email: Option<Seq<char>>,
}

/// The model of [`ProviderStore`].
pub struct StoreView {
    pub openrouter: Option<Seq<char>>,
    pub openai_subscribed: Option<ChatGptCredsView>,
}

impl ChatGptCreds {
    pub open spec fn view(&self) -> ChatGptCredsView {
        ChatGptCredsView {
            access_token: self.access_token@,
            refresh_token: self.refresh_token@,
            expires_at_ms: self.expires_at_ms,
            account_id: opt_text(self.account_id),
            email: opt_text(self.email),
        }
    }

    /// Whether the access token has ended, or is about to within the margin.
    pub fn is_expired(&self, now_ms: u64) -> (r: bool)
        requires
            now_ms + EXPIRY_MARGIN_MS <= u64::MAX,
        ensures
            r == (now_ms + EXPIRY_MARGIN_MS >= self.expires_at_ms),
            r <==> self.expires_at_ms - now_ms <= 5 * 60 * 1000,
    {
        now_ms + EXPIRY_MARGIN_MS >= self.expires_at_ms
    }
}

impl Clone for ChatGptCreds {
    fn clone(&self) -> (r: Self)
        ensures
            r@ == self@,
    {
        ChatGptCreds {
            access_token: self.access_token.clone(),
            refresh_token: self.refresh_token.clone(),
            expires_at_ms: self.expires_at_ms,
            account_id: self.account_id.clone(),
            email: self.email.clone(),
        }
    }
}

/// The key of credentials that may be missing.
pub open spec fn opt_key(creds: Option<ApiKeyCreds>) -> Option<Seq<char>> {
    match creds {
        Some(c) => Some(c.api_key@),
        None => None,
    }
}

/// The model of credentials that may be missing.
pub open spec fn opt_creds(creds: Option<ChatGptCreds>) -> Option<ChatGptCredsView> {
    match creds {
        Some(c) => Some(c@),
        None => None,
    }
}

impl ProviderStore {
    pub open spec fn view(&self) -> StoreView {
        StoreView {
            openrouter: opt_key(self.openrouter),
            openai_subscribed: opt_creds(self.openai_subscribed),
        }
    }
}

impl Default for ProviderStore {
    fn default() -> (r: Self)
        ensures
            r@ == (StoreView { openrouter: None, openai_subscribed: None }),
    {
        ProviderStore { openrouter: None, openai_subscribed: None }
    }
}

/// Why an API key cannot be stored for a provider.
#[derive(Clone, Copy, Debug, PartialEq, Eq, Structural)]
pub enum SetKeyError {
    /// ChatGPT is signed in to in a browser.
    ChatGptUsesOAuth,
    /// The account of xAI itself has a login of its own.
    XaiUsesLogin,
}

impl SetKeyError {
    /// What the user is told.
    pub open spec fn text(self) -> Seq<char> {
        match self {
            SetKeyError::ChatGptUsesOAuth => "ChatGPT uses OAuth; run /connect chatgpt"@,
            SetKeyError::XaiUsesLogin => "xAI uses /login"@,
        }
    }

    /// What the user is told.
    pub fn message(self) -> (r: &'static str)
        ensures
            r@ == self.text(),
    {
        match self {
            SetKeyError::ChatGptUsesOAuth => "ChatGPT uses OAuth; run /connect chatgpt",
            SetKeyError::XaiUsesLogin => "xAI uses /login",
        }
    }
}

/// The store with an OpenRouter key in it.
pub open spec fn with_key(store: StoreView, api_key: Seq<char>) -> StoreView {
    StoreView { openrouter: Some(api_key), ..store }
}

/// The store with the tokens of a ChatGPT subscription in it.
pub open spec fn with_creds(store: StoreView, creds: ChatGptCredsView) -> StoreView {
    StoreView { openai_subscribed: Some(creds), ..store }
}

/// The store without the credentials of a provider.
pub open spec fn cleared(store: StoreView, id: ProviderId) -> StoreView {
    match id {
        ProviderId::OpenRouter => StoreView { openrouter: None, ..store },
        ProviderId::ChatGpt => StoreView { openai_subscribed: None, ..store },
        ProviderId::Xai => store,
    }
}

/// Stores the API key of a provider. Only OpenRouter takes one.
pub fn set_api_key(store: &mut ProviderStore, id: ProviderId, api_key: String) -> (r: Result<
    (),
    SetKeyError,
>)
    ensures
        r == match id {
            ProviderId::OpenRouter => Ok::<(), SetKeyError>(()),
            ProviderId::ChatGpt => Err(SetKeyError::ChatGptUsesOAuth),
            ProviderId::Xai => Err(SetKeyError::XaiUsesLogin),
        },
        final(store)@ == if r is Ok {
            with_key(old(store)@, api_key@)
        } else {
            old(store)@
        },
{
    match id {
        ProviderId::OpenRouter => {
            store.openrouter = Some(ApiKeyCreds { api_key });
            Ok(())
        },
        ProviderId::ChatGpt => Err(SetKeyError::ChatGptUsesOAuth),
        ProviderId::Xai => Err(SetKeyError::XaiUsesLogin),
    }
}

/// Forgets the credentials of a provider.
pub fn clear(store: &mut ProviderStore, id: ProviderId)
    ensures
        final(store)@ == cleared(old(store)@, id),
{
    match id {
        ProviderId::OpenRouter => {
            store.openrouter = None;
        },
        ProviderId::ChatGpt => {
            store.openai_subscribed = None;
        },
        ProviderId::Xai => {},
    }
}

/// Stores the tokens of a ChatGPT subscription.
pub fn save_chatgpt(store: &mut ProviderStore, creds: ChatGptCreds)
    ensures
        final(store)@ == with_creds(old(store)@, creds@),
{
    store.openai_subscribed = Some(creds);
}

/// The key without white space at its ends, unless nothing is left of it.
pub open spec fn usable_key(key: Option<Seq<char>>) -> Option<Seq<char>> {
    match key {
        Some(k) => non_empty(Some(trimmed(k))),
        None => None,
    }
}

/// The key to use: the stored one, else that of the environment.
pub open spec fn resolved_key(stored: Option<Seq<char>>, from_env: Option<Seq<char>>) -> Option<
    Seq<char>,
> {
    if usable_key(stored) is Some {
        usable_key(stored)
    } else {
        usable_key(from_env)
    }
}

fn trim_key(key: Option<&str>) -> (r: Option<String>)
    ensures
        opt_text(r) == usable_key(opt_str(key)),
{
    match key {
        Some(k) => {
            let bare = k.trim();
            if bare.is_empty() {
                None
            } else {
                Some(bare.to_owned())
            }
        },
        None => None,
    }
}

/// The key of credentials that may be missing.
pub open spec fn borrowed_key(creds: Option<&ApiKeyCreds>) -> Option<Seq<char>> {
    match creds {
        Some(c) => Some(c.api_key@),
        None => None,
    }
}

/// The key to use: the stored one, else `from_env`, the value of the environment
/// variable that may hold it. White space does not make a key.
pub fn resolve_api_key(stored: Option<&ApiKeyCreds>, from_env: Option<&str>) -> (r: Option<String>)
    ensures
        opt_text(r) == resolved_key(borrowed_key(stored), opt_str(from_env)),
{
    let kept = match stored {
        Some(creds) => trim_key(Some(creds.api_key.as_str())),
        None => None,
    };
    match kept {
        Some(key) => Some(key),
        None => trim_key(from_env),
    }
}

/// A key that has been stored is the one that is used from then on, whatever the
/// environment holds; once it is forgotten the environment decides.
pub proof fn law_stored_key_wins(
    store: StoreView,
    key: Seq<char>,
    from_env: Option<Seq<char>>,
)
    requires
        trimmed(key).len() > 0,
    ensures
        resolved_key(with_key(store, key).openrouter, from_env) == Some(trimmed(key)),
        resolved_key(cleared(store, ProviderId::OpenRouter).openrouter, from_env) == usable_key(
            from_env,
        ),
{
}

/// Storing the credentials of one provider and forgetting them again leaves a
/// store that had none for it as it was, and neither touches the other provider.
pub proof fn law_forgetting_undoes_storing(
    store: StoreView,
    key: Seq<char>,
    creds: ChatGptCredsView,
)
    ensures
        store.openrouter is None ==> cleared(with_key(store, key), ProviderId::OpenRouter) == store,
        store.openai_subscribed is None ==> cleared(with_creds(store, creds), ProviderId::ChatGpt)
            == store,
        with_key(store, key).openai_subscribed == store.openai_subscribed,
        with_creds(store, creds).openrouter == store.openrouter,
        cleared(store, ProviderId::OpenRouter).openai_subscribed == store.openai_subscribed,
        cleared(store, ProviderId::ChatGpt).openrouter == store.openrouter,
{
}

/// The file that the credentials are stored in.
pub const PROVIDERS_FILE: &'static str = "providers.json";

/// Why stored credentials cannot be used: the file does not hold them.
#[derive(Clone, Copy, Debug, PartialEq, Eq, Structural)]
pub struct UnreadableStore;

/// What is stored of the tokens that are always there.
pub open spec fn token_members(creds: ChatGptCredsView) -> Seq<(Seq<char>, JsonView)> {
    seq![
        ("access_token"@, JsonView::Text(creds.access_token)),
        ("refresh_token"@, JsonView::Text(creds.refresh_token)),
        ("expires_at_ms"@, JsonView::Number(NumberView::Unsigned(creds.expires_at_ms))),
    ]
}

/// The tokens as they are stored.
pub open spec fn creds_json(creds: ChatGptCredsView) -> JsonView {
    JsonView::Object(
        and_text(
            and_text(token_members(creds), "account_id"@, creds.account_id),
            "email"@,
            creds.email,
        ),
    )
}

/// A key as it is stored.
pub open spec fn key_json(api_key: Seq<char>) -> JsonView {
    JsonView::Object(seq![("api_key"@, JsonView::Text(api_key))])
}

/// The key of a store as it is stored, where there is one.
pub open spec fn key_members(store: StoreView) -> Seq<(Seq<char>, JsonView)> {
    match store.openrouter {
        Some(api_key) => seq![("openrouter"@, key_json(api_key))],
        None => Seq::empty(),
    }
}

/// The credentials as they are stored.
pub open spec fn store_json(store: StoreView) -> JsonView {
    JsonView::Object(
        match store.openai_subscribed {
            Some(creds) => key_members(store).push(("openai_subscribed"@, creds_json(creds))),
            None => key_members(store),
        },
    )
}

/// The key that a field holds, which may be missing.
pub open spec fn key_in(value: Option<LooseView>) -> Option<Option<Seq<char>>> {
    match value {
        None | Some(LooseView::Plain(JsonView::Null)) => Some(None),
        Some(record) => match field(record, "api_key"@, 0) {
            Some(LooseView::Plain(JsonView::Text(api_key))) if is_record(
                record,
                seq!["api_key"@],
            ) => Some(Some(api_key)),
            _ => None,
        },
    }
}

/// The fields of the record of tokens.
pub open spec fn creds_fields() -> Seq<Seq<char>> {
    seq!["access_token"@, "refresh_token"@, "expires_at_ms"@, "account_id"@, "email"@]
}

/// The fields of the record of all credentials.
pub open spec fn store_fields() -> Seq<Seq<char>> {
    seq!["openrouter"@, "openai_subscribed"@]
}

/// The tokens that a field holds, which may be missing.
pub open spec fn creds_in(value: Option<LooseView>) -> Option<Option<ChatGptCredsView>> {
    match value {
        None | Some(LooseView::Plain(JsonView::Null)) => Some(None),
        Some(record) => {
            let account = field(record, "account_id"@, 3);
            let email = field(record, "email"@, 4);
            match (
                field(record, "access_token"@, 0),
                field(record, "refresh_token"@, 1),
                field(record, "expires_at_ms"@, 2),
            ) {
                (
                    Some(LooseView::Plain(JsonView::Text(access_token))),
                    Some(LooseView::Plain(JsonView::Text(refresh_token))),
                    Some(LooseView::Plain(JsonView::Number(NumberView::Unsigned(expires_at_ms)))),
                ) if is_record(record, creds_fields()) && is_opt_text(account) && is_opt_text(email) => Some(
                    Some(
                        ChatGptCredsView {
                            access_token,
                            refresh_token,
                            expires_at_ms,
                            account_id: field_text(account),
                            email: field_text(email),
                        },
                    ),
                ),
                _ => None,
            }
        },
    }
}

/// The credentials that a JSON value holds, if it has the right form.
pub open spec fn store_in(value: LooseView) -> Option<StoreView> {
    match (
        key_in(field(value, "openrouter"@, 0)),
        creds_in(field(value, "openai_subscribed"@, 1)),
    ) {
        (Some(openrouter), Some(openai_subscribed)) if is_record(value, store_fields()) => Some(
            StoreView { openrouter, openai_subscribed },
        ),
        _ => None,
    }
}

/// A store without credentials.
pub open spec fn empty_store() -> StoreView {
    StoreView { openrouter: None, openai_subscribed: None }
}

/// The credentials that a file holds: none where there is no file, or nothing in
/// it.
pub open spec fn loaded(contents: Option<Seq<char>>) -> Result<StoreView, UnreadableStore> {
    match contents {
        None => Ok(empty_store()),
        Some(text) => if trimmed(text).len() == 0 {
            Ok(empty_store())
        } else {
            match store_in(loose_of(encode_utf8(trimmed(text)), 2)) {
                Some(store) => Ok(store),
                None => Err(UnreadableStore),
            }
        },
    }
}

fn is_key_record(record: &Loose) -> (r: bool)
    ensures
        r == is_record(record@, seq!["api_key"@]),
{
    let fields: [&str; 1] = ["api_key"];
    assert(str_texts(fields@) =~= seq!["api_key"@]);
    is_record_of(record, &fields)
}

fn read_key(value: Option<&Loose>) -> (r: Result<Option<ApiKeyCreds>, UnreadableStore>)
    ensures
        match r {
            Ok(creds) => key_in(opt_loose(value)) == Some(opt_key(creds)),
            Err(_) => key_in(opt_loose(value)) is None,
        },
{
    match value {
        None => Ok(None),
        Some(Loose::Plain(Json::Null)) => Ok(None),
        Some(record) => match find_field(record, "api_key", 0) {
            Some(Loose::Plain(Json::Text(api_key))) => if is_key_record(record) {
                Ok(Some(ApiKeyCreds { api_key: api_key.clone() }))
            } else {
                Err(UnreadableStore)
            },
            _ => Err(UnreadableStore),
        },
    }
}

fn read_creds(value: Option<&Loose>) -> (r: Result<Option<ChatGptCreds>, UnreadableStore>)
    ensures
        match r {
            Ok(creds) => creds_in(opt_loose(value)) == Some(opt_creds(creds)),
            Err(_) => creds_in(opt_loose(value)) is None,
        },
{
    let record = match value {
        None => {
            return Ok(None);
        },
        Some(Loose::Plain(Json::Null)) => {
            return Ok(None);
        },
        Some(record) => record,
    };
    let fields: [&str; 5] = [
        "access_token",
        "refresh_token",
        "expires_at_ms",
        "account_id",
        "email",
    ];
    assert(str_texts(fields@) =~= creds_fields());
    if !is_record_of(record, &fields) {
        return Err(UnreadableStore);
    }
    let (account_id, email) = match (
        read_text(find_field(record, "account_id", 3)),
        read_text(find_field(record, "email", 4)),
    ) {
        (Ok(account_id), Ok(email)) => (account_id, email),
        _ => {
            return Err(UnreadableStore);
        },
    };
    match (
        find_field(record, "access_token", 0),
        find_field(record, "refresh_token", 1),
        find_field(record, "expires_at_ms", 2),
    ) {
        (
            Some(Loose::Plain(Json::Text(access_token))),
            Some(Loose::Plain(Json::Text(refresh_token))),
            Some(Loose::Plain(Json::Number(Number::Unsigned(expires_at_ms)))),
        ) => Ok(
            Some(
                ChatGptCreds {
                    access_token: access_token.clone(),
                    refresh_token: refresh_token.clone(),
                    expires_at_ms: *expires_at_ms,
                    account_id,
                    email,
                },
            ),
        ),
        _ => Err(UnreadableStore),
    }
}

/// The model of the outcome of loading.
pub open spec fn loaded_view(r: Result<ProviderStore, UnreadableStore>) -> Result<
    StoreView,
    UnreadableStore,
> {
    match r {
        Ok(store) => Ok(store@),
        Err(e) => Err(e),
    }
}

/// The credentials that a JSON value holds, if it has the right form.
pub fn store_from_json(value: &Loose) -> (r: Option<ProviderStore>)
    ensures
        match r {
            Some(store) => store_in(value@) == Some(store@),
            None => store_in(value@) is None,
        },
{
    let fields: [&str; 2] = ["openrouter", "openai_subscribed"];
    assert(str_texts(fields@) =~= store_fields());
    if !is_record_of(value, &fields) {
        return None;
    }
    match (
        read_key(find_field(value, "openrouter", 0)),
        read_creds(find_field(value, "openai_subscribed", 1)),
    ) {
        (Ok(openrouter), Ok(openai_subscribed)) => Some(
            ProviderStore { openrouter, openai_subscribed },
        ),
        _ => None,
    }
}

/// The credentials that a file holds. `contents` is what is in the file, nothing
/// where there is none.
pub fn load_from(contents: Option<&str>) -> (r: Result<ProviderStore, UnreadableStore>)
    ensures
        loaded_view(r) == loaded(opt_str(contents)),
{
    let text = match contents {
        Some(text) => text.trim(),
        None => {
            return Ok(ProviderStore::default());
        },
    };
    if text.is_empty() {
        return Ok(ProviderStore::default());
    }
    match store_from_json(&read_loose(text.as_bytes(), 2)) {
        Some(store) => Ok(store),
        None => Err(UnreadableStore),
    }
}

/// The credentials that a file holds, none where it cannot be read.
pub fn load(contents: Option<&str>) -> (r: ProviderStore)
    ensures
        r@ == match loaded(opt_str(contents)) {
            Ok(store) => store,
            Err(_) => empty_store(),
        },
{
    match load_from(contents) {
        Ok(store) => store,
        Err(_) => ProviderStore::default(),
    }
}

fn write_creds(creds: &ChatGptCreds) -> (r: Json)
    ensures
        r@ == creds_json(creds@),
{
    let mut members: Vec<Member> = Vec::new();
    members.push(text_member("access_token", creds.access_token.as_str()));
    members.push(text_member("refresh_token", creds.refresh_token.as_str()));
    members.push(
        Member {
            name: "expires_at_ms".to_owned(),
            value: Json::Number(Number::Unsigned(creds.expires_at_ms)),
        },
    );
    assert(members_view(members@) =~= token_members(creds@));
    push_text(&mut members, "account_id", &creds.account_id);
    push_text(&mut members, "email", &creds.email);
    Json::Object(members)
}

/// The credentials as they are stored.
pub fn store_to_json(store: &ProviderStore) -> (r: Json)
    ensures
        r@ == store_json(store@),
{
    let mut members: Vec<Member> = Vec::new();
    assert(members_view(members@) =~= Seq::<(Seq<char>, JsonView)>::empty());
    if let Some(creds) = &store.openrouter {
        let mut inner: Vec<Member> = Vec::new();
        inner.push(text_member("api_key", creds.api_key.as_str()));
        assert(members_view(inner@) =~= seq![("api_key"@, JsonView::Text(creds.api_key@))]);
        let member = Member { name: "openrouter".to_owned(), value: Json::Object(inner) };
        members.push(member);
        assert(members_view(members@) =~= key_members(store@));
    }
    if let Some(creds) = &store.openai_subscribed {
        let ghost before = members_view(members@);
        let member = Member { name: "openai_subscribed".to_owned(), value: write_creds(creds) };
        members.push(member);
        assert(members_view(members@) =~= before.push(("openai_subscribed"@, member.value@)));
    }
    Json::Object(members)
}

proof fn lemma_field_names()
    ensures
        "access_token"@.len() == 12 && "access_token"@[0] == 'a',
        "refresh_token"@.len() == 13 && "refresh_token"@[0] == 'r',
        "expires_at_ms"@.len() == 13 && "expires_at_ms"@[0] == 'e',
        "account_id"@.len() == 10 && "account_id"@[0] == 'a',
        "email"@.len() == 5 && "email"@[0] == 'e',
        "api_key"@.len() == 7 && "api_key"@[0] == 'a',
        "openrouter"@.len() == 10 && "openrouter"@[0] == 'o',
        "openai_subscribed"@.len() == 17 && "openai_subscribed"@[0] == 'o',
{
    reveal_strlit("access_token");
    reveal_strlit("refresh_token");
    reveal_strlit("expires_at_ms");
    reveal_strlit("account_id");
    reveal_strlit("email");
    reveal_strlit("api_key");
    reveal_strlit("openrouter");
    reveal_strlit("openai_subscribed");
}

/// Whether no two members have the same name.
spec fn names_differ(members: Seq<(Seq<char>, JsonView)>) -> bool {
    forall|i: int, j: int|
        0 <= i < j < members.len() ==> (#[trigger] members[i]).0 != (#[trigger] members[j]).0
}

proof fn lemma_settled_members(members: Seq<(Seq<char>, JsonView)>)
    requires
        names_differ(members),
        forall|i: int| 0 <= i < members.len() ==> (#[trigger] members[i]).1.settled() == members[i].1,
    ensures
        settled_members(members) == members,
    decreases members.len(),
{
    if members.len() > 0 {
        let front = members.drop_last();
        assert forall|i: int| 0 <= i < front.len() implies (#[trigger] front[i]).1.settled()
            == front[i].1 by {
            assert(front[i] == members[i]);
        }
        assert(names_differ(front)) by {
            assert forall|i: int, j: int| 0 <= i < j < front.len() implies (#[trigger] front[i]).0
                != (#[trigger] front[j]).0 by {
                assert(front[i] == members[i] && front[j] == members[j]);
            }
        }
        lemma_settled_members(front);
        lemma_lookup_found(front, members.last().0);
        assert(members.last() == members[members.len() - 1]);
        assert forall|i: int| 0 <= i < front.len() implies (#[trigger] front[i]).0
            != members.last().0 by {
            assert(front[i] == members[i]);
        }
        assert(front.push(members.last()) =~= members);
    }
}

proof fn lemma_creds_json(creds: ChatGptCredsView)
    ensures
        creds_json(creds).settled() == creds_json(creds),
        creds_json(creds).is_plain(2),
        creds_in(Some(loosened(creds_json(creds), 1))) == Some(Some(creds)),
{
    lemma_field_names();
    let members = creds_json(creds)->Object_0;
    assert(names_differ(members));
    lemma_settled_members(members);
    reveal_with_fuel(JsonView::is_plain, 3);
    reveal_with_fuel(loosened, 2);
    let read = loosened(creds_json(creds), 1)->Named_0;
    assert(read.len() == members.len());
    assert(forall|i: int|
        0 <= i < members.len() ==> (#[trigger] read[i]) == (
            members[i].0,
            LooseView::Plain(members[i].1),
        ));
    lemma_value_at(read, "access_token"@, 0);
    lemma_value_at(read, "refresh_token"@, 1);
    lemma_value_at(read, "expires_at_ms"@, 2);
    if creds.account_id is Some {
        lemma_value_at(read, "account_id"@, 3);
    } else {
        lemma_value_missing(read, "account_id"@);
    }
    if creds.email is Some {
        lemma_value_at(read, "email"@, members.len() - 1);
    } else {
        lemma_value_missing(read, "email"@);
    }
}

proof fn lemma_key_json(api_key: Seq<char>)
    ensures
        key_json(api_key).settled() == key_json(api_key),
        key_json(api_key).is_plain(2),
        key_in(Some(loosened(key_json(api_key), 1))) == Some(Some(api_key)),
{
    lemma_field_names();
    let members = key_json(api_key)->Object_0;
    lemma_settled_members(members);
    reveal_with_fuel(JsonView::is_plain, 3);
    reveal_with_fuel(loosened, 2);
    let read = loosened(key_json(api_key), 1)->Named_0;
    assert(read[0] == ("api_key"@, LooseView::Plain(JsonView::Text(api_key))));
    lemma_value_at(read, "api_key"@, 0);
}

proof fn lemma_value_at(members: Seq<(Seq<char>, LooseView)>, name: Seq<char>, i: int)
    requires
        0 <= i < members.len(),
        members[i].0 == name,
        forall|j: int| 0 <= j < i ==> (#[trigger] members[j]).0 != name,
    ensures
        value_of(members, name) == Some(members[i].1),
    decreases members.len(),
{
    if i > 0 {
        let rest = members.drop_first();
        assert(members[0].0 != name);
        assert forall|j: int| 0 <= j < i - 1 implies (#[trigger] rest[j]).0 != name by {
            assert(rest[j] == members[j + 1]);
        }
        lemma_value_at(rest, name, i - 1);
    }
}

proof fn lemma_value_missing(members: Seq<(Seq<char>, LooseView)>, name: Seq<char>)
    requires
        forall|j: int| 0 <= j < members.len() ==> (#[trigger] members[j]).0 != name,
    ensures
        value_of(members, name) is None,
    decreases members.len(),
{
    if members.len() > 0 {
        let rest = members.drop_first();
        assert(members[0].0 != name);
        assert forall|j: int| 0 <= j < rest.len() implies (#[trigger] rest[j]).0 != name by {
            assert(rest[j] == members[j + 1]);
        }
        lemma_value_missing(rest, name);
    }
}

proof fn lemma_plain_deeper(value: JsonView, levels: nat, more: nat)
    requires
        value.is_plain(levels),
        levels <= more,
    ensures
        value.is_plain(more),
    decreases levels,
{
    match value {
        JsonView::Array(items) => {
            assert forall|i: int| 0 <= i < items.len() implies (#[trigger] items[i]).is_plain(
                (more - 1) as nat,
            ) by {
                lemma_plain_deeper(items[i], (levels - 1) as nat, (more - 1) as nat);
            }
        },
        JsonView::Object(members) => {
            assert forall|i: int| 0 <= i < members.len() implies (
            #[trigger] members[i]).1.is_plain((more - 1) as nat) by {
                lemma_plain_deeper(members[i].1, (levels - 1) as nat, (more - 1) as nat);
            }
        },
        _ => {},
    }
}

/// Credentials are read back from the JSON that they are stored as, which is plain
/// and in its usual form.
pub proof fn law_store_json_round_trip(store: StoreView)
    ensures
        store_in(loosened(store_json(store), 2)) == Some(store),
        store_json(store).settled() == store_json(store),
        store_json(store).is_plain(100),
{
    lemma_field_names();
    let members = store_json(store)->Object_0;
    let read = loosened(store_json(store), 2)->Named_0;
    assert(forall|i: int|
        0 <= i < members.len() ==> (#[trigger] read[i]) == (
            members[i].0,
            loosened(members[i].1, 1),
        ));
    if let Some(api_key) = store.openrouter {
        lemma_key_json(api_key);
        lemma_value_at(read, "openrouter"@, 0);
        lemma_plain_deeper(key_json(api_key), 2, 99);
    } else {
        lemma_value_missing(read, "openrouter"@);
    }
    if let Some(creds) = store.openai_subscribed {
        lemma_creds_json(creds);
        lemma_value_at(read, "openai_subscribed"@, members.len() - 1);
        lemma_plain_deeper(creds_json(creds), 2, 99);
    } else {
        lemma_value_missing(read, "openai_subscribed"@);
    }
    assert(names_differ(members));
    lemma_settled_members(members);
}

/// The text to store credentials as. They are loaded from it as they were.
pub fn save(store: &ProviderStore) -> (r: String)
    ensures
        r@ == json_pretty(store_json(store@)),
        loaded(Some(r@)) == Ok::<StoreView, UnreadableStore>(store@),
{
    proof {
        law_store_json_round_trip(store@);
    }
    let text = json_to_pretty(&store_to_json(store));
    proof {
        reveal_with_fuel(trim_start, 2);
        reveal_with_fuel(trim_end, 2);
        assert(trimmed(text@) == text@);
    }
    text
}

/// The key to use is the stored one without white space at its ends, unless
/// nothing is left of it; else that of the environment, by the same measure; else
/// there is none.
pub proof fn law_usable_keys(stored: Option<Seq<char>>, from_env: Option<Seq<char>>)
    ensures
        ({
            let key = resolved_key(stored, from_env);
            let has_stored = stored matches Some(k) && trimmed(k).len() > 0;
            let has_env = from_env matches Some(k) && trimmed(k).len() > 0;
            &&& has_stored ==> key == Some(trimmed(stored->0))
            &&& !has_stored && has_env ==> key == Some(trimmed(from_env->0))
            &&& !has_stored && !has_env ==> key is None
        }),
{
}

/// Storing and forgetting change what they name and nothing else.
pub proof fn law_store_changes_one_provider(
    store: StoreView,
    key: Seq<char>,
    creds: ChatGptCredsView,
)
    ensures
        with_key(store, key).openrouter == Some(key),
        with_creds(store, creds).openai_subscribed == Some(creds),
        cleared(store, ProviderId::OpenRouter).openrouter is None,
        cleared(store, ProviderId::ChatGpt).openai_subscribed is None,
        cleared(store, ProviderId::Xai) == store,
{
}

/// Credentials are stored under the names that the file has: the key of OpenRouter
/// in a record of its own, and the tokens of the subscription in another, without
/// an account or an email address where none is known.
pub proof fn law_stored_under_documented_names(store: StoreView)
    ensures
        ({
            let file = store_json(store);
            &&& file.get_in("openrouter"@, "api_key"@) == (match store.openrouter {
                Some(key) => Some(JsonView::Text(key)),
                None => None,
            })
            &&& store.openrouter is None ==> file.get("openrouter"@) is None
            &&& store.openai_subscribed is None ==> file.get("openai_subscribed"@) is None
            &&& store.openai_subscribed matches Some(creds) ==> {
                &&& file.get_in("openai_subscribed"@, "access_token"@) == Some(
                    JsonView::Text(creds.access_token),
                )
                &&& file.get_in("openai_subscribed"@, "refresh_token"@) == Some(
                    JsonView::Text(creds.refresh_token),
                )
                &&& file.get_in("openai_subscribed"@, "expires_at_ms"@) == Some(
                    JsonView::Number(NumberView::Unsigned(creds.expires_at_ms)),
                )
                &&& file.get_in("openai_subscribed"@, "account_id"@) == (match creds.account_id {
                    Some(id) => Some(JsonView::Text(id)),
                    None => None,
                })
                &&& file.get_in("openai_subscribed"@, "email"@) == (match creds.email {
                    Some(email) => Some(JsonView::Text(email)),
                    None => None,
                })
            }
        }),
{
    lemma_field_names();
    let members = store_json(store)->Object_0;
    law_first_member_counts(members, "openrouter"@);
    law_first_member_counts(members, "openai_subscribed"@);
    if let Some(key) = store.openrouter {
        assert(members[0] == ("openrouter"@, key_json(key)));
        law_first_member_counts(key_json(key)->Object_0, "api_key"@);
        assert(key_json(key)->Object_0[0] == ("api_key"@, JsonView::Text(key)));
    }
    if let Some(creds) = store.openai_subscribed {
        assert(members[members.len() - 1] == ("openai_subscribed"@, creds_json(creds)));
        let fields = creds_json(creds)->Object_0;
        law_first_member_counts(fields, "access_token"@);
        law_first_member_counts(fields, "refresh_token"@);
        law_first_member_counts(fields, "expires_at_ms"@);
        law_first_member_counts(fields, "account_id"@);
        law_first_member_counts(fields, "email"@);
        assert(fields[0] == ("access_token"@, JsonView::Text(creds.access_token)));
        assert(fields[1] == ("refresh_token"@, JsonView::Text(creds.refresh_token)));
        assert(fields[2] == (
            "expires_at_ms"@,
            JsonView::Number(NumberView::Unsigned(creds.expires_at_ms)),
        ));
        if let Some(id) = creds.account_id {
            assert(fields[3] == ("account_id"@, JsonView::Text(id)));
        }
        if let Some(email) = creds.email {
            assert(fields[fields.len() - 1] == ("email"@, JsonView::Text(email)));
        }
    }
}

/// What a file that can be read holds: the texts and the number that stand under
/// the names of the fields, and nothing where a record is missing or null.
pub proof fn law_read_under_documented_names(members: Seq<(Seq<char>, LooseView)>)
    requires
        store_in(LooseView::Named(members)) is Some,
    ensures
        ({
            let store = store_in(LooseView::Named(members))->0;
            let null = LooseView::Plain(JsonView::Null);
            let text = |t: Seq<char>| LooseView::Plain(JsonView::Text(t));
            let key = value_of(members, "openrouter"@);
            let tokens = value_of(members, "openai_subscribed"@);
            &&& store.openrouter is None <==> (key is None || key == Some(null))
            &&& store.openai_subscribed is None <==> (tokens is None || tokens == Some(null))
            &&& key matches Some(LooseView::Named(record)) ==> (store.openrouter matches Some(k)
                && value_of(record, "api_key"@) == Some(text(k)))
            &&& tokens matches Some(LooseView::Named(record)) ==> (
            store.openai_subscribed matches Some(creds) && {
                &&& value_of(record, "access_token"@) == Some(text(creds.access_token))
                &&& value_of(record, "refresh_token"@) == Some(text(creds.refresh_token))
                &&& value_of(record, "expires_at_ms"@) == Some(
                    LooseView::Plain(
                        JsonView::Number(NumberView::Unsigned(creds.expires_at_ms)),
                    ),
                )
                &&& match value_of(record, "account_id"@) {
                    Some(LooseView::Plain(JsonView::Text(id))) => creds.account_id == Some(id),
                    _ => creds.account_id is None,
                }
                &&& match value_of(record, "email"@) {
                    Some(LooseView::Plain(JsonView::Text(email))) => creds.email == Some(email),
                    _ => creds.email is None,
                }
            })
        }),
{
}

/// A file in which a known name stands twice cannot be read, and neither can one
/// whose key or access token is no text.
pub proof fn law_malformed_stores_are_refused(
    members: Seq<(Seq<char>, LooseView)>,
    i: int,
    j: int,
)
    ensures
        0 <= i < j < members.len() && members[i].0 == members[j].0 && (members[i].0
            == "openrouter"@ || members[i].0 == "openai_subscribed"@) ==> store_in(
            LooseView::Named(members),
        ) is None,
        value_of(members, "openrouter"@) matches Some(LooseView::Named(record)) && !(value_of(
            record,
            "api_key"@,
        ) matches Some(LooseView::Plain(JsonView::Text(_)))) ==> store_in(
            LooseView::Named(members),
        ) is None,
        value_of(members, "openai_subscribed"@) matches Some(LooseView::Named(record)) && (
        !(value_of(record, "access_token"@) matches Some(LooseView::Plain(JsonView::Text(_))))
            || !(value_of(record, "refresh_token"@) matches Some(
            LooseView::Plain(JsonView::Text(_)),
        )) || !(value_of(record, "expires_at_ms"@) matches Some(
            LooseView::Plain(JsonView::Number(NumberView::Unsigned(_))),
        ))) ==> store_in(LooseView::Named(members)) is None,
        loaded(None) == Ok::<StoreView, UnreadableStore>(
            StoreView { openrouter: None, openai_subscribed: None },
        ),
{
    let names = store_fields();
    assert(names[0] == "openrouter"@ && names[1] == "openai_subscribed"@);
    if 0 <= i < j < members.len() && members[i].0 == members[j].0 && (members[i].0
        == "openrouter"@ || members[i].0 == "openai_subscribed"@) {
        assert(names.contains(members[i].0));
        assert(crate::records::repeats_any(members, names));
    }
}

/// Credentials in which a known name stands twice cannot be read.
pub proof fn law_repeated_fields_are_refused(
    members: Seq<(Seq<char>, LooseView)>,
    i: int,
    j: int,
)
    requires
        0 <= i < j < members.len(),
        members[i].0 == members[j].0,
    ensures
        members[i].0 == "api_key"@ ==> key_in(Some(LooseView::Named(members))) is None,
        members[i].0 == "access_token"@ || members[i].0 == "refresh_token"@ || members[i].0
            == "expires_at_ms"@ || members[i].0 == "account_id"@ || members[i].0 == "email"@
            ==> creds_in(Some(LooseView::Named(members))) is None,
{
    let names = creds_fields();
    assert(names[0] == "access_token"@ && names[1] == "refresh_token"@ && names[2]
        == "expires_at_ms"@ && names[3] == "account_id"@ && names[4] == "email"@);
    let key = seq!["api_key"@];
    assert(key[0] == "api_key"@);
    crate::records::law_fields_by_name_or_place(members, Seq::empty(), names, i, j, 0);
    crate::records::law_fields_by_name_or_place(members, Seq::empty(), key, i, j, 0);
}

/// A key that stands once, as a text, is read, whatever else stands beside it.
pub proof fn law_key_beside_others_is_read(
    members: Seq<(Seq<char>, LooseView)>,
    api_key: Seq<char>,
)
    requires
        value_of(members, "api_key"@) == Some(LooseView::Plain(JsonView::Text(api_key))),
        forall|a: int, b: int|
            0 <= a < b < members.len() && (#[trigger] members[a]).0 == (#[trigger] members[b]).0
                ==> members[a].0 != "api_key"@,
    ensures
        key_in(Some(LooseView::Named(members))) == Some(Some(api_key)),
{
    let key = seq!["api_key"@];
    assert forall|a: int, b: int|
        0 <= a < b < members.len() && (#[trigger] members[a]).0 == (#[trigger] members[b]).0
        implies !key.contains(members[a].0) by {}
    crate::records::law_fields_by_name_or_place(members, Seq::empty(), key, 0, 0, 0);
}

/// A file of white space alone stands for no credentials; any other is read without
/// the white space around it, or refused.
pub proof fn law_blank_stores_are_empty(text: Seq<char>)
    ensures
        trimmed(text).len() == 0 ==> loaded(Some(text)) == Ok::<StoreView, UnreadableStore>(
            StoreView { openrouter: None, openai_subscribed: None },
        ),
        trimmed(text).len() > 0 ==> (match store_in(loose_of(encode_utf8(trimmed(text)), 2)) {
            Some(store) => loaded(Some(text)) == Ok::<StoreView, UnreadableStore>(store),
            None => loaded(Some(text)) is Err,
        }),
{
}

} // verus!
