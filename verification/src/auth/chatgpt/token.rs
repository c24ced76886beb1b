//! What the tokens of a ChatGPT account say of it.

use vstd::prelude::*;
use vstd::string::*;
use crate::encoding::{b64_decode, b64_decoded, opt_byte_list};
use crate::json::{json_bytes_reading, parse_json_bytes, Json, JsonView};
use crate::ordered::value_of;
use crate::records::{
    field, field_text, find_field, is_opt_text, is_record, is_record_of, listed_view, loose_of,
    opt_loose, read_loose, read_text, Loose, LooseView,
};
use crate::text::{
    first_some, law_pieces_of_one, law_pieces_of_parts, non_empty, opt_str, opt_text, pieces,
    split_on, str_texts, text_eq, texts,
};

verus! {

/// The claims of a token that are of use here.
#[derive(Debug)]
pub struct ChatgptTokenClaims {
    pub email: Option<String>,
    pub chatgpt_account_id: Option<String>,
    pub organizations: Option<Vec<ChatgptOrg>>,
    pub api_auth: Option<ChatgptApiAuthClaim>,
}

/// An organization that a token lists.
#[derive(Debug)]
pub struct ChatgptOrg {
    pub id: Option<String>,
}

/// The claim that OpenAI's API adds.
#[derive(Debug)]
pub struct ChatgptApiAuthClaim {
    pub chatgpt_account_id: Option<String>,
}

/// The model of [`ChatgptTokenClaims`]: of each organization and of the API's
/// claim, the id that it has.
#[verifier::ext_equal]
pub struct TokenClaimsView {
    pub email: Option<Seq<char>>,
    pub chatgpt_account_id: Option<Seq<char>>,
    pub organizations: Option<Seq<Option<Seq<char>>>>,
    pub api_auth: Option<Option<Seq<char>>>,
}

/// The ids of organizations.
pub open spec fn org_ids(orgs: Seq<ChatgptOrg>) -> Seq<Option<Seq<char>>> {
    orgs.map_values(|o: ChatgptOrg| opt_text(o.id))
}

impl ChatgptTokenClaims {
    pub open spec fn view(&self) -> TokenClaimsView {
        TokenClaimsView {
            email: opt_text(self.email),
            chatgpt_account_id: opt_text(self.chatgpt_account_id),
            organizations: match self.organizations {
                Some(orgs) => Some(org_ids(orgs@)),
                None => None,
            },
            api_auth: match self.api_auth {
                Some(claim) => Some(opt_text(claim.chatgpt_account_id)),
                None => None,
            },
        }
    }
}

impl Default for ChatgptTokenClaims {
    fn default() -> (r: Self)
        ensures
            r@ == (TokenClaimsView {
                email: None,
                chatgpt_account_id: None,
                organizations: None,
                api_auth: None,
            }),
    {
        ChatgptTokenClaims {
            email: None,
            chatgpt_account_id: None,
            organizations: None,
            api_auth: None,
        }
    }
}

/// Whether a value can be an organization or the API's claim: a record of one id.
pub open spec fn is_id_record(value: LooseView, name: Seq<char>) -> bool {
    is_record(value, seq![name]) && is_opt_text(field(value, name, 0))
}

/// The id of a record of one id.
pub open spec fn record_id(value: LooseView, name: Seq<char>) -> Option<Seq<char>> {
    field_text(field(value, name, 0))
}

/// The organizations of a field that may be missing, if they are a list of
/// records.
pub open spec fn organizations_of(value: Option<LooseView>) -> Option<Option<Seq<Option<Seq<char>>>>> {
    match value {
        None | Some(LooseView::Plain(JsonView::Null)) => Some(None),
        Some(LooseView::Listed(items)) => if forall|i: int|
            0 <= i < items.len() ==> is_id_record(#[trigger] items[i], "id"@) {
            Some(Some(items.map_values(|item: LooseView| record_id(item, "id"@))))
        } else {
            None
        },
        _ => None,
    }
}

/// The API's claim of a field that may be missing, if it is a record.
pub open spec fn api_auth_of(value: Option<LooseView>) -> Option<Option<Option<Seq<char>>>> {
    match value {
        None | Some(LooseView::Plain(JsonView::Null)) => Some(None),
        Some(claim) => if is_id_record(claim, "chatgpt_account_id"@) {
            Some(Some(record_id(claim, "chatgpt_account_id"@)))
        } else {
            None
        },
    }
}

/// The names of the claims that are of use here.
pub open spec fn claim_names() -> Seq<Seq<char>> {
    seq!["email"@, "chatgpt_account_id"@, "organizations"@, "https://api.openai.com/auth"@]
}

/// The claims that a JSON value holds, if each has the form that it should have.
pub open spec fn claims_in(value: LooseView) -> Option<TokenClaimsView> {
    let email = field(value, "email"@, 0);
    let account = field(value, "chatgpt_account_id"@, 1);
    match (
        organizations_of(field(value, "organizations"@, 2)),
        api_auth_of(field(value, "https://api.openai.com/auth"@, 3)),
    ) {
        (Some(organizations), Some(api_auth)) if is_record(value, claim_names()) && is_opt_text(
            email,
        ) && is_opt_text(account) => Some(
            TokenClaimsView {
                email: field_text(email),
                chatgpt_account_id: field_text(account),
                organizations,
                api_auth,
            },
        ),
        _ => None,
    }
}

/// Whether `jsonwebtoken::dangerous::insecure_decode_claims` finds JSON in a token.
pub uninterp spec fn jwt_claims_read(token: Seq<char>) -> bool;

/// `jsonwebtoken::dangerous::insecure_decode_claims` for claims that are skipped:
/// whether it finds JSON in a token, its signature not looked at; that is named.
#[verifier::external_body]
fn claims_read(token: &str) -> (r: bool)
    ensures
        r == jwt_claims_read(token@),
{
    jsonwebtoken::dangerous::insecure_decode_claims::<serde::de::IgnoredAny>(token).is_ok()
}

/// The bytes of the claims of a token: those of the part before the last one, of
/// three parts or more.
pub open spec fn claim_bytes(token: Seq<char>) -> Option<Seq<u8>> {
    let parts = pieces(token, '.');
    if parts.len() >= 3 {
        b64_decoded(parts[parts.len() - 2])
    } else {
        None
    }
}

/// The bytes of the claims of a token.
fn token_bytes(token: &str) -> (r: Option<Vec<u8>>)
    ensures
        opt_byte_list(r) == claim_bytes(token@),
{
    let parts = split_on(token, '.');
    if parts.len() < 3 {
        return None;
    }
    assert(texts(parts@)[parts.len() - 2] == parts@[parts.len() - 2]@);
    b64_decode(parts[parts.len() - 2].as_str())
}

/// The id of a record of one id; an error if the value is none.
fn read_id_record(value: &Loose, name: &str) -> (r: Result<Option<String>, ()>)
    ensures
        match r {
            Ok(id) => is_id_record(value@, name@) && opt_text(id) == record_id(value@, name@),
            Err(_) => !is_id_record(value@, name@),
        },
{
    let names: [&str; 1] = [name];
    assert(str_texts(names@) =~= seq![name@]);
    if !is_record_of(value, &names) {
        return Err(());
    }
    read_text(find_field(value, name, 0))
}

fn read_organizations(value: Option<&Loose>) -> (r: Result<Option<Vec<ChatgptOrg>>, ()>)
    ensures
        match r {
            Ok(None) => organizations_of(opt_loose(value)) == Some(
                None::<Seq<Option<Seq<char>>>>,
            ),
            Ok(Some(orgs)) => organizations_of(opt_loose(value)) == Some(
                Some(org_ids(orgs@)),
            ),
            Err(_) => organizations_of(opt_loose(value)) is None,
        },
{
    let items = match value {
        None => {
            return Ok(None);
        },
        Some(Loose::Plain(Json::Null)) => {
            return Ok(None);
        },
        Some(Loose::Listed(items)) => items,
        Some(_) => {
            return Err(());
        },
    };
    let ghost all = listed_view(items@);
    let mut orgs: Vec<ChatgptOrg> = Vec::new();
    let mut i: usize = 0;
    while i < items.len()
        invariant
            i <= items.len(),
            all == listed_view(items@),
            opt_loose(value) == Some(LooseView::Listed(all)),
            forall|j: int| 0 <= j < i ==> is_id_record(#[trigger] all[j], "id"@),
            org_ids(orgs@) =~= all.take(i as int).map_values(
                |item: LooseView| record_id(item, "id"@),
            ),
        decreases items.len() - i,
    {
        assert(all[i as int] == items@[i as int]@);
        match read_id_record(&items[i], "id") {
            Ok(id) => {
                let ghost before = org_ids(orgs@);
                orgs.push(ChatgptOrg { id });
                assert(org_ids(orgs@) =~= before.push(opt_text(id)));
            },
            Err(_) => {
                assert(!is_id_record(all[i as int], "id"@));
                return Err(());
            },
        }
        i += 1;
    }
    assert(all.take(i as int) =~= all);
    Ok(Some(orgs))
}

fn read_api_auth(value: Option<&Loose>) -> (r: Result<Option<ChatgptApiAuthClaim>, ()>)
    ensures
        match r {
            Ok(None) => api_auth_of(opt_loose(value)) == Some(
                None::<Option<Seq<char>>>,
            ),
            Ok(Some(claim)) => api_auth_of(opt_loose(value)) == Some(
                Some(opt_text(claim.chatgpt_account_id)),
            ),
            Err(_) => api_auth_of(opt_loose(value)) is None,
        },
{
    match value {
        None => Ok(None),
        Some(Loose::Plain(Json::Null)) => Ok(None),
        Some(claim) => match read_id_record(claim, "chatgpt_account_id") {
            Ok(id) => Ok(Some(ChatgptApiAuthClaim { chatgpt_account_id: id })),
            Err(_) => Err(()),
        },
    }
}

/// The claims that a JSON value holds, if each has the form that it should have.
pub fn claims_from_value(value: &Loose) -> (r: Option<ChatgptTokenClaims>)
    ensures
        match r {
            Some(claims) => claims_in(value@) == Some(claims@),
            None => claims_in(value@) is None,
        },
{
    let names: [&str; 4] = [
        "email",
        "chatgpt_account_id",
        "organizations",
        "https://api.openai.com/auth",
    ];
    assert(str_texts(names@) =~= claim_names());
    if !is_record_of(value, &names) {
        return None;
    }
    match (
        read_text(find_field(value, "email", 0)),
        read_text(find_field(value, "chatgpt_account_id", 1)),
        read_organizations(find_field(value, "organizations", 2)),
        read_api_auth(find_field(value, "https://api.openai.com/auth", 3)),
    ) {
        (Ok(email), Ok(chatgpt_account_id), Ok(organizations), Ok(api_auth)) => Some(
            ChatgptTokenClaims { email, chatgpt_account_id, organizations, api_auth },
        ),
        _ => None,
    }
}

/// Whether `jsonwebtoken::decode_header` can read the header of a token.
pub uninterp spec fn jwt_header_reads(token: Seq<char>) -> bool;

/// `jsonwebtoken::decode_header`: whether it can read the header of a token, which
/// is named. It takes only headers that name an algorithm which the crate knows.
#[verifier::external_body]
fn header_reads(token: &str) -> (r: bool)
    ensures
        r == jwt_header_reads(token@),
{
    jsonwebtoken::decode_header(token).is_ok()
}

/// Whether a header says that its token is not signed.
pub open spec fn is_unsecured_header(header: JsonView) -> bool {
    header.get_text("alg"@) == Some("none"@)
}

/// Whether a token of three parts has a header that says that it is not signed.
pub open spec fn is_unsecured(token: Seq<char>) -> bool {
    let parts = pieces(token, '.');
    parts.len() == 3 && match b64_decoded(parts[0]) {
        Some(bytes) => match json_bytes_reading(bytes) {
            Some(header) => is_unsecured_header(header),
            None => false,
        },
        None => false,
    }
}

/// Whether a header says that its token is not signed.
pub fn names_no_algorithm(header: &Json) -> (r: bool)
    ensures
        r == is_unsecured_header(header@),
{
    match header.get_text("alg") {
        Some(name) => text_eq(name, "none"),
        None => false,
    }
}

/// Whether a token of three parts has a header that says that it is not signed.
pub fn is_unsecured_token(token: &str) -> (r: bool)
    ensures
        r == is_unsecured(token@),
{
    let parts = split_on(token, '.');
    if parts.len() != 3 {
        return false;
    }
    assert(texts(parts@)[0] == parts@[0]@);
    match b64_decode(parts[0].as_str()) {
        Some(bytes) => match parse_json_bytes(bytes.as_slice()) {
            Some(header) => names_no_algorithm(&header),
            None => false,
        },
        None => false,
    }
}

/// The claims of a token, if it is one: its header has to name an algorithm that
/// is known, or say that the token is not signed.
pub open spec fn claims_of_token(token: Seq<char>) -> Option<TokenClaimsView> {
    if (jwt_header_reads(token) || is_unsecured(token)) && jwt_claims_read(token) {
        match claim_bytes(token) {
            Some(bytes) => claims_in(loose_of(bytes, 3)),
            None => None,
        }
    } else {
        None
    }
}

/// The claims of a token, if it is one. Its signature is not looked at.
pub fn parse_jwt_claims(token: &str) -> (r: Option<ChatgptTokenClaims>)
    ensures
        match r {
            Some(claims) => claims_of_token(token@) == Some(claims@),
            None => claims_of_token(token@) is None,
        },
{
    if !header_reads(token) && !is_unsecured_token(token) {
        return None;
    }
    if !claims_read(token) {
        return None;
    }
    match token_bytes(token) {
        Some(bytes) => claims_from_value(&read_loose(bytes.as_slice(), 3)),
        None => None,
    }
}

/// The id of the account that claims name.
pub open spec fn account_id_of(claims: TokenClaimsView) -> Option<Seq<char>> {
    let nested = match claims.api_auth {
        Some(id) => id,
        None => None,
    };
    let organization = match claims.organizations {
        Some(orgs) if orgs.len() > 0 => orgs[0],
        _ => None,
    };
    non_empty(first_some(claims.chatgpt_account_id, first_some(nested, organization)))
}

/// The id of the account: as claimed directly, else by the API's claim, else that
/// of the first organization.
pub fn extract_account_id(claims: &ChatgptTokenClaims) -> (r: Option<String>)
    ensures
        opt_text(r) == account_id_of(claims@),
{
    let nested = match &claims.api_auth {
        Some(claim) => claim.chatgpt_account_id.clone(),
        None => None,
    };
    let organization = match &claims.organizations {
        Some(orgs) => if orgs.len() > 0 {
            assert(org_ids(orgs@)[0] == opt_text(orgs@[0].id));
            orgs[0].id.clone()
        } else {
            None
        },
        None => None,
    };
    let found = match (&claims.chatgpt_account_id, nested) {
        (Some(id), _) => Some(id.clone()),
        (None, Some(id)) => Some(id),
        (None, None) => organization,
    };
    match found {
        Some(id) => if id.as_str().is_empty() {
            None
        } else {
            Some(id)
        },
        None => None,
    }
}

/// The email address that claims name, unless it is empty.
pub fn extract_email(claims: &ChatgptTokenClaims) -> (r: Option<String>)
    ensures
        opt_text(r) == non_empty(claims@.email),
{
    match &claims.email {
        Some(email) => if email.as_str().is_empty() {
            None
        } else {
            Some(email.clone())
        },
        None => None,
    }
}

/// The id of the account that a token names.
pub open spec fn token_account(token: Seq<char>) -> Option<Seq<char>> {
    match claims_of_token(token) {
        Some(claims) => account_id_of(claims),
        None => None,
    }
}

/// The email address that a token names.
pub open spec fn token_email(token: Seq<char>) -> Option<Seq<char>> {
    match claims_of_token(token) {
        Some(claims) => non_empty(claims.email),
        None => None,
    }
}

/// The id of the account that two tokens name: the identity token counts first.
pub open spec fn tokens_account(id_token: Option<Seq<char>>, access_token: Seq<char>) -> Option<
    Seq<char>,
> {
    let from_id = match id_token {
        Some(token) => token_account(token),
        None => None,
    };
    first_some(from_id, token_account(access_token))
}

/// The email address that two tokens name: the identity token counts first.
pub open spec fn tokens_email(id_token: Option<Seq<char>>, access_token: Seq<char>) -> Option<
    Seq<char>,
> {
    let from_id = match id_token {
        Some(token) => token_email(token),
        None => None,
    };
    first_some(from_id, token_email(access_token))
}

fn account_of(token: &str) -> (r: Option<String>)
    ensures
        opt_text(r) == token_account(token@),
{
    match parse_jwt_claims(token) {
        Some(claims) => extract_account_id(&claims),
        None => None,
    }
}

fn email_of(token: &str) -> (r: Option<String>)
    ensures
        opt_text(r) == token_email(token@),
{
    match parse_jwt_claims(token) {
        Some(claims) => extract_email(&claims),
        None => None,
    }
}

/// The id of the account that two tokens name: the identity token counts first.
pub fn account_id_from_tokens(id_token: Option<&str>, access_token: &str) -> (r: Option<String>)
    ensures
        opt_text(r) == tokens_account(opt_str(id_token), access_token@),
{
    if let Some(token) = id_token {
        if let Some(id) = account_of(token) {
            return Some(id);
        }
    }
    account_of(access_token)
}

/// The email address that two tokens name: the identity token counts first.
pub fn email_from_tokens(id_token: Option<&str>, access_token: &str) -> (r: Option<String>)
    ensures
        opt_text(r) == tokens_email(opt_str(id_token), access_token@),
{
    if let Some(token) = id_token {
        if let Some(email) = email_of(token) {
            return Some(email);
        }
    }
    email_of(access_token)
}

/// The account that claims name: directly, else in the claim that the API adds,
/// else by the first organization. The first one that is there decides, and an
/// empty one names no account.
pub proof fn law_account_in_order_of_preference(claims: TokenClaimsView, id: Seq<char>)
    ensures
        claims.chatgpt_account_id == Some(id) ==> account_id_of(claims) == (if id.len() > 0 {
            Some(id)
        } else {
            None
        }),
        claims.chatgpt_account_id is None && claims.api_auth == Some(Some(id)) ==> account_id_of(
            claims,
        ) == (if id.len() > 0 {
            Some(id)
        } else {
            None
        }),
        claims.chatgpt_account_id is None && (claims.api_auth is None || claims.api_auth == Some(
            None::<Seq<char>>,
        )) && (claims.organizations matches Some(orgs) && orgs.len() > 0 && orgs[0] == Some(id))
            ==> account_id_of(claims) == (if id.len() > 0 {
            Some(id)
        } else {
            None
        }),
        claims.chatgpt_account_id is None && (claims.api_auth is None || claims.api_auth == Some(
            None::<Seq<char>>,
        )) && (claims.organizations matches Some(orgs) ==> orgs.len() == 0 || orgs[0] is None)
            ==> account_id_of(claims) is None,
{
}

/// What the identity token names counts before what the access token names.
pub proof fn law_identity_token_counts_first(id_token: Seq<char>, access_token: Seq<char>)
    ensures
        token_account(id_token) is Some ==> tokens_account(Some(id_token), access_token)
            == token_account(id_token),
        token_account(id_token) is None ==> tokens_account(Some(id_token), access_token)
            == token_account(access_token),
        tokens_account(None, access_token) == token_account(access_token),
        token_email(id_token) is Some ==> tokens_email(Some(id_token), access_token)
            == token_email(id_token),
        token_email(id_token) is None ==> tokens_email(Some(id_token), access_token)
            == token_email(access_token),
        tokens_email(None, access_token) == token_email(access_token),
{
}

/// A token names the account and the email address of its claims, an email address
/// only if it is not empty; one that cannot be read names nothing.
pub proof fn law_token_names_what_it_claims(token: Seq<char>)
    ensures
        claims_of_token(token) matches Some(claims) ==> token_account(token) == account_id_of(
            claims,
        ) && token_email(token) == (match claims.email {
            Some(email) => if email.len() > 0 {
                Some(email)
            } else {
                None
            },
            None => None,
        }),
        claims_of_token(token) is None ==> token_account(token) is None && token_email(token)
            is None,
{
}

/// The claims of an object are the texts that stand under their names; the ids of
/// organizations and of the API's claim are those of their records.
pub proof fn law_claims_stand_under_their_names(members: Seq<(Seq<char>, LooseView)>, i: int)
    requires
        claims_in(LooseView::Named(members)) is Some,
    ensures
        ({
            let claims = claims_in(LooseView::Named(members))->0;
            let id_in = |record: LooseView, name: Seq<char>|
                match record {
                    LooseView::Named(fields) => match value_of(fields, name) {
                        Some(LooseView::Plain(JsonView::Text(id))) => Some(id),
                        _ => None,
                    },
                    LooseView::Listed(items) => if items.len() > 0 {
                        match items[0] {
                            LooseView::Plain(JsonView::Text(id)) => Some(id),
                            _ => None,
                        }
                    } else {
                        None
                    },
                    _ => None,
                };
            &&& claims.email == (match value_of(members, "email"@) {
                Some(LooseView::Plain(JsonView::Text(email))) => Some(email),
                _ => None,
            })
            &&& claims.chatgpt_account_id == (match value_of(members, "chatgpt_account_id"@) {
                Some(LooseView::Plain(JsonView::Text(id))) => Some(id),
                _ => None,
            })
            &&& value_of(members, "organizations"@) matches Some(LooseView::Listed(items)) ==> (
            claims.organizations matches Some(orgs) && orgs.len() == items.len() && (0 <= i
                < items.len() ==> orgs[i] == id_in(items[i], "id"@)))
            &&& !(value_of(members, "organizations"@) matches Some(LooseView::Listed(_)))
                ==> claims.organizations is None
            &&& value_of(members, "https://api.openai.com/auth"@) matches Some(record) ==> (record
                != LooseView::Plain(JsonView::Null) ==> claims.api_auth == Some(
                id_in(record, "chatgpt_account_id"@),
            ))
            &&& value_of(members, "https://api.openai.com/auth"@) is None ==> claims.api_auth is None
        }),
{
}

/// A token can be read only if its header can, or says that it is not signed, and
/// its claims are those in the part before the last one.
pub proof fn law_token_is_read_from_its_claims(
    header: Seq<char>,
    payload: Seq<char>,
    signature: Seq<char>,
    bytes: Seq<u8>,
)
    requires
        forall|i: int| 0 <= i < header.len() ==> header[i] != '.',
        forall|i: int| 0 <= i < payload.len() ==> payload[i] != '.',
        forall|i: int| 0 <= i < signature.len() ==> signature[i] != '.',
        b64_decoded(payload) == Some(bytes),
    ensures
        ({
            let token = header + seq!['.'] + payload + seq!['.'] + signature;
            &&& (jwt_header_reads(token) || is_unsecured(token)) && jwt_claims_read(token)
                ==> claims_of_token(token) == claims_in(loose_of(bytes, 3))
            &&& !jwt_header_reads(token) && !is_unsecured(token) ==> claims_of_token(token) is None
            &&& !jwt_claims_read(token) ==> claims_of_token(token) is None
            &&& is_unsecured(token) <==> (b64_decoded(header) matches Some(text) && (
            json_bytes_reading(text) matches Some(value) && value.get("alg"@) == Some(
                JsonView::Text("none"@),
            )))
        }),
{
    let rest = payload + seq!['.'] + signature;
    law_pieces_of_parts(header, rest, '.');
    law_pieces_of_parts(payload, signature, '.');
    law_pieces_of_one(signature, '.');
    assert(header + seq!['.'] + rest =~= header + seq!['.'] + payload + seq!['.'] + signature);
}

/// Claims that name the address, the account, the organizations or the nested claim
/// twice are refused.
pub proof fn law_repeated_claims_are_refused(
    members: Seq<(Seq<char>, LooseView)>,
    i: int,
    j: int,
)
    requires
        0 <= i < j < members.len(),
        members[i].0 == members[j].0,
    ensures
        members[i].0 == "email"@ || members[i].0 == "chatgpt_account_id"@ || members[i].0
            == "organizations"@ || members[i].0 == "https://api.openai.com/auth"@ ==> claims_in(
            LooseView::Named(members),
        ) is None,
{
    let names = claim_names();
    assert(names[0] == "email"@ && names[1] == "chatgpt_account_id"@ && names[2]
        == "organizations"@ && names[3] == "https://api.openai.com/auth"@);
    crate::records::law_fields_by_name_or_place(members, Seq::empty(), names, i, j, 0);
}

/// Claims are refused for an organization whose id is neither a text nor null nor
/// missing, and not for one whose id is a text.
pub proof fn law_organizations_have_text_ids(
    items: Seq<LooseView>,
    i: int,
    fields: Seq<(Seq<char>, LooseView)>,
    id: Seq<char>,
)
    ensures
        0 <= i < items.len() && items[i] == LooseView::Named(fields) && (value_of(
            fields,
            "id"@,
        ) matches Some(value) && !(value matches LooseView::Plain(JsonView::Text(_))) && value
            != LooseView::Plain(JsonView::Null)) ==> organizations_of(
            Some(LooseView::Listed(items)),
        ) is None,
        organizations_of(
            Some(
                LooseView::Listed(
                    seq![LooseView::Named(seq![("id"@, LooseView::Plain(JsonView::Text(id)))])],
                ),
            ),
        ) == Some(Some(seq![Some(id)])),
{
    let one = seq![LooseView::Named(seq![("id"@, LooseView::Plain(JsonView::Text(id)))])];
    let members = seq![("id"@, LooseView::Plain(JsonView::Text(id)))];
    crate::records::law_fields_by_name_or_place(members, Seq::empty(), seq!["id"@], 0, 0, 0);
    assert(is_id_record(one[0], "id"@));
    assert(one.map_values(|item: LooseView| record_id(item, "id"@)) =~= seq![Some(id)]);
    if 0 <= i < items.len() && items[i] == LooseView::Named(fields) && (value_of(
        fields,
        "id"@,
    ) matches Some(value) && !(value matches LooseView::Plain(JsonView::Text(_))) && value
        != LooseView::Plain(JsonView::Null)) {
        assert(!is_id_record(items[i], "id"@));
    }
}

} // verus!
