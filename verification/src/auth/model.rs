//! Stored credentials.

use vstd::prelude::*;
use vstd::string::*;
use crate::ordered::{
    keys_differ, lemma_with_value_at, lemma_with_value_new, value_of, with_value,
};
use crate::text::{opt_text, text_eq, texts};

verus! {

/// The scope of an API key.
pub const API_KEY_SCOPE: &'static str = "xai::api_key";

/// The issuer of xAI's own tokens.
pub const XAI_OAUTH2_ISSUER: &'static str = "https://auth.x.ai";

/// How a credential was obtained.
#[derive(Clone, Copy, Debug, PartialEq, Eq, Structural)]
pub enum AuthMode {
    ApiKey,
    Oidc,
    External,
    WebLogin,
}

/// A point in time: seconds since the epoch, and nanoseconds beyond them.
#[derive(Clone, Copy, Debug, PartialEq, Eq, Structural)]
pub struct Timestamp {
    pub secs: i64,
    pub nanos: u32,
}

/// The first second that a calendar date can be given for, in the year -262143.
pub const MIN_SECS: i64 = -8_334_601_228_800;

/// The last second that a calendar date can be given for, in the year 262142.
pub const MAX_SECS: i64 = 8_210_266_876_799;

/// A number of seconds in the 64 bits of a signed number: those of its upper half
/// count backwards.
pub open spec fn signed(seconds: u64) -> int {
    if seconds <= i64::MAX {
        seconds as int
    } else {
        seconds - u64::MAX - 1
    }
}

impl Timestamp {
    /// Whether there is a calendar date that many seconds later.
    pub open spec fn reaches(self, seconds: u64) -> bool {
        MIN_SECS <= self.secs + signed(seconds) <= MAX_SECS
    }

    /// The point in time that many seconds later.
    pub open spec fn later(self, seconds: u64) -> Timestamp {
        Timestamp { secs: (self.secs + signed(seconds)) as i64, nanos: self.nanos }
    }

    /// Whether there is a calendar date that many seconds later.
    pub fn can_reach(self, seconds: u64) -> (r: bool)
        ensures
            r == self.reaches(seconds),
    {
        let wide: i128 = self.secs as i128 + Self::offset(seconds) as i128;
        MIN_SECS as i128 <= wide && wide <= MAX_SECS as i128
    }

    /// The point in time that many seconds later.
    pub fn after(self, seconds: u64) -> (r: Timestamp)
        requires
            self.reaches(seconds),
        ensures
            r == self.later(seconds),
    {
        Timestamp { secs: self.secs + Self::offset(seconds), nanos: self.nanos }
    }

    fn offset(seconds: u64) -> (r: i64)
        ensures
            r == signed(seconds),
    {
        if seconds <= i64::MAX as u64 {
            seconds as i64
        } else {
            -((u64::MAX - seconds) as i64) - 1
        }
    }
}

/// What is known of the person behind a credential.
#[derive(Debug)]
pub struct AuthProfile {
    pub first_name: Option<String>,
    pub last_name: Option<String>,
    pub profile_image_asset_id: Option<String>,
    pub principal_type: Option<String>,
    pub principal_id: Option<String>,
    pub team_id: Option<String>,
    pub team_name: Option<String>,
    pub team_role: Option<String>,
    pub organization_id: Option<String>,
    pub organization_name: Option<String>,
    pub organization_role: Option<String>,
    pub user_blocked_reason: Option<String>,
    pub team_blocked_reasons: Vec<String>,
    pub coding_data_retention_opt_out: bool,
}

/// The model of [`AuthProfile`].
#[verifier::ext_equal]
pub struct ProfileView {
    pub first_name: Option<Seq<char>>,
    pub last_name: Option<Seq<char>>,
    pub profile_image_asset_id: Option<Seq<char>>,
    pub principal_type: Option<Seq<char>>,
    pub principal_id: Option<Seq<char>>,
    pub team_id: Option<Seq<char>>,
    pub team_name: Option<Seq<char>>,
    pub team_role: Option<Seq<char>>,
    pub organization_id: Option<Seq<char>>,
    pub organization_name: Option<Seq<char>>,
    pub organization_role: Option<Seq<char>>,
    pub user_blocked_reason: Option<Seq<char>>,
    pub team_blocked_reasons: Seq<Seq<char>>,
    pub coding_data_retention_opt_out: bool,
}

impl AuthProfile {
    pub open spec fn view(&self) -> ProfileView {
        ProfileView {
            first_name: opt_text(self.first_name),
            last_name: opt_text(self.last_name),
            profile_image_asset_id: opt_text(self.profile_image_asset_id),
            principal_type: opt_text(self.principal_type),
            principal_id: opt_text(self.principal_id),
            team_id: opt_text(self.team_id),
            team_name: opt_text(self.team_name),
            team_role: opt_text(self.team_role),
            organization_id: opt_text(self.organization_id),
            organization_name: opt_text(self.organization_name),
            organization_role: opt_text(self.organization_role),
            user_blocked_reason: opt_text(self.user_blocked_reason),
            team_blocked_reasons: texts(self.team_blocked_reasons@),
            coding_data_retention_opt_out: self.coding_data_retention_opt_out,
        }
    }
}

/// Nothing known of the person.
pub open spec fn no_profile() -> ProfileView {
    ProfileView {
        first_name: None,
        last_name: None,
        profile_image_asset_id: None,
        principal_type: None,
        principal_id: None,
        team_id: None,
        team_name: None,
        team_role: None,
        organization_id: None,
        organization_name: None,
        organization_role: None,
        user_blocked_reason: None,
        team_blocked_reasons: Seq::empty(),
        coding_data_retention_opt_out: false,
    }
}

impl Default for AuthProfile {
    fn default() -> (r: Self)
        ensures
            r@ == no_profile(),
    {
        let reasons: Vec<String> = Vec::new();
        assert(texts(reasons@) =~= Seq::<Seq<char>>::empty());
        AuthProfile {
            first_name: None,
            last_name: None,
            profile_image_asset_id: None,
            principal_type: None,
            principal_id: None,
            team_id: None,
            team_name: None,
            team_role: None,
            organization_id: None,
            organization_name: None,
            organization_role: None,
            user_blocked_reason: None,
            team_blocked_reasons: reasons,
            coding_data_retention_opt_out: false,
        }
    }
}

fn copy_texts(all: &Vec<String>) -> (r: Vec<String>)
    ensures
        texts(r@) == texts(all@),
{
    let mut out: Vec<String> = Vec::new();
    let mut i: usize = 0;
    while i < all.len()
        invariant
            i <= all.len(),
            texts(out@) =~= texts(all@).take(i as int),
        decreases all.len() - i,
    {
        let ghost before = texts(out@);
        let copy = all[i].clone();
        out.push(copy);
        assert(texts(out@) =~= before.push(copy@));
        i += 1;
    }
    assert(texts(all@).take(i as int) =~= texts(all@));
    out
}

impl Clone for AuthProfile {
    fn clone(&self) -> (r: Self)
        ensures
            r@ == self@,
    {
        AuthProfile {
            first_name: self.first_name.clone(),
            last_name: self.last_name.clone(),
            profile_image_asset_id: self.profile_image_asset_id.clone(),
            principal_type: self.principal_type.clone(),
            principal_id: self.principal_id.clone(),
            team_id: self.team_id.clone(),
            team_name: self.team_name.clone(),
            team_role: self.team_role.clone(),
            organization_id: self.organization_id.clone(),
            organization_name: self.organization_name.clone(),
            organization_role: self.organization_role.clone(),
            user_blocked_reason: self.user_blocked_reason.clone(),
            team_blocked_reasons: copy_texts(&self.team_blocked_reasons),
            coding_data_retention_opt_out: self.coding_data_retention_opt_out,
        }
    }
}

/// A credential.
#[derive(Debug)]
pub struct GrokAuth {
    pub key: String,
    pub auth_mode: AuthMode,
    pub create_time: Timestamp,
    pub user_id: String,
    pub email: Option<String>,
    pub refresh_token: Option<String>,
    pub expires_at: Option<Timestamp>,
    pub oidc_issuer: Option<String>,
    pub oidc_client_id: Option<String>,
    pub chatgpt_account_id: Option<String>,
    pub has_grok_code_access: Option<bool>,
    pub profile: AuthProfile,
}

/// The model of [`GrokAuth`].
pub struct AuthView {
    pub key: Seq<char>,
    pub auth_mode: AuthMode,
    pub create_time: Timestamp,
    pub user_id: Seq<char>,
    pub email: Option<Seq<char>>,
    pub refresh_token: Option<Seq<char>>,
    pub expires_at: Option<Timestamp>,
    pub oidc_issuer: Option<Seq<char>>,
    pub oidc_client_id: Option<Seq<char>>,
    pub chatgpt_account_id: Option<Seq<char>>,
    pub has_grok_code_access: Option<bool>,
    pub profile: ProfileView,
}

impl GrokAuth {
    pub open spec fn view(&self) -> AuthView {
        AuthView {
            key: self.key@,
            auth_mode: self.auth_mode,
            create_time: self.create_time,
            user_id: self.user_id@,
            email: opt_text(self.email),
            refresh_token: opt_text(self.refresh_token),
            expires_at: self.expires_at,
            oidc_issuer: opt_text(self.oidc_issuer),
            oidc_client_id: opt_text(self.oidc_client_id),
            chatgpt_account_id: opt_text(self.chatgpt_account_id),
            has_grok_code_access: self.has_grok_code_access,
            profile: self.profile@,
        }
    }
}

impl Clone for GrokAuth {
    fn clone(&self) -> (r: Self)
        ensures
            r@ == self@,
    {
        GrokAuth {
            key: self.key.clone(),
            auth_mode: self.auth_mode,
            create_time: self.create_time,
            user_id: self.user_id.clone(),
            email: self.email.clone(),
            refresh_token: self.refresh_token.clone(),
            expires_at: self.expires_at,
            oidc_issuer: self.oidc_issuer.clone(),
            oidc_client_id: self.oidc_client_id.clone(),
            chatgpt_account_id: self.chatgpt_account_id.clone(),
            has_grok_code_access: self.has_grok_code_access,
            profile: self.profile.clone(),
        }
    }
}

/// The model of a credential that may be missing.
pub open spec fn opt_auth(auth: Option<GrokAuth>) -> Option<AuthView> {
    match auth {
        Some(a) => Some(a@),
        None => None,
    }
}

/// Credentials under their scopes, in the order in which the scopes came. No
/// scope occurs twice.
#[derive(Debug)]
pub struct AuthStore {
    pub entries: Vec<(String, GrokAuth)>,
}

impl AuthStore {
    pub open spec fn view(&self) -> Seq<(Seq<char>, AuthView)> {
        self.entries@.map_values(|e: (String, GrokAuth)| (e.0@, e.1@))
    }

    /// No scope occurs twice.
    pub open spec fn well_formed(&self) -> bool {
        keys_differ(self@)
    }

    /// A store without credentials.
    pub fn new() -> (r: Self)
        ensures
            r.well_formed(),
            r@ == Seq::<(Seq<char>, AuthView)>::empty(),
    {
        let store = AuthStore { entries: Vec::new() };
        assert(store@ =~= Seq::<(Seq<char>, AuthView)>::empty());
        store
    }

    /// The position of the first credential under a scope.
    fn position(&self, scope: &str) -> (r: Option<usize>)
        ensures
            match r {
                Some(i) => i < self@.len() && self@[i as int].0 == scope@ && value_of(
                    self@,
                    scope@,
                ) == Some(self@[i as int].1) && (forall|j: int|
                    0 <= j < i ==> (#[trigger] self@[j]).0 != scope@),
                None => value_of(self@, scope@) is None && (forall|j: int|
                    0 <= j < self@.len() ==> (#[trigger] self@[j]).0 != scope@),
            },
    {
        let ghost all = self@;
        let mut i: usize = 0;
        assert(all.skip(0) =~= all);
        while i < self.entries.len()
            invariant
                i <= self.entries@.len() == all.len(),
                all == self@,
                value_of(all, scope@) == value_of(all.skip(i as int), scope@),
                forall|j: int| 0 <= j < i ==> (#[trigger] all[j]).0 != scope@,
            decreases self.entries@.len() - i,
        {
            assert(all.skip(i as int)[0] == all[i as int]);
            assert(all.skip(i as int).drop_first() =~= all.skip(i + 1));
            assert(all[i as int].0 == self.entries@[i as int].0@);
            if text_eq(self.entries[i].0.as_str(), scope) {
                return Some(i);
            }
            i += 1;
        }
        None
    }

    /// The credential under a scope.
    pub fn get(&self, scope: &str) -> (r: Option<GrokAuth>)
        ensures
            opt_auth(r) == value_of(self@, scope@),
    {
        match self.position(scope) {
            Some(i) => {
                assert(self@[i as int].1 == self.entries@[i as int].1@);
                Some(self.entries[i].1.clone())
            },
            None => None,
        }
    }

    /// Puts a credential under a scope, in place of the one that is there.
    pub fn insert(&mut self, scope: String, auth: GrokAuth)
        requires
            old(self).well_formed(),
        ensures
            final(self).well_formed(),
            final(self)@ == with_value(old(self)@, scope@, auth@),
    {
        let ghost before = self@;
        match self.position(scope.as_str()) {
            Some(i) => {
                proof {
                    lemma_with_value_at(before, scope@, auth@, i as int);
                }
                self.entries.set(i, (scope, auth));
                assert(self@ =~= before.update(i as int, (scope@, auth@)));
            },
            None => {
                proof {
                    lemma_with_value_new(before, scope@, auth@);
                }
                self.entries.push((scope, auth));
                assert(self@ =~= before.push((scope@, auth@)));
            },
        }
    }
}

/// A point in time so many seconds later has that many seconds more and the same
/// nanoseconds, and can be reached as long as a calendar date can be given for it.
pub proof fn law_later_adds_seconds(now: Timestamp, seconds: u64)
    requires
        seconds <= i64::MAX,
    ensures
        now.reaches(seconds) <==> -8_334_601_228_800 <= now.secs + seconds <= 8_210_266_876_799,
        now.reaches(seconds) ==> now.later(seconds).secs == now.secs + seconds,
        now.later(seconds).nanos == now.nanos,
{
}

/// A credential that has been put under a scope is the one that is found there,
/// and every other scope has what it had.
pub proof fn law_stored_credential_is_found(
    entries: Seq<(Seq<char>, AuthView)>,
    scope: Seq<char>,
    auth: AuthView,
    other: Seq<char>,
)
    ensures
        value_of(with_value(entries, scope, auth), scope) == Some(auth),
        other != scope ==> value_of(with_value(entries, scope, auth), other) == value_of(
            entries,
            other,
        ),
{
    crate::ordered::lemma_value_of_with(entries, scope, auth, scope);
    crate::ordered::lemma_value_of_with(entries, scope, auth, other);
}

/// A profile of which nothing is known says nothing and opts out of nothing.
pub proof fn law_unknown_profile()
    ensures
        ({
            let profile = no_profile();
            &&& profile.first_name is None && profile.last_name is None
            &&& profile.profile_image_asset_id is None
            &&& profile.principal_type is None && profile.principal_id is None
            &&& profile.team_id is None && profile.team_name is None && profile.team_role is None
            &&& profile.organization_id is None && profile.organization_name is None
            &&& profile.organization_role is None && profile.user_blocked_reason is None
            &&& profile.team_blocked_reasons.len() == 0
            &&& !profile.coding_data_retention_opt_out
        }),
{
}

} // verus!
