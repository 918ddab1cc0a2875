//! Replacing ChatGPT tokens.

use vstd::prelude::*;

use crate::auth_file;
use crate::claims;
use crate::claims::ChatGptIdTokenClaims;
use crate::claims::IdClaims;
use crate::clock;
use crate::encoding;
use crate::store;
use crate::store::StoreError;
use crate::text;
use crate::types::AccountsStore;
use crate::types::AuthData;
use crate::types::StoreView;
use crate::types::StoredAccount;
use crate::types::TokenView;

verus! {

pub const DEFAULT_ISSUER: &'static str = "https://auth.openai.com";

pub const CLIENT_ID: &'static str = "app_EMoamEEZ73f0CkXaXp7hrann";

/// How often a request for new tokens is sent at most.
pub const REFRESH_ATTEMPTS: u8 = 3;

/// The answer to a request for new tokens
#[derive(Debug)]
pub struct RefreshTokenResponse {
    pub id_token: Option<String>,
    pub access_token: String,
    pub refresh_token: Option<String>,
}

// ---------------------------------------------------------------------------
// The request
// ---------------------------------------------------------------------------

/// The body of a request for new tokens.
pub open spec fn request_body(refresh_token: Seq<char>) -> Seq<char> {
    "grant_type=refresh_token&refresh_token="@ + encoding::percent_encoded(
        vstd::utf8::encode_utf8(refresh_token),
    ) + "&client_id="@ + encoding::percent_encoded(vstd::utf8::encode_utf8(CLIENT_ID@))
}

/// The body of a request for new tokens.
pub fn refresh_request_body(refresh_token: &str) -> (r: String)
    ensures
        r@ == request_body(refresh_token@),
{
    let token = encoding::percent_encode(refresh_token);
    let client = encoding::percent_encode(CLIENT_ID);
    let mut body = text::joined("grant_type=refresh_token&refresh_token=", token.as_str());
    body.append("&client_id=");
    body.append(client.as_str());
    body
}

/// Where requests for new tokens go.
pub fn refresh_request_url() -> (r: String)
    ensures
        r@ == DEFAULT_ISSUER@ + "/oauth/token"@,
{
    text::joined(DEFAULT_ISSUER, "/oauth/token")
}

/// What came of sending a request for new tokens
#[derive(Debug)]
pub enum RefreshEvent {
    /// It could not be sent.
    NotSent,
    /// It was answered with a success.
    Granted,
    /// It was answered with another status and body.
    Refused {
        status: String,
        body: String,
    },
}

/// What to do after a request for new tokens was sent
#[derive(Debug)]
pub enum RefreshStep {
    /// Wait, for so many milliseconds, and send it again.
    SendAgain(u64),
    /// Read the tokens from the answer.
    ReadTokens,
    /// Give up; the request could not be sent.
    GiveUp,
    /// Give up, with this error.
    Fail(String),
}

/// The step after the request was sent for the time `attempt`, counted from one.
pub open spec fn is_next_step(step: RefreshStep, attempt: u8, event: RefreshEvent) -> bool {
    match event {
        RefreshEvent::NotSent => if attempt < REFRESH_ATTEMPTS {
            step == RefreshStep::SendAgain((250 * attempt) as u64)
        } else {
            step == RefreshStep::GiveUp
        },
        RefreshEvent::Granted => step == RefreshStep::ReadTokens,
        RefreshEvent::Refused { status, body } => step matches RefreshStep::Fail(message)
            && message@ == "Token refresh failed: "@ + status@ + " - "@ + body@,
    }
}

/// What to do after the request was sent for the time `attempt`, counted from one.
/// A request that was answered is never sent again.
pub fn refresh_tokens_with_refresh_token(attempt: u8, event: RefreshEvent) -> (r: RefreshStep)
    ensures
        is_next_step(r, attempt, event),
{
    match event {
        RefreshEvent::NotSent => {
            if attempt < REFRESH_ATTEMPTS {
                RefreshStep::SendAgain(250 * (attempt as u64))
            } else {
                RefreshStep::GiveUp
            }
        },
        RefreshEvent::Granted => RefreshStep::ReadTokens,
        RefreshEvent::Refused { status, body } => {
            let mut message = text::joined("Token refresh failed: ", status.as_str());
            message.append(" - ");
            message.append(body.as_str());
            RefreshStep::Fail(message)
        },
    }
}

// ---------------------------------------------------------------------------
// Whether tokens are to be replaced
// ---------------------------------------------------------------------------

/// The account has tokens that are to be replaced at `now`.
pub open spec fn needs_refresh(account: StoredAccount, now: i64) -> bool {
    match account.auth_data {
        AuthData::ChatGPT { access_token, .. } => claims::is_stale(
            claims::jwt_expiry(access_token@),
            now,
        ),
        _ => false,
    }
}

/// Whether the account has tokens that are to be replaced now.
pub fn ensure_chatgpt_tokens_fresh(account: &StoredAccount) -> (r: bool)
    ensures
        exists|now: clock::Timestamp| #[trigger]
            clock::is_reading(now) && r == needs_refresh(*account, now.seconds),
        !(account.auth_data is ChatGPT) ==> !r,
{
    let now = clock::utc_now();
    let r = needs_refresh_at(account, now.seconds);
    r
}

/// Whether the account has tokens that are to be replaced at `now`, in seconds
/// since the epoch.
pub fn needs_refresh_at(account: &StoredAccount, now: i64) -> (r: bool)
    ensures
        r == needs_refresh(*account, now),
{
    match &account.auth_data {
        AuthData::ChatGPT { access_token, .. } => claims::expired_or_near_expiry(
            claims::parse_jwt_exp(access_token.as_str()),
            now,
        ),
        _ => false,
    }
}

/// What replacing the tokens of an account starts with
#[derive(Debug)]
pub enum RefreshPlan {
    /// Nothing: the account has no tokens.
    Nothing,
    /// Asking for new tokens with this refresh token.
    Ask(String),
    /// The account has no refresh token.
    Fail(String),
}

/// Replacing the tokens of an account starts with the plan.
pub open spec fn is_plan(plan: RefreshPlan, account: StoredAccount) -> bool {
    match account.auth_data {
        AuthData::ChatGPT { refresh_token, .. } => if refresh_token@.len() == 0 {
            plan matches RefreshPlan::Fail(message) && message@
                == "Missing refresh token for account "@ + account.name@
        } else {
            plan == RefreshPlan::Ask(refresh_token)
        },
        _ => plan == RefreshPlan::Nothing,
    }
}

/// What replacing the tokens of an account starts with.
pub fn refresh_chatgpt_tokens(account: &StoredAccount) -> (r: RefreshPlan)
    ensures
        is_plan(r, *account),
{
    match &account.auth_data {
        AuthData::ChatGPT { refresh_token, .. } => {
            if refresh_token.as_str().is_empty() {
                RefreshPlan::Fail(
                    text::joined("Missing refresh token for account ", account.name.as_str()),
                )
            } else {
                RefreshPlan::Ask(refresh_token.clone())
            }
        },
        _ => RefreshPlan::Nothing,
    }
}

// ---------------------------------------------------------------------------
// Replacing the tokens in the store
// ---------------------------------------------------------------------------

/// The ID token after the answer: the new one, or else the one the account has.
pub open spec fn next_id_token(account: StoredAccount, answer: RefreshTokenResponse) -> Seq<char> {
    match answer.id_token {
        Some(token) => token@,
        None => account.auth_data->ChatGPT_id_token@,
    }
}

/// The tokens after the answer. Where neither the claims nor the account that was
/// asked for give an account ID, the one in the store stays.
pub open spec fn next_tokens(
    stored: StoredAccount,
    account: StoredAccount,
    answer: RefreshTokenResponse,
    claims: IdClaims,
) -> TokenView {
    TokenView {
        id_token: next_id_token(account, answer),
        access_token: answer.access_token@,
        refresh_token: match answer.refresh_token {
            Some(token) => token@,
            None => account.auth_data->ChatGPT_refresh_token@,
        },
        account_id: auth_file::either(
            claims.account_id,
            auth_file::either(
                text::opt_text(account.auth_data->ChatGPT_account_id),
                text::opt_text(stored.auth_data->ChatGPT_account_id),
            ),
        ),
    }
}

/// `updated` is the account `stored` with new tokens and with the metadata that
/// the claims give; what they do not give stays.
pub open spec fn is_refreshed(
    updated: StoredAccount,
    stored: StoredAccount,
    account: StoredAccount,
    answer: RefreshTokenResponse,
    claims: IdClaims,
) -> bool {
    let tokens = next_tokens(stored, account, answer, claims);
    &&& updated.id == stored.id
    &&& updated.name == stored.name
    &&& text::opt_text(updated.email) == auth_file::either(
        claims.email,
        text::opt_text(stored.email),
    )
    &&& text::opt_text(updated.plan_type) == auth_file::either(
        claims.plan_type,
        text::opt_text(stored.plan_type),
    )
    &&& updated.subscription_expires_at == (match claims.subscription_expires_at {
        Some(expires_at) => Some(expires_at),
        None => stored.subscription_expires_at,
    })
    &&& updated.auth_mode == stored.auth_mode
    &&& updated.created_at == stored.created_at
    &&& updated.last_used_at == stored.last_used_at
    &&& updated.auth_data matches AuthData::ChatGPT {
        id_token,
        access_token,
        refresh_token,
        account_id,
    } && {
        &&& id_token@ == tokens.id_token
        &&& access_token@ == tokens.access_token
        &&& refresh_token@ == tokens.refresh_token
        &&& text::opt_text(account_id) == tokens.account_id
    }
}

/// The store after the tokens of an account were replaced, and what is handed
/// back: the account, and whether auth.json has to follow because the account is
/// the active one.
pub open spec fn is_applied(
    before: StoreView,
    after: StoreView,
    account: StoredAccount,
    answer: RefreshTokenResponse,
    claims: IdClaims,
    r: Result<(StoredAccount, bool), StoreError>,
) -> bool {
    match store::position(before.accounts, account.id@) {
        None => r == Err::<(StoredAccount, bool), StoreError>(StoreError::NotFound) && after
            == before,
        Some(at) => if !(before.accounts[at].auth_data is ChatGPT) {
            r == Err::<(StoredAccount, bool), StoreError>(StoreError::NotOAuth) && after
                == before
        } else {
            &&& r matches Ok((updated, in_use))
            &&& is_refreshed(updated, before.accounts[at], account, answer, claims)
            &&& after == (StoreView { accounts: before.accounts.update(at, updated), ..before })
            &&& in_use == (before.active == Some(updated.id@))
        },
    }
}

/// Replaces the tokens of an account in the store with those of the answer, given
/// the claims of the new ID token.
pub fn apply_refreshed_tokens_with_claims(
    store: &mut AccountsStore,
    account: &StoredAccount,
    answer: RefreshTokenResponse,
    claims: ChatGptIdTokenClaims,
) -> (r: Result<(StoredAccount, bool), StoreError>)
    requires
        account.auth_data is ChatGPT,
    ensures
        is_applied(old(store)@, final(store)@, *account, answer, claims@, r),
{
    let (own_id_token, own_refresh_token, own_account_id) = match &account.auth_data {
        AuthData::ChatGPT { id_token, refresh_token, account_id, .. } => (
            id_token.clone(),
            refresh_token.clone(),
            text::copy_opt(account_id),
        ),
        _ => {
            return Err(StoreError::NotOAuth);
        },
    };
    let at: usize = match store::find(&store.accounts, account.id.as_str()) {
        Some(at) => at,
        None => {
            return Err(StoreError::NotFound);
        },
    };
    let ghost stored = store.accounts@[at as int];
    let mut updated = store.accounts[at].clone();
    let stored_account_id = match &updated.auth_data {
        AuthData::ChatGPT { account_id, .. } => text::copy_opt(account_id),
        _ => {
            return Err(StoreError::NotOAuth);
        },
    };
    let next_account_id = match claims.account_id {
        Some(id) => Some(id),
        None => match own_account_id {
            Some(id) => Some(id),
            None => stored_account_id,
        },
    };
    updated.auth_data =
    AuthData::ChatGPT {
        id_token: match answer.id_token {
            Some(token) => token,
            None => own_id_token,
        },
        access_token: answer.access_token,
        refresh_token: match answer.refresh_token {
            Some(token) => token,
            None => own_refresh_token,
        },
        account_id: next_account_id,
    };
    if let Some(email) = claims.email {
        updated.email = Some(email);
    }
    if let Some(plan_type) = claims.plan_type {
        updated.plan_type = Some(plan_type);
    }
    if let Some(expires_at) = claims.subscription_expires_at {
        updated.subscription_expires_at = Some(expires_at);
    }
    let in_use = text::same_opt(
        text::as_opt_str(&store.active_account_id),
        Some(updated.id.as_str()),
    );
    let copy = updated.clone();
    store.accounts.set(at, updated);
    Ok((copy, in_use))
}

/// Replaces the tokens of an account in the store with those of the answer. Where
/// the account is the active one, auth.json has to follow.
pub fn apply_refreshed_tokens(
    store: &mut AccountsStore,
    account: &StoredAccount,
    answer: RefreshTokenResponse,
) -> (r: Result<(StoredAccount, bool), StoreError>)
    requires
        account.auth_data is ChatGPT,
    ensures
        is_applied(
            old(store)@,
            final(store)@,
            *account,
            answer,
            claims::id_token_claims(next_id_token(*account, answer)),
            r,
        ),
{
    let claims = match &answer.id_token {
        Some(token) => claims::parse_chatgpt_id_token_claims(token.as_str()),
        None => match &account.auth_data {
            AuthData::ChatGPT { id_token, .. } => claims::parse_chatgpt_id_token_claims(
                id_token.as_str(),
            ),
            _ => ChatGptIdTokenClaims::default(),
        },
    };
    apply_refreshed_tokens_with_claims(store, account, answer, claims)
}

/// Replacing tokens touches no other account, keeps names and identifiers, and so
/// keeps a store sound.
pub proof fn law_refresh_keeps_sound(
    before: StoreView,
    after: StoreView,
    account: StoredAccount,
    answer: RefreshTokenResponse,
    claims: IdClaims,
    r: Result<(StoredAccount, bool), StoreError>,
)
    requires
        is_applied(before, after, account, answer, claims, r),
        store::is_sound(before),
    ensures
        store::is_sound(after),
        after.active == before.active,
        after.accounts.len() == before.accounts.len(),
        forall|i: int|
            0 <= i < before.accounts.len() && (#[trigger] before.accounts[i]).id@ != account.id@
                ==> after.accounts[i] == before.accounts[i],
{
    store::lemma_position(before.accounts, account.id@);
    assert forall|i: int| 0 <= i < before.accounts.len() implies (#[trigger] after.accounts[i]).id@
        == before.accounts[i].id@ && after.accounts[i].name@ == before.accounts[i].name@ by {}
    if before.active is Some {
        let id = before.active->0;
        let k = choose|k: int|
            0 <= k < before.accounts.len() && (#[trigger] before.accounts[k]).id@ == id;
        assert(after.accounts[k].id@ == id);
    }
}

// ---------------------------------------------------------------------------
// New accounts
// ---------------------------------------------------------------------------

/// Why no account can be made of a refresh token
#[derive(Debug)]
pub enum RestoreFailure {
    /// The account with this name has no refresh token.
    NoRefreshToken(String),
    /// The answer has no ID token.
    NoIdToken,
}

impl RestoreFailure {
    pub fn message(&self) -> (r: String)
        ensures
            r@ == (match *self {
                RestoreFailure::NoRefreshToken(name) => "Missing refresh token for account "@
                    + name@,
                RestoreFailure::NoIdToken => "Refresh response did not include id_token"@,
            }),
    {
        match self {
            RestoreFailure::NoRefreshToken(name) => {
                text::joined("Missing refresh token for account ", name.as_str())
            },
            RestoreFailure::NoIdToken => "Refresh response did not include id_token".to_string(),
        }
    }
}

/// Checks a refresh token before it is used.
pub fn check_refresh_token(account_name: &str, refresh_token: &str) -> (r: Result<
    (),
    RestoreFailure,
>)
    ensures
        r is Ok <==> !text::blank(refresh_token@),
        r matches Err(error) ==> error matches RestoreFailure::NoRefreshToken(name) && name@
            == account_name@,
{
    if text::is_blank(refresh_token) {
        Err(RestoreFailure::NoRefreshToken(account_name.to_string()))
    } else {
        Ok(())
    }
}

/// The account that a refresh token makes, or why it makes none.
pub open spec fn is_restored_account(
    r: Result<StoredAccount, RestoreFailure>,
    account_name: Seq<char>,
    refresh_token: Seq<char>,
    answer: RefreshTokenResponse,
) -> bool {
    match (answer.id_token, r) {
        (Some(id_token), Ok(account)) => {
            let claims = claims::id_token_claims(id_token@);
            &&& clock::is_uuid_v4(account.id@)
            &&& clock::is_reading(account.created_at)
            &&& auth_file::is_chatgpt_account(
                account,
                account_name,
                claims,
                TokenView {
                    id_token: id_token@,
                    access_token: answer.access_token@,
                    refresh_token: match answer.refresh_token {
                        Some(token) => token@,
                        None => refresh_token,
                    },
                    account_id: claims.account_id,
                },
            )
        },
        (None, Err(error)) => error == RestoreFailure::NoIdToken,
        _ => false,
    }
}

/// The account that a refresh token makes, given the answer to a request with it.
pub fn create_chatgpt_account_from_refresh_token(
    account_name: String,
    refresh_token: String,
    answer: RefreshTokenResponse,
) -> (r: Result<StoredAccount, RestoreFailure>)
    ensures
        is_restored_account(r, account_name@, refresh_token@, answer),
{
    let id_token = match answer.id_token {
        Some(id_token) => id_token,
        None => {
            return Err(RestoreFailure::NoIdToken);
        },
    };
    let next_refresh_token = match answer.refresh_token {
        Some(token) => token,
        None => refresh_token,
    };
    let claims = claims::parse_chatgpt_id_token_claims(id_token.as_str());
    Ok(
        StoredAccount::new_chatgpt(
            account_name,
            claims.email,
            claims.plan_type,
            claims.subscription_expires_at,
            id_token,
            answer.access_token,
            next_refresh_token,
            claims.account_id,
        ),
    )
}

/// After a refresh the account holds the tokens of the answer, in the store and where
/// it is handed back: the new access token, and the new refresh token and ID token
/// where the answer gives them; only where it does not do the old ones stay.
pub proof fn law_refresh_stores_the_new_tokens(
    before: StoreView,
    after: StoreView,
    account: StoredAccount,
    answer: RefreshTokenResponse,
    claims: IdClaims,
    r: Result<(StoredAccount, bool), StoreError>,
    i: int,
)
    requires
        is_applied(before, after, account, answer, claims, r),
        account.auth_data is ChatGPT,
        0 <= i < before.accounts.len(),
        before.accounts[i].id@ == account.id@,
        before.accounts[i].auth_data is ChatGPT,
        forall|j: int| 0 <= j < i ==> (#[trigger] before.accounts[j]).id@ != account.id@,
    ensures
        r is Ok,
        after.accounts[i] == r->Ok_0.0,
        after.accounts[i].auth_data is ChatGPT,
        after.accounts[i].auth_data->ChatGPT_access_token@ == answer.access_token@,
        answer.refresh_token matches Some(token)
            ==> after.accounts[i].auth_data->ChatGPT_refresh_token@ == token@,
        answer.refresh_token is None ==> after.accounts[i].auth_data->ChatGPT_refresh_token@
            == account.auth_data->ChatGPT_refresh_token@,
        answer.id_token matches Some(token) ==> after.accounts[i].auth_data->ChatGPT_id_token@
            == token@,
        answer.id_token is None ==> after.accounts[i].auth_data->ChatGPT_id_token@
            == account.auth_data->ChatGPT_id_token@,
{
    lemma_position_is(before.accounts, account.id@, i);
}

/// A refresh takes over what the claims of the ID token say, loses nothing that they do
/// not say, and leaves the identity of the account and all other accounts alone. The
/// active account, and no other, has to be written to auth.json.
pub proof fn law_refresh_takes_over_the_claims(
    before: StoreView,
    after: StoreView,
    account: StoredAccount,
    answer: RefreshTokenResponse,
    claims: IdClaims,
    r: Result<(StoredAccount, bool), StoreError>,
    i: int,
)
    requires
        is_applied(before, after, account, answer, claims, r),
        account.auth_data is ChatGPT,
        0 <= i < before.accounts.len(),
        before.accounts[i].id@ == account.id@,
        before.accounts[i].auth_data is ChatGPT,
        forall|j: int| 0 <= j < i ==> (#[trigger] before.accounts[j]).id@ != account.id@,
    ensures
        ({
            let old_account = before.accounts[i];
            let new_account = after.accounts[i];
            let kept = account.auth_data->ChatGPT_account_id;
            &&& claims.email matches Some(email) ==> new_account.email matches Some(new_email)
                && new_email@ == email
            &&& claims.email is None ==> text::opt_text(new_account.email) == text::opt_text(
                old_account.email,
            )
            &&& claims.plan_type matches Some(plan) ==> new_account.plan_type matches Some(new_plan)
                && new_plan@ == plan
            &&& claims.plan_type is None ==> text::opt_text(new_account.plan_type)
                == text::opt_text(old_account.plan_type)
            &&& claims.subscription_expires_at is Some ==> new_account.subscription_expires_at
                == claims.subscription_expires_at
            &&& claims.subscription_expires_at is None ==> new_account.subscription_expires_at
                == old_account.subscription_expires_at
            &&& claims.account_id is Some ==> text::opt_text(
                new_account.auth_data->ChatGPT_account_id,
            ) == claims.account_id
            &&& claims.account_id is None && kept is Some ==> text::opt_text(
                new_account.auth_data->ChatGPT_account_id,
            ) == text::opt_text(kept)
            &&& claims.account_id is None && kept is None ==> text::opt_text(
                new_account.auth_data->ChatGPT_account_id,
            ) == text::opt_text(old_account.auth_data->ChatGPT_account_id)
            &&& new_account.id == old_account.id
            &&& new_account.name == old_account.name
            &&& new_account.auth_mode == old_account.auth_mode
            &&& new_account.created_at == old_account.created_at
            &&& new_account.last_used_at == old_account.last_used_at
        }),
        after.accounts.len() == before.accounts.len(),
        forall|j: int|
            0 <= j < before.accounts.len() && j != i ==> #[trigger] after.accounts[j]
                == before.accounts[j],
        after.version == before.version,
        after.active == before.active,
        after.masked == before.masked,
        r->Ok_0.1 <==> before.active == Some(account.id@),
{
    lemma_position_is(before.accounts, account.id@, i);
}

/// Tokens that cannot be stored change nothing: those of an account that is gone, or
/// that has no tokens any more.
pub proof fn law_lost_refresh_changes_nothing(
    before: StoreView,
    after: StoreView,
    account: StoredAccount,
    answer: RefreshTokenResponse,
    claims: IdClaims,
    r: Result<(StoredAccount, bool), StoreError>,
)
    requires
        is_applied(before, after, account, answer, claims, r),
        forall|j: int|
            0 <= j < before.accounts.len() && (#[trigger] before.accounts[j]).id@ == account.id@
                ==> !(before.accounts[j].auth_data is ChatGPT),
    ensures
        r is Err,
        after == before,
        (forall|j: int|
            0 <= j < before.accounts.len() ==> (#[trigger] before.accounts[j]).id@ != account.id@)
            <==> r->Err_0 == StoreError::NotFound,
{
    store::lemma_position(before.accounts, account.id@);
}

proof fn lemma_position_is(accounts: Seq<StoredAccount>, id: Seq<char>, i: int)
    requires
        0 <= i < accounts.len(),
        accounts[i].id@ == id,
        forall|j: int| 0 <= j < i ==> (#[trigger] accounts[j]).id@ != id,
    ensures
        store::position(accounts, id) == Some(i),
{
    store::lemma_position(accounts, id);
    let at = store::position(accounts, id)->0;
    assert(accounts[at].id@ == id);
}

/// Access tokens are replaced from a minute before they expire. Accounts without
/// ChatGPT tokens, and tokens that do not say when they expire, are left alone.
pub proof fn law_tokens_are_replaced_in_time(account: StoredAccount, now: i64)
    ensures
        !(account.auth_data is ChatGPT) ==> !needs_refresh(account, now),
        account.auth_data is ChatGPT ==> match claims::jwt_expiry(
            account.auth_data->ChatGPT_access_token@,
        ) {
            Some(expiry) => needs_refresh(account, now) <==> expiry - now <= 60,
            None => !needs_refresh(account, now),
        },
{
}

/// New tokens are asked for with the refresh token of the account, where it has one.
pub proof fn law_plan_uses_the_refresh_token(plan: RefreshPlan, account: StoredAccount)
    requires
        is_plan(plan, account),
    ensures
        plan is Nothing <==> !(account.auth_data is ChatGPT),
        plan is Ask <==> account.auth_data is ChatGPT
            && account.auth_data->ChatGPT_refresh_token@.len() > 0,
        plan matches RefreshPlan::Ask(token) ==> token@
            == account.auth_data->ChatGPT_refresh_token@,
        plan matches RefreshPlan::Fail(message) ==> text::has_part(message@, account.name@),
{
    if plan is Fail {
        let message = plan->Fail_0@;
        let n = "Missing refresh token for account "@.len() as int;
        assert(message.subrange(n, n + account.name@.len()) =~= account.name@);
        assert(text::occurs_at(message, account.name@, n));
    }
}

/// A request that was answered is never sent again; one that could not be sent is sent
/// three times at most, after growing pauses of less than a second.
pub proof fn law_requests_are_sent_again(step: RefreshStep, attempt: u8, event: RefreshEvent)
    requires
        is_next_step(step, attempt, event),
    ensures
        step is SendAgain <==> event is NotSent && attempt < 3,
        step is GiveUp <==> event is NotSent && attempt >= 3,
        step is ReadTokens <==> event is Granted,
        step is Fail <==> event is Refused,
        step matches RefreshStep::SendAgain(pause) ==> pause == 250 * attempt && pause < 1000,
        step matches RefreshStep::Fail(message) ==> text::has_part(
            message@,
            event->Refused_status@,
        ) && text::has_part(message@, event->Refused_body@),
{
    if step is Fail {
        let message = step->Fail_0@;
        let status = event->Refused_status@;
        let body = event->Refused_body@;
        let n = "Token refresh failed: "@.len() as int;
        let m = n + status.len() + " - "@.len();
        assert(message.subrange(n, n + status.len()) =~= status);
        assert(text::occurs_at(message, status, n));
        assert(message.subrange(m, m + body.len()) =~= body);
        assert(text::occurs_at(message, body, m));
    }
}

/// The request names the refresh token, in percent encoding, and this application.
pub proof fn law_request_names_the_refresh_token(refresh_token: Seq<char>)
    ensures
        ({
            let encoded = encoding::percent_encoded(vstd::utf8::encode_utf8(refresh_token));
            let front = "grant_type=refresh_token&refresh_token="@;
            let body = request_body(refresh_token);
            &&& text::starts_with_of(body, front)
            &&& text::occurs_at(body, encoded, front.len() as int)
            &&& text::occurs_at(body, "&client_id="@, front.len() as int + encoded.len())
            &&& text::ends_with_of(
                body,
                encoding::percent_encoded(
                    vstd::utf8::encode_utf8("app_EMoamEEZ73f0CkXaXp7hrann"@),
                ),
            )
        }),
{
    let encoded = encoding::percent_encoded(vstd::utf8::encode_utf8(refresh_token));
    let own = encoding::percent_encoded(vstd::utf8::encode_utf8(CLIENT_ID@));
    let front = "grant_type=refresh_token&refresh_token="@;
    let middle = "&client_id="@;
    let body = request_body(refresh_token);
    let n = front.len() as int;
    assert(body.subrange(0, n) =~= front);
    assert(body.subrange(n, n + encoded.len()) =~= encoded);
    assert(body.subrange(n + encoded.len(), n + encoded.len() + middle.len()) =~= middle);
    assert(body.subrange(body.len() - own.len(), body.len() as int) =~= own);
}

/// A refresh token makes an account exactly where the answer gives an ID token. It holds
/// the tokens of the answer, and the refresh token that was used only where the answer
/// gives no other.
pub proof fn law_restored_account_holds_the_answer(
    r: Result<StoredAccount, RestoreFailure>,
    account_name: Seq<char>,
    refresh_token: Seq<char>,
    answer: RefreshTokenResponse,
)
    requires
        is_restored_account(r, account_name, refresh_token, answer),
    ensures
        r is Ok <==> answer.id_token is Some,
        r matches Err(error) ==> error == RestoreFailure::NoIdToken,
        r matches Ok(account) ==> {
            let claims = claims::id_token_claims(answer.id_token->0@);
            &&& account.name@ == account_name
            &&& account.auth_data is ChatGPT
            &&& account.auth_data->ChatGPT_id_token@ == answer.id_token->0@
            &&& account.auth_data->ChatGPT_access_token@ == answer.access_token@
            &&& answer.refresh_token matches Some(token)
                ==> account.auth_data->ChatGPT_refresh_token@ == token@
            &&& answer.refresh_token is None ==> account.auth_data->ChatGPT_refresh_token@
                == refresh_token
            &&& text::opt_text(account.auth_data->ChatGPT_account_id) == claims.account_id
            &&& text::opt_text(account.email) == claims.email
            &&& text::opt_text(account.plan_type) == claims.plan_type
            &&& account.subscription_expires_at == claims.subscription_expires_at
        },
{
}

} // verus!
