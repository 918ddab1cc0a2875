//! Usage of rate limits and credits.

use vstd::prelude::*;

use crate::auth_file;
use crate::claims;
use crate::claims::AccessClaims;
use crate::claims::CodexAccessTokenClaims;
use crate::clock::Timestamp;
use crate::requests::RequestError;
use crate::store;
use crate::store::StoreError;
use crate::text;
use crate::types;
use crate::types::AccountsStore;
use crate::types::AuthData;
use crate::types::RateLimitDetails;
use crate::types::RateLimitStatusPayload;
use crate::types::RateLimitWindow;
use crate::types::StoreView;
use crate::types::StoredAccount;
use crate::types::UsageInfo;
use crate::types::WarmupSummary;
use crate::words;

verus! {

// ---------------------------------------------------------------------------
// From the payload to what is shown
// ---------------------------------------------------------------------------

/// A quotient, rounded toward zero.
pub open spec fn quotient(a: int, b: int) -> int
    recommends
        b > 0,
{
    if a >= 0 {
        a / b
    } else {
        -((-a) / b)
    }
}

/// The length of a window in minutes: as it is given, or else from its seconds,
/// rounded up.
pub open spec fn minutes(window: RateLimitWindow) -> Option<i64> {
    match window.window_duration_mins {
        Some(minutes) => Some(minutes),
        None => match window.limit_window_seconds {
            Some(seconds) => Some(quotient(seconds + 59, 60) as i64),
            None => None,
        },
    }
}

/// The length of a window in minutes.
pub fn window_minutes(window: &RateLimitWindow) -> (r: Option<i64>)
    ensures
        r == minutes(*window),
{
    match window.window_duration_mins {
        Some(minutes) => Some(minutes),
        None => match window.limit_window_seconds {
            Some(seconds) => {
                let n: i64 = seconds as i64 + 59;
                if n >= 0 {
                    Some(n / 60)
                } else {
                    Some(-((-n) / 60))
                }
            },
            None => None,
        },
    }
}

/// A window whose seconds are not negative is at least as long in minutes, and less
/// than a minute longer.
pub proof fn law_minutes_round_up(window: RateLimitWindow, seconds: i32)
    requires
        window.window_duration_mins is None,
        window.limit_window_seconds == Some(seconds),
        seconds >= 0,
    ensures
        minutes(window) matches Some(m) && m * 60 >= seconds && m * 60 < seconds + 60,
{
}

/// The two windows of a rate limit.
pub open spec fn windows_of(rate_limit: Option<RateLimitDetails>) -> (
    Option<RateLimitWindow>,
    Option<RateLimitWindow>,
) {
    match rate_limit {
        Some(details) => (details.primary_window, details.secondary_window),
        None => (None, None),
    }
}

/// The two windows of a rate limit.
pub fn extract_rate_limits(rate_limit: Option<RateLimitDetails>) -> (r: (
    Option<RateLimitWindow>,
    Option<RateLimitWindow>,
))
    ensures
        r == windows_of(rate_limit),
{
    match rate_limit {
        Some(details) => (details.primary_window, details.secondary_window),
        None => (None, None),
    }
}

/// What a payload says of the usage of an account.
pub open spec fn usage_of(account_id: String, payload: RateLimitStatusPayload) -> UsageInfo {
    let primary = match payload.rate_limit {
        Some(details) => details.primary_window,
        None => None,
    };
    let secondary = match payload.rate_limit {
        Some(details) => details.secondary_window,
        None => None,
    };
    UsageInfo {
        account_id,
        plan_type: Some(payload.plan_type),
        primary_used_percent: match primary {
            Some(window) => Some(window.used_percent),
            None => None,
        },
        primary_window_minutes: match primary {
            Some(window) => minutes(window),
            None => None,
        },
        primary_resets_at: match primary {
            Some(window) => window.reset_at,
            None => None,
        },
        secondary_used_percent: match secondary {
            Some(window) => Some(window.used_percent),
            None => None,
        },
        secondary_window_minutes: match secondary {
            Some(window) => minutes(window),
            None => None,
        },
        secondary_resets_at: match secondary {
            Some(window) => window.reset_at,
            None => None,
        },
        has_credits: match payload.credits {
            Some(credits) => Some(credits.has_credits),
            None => None,
        },
        unlimited_credits: match payload.credits {
            Some(credits) => Some(credits.unlimited),
            None => None,
        },
        credits_balance: match payload.credits {
            Some(credits) => credits.balance,
            None => None,
        },
        error: None,
    }
}

/// What a payload says of the usage of an account.
pub fn convert_payload_to_usage_info(account_id: &str, payload: RateLimitStatusPayload) -> (r:
    UsageInfo)
    ensures
        r.account_id@ == account_id@,
        r == usage_of(r.account_id, payload),
{
    let (primary, secondary) = extract_rate_limits(payload.rate_limit);
    let (has_credits, unlimited_credits, credits_balance) = match payload.credits {
        Some(credits) => (Some(credits.has_credits), Some(credits.unlimited), credits.balance),
        None => (None, None, None),
    };
    UsageInfo {
        account_id: account_id.to_string(),
        plan_type: Some(payload.plan_type),
        primary_used_percent: match &primary {
            Some(window) => Some(window.used_percent),
            None => None,
        },
        primary_window_minutes: match &primary {
            Some(window) => window_minutes(window),
            None => None,
        },
        primary_resets_at: match &primary {
            Some(window) => window.reset_at,
            None => None,
        },
        secondary_used_percent: match &secondary {
            Some(window) => Some(window.used_percent),
            None => None,
        },
        secondary_window_minutes: match &secondary {
            Some(window) => window_minutes(window),
            None => None,
        },
        secondary_resets_at: match &secondary {
            Some(window) => window.reset_at,
            None => None,
        },
        has_credits,
        unlimited_credits,
        credits_balance,
        error: None,
    }
}

// ---------------------------------------------------------------------------
// Asking for usage
// ---------------------------------------------------------------------------

/// How the usage of an account is found out
#[derive(Debug)]
pub enum UsageStep {
    /// It is known without asking.
    Known(UsageInfo),
    /// With ChatGPT tokens
    AskWithTokens,
    /// With a Codex access token
    AskWithAccessToken,
}

/// The usage of an account is found out by the step. There is none to be had with an
/// API key.
pub open spec fn is_usage_step(step: UsageStep, account: StoredAccount) -> bool {
    match account.auth_data {
        AuthData::ApiKey { .. } => {
            &&& step matches UsageStep::Known(usage)
            &&& usage.plan_type is Some && usage.plan_type->0@ == "api_key"@
            &&& usage.error is Some && usage.error->0@
                == "Usage info not available for API key accounts"@
            &&& usage == types::unknown_usage(account.id, usage.plan_type, usage.error)
        },
        AuthData::ChatGPT { .. } => step == UsageStep::AskWithTokens,
        AuthData::CodexAccessToken { .. } => step == UsageStep::AskWithAccessToken,
    }
}

/// How the usage of an account is found out. There is none to be had with an API
/// key.
pub fn get_account_usage(account: &StoredAccount) -> (r: UsageStep)
    ensures
        is_usage_step(r, *account),
{
    match &account.auth_data {
        AuthData::ApiKey { .. } => UsageStep::Known(
            UsageInfo {
                account_id: account.id.clone(),
                plan_type: Some("api_key".to_string()),
                primary_used_percent: None,
                primary_window_minutes: None,
                primary_resets_at: None,
                secondary_used_percent: None,
                secondary_window_minutes: None,
                secondary_resets_at: None,
                has_credits: None,
                unlimited_credits: None,
                credits_balance: None,
                error: Some("Usage info not available for API key accounts".to_string()),
            },
        ),
        AuthData::ChatGPT { .. } => UsageStep::AskWithTokens,
        AuthData::CodexAccessToken { .. } => UsageStep::AskWithAccessToken,
    }
}

/// The status of an answer to a request that was not authorized.
pub const UNAUTHORIZED: u16 = 401;

/// A request with ChatGPT tokens is made again, with new tokens.
pub open spec fn is_retried(status: u16, retried: bool) -> bool {
    status == UNAUTHORIZED && !retried
}

/// Whether a request with ChatGPT tokens is made again, with new tokens: once, where
/// the tokens were not accepted.
pub fn retries_with_new_tokens(status: u16, retried: bool) -> (r: bool)
    ensures
        r == is_retried(status, retried),
{
    status == UNAUTHORIZED && !retried
}

/// What is shown where the usage was refused with a status.
pub fn refused_usage(account_id: &str, status: &str) -> (r: UsageInfo)
    ensures
        r.account_id@ == account_id@,
        r.error is Some && r.error->0@ == "API error: "@ + status@,
        r == types::unknown_usage(r.account_id, None, r.error),
{
    UsageInfo::error(account_id.to_string(), text::joined("API error: ", status))
}

/// What is shown of the answer to a request for usage.
pub open spec fn is_shown_of(
    shown: Option<UsageInfo>,
    account_id: Seq<char>,
    success: bool,
    status: Seq<char>,
    payload: Option<RateLimitStatusPayload>,
) -> bool {
    if !success {
        shown matches Some(usage) && usage.account_id@ == account_id && usage.error is Some
            && usage.error->0@ == "API error: "@ + status && usage == types::unknown_usage(
            usage.account_id,
            None,
            usage.error,
        )
    } else {
        match payload {
            Some(payload) => shown matches Some(usage) && usage.account_id@ == account_id && usage
                == usage_of(usage.account_id, payload),
            None => shown is None,
        }
    }
}

/// What is shown of the answer to a request for usage, where `payload` is what could
/// be read of it; `None` where nothing could.
pub fn parse_usage_response(
    account_id: &str,
    success: bool,
    status: &str,
    payload: Option<RateLimitStatusPayload>,
) -> (r: Option<UsageInfo>)
    ensures
        is_shown_of(r, account_id@, success, status@, payload),
{
    if !success {
        return Some(refused_usage(account_id, status));
    }
    match payload {
        Some(payload) => Some(convert_payload_to_usage_info(account_id, payload)),
        None => None,
    }
}

/// How many accounts are asked for at the same time.
pub open spec fn concurrency(accounts: usize) -> usize {
    if accounts == 0 {
        1
    } else if accounts < 10 {
        accounts
    } else {
        10
    }
}

/// How many accounts are asked for at the same time.
pub fn usage_concurrency(accounts: usize) -> (r: usize)
    ensures
        r == concurrency(accounts),
{
    if accounts == 0 {
        1
    } else if accounts < 10 {
        accounts
    } else {
        10
    }
}

// ---------------------------------------------------------------------------
// Metadata
// ---------------------------------------------------------------------------

/// What the server says of an account
#[derive(Debug)]
pub struct ChatGptAccountMetadata {
    pub email: Option<String>,
    pub plan_type: Option<String>,
    pub subscription_expires_at: Option<Timestamp>,
}

/// An entry of the answer to a check of accounts
#[derive(Debug)]
pub struct AccountsCheckEntry {
    pub plan_type: Option<String>,
    pub expires_at: Option<Timestamp>,
}

/// The first entry under a key.
pub open spec fn entry_at(entries: Seq<(String, AccountsCheckEntry)>, key: Seq<char>) -> Option<
    AccountsCheckEntry,
>
    decreases entries.len(),
{
    if entries.len() == 0 {
        None
    } else if entries[0].0@ == key {
        Some(entries[0].1)
    } else {
        entry_at(entries.drop_first(), key)
    }
}

/// The entry for an account: the one under its identifier, or else the default one,
/// or else the first one.
pub open spec fn selected_entry(
    entries: Seq<(String, AccountsCheckEntry)>,
    account_id: Option<Seq<char>>,
) -> Option<AccountsCheckEntry> {
    let own = match account_id {
        Some(id) => entry_at(entries, id),
        None => None,
    };
    if own is Some {
        own
    } else if entry_at(entries, "default"@) is Some {
        entry_at(entries, "default"@)
    } else if entries.len() > 0 {
        Some(entries[0].1)
    } else {
        None
    }
}

fn find_entry<'a>(entries: &'a Vec<(String, AccountsCheckEntry)>, key: &str) -> (r: Option<
    &'a AccountsCheckEntry,
>)
    ensures
        match r {
            Some(entry) => entry_at(entries@, key@) == Some(*entry),
            None => entry_at(entries@, key@) is None,
        },
{
    let mut i: usize = 0;
    assert(entries@.skip(0) =~= entries@);
    while i < entries.len()
        invariant
            i <= entries@.len(),
            entry_at(entries@, key@) == entry_at(entries@.skip(i as int), key@),
        decreases entries@.len() - i,
    {
        assert(entries@.skip(i as int).drop_first() =~= entries@.skip(i + 1));
        if text::same(entries[i].0.as_str(), key) {
            return Some(&entries[i].1);
        }
        i = i + 1;
    }
    None
}

/// What the answer to a check of accounts says of an account.
pub open spec fn is_checked_metadata(
    metadata: Option<ChatGptAccountMetadata>,
    entries: Seq<(String, AccountsCheckEntry)>,
    account_id: Option<Seq<char>>,
) -> bool {
    match (selected_entry(entries, account_id), metadata) {
        (Some(entry), Some(metadata)) => {
            &&& metadata.email is None
            &&& metadata.plan_type == entry.plan_type
            &&& metadata.subscription_expires_at == entry.expires_at
        },
        (None, None) => true,
        _ => false,
    }
}

/// What the answer to a check of accounts says of an account; `None` where it has
/// no entry at all.
pub fn fetch_chatgpt_account_metadata(
    entries: &Vec<(String, AccountsCheckEntry)>,
    chatgpt_account_id: Option<&str>,
) -> (r: Option<ChatGptAccountMetadata>)
    ensures
        is_checked_metadata(r, entries@, text::opt_str(chatgpt_account_id)),
{
    let own = match chatgpt_account_id {
        Some(id) => find_entry(entries, id),
        None => None,
    };
    let entry = match own {
        Some(entry) => entry,
        None => match find_entry(entries, "default") {
            Some(entry) => entry,
            None => {
                if entries.len() == 0 {
                    return None;
                }
                &entries[0].1
            },
        },
    };
    Some(
        ChatGptAccountMetadata {
            email: None,
            plan_type: text::copy_opt(&entry.plan_type),
            subscription_expires_at: entry.expires_at,
        },
    )
}

/// What an answer without entries is answered with.
pub fn no_entry_message() -> (r: String)
    ensures
        r@ == "Accounts check response did not include an account entry"@,
{
    "Accounts check response did not include an account entry".to_string()
}

/// What a refused check of accounts is answered with.
pub fn accounts_check_failure(status: &str, body: &str) -> (r: String)
    ensures
        r@ == "Accounts check API error: "@ + status@ + " - "@ + body@,
{
    let mut message = text::joined("Accounts check API error: ", status);
    message.append(" - ");
    message.append(body);
    message
}

/// The metadata of an account with an access token: what the claims of the token
/// say, or else what is stored.
pub open spec fn is_access_metadata(
    metadata: ChatGptAccountMetadata,
    account: StoredAccount,
    claims: AccessClaims,
) -> bool {
    &&& text::opt_text(metadata.email) == auth_file::either(
        claims.email,
        text::opt_text(account.email),
    )
    &&& text::opt_text(metadata.plan_type) == auth_file::either(
        claims.plan_type,
        text::opt_text(account.plan_type),
    )
    &&& metadata.subscription_expires_at == account.subscription_expires_at
}

/// The metadata of an account with an access token, given the claims of the token.
pub fn access_metadata(account: &StoredAccount, claims: CodexAccessTokenClaims) -> (r:
    ChatGptAccountMetadata)
    ensures
        is_access_metadata(r, *account, claims@),
{
    ChatGptAccountMetadata {
        email: match claims.email {
            Some(email) => Some(email),
            None => text::copy_opt(&account.email),
        },
        plan_type: match claims.plan_type {
            Some(plan_type) => Some(plan_type),
            None => text::copy_opt(&account.plan_type),
        },
        subscription_expires_at: account.subscription_expires_at,
    }
}

/// The metadata of an account with an access token.
pub fn fetch_codex_access_token_account_metadata(account: &StoredAccount) -> (r: Result<
    ChatGptAccountMetadata,
    RequestError,
>)
    ensures
        match account.auth_data {
            AuthData::CodexAccessToken { token, .. } => r matches Ok(metadata)
                && is_access_metadata(metadata, *account, claims::access_token_claims(token@)),
            _ => r == Err::<ChatGptAccountMetadata, RequestError>(RequestError::NotAccessToken),
        },
{
    match &account.auth_data {
        AuthData::CodexAccessToken { token, .. } => {
            let claims = claims::parse_codex_access_token_claims(token.as_str());
            Ok(access_metadata(account, claims))
        },
        _ => Err(RequestError::NotAccessToken),
    }
}

/// How the metadata of an account is found out
#[derive(Debug, Clone, Copy, PartialEq, Eq, Structural)]
pub enum MetadataStep {
    /// There is none beyond what is stored.
    Keep,
    /// New tokens, then a check of accounts
    RefreshAndCheck,
    /// The claims of the access token
    ReadClaims,
}

/// How the metadata of an account is found out.
pub open spec fn metadata_step(account: StoredAccount) -> MetadataStep {
    match account.auth_data {
        AuthData::ApiKey { .. } => MetadataStep::Keep,
        AuthData::ChatGPT { .. } => MetadataStep::RefreshAndCheck,
        AuthData::CodexAccessToken { .. } => MetadataStep::ReadClaims,
    }
}

/// How the metadata of an account is found out.
pub fn refresh_account_metadata(account: &StoredAccount) -> (r: MetadataStep)
    ensures
        r == metadata_step(*account),
{
    match &account.auth_data {
        AuthData::ApiKey { .. } => MetadataStep::Keep,
        AuthData::ChatGPT { .. } => MetadataStep::RefreshAndCheck,
        AuthData::CodexAccessToken { .. } => MetadataStep::ReadClaims,
    }
}

/// The store after metadata of an account was to be stored.
pub open spec fn is_metadata_stored(
    before: StoreView,
    after: StoreView,
    account_id: Seq<char>,
    metadata: ChatGptAccountMetadata,
    r: Result<StoredAccount, StoreError>,
) -> bool {
    match r {
        Ok(account) => {
            &&& store::position(before.accounts, account_id) matches Some(at)
            &&& account == store::revised(
                before.accounts[at],
                None,
                metadata.email,
                metadata.plan_type,
                Some(metadata.subscription_expires_at),
            )
            &&& after == (StoreView {
                accounts: before.accounts.update(at, account),
                ..before
            })
        },
        Err(error) => {
            &&& store::position(before.accounts, account_id) is None
            &&& error == StoreError::NotFound
            &&& after == before
        },
    }
}

/// Stores the metadata that was found out about an account: the name stays, the
/// email and the plan change where they are given, and the end of the subscription
/// is always what was found, also where that is none.
pub fn store_account_metadata(
    accounts: &mut AccountsStore,
    account_id: &str,
    metadata: ChatGptAccountMetadata,
) -> (r: Result<StoredAccount, StoreError>)
    ensures
        is_metadata_stored(old(accounts)@, final(accounts)@, account_id@, metadata, r),
{
    store::update_account_metadata(
        accounts,
        account_id,
        None,
        metadata.email,
        metadata.plan_type,
        Some(metadata.subscription_expires_at),
    )
}

// ---------------------------------------------------------------------------
// Warming up
// ---------------------------------------------------------------------------

/// How an account is warmed up
#[derive(Debug)]
pub enum WarmupStep {
    WithApiKey(String),
    WithTokens,
    /// Not at all
    Skip,
}

/// How an account is warmed up.
pub open spec fn warmup_step(account: StoredAccount) -> WarmupStep {
    match account.auth_data {
        AuthData::ApiKey { key } => WarmupStep::WithApiKey(key),
        AuthData::ChatGPT { .. } => WarmupStep::WithTokens,
        AuthData::CodexAccessToken { .. } => WarmupStep::Skip,
    }
}

/// How an account is warmed up.
pub fn warmup_account(account: &StoredAccount) -> (r: WarmupStep)
    ensures
        r == warmup_step(*account),
{
    match &account.auth_data {
        AuthData::ApiKey { key } => WarmupStep::WithApiKey(key.clone()),
        AuthData::ChatGPT { .. } => WarmupStep::WithTokens,
        AuthData::CodexAccessToken { .. } => WarmupStep::Skip,
    }
}

/// The accounts whose request failed, in the order of the results.
pub open spec fn failed_ids(results: Seq<(String, bool)>) -> Seq<Seq<char>>
    decreases results.len(),
{
    if results.len() == 0 {
        Seq::empty()
    } else {
        let before = failed_ids(results.drop_last());
        if results.last().1 {
            before.push(results.last().0@)
        } else {
            before
        }
    }
}

/// What came of warming up all accounts.
pub open spec fn is_warmup_summary(
    summary: WarmupSummary,
    total_accounts: usize,
    results: Seq<(String, bool)>,
) -> bool {
    &&& summary.total_accounts == total_accounts
    &&& text::texts(summary.failed_account_ids@) == failed_ids(results)
    &&& summary.warmed_accounts == (if total_accounts >= failed_ids(results).len() {
        total_accounts - failed_ids(results).len()
    } else {
        0
    })
}

/// What came of warming up all accounts, given for each of them whether its request
/// failed.
pub fn warmup_all_accounts(total_accounts: usize, results: Vec<(String, bool)>) -> (r:
    WarmupSummary)
    ensures
        is_warmup_summary(r, total_accounts, results@),
{
    let mut failed: Vec<String> = Vec::new();
    let mut i: usize = 0;
    assert(text::texts(failed@) =~= failed_ids(results@.take(0)));
    while i < results.len()
        invariant
            i <= results@.len(),
            text::texts(failed@) == failed_ids(results@.take(i as int)),
        decreases results@.len() - i,
    {
        assert(results@.take(i + 1).drop_last() =~= results@.take(i as int));
        if results[i].1 {
            let id = results[i].0.clone();
            proof {
                words::lemma_texts_push(failed@, id);
            }
            failed.push(id);
        }
        i = i + 1;
    }
    assert(results@.take(results@.len() as int) =~= results@);
    let warmed_accounts: usize = if total_accounts >= failed.len() {
        total_accounts - failed.len()
    } else {
        0
    };
    WarmupSummary { total_accounts, warmed_accounts, failed_account_ids: failed }
}

/// What a failed request to warm up is answered with.
pub fn warmup_failure(source: &str, status: &str) -> (r: String)
    ensures
        r@ == source@ + " warm-up failed with status "@ + status@,
{
    let mut message = text::joined(source, " warm-up failed with status ");
    message.append(status);
    message
}

// ---------------------------------------------------------------------------
// Laws
// ---------------------------------------------------------------------------

/// The usage that is shown holds both windows of the payload, each under its own
/// name: the share that is used, the end, and the length in minutes. A length in
/// seconds is rounded up to minutes.
pub proof fn law_usage_shows_both_windows(account_id: String, payload: RateLimitStatusPayload)
    ensures
        ({
            let usage = usage_of(account_id, payload);
            let primary = match payload.rate_limit {
                Some(details) => details.primary_window,
                None => None,
            };
            let secondary = match payload.rate_limit {
                Some(details) => details.secondary_window,
                None => None,
            };
            &&& primary matches Some(window) ==> {
                &&& usage.primary_used_percent == Some(window.used_percent)
                &&& usage.primary_resets_at == window.reset_at
                &&& window.window_duration_mins is Some ==> usage.primary_window_minutes
                    == window.window_duration_mins
                &&& window.window_duration_mins is None && window.limit_window_seconds is None
                    ==> usage.primary_window_minutes is None
                &&& window.window_duration_mins is None ==> (
                window.limit_window_seconds matches Some(seconds) ==> (seconds >= 0 ==> (
                usage.primary_window_minutes matches Some(m) && m * 60 >= seconds && m * 60 < seconds
                    + 60)))
            }
            &&& primary is None ==> usage.primary_used_percent is None
                && usage.primary_resets_at is None && usage.primary_window_minutes is None
            &&& secondary matches Some(window) ==> {
                &&& usage.secondary_used_percent == Some(window.used_percent)
                &&& usage.secondary_resets_at == window.reset_at
                &&& window.window_duration_mins is Some ==> usage.secondary_window_minutes
                    == window.window_duration_mins
                &&& window.window_duration_mins is None && window.limit_window_seconds is None
                    ==> usage.secondary_window_minutes is None
                &&& window.window_duration_mins is None ==> (
                window.limit_window_seconds matches Some(seconds) ==> (seconds >= 0 ==> (
                usage.secondary_window_minutes matches Some(m) && m * 60 >= seconds && m * 60 < seconds
                    + 60)))
            }
            &&& secondary is None ==> usage.secondary_used_percent is None
                && usage.secondary_resets_at is None && usage.secondary_window_minutes is None
        }),
{
}

/// The usage that is shown names the account and its plan, holds the credits where the
/// payload has them, and comes without an error.
pub proof fn law_usage_shows_plan_and_credits(account_id: String, payload: RateLimitStatusPayload)
    ensures
        ({
            let usage = usage_of(account_id, payload);
            &&& usage.account_id == account_id
            &&& usage.plan_type == Some(payload.plan_type)
            &&& usage.error is None
            &&& payload.credits matches Some(credits) ==> usage.has_credits == Some(
                credits.has_credits,
            ) && usage.unlimited_credits == Some(credits.unlimited) && usage.credits_balance
                == credits.balance
            &&& payload.credits is None ==> usage.has_credits is None
                && usage.unlimited_credits is None && usage.credits_balance is None
        }),
{
}

/// An answer that is no success is shown as an error with its status, and with no
/// numbers; a success that can be read is shown as it is, without an error.
pub proof fn law_refused_usage_is_an_error(
    shown: Option<UsageInfo>,
    account_id: Seq<char>,
    success: bool,
    status: Seq<char>,
    payload: Option<RateLimitStatusPayload>,
)
    requires
        is_shown_of(shown, account_id, success, status, payload),
    ensures
        shown is None <==> success && payload is None,
        shown matches Some(usage) ==> {
            &&& usage.account_id@ == account_id
            &&& usage.error is None <==> success
            &&& usage.error matches Some(error) ==> {
                &&& text::ends_with_of(error@, status)
                &&& usage.plan_type is None
                &&& usage.primary_used_percent is None
                &&& usage.primary_window_minutes is None
                &&& usage.primary_resets_at is None
                &&& usage.secondary_used_percent is None
                &&& usage.secondary_window_minutes is None
                &&& usage.secondary_resets_at is None
                &&& usage.has_credits is None
                &&& usage.unlimited_credits is None
                &&& usage.credits_balance is None
            }
        },
{
    if !success {
        let error = shown->0.error->0@;
        assert(error.subrange(error.len() - status.len(), error.len() as int) =~= status);
    }
}

/// Usage is asked for with the credentials that an account has; with an API key there
/// is none, and what is shown says so.
pub proof fn law_usage_is_asked_for_with_credentials(step: UsageStep, account: StoredAccount)
    requires
        is_usage_step(step, account),
    ensures
        step is AskWithTokens <==> account.auth_data is ChatGPT,
        step is AskWithAccessToken <==> account.auth_data is CodexAccessToken,
        step is Known <==> account.auth_data is ApiKey,
        step matches UsageStep::Known(usage) ==> usage.account_id == account.id
            && usage.error is Some && usage.primary_used_percent is None
            && usage.secondary_used_percent is None,
{
}

/// Only an answer that the tokens are not accepted makes for another request with new
/// ones, and only once.
pub proof fn law_one_retry_with_new_tokens(status: u16, retried: bool)
    ensures
        is_retried(status, retried) ==> status == 401,
        !is_retried(status, true),
        is_retried(401, false),
{
}

/// At least one account is asked for at a time, never more than ten, and never more than
/// there are.
pub proof fn law_few_requests_at_a_time(accounts: usize)
    ensures
        1 <= concurrency(accounts) <= 10,
        accounts > 0 ==> concurrency(accounts) <= accounts,
        accounts > 0 ==> concurrency(accounts) == accounts || concurrency(accounts) == 10,
{
}

proof fn lemma_entry_at(entries: Seq<(String, AccountsCheckEntry)>, key: Seq<char>, i: int)
    requires
        0 <= i < entries.len(),
        entries[i].0@ == key,
        forall|j: int| 0 <= j < i ==> (#[trigger] entries[j]).0@ != key,
    ensures
        entry_at(entries, key) == Some(entries[i].1),
    decreases entries.len(),
{
    if i > 0 {
        assert(entries[0].0@ != key);
        let rest = entries.drop_first();
        assert forall|j: int| 0 <= j < i - 1 implies (#[trigger] rest[j]).0@ != key by {
            assert(rest[j] == entries[j + 1]);
        }
        lemma_entry_at(rest, key, i - 1);
    }
}

proof fn lemma_no_entry_at(entries: Seq<(String, AccountsCheckEntry)>, key: Seq<char>)
    requires
        forall|j: int| 0 <= j < entries.len() ==> (#[trigger] entries[j]).0@ != key,
    ensures
        entry_at(entries, key) is None,
    decreases entries.len(),
{
    if entries.len() > 0 {
        assert(entries[0].0@ != key);
        let rest = entries.drop_first();
        assert forall|j: int| 0 <= j < rest.len() implies (#[trigger] rest[j]).0@ != key by {
            assert(rest[j] == entries[j + 1]);
        }
        lemma_no_entry_at(rest, key);
    }
}

/// The metadata of an account is that of the entry under its own identifier.
pub proof fn law_own_entry_is_taken(
    metadata: Option<ChatGptAccountMetadata>,
    entries: Seq<(String, AccountsCheckEntry)>,
    id: Seq<char>,
    i: int,
)
    requires
        is_checked_metadata(metadata, entries, Some(id)),
        0 <= i < entries.len(),
        entries[i].0@ == id,
        forall|j: int| 0 <= j < i ==> (#[trigger] entries[j]).0@ != id,
    ensures
        metadata matches Some(found) && found.email is None && found.plan_type
            == entries[i].1.plan_type && found.subscription_expires_at == entries[i].1.expires_at,
{
    lemma_entry_at(entries, id, i);
}

/// Without an entry of its own, an account has the default entry, and without that one
/// the first; there is no metadata only where there is no entry.
pub proof fn law_other_entries_are_taken(
    metadata: Option<ChatGptAccountMetadata>,
    entries: Seq<(String, AccountsCheckEntry)>,
    id: Option<Seq<char>>,
    i: int,
)
    requires
        is_checked_metadata(metadata, entries, id),
        forall|j: int| 0 <= j < entries.len() ==> Some((#[trigger] entries[j]).0@) != id,
        0 <= i < entries.len(),
        entries[i].0@ == "default"@ || i == 0 && (forall|j: int|
            0 <= j < entries.len() ==> (#[trigger] entries[j]).0@ != "default"@),
        forall|j: int| 0 <= j < i ==> (#[trigger] entries[j]).0@ != "default"@,
    ensures
        metadata matches Some(found) && found.email is None && found.plan_type
            == entries[i].1.plan_type && found.subscription_expires_at == entries[i].1.expires_at,
{
    if id is Some {
        assert forall|j: int| 0 <= j < entries.len() implies (#[trigger] entries[j]).0@
            != id->0 by {
            assert(Some(entries[j].0@) != id);
        }
        lemma_no_entry_at(entries, id->0);
    }
    if entries[i].0@ == "default"@ {
        lemma_entry_at(entries, "default"@, i);
    } else {
        lemma_no_entry_at(entries, "default"@);
    }
}

/// There is metadata exactly where there is an entry.
pub proof fn law_no_entry_no_metadata(
    metadata: Option<ChatGptAccountMetadata>,
    entries: Seq<(String, AccountsCheckEntry)>,
    id: Option<Seq<char>>,
)
    requires
        is_checked_metadata(metadata, entries, id),
    ensures
        metadata is None <==> entries.len() == 0,
{
}

/// The claims of an access token come before what is stored; what they do not say is
/// kept, and so is the end of the subscription.
pub proof fn law_claims_come_first(
    metadata: ChatGptAccountMetadata,
    account: StoredAccount,
    claims: AccessClaims,
)
    requires
        is_access_metadata(metadata, account, claims),
    ensures
        claims.email is Some ==> text::opt_text(metadata.email) == claims.email,
        claims.email is None ==> text::opt_text(metadata.email) == text::opt_text(account.email),
        claims.plan_type is Some ==> text::opt_text(metadata.plan_type) == claims.plan_type,
        claims.plan_type is None ==> text::opt_text(metadata.plan_type) == text::opt_text(
            account.plan_type,
        ),
        metadata.subscription_expires_at == account.subscription_expires_at,
{
}

/// Metadata is looked up where there is some to be found: on the server for ChatGPT
/// tokens, in the token itself for an access token.
pub proof fn law_metadata_is_looked_up(account: StoredAccount)
    ensures
        metadata_step(account) is Keep <==> account.auth_data is ApiKey,
        metadata_step(account) is RefreshAndCheck <==> account.auth_data is ChatGPT,
        metadata_step(account) is ReadClaims <==> account.auth_data is CodexAccessToken,
{
}

/// Accounts are warmed up with their own credentials; those with an access token are not
/// warmed up.
pub proof fn law_warm_up_uses_own_credentials(account: StoredAccount)
    ensures
        warmup_step(account) is Skip <==> account.auth_data is CodexAccessToken,
        warmup_step(account) is WithTokens <==> account.auth_data is ChatGPT,
        warmup_step(account) is WithApiKey <==> account.auth_data is ApiKey,
        warmup_step(account) matches WarmupStep::WithApiKey(key) ==> key
            == account.auth_data->ApiKey_key,
{
}

proof fn lemma_failed_ids(results: Seq<(String, bool)>)
    ensures
        failed_ids(results) == results.filter(|result: (String, bool)| result.1).map_values(
            |result: (String, bool)| result.0@,
        ),
    decreases results.len(),
{
    reveal(Seq::filter);
    let failed = |result: (String, bool)| result.1;
    let id = |result: (String, bool)| result.0@;
    if results.len() > 0 {
        lemma_failed_ids(results.drop_last());
        let before = results.drop_last().filter(failed);
        assert(before.push(results.last()).map_values(id) =~= before.map_values(id).push(
            results.last().0@,
        ));
    } else {
        assert(results.filter(failed).map_values(id) =~= Seq::<Seq<char>>::empty());
    }
}

/// The accounts that failed are told in the order of the results, each as often as it
/// failed, and no other account; the rest were warmed up.
pub proof fn law_failed_warm_ups_are_told(
    summary: WarmupSummary,
    total_accounts: usize,
    results: Seq<(String, bool)>,
)
    requires
        is_warmup_summary(summary, total_accounts, results),
        results.len() == total_accounts,
    ensures
        text::texts(summary.failed_account_ids@) == results.filter(
            |result: (String, bool)| result.1,
        ).map_values(|result: (String, bool)| result.0@),
        summary.total_accounts == total_accounts,
        summary.warmed_accounts + summary.failed_account_ids@.len() == total_accounts,
{
    lemma_failed_ids(results);
    lemma_few_failures(results);
    assert(text::texts(summary.failed_account_ids@).len() == summary.failed_account_ids@.len());
}

proof fn lemma_few_failures(results: Seq<(String, bool)>)
    ensures
        failed_ids(results).len() <= results.len(),
    decreases results.len(),
{
    if results.len() > 0 {
        lemma_few_failures(results.drop_last());
    }
}

/// The first window of a rate limit is the primary one, the second the secondary one, and
/// without a rate limit there is neither.
pub proof fn law_windows_keep_their_places(rate_limit: Option<RateLimitDetails>)
    ensures
        ({
            let (first, second) = windows_of(rate_limit);
            &&& rate_limit matches Some(details) ==> first == details.primary_window && second
                == details.secondary_window
            &&& rate_limit is None ==> first is None && second is None
        }),
{
}

/// Metadata is stored exactly where the account is there. Its name and its credentials
/// stay, the email and the plan change where they are given, and the end of the
/// subscription is what was found out. Other accounts do not change.
pub proof fn law_metadata_goes_to_its_account(
    before: StoreView,
    after: StoreView,
    account_id: Seq<char>,
    metadata: ChatGptAccountMetadata,
    r: Result<StoredAccount, StoreError>,
    i: int,
)
    requires
        is_metadata_stored(before, after, account_id, metadata, r),
        store::distinct_ids(before.accounts),
        0 <= i < before.accounts.len(),
    ensures
        r is Err ==> after == before,
        before.accounts[i].id@ == account_id ==> r is Ok,
        r is Ok ==> {
            &&& after.accounts.len() == before.accounts.len()
            &&& after.active == before.active
            &&& after.masked == before.masked
            &&& before.accounts[i].id@ != account_id ==> after.accounts[i] == before.accounts[i]
            &&& before.accounts[i].id@ == account_id ==> {
                let old_account = before.accounts[i];
                let new_account = after.accounts[i];
                &&& new_account.id == old_account.id
                &&& new_account.name == old_account.name
                &&& new_account.auth_mode == old_account.auth_mode
                &&& new_account.auth_data == old_account.auth_data
                &&& new_account.created_at == old_account.created_at
                &&& new_account.last_used_at == old_account.last_used_at
                &&& metadata.email is Some ==> new_account.email == metadata.email
                &&& metadata.email is None ==> new_account.email == old_account.email
                &&& metadata.plan_type is Some ==> new_account.plan_type == metadata.plan_type
                &&& metadata.plan_type is None ==> new_account.plan_type == old_account.plan_type
                &&& new_account.subscription_expires_at == metadata.subscription_expires_at
            }
        },
{
    store::lemma_position(before.accounts, account_id);
    if before.accounts[i].id@ == account_id {
        let at = store::position(before.accounts, account_id)->0;
        if at < i {
            assert(before.accounts[at].id@ != before.accounts[i].id@);
        }
        assert(at == i);
    }
}

} // verus!
