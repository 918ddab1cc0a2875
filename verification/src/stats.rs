//! Statistics on the usage of an account.

use vstd::prelude::*;

use crate::clock;
use crate::clock::Timestamp;
use crate::headers;
use crate::requests;
use crate::requests::RequestError;
use crate::text;
use crate::types::AuthData;
use crate::types::AuthMode;
use crate::types::Percent;
use crate::types::StoredAccount;

verus! {

pub const CHATGPT_PROFILE_USAGE_URL: &'static str =
    "https://chatgpt.com/backend-api/wham/profiles/me";

pub const CHATGPT_RESET_CREDITS_URL: &'static str =
    "https://chatgpt.com/backend-api/wham/rate-limit-reset-credits";

/// Where statistics come from, as it is shown.
pub const STATS_SOURCE: &'static str = "Codex usage stats via ChatGPT backend";

// ---------------------------------------------------------------------------
// What is shown
// ---------------------------------------------------------------------------

#[derive(Debug)]
pub struct AccountUsageStats {
    pub account_id: String,
    pub available: bool,
    pub source: String,
    pub generated_at: Option<String>,
    pub stats_as_of: Option<String>,
    pub summary: AccountUsageSummary,
    pub activity: AccountUsageActivity,
    pub daily: Vec<AccountDailyUsage>,
    pub top_invocations: Vec<AccountTopInvocation>,
    pub reset_credits: Option<AccountResetCredits>,
    pub error: Option<String>,
}

#[derive(Debug, Clone, Copy, PartialEq, Eq, Structural)]
pub struct AccountUsageSummary {
    pub lifetime_tokens: Option<i64>,
    pub peak_daily_tokens: Option<i64>,
    pub longest_task_seconds: Option<i64>,
    pub current_streak_days: Option<i64>,
    pub longest_streak_days: Option<i64>,
}

#[derive(Debug)]
pub struct AccountUsageActivity {
    pub fast_mode_percent: Option<Percent>,
    pub reasoning_effort: Option<String>,
    pub reasoning_effort_percent: Option<Percent>,
    pub skills_explored: Option<i64>,
    pub total_skills_used: Option<i64>,
    pub total_threads: Option<i64>,
}

#[derive(Debug)]
pub struct AccountDailyUsage {
    pub date: String,
    pub tokens: i64,
}

#[derive(Debug)]
pub struct AccountTopInvocation {
    pub kind: String,
    pub display_name: String,
    pub usage_count: i64,
    pub plugin_id: Option<String>,
    pub plugin_name: Option<String>,
    pub skill_id: Option<String>,
    pub skill_name: Option<String>,
}

#[derive(Debug)]
pub struct AccountResetCredits {
    pub available_count: i64,
    pub next_expires_at: Option<String>,
    pub credits: Vec<AccountResetCredit>,
}

#[derive(Debug)]
pub struct AccountResetCredit {
    pub id: String,
    pub reset_type: String,
    pub status: String,
    pub granted_at: Option<String>,
    pub expires_at: Option<String>,
    pub redeem_started_at: Option<String>,
    pub redeemed_at: Option<String>,
    pub title: Option<String>,
    pub description: Option<String>,
}

pub open spec fn no_summary() -> AccountUsageSummary {
    AccountUsageSummary {
        lifetime_tokens: None,
        peak_daily_tokens: None,
        longest_task_seconds: None,
        current_streak_days: None,
        longest_streak_days: None,
    }
}

impl Default for AccountUsageSummary {
    fn default() -> (r: Self)
        ensures
            r == no_summary(),
    {
        AccountUsageSummary {
            lifetime_tokens: None,
            peak_daily_tokens: None,
            longest_task_seconds: None,
            current_streak_days: None,
            longest_streak_days: None,
        }
    }
}

pub open spec fn no_activity() -> AccountUsageActivity {
    AccountUsageActivity {
        fast_mode_percent: None,
        reasoning_effort: None,
        reasoning_effort_percent: None,
        skills_explored: None,
        total_skills_used: None,
        total_threads: None,
    }
}

impl Default for AccountUsageActivity {
    fn default() -> (r: Self)
        ensures
            r == no_activity(),
    {
        AccountUsageActivity {
            fast_mode_percent: None,
            reasoning_effort: None,
            reasoning_effort_percent: None,
            skills_explored: None,
            total_skills_used: None,
            total_threads: None,
        }
    }
}

// ---------------------------------------------------------------------------
// What the server sends
// ---------------------------------------------------------------------------

#[derive(Debug)]
pub struct ProfileUsageResponse {
    pub stats: ProfileUsageStats,
    pub metadata: ProfileUsageMetadata,
}

#[derive(Debug)]
pub struct ProfileUsageStats {
    pub lifetime_tokens: Option<i64>,
    pub peak_daily_tokens: Option<i64>,
    pub longest_running_turn_sec: Option<i64>,
    pub current_streak_days: Option<i64>,
    pub longest_streak_days: Option<i64>,
    pub daily_usage_buckets: Option<Vec<ProfileDailyUsageBucket>>,
    pub top_invocations: Option<Vec<ProfileTopInvocation>>,
    pub fast_mode_usage_percentage: Option<Percent>,
    pub most_used_reasoning_effort: Option<String>,
    pub most_used_reasoning_effort_percentage: Option<Percent>,
    pub unique_skills_used: Option<i64>,
    pub total_skills_used: Option<i64>,
    pub total_threads: Option<i64>,
}

#[derive(Debug)]
pub struct ProfileDailyUsageBucket {
    pub start_date: String,
    pub tokens: i64,
}

#[derive(Debug)]
pub struct ProfileTopInvocation {
    pub kind: Option<String>,
    pub plugin_id: Option<String>,
    pub plugin_name: Option<String>,
    pub skill_id: Option<String>,
    pub skill_name: Option<String>,
    pub usage_count: Option<i64>,
}

#[derive(Debug)]
pub struct ProfileUsageMetadata {
    pub stats_as_of: Option<String>,
    pub generated_at: Option<String>,
    pub stats_error: Option<String>,
}

#[derive(Debug)]
pub struct ResetCreditsResponse {
    pub credits: Vec<ResetCredit>,
    pub available_count: i64,
}

#[derive(Debug)]
pub struct ResetCredit {
    pub id: String,
    pub reset_type: String,
    pub status: String,
    pub granted_at: Option<String>,
    pub expires_at: Option<String>,
    pub redeem_started_at: Option<String>,
    pub redeemed_at: Option<String>,
    pub title: Option<String>,
    pub description: Option<String>,
}

// ---------------------------------------------------------------------------
// Profile statistics
// ---------------------------------------------------------------------------

/// The error that the server sends along, unless it is empty.
pub open spec fn sent_error(metadata: ProfileUsageMetadata) -> Option<String> {
    match metadata.stats_error {
        Some(error) if error@.len() > 0 => Some(error),
        _ => None,
    }
}

/// What is shown of an invocation. It goes by the name of its skill, or else that of
/// its plugin.
pub open spec fn is_shown_invocation(
    shown: AccountTopInvocation,
    sent: ProfileTopInvocation,
) -> bool {
    &&& shown.kind@ == (match sent.kind {
        Some(kind) => kind@,
        None => "unknown"@,
    })
    &&& shown.display_name@ == (match (sent.skill_name, sent.plugin_name) {
        (Some(name), _) => name@,
        (None, Some(name)) => name@,
        (None, None) => "Unknown"@,
    })
    &&& shown.usage_count == (match sent.usage_count {
        Some(count) => count,
        None => 0,
    })
    &&& shown.plugin_id == sent.plugin_id
    &&& shown.plugin_name == sent.plugin_name
    &&& shown.skill_id == sent.skill_id
    &&& shown.skill_name == sent.skill_name
}

/// What is shown of an invocation.
pub fn map_top_invocation(invocation: &ProfileTopInvocation) -> (r: AccountTopInvocation)
    ensures
        is_shown_invocation(r, *invocation),
{
    let kind = match &invocation.kind {
        Some(kind) => kind.clone(),
        None => "unknown".to_string(),
    };
    let display_name = match (&invocation.skill_name, &invocation.plugin_name) {
        (Some(name), _) => name.clone(),
        (None, Some(name)) => name.clone(),
        (None, None) => "Unknown".to_string(),
    };
    AccountTopInvocation {
        kind,
        display_name,
        usage_count: match invocation.usage_count {
            Some(count) => count,
            None => 0,
        },
        plugin_id: text::copy_opt(&invocation.plugin_id),
        plugin_name: text::copy_opt(&invocation.plugin_name),
        skill_id: text::copy_opt(&invocation.skill_id),
        skill_name: text::copy_opt(&invocation.skill_name),
    }
}

/// The days that the server sends; none where it does not send them.
pub open spec fn sent_days(stats: ProfileUsageStats) -> Seq<ProfileDailyUsageBucket> {
    match stats.daily_usage_buckets {
        Some(buckets) => buckets@,
        None => Seq::empty(),
    }
}

/// The invocations that the server sends; none where it does not send them.
pub open spec fn sent_invocations(stats: ProfileUsageStats) -> Seq<ProfileTopInvocation> {
    match stats.top_invocations {
        Some(invocations) => invocations@,
        None => Seq::empty(),
    }
}

fn map_days(buckets: &Vec<ProfileDailyUsageBucket>) -> (r: Vec<AccountDailyUsage>)
    ensures
        r@ == buckets@.map_values(
            |bucket: ProfileDailyUsageBucket|
                AccountDailyUsage { date: bucket.start_date, tokens: bucket.tokens },
        ),
{
    let ghost all = buckets@.map_values(
        |bucket: ProfileDailyUsageBucket|
            AccountDailyUsage { date: bucket.start_date, tokens: bucket.tokens },
    );
    let mut r: Vec<AccountDailyUsage> = Vec::new();
    let mut i: usize = 0;
    while i < buckets.len()
        invariant
            all == buckets@.map_values(
                |bucket: ProfileDailyUsageBucket|
                    AccountDailyUsage { date: bucket.start_date, tokens: bucket.tokens },
            ),
            i <= buckets@.len(),
            r@ == all.take(i as int),
        decreases buckets@.len() - i,
    {
        r.push(
            AccountDailyUsage { date: buckets[i].start_date.clone(), tokens: buckets[i].tokens },
        );
        i = i + 1;
        assert(r@ =~= all.take(i as int));
    }
    assert(all.take(all.len() as int) =~= all);
    r
}

fn map_invocations(invocations: &Vec<ProfileTopInvocation>) -> (r: Vec<AccountTopInvocation>)
    ensures
        r@.len() == invocations@.len(),
        forall|i: int|
            0 <= i < r@.len() ==> is_shown_invocation(#[trigger] r@[i], invocations@[i]),
{
    let mut r: Vec<AccountTopInvocation> = Vec::new();
    let mut i: usize = 0;
    while i < invocations.len()
        invariant
            i <= invocations@.len(),
            r@.len() == i,
            forall|k: int| 0 <= k < i ==> is_shown_invocation(#[trigger] r@[k], invocations@[k]),
        decreases invocations@.len() - i,
    {
        r.push(map_top_invocation(&invocations[i]));
        i = i + 1;
    }
    r
}

/// What is shown of the statistics that the server sends.
pub open spec fn is_shown_profile(
    shown: AccountUsageStats,
    account_id: Seq<char>,
    sent: ProfileUsageResponse,
) -> bool {
    let stats = sent.stats;
    &&& shown.account_id@ == account_id
    &&& shown.error == sent_error(sent.metadata)
    &&& shown.available == (sent_error(sent.metadata) is None)
    &&& shown.source@ == STATS_SOURCE@
    &&& shown.generated_at == sent.metadata.generated_at
    &&& shown.stats_as_of == sent.metadata.stats_as_of
    &&& shown.summary == (AccountUsageSummary {
        lifetime_tokens: stats.lifetime_tokens,
        peak_daily_tokens: stats.peak_daily_tokens,
        longest_task_seconds: stats.longest_running_turn_sec,
        current_streak_days: stats.current_streak_days,
        longest_streak_days: stats.longest_streak_days,
    })
    &&& shown.activity == (AccountUsageActivity {
        fast_mode_percent: stats.fast_mode_usage_percentage,
        reasoning_effort: stats.most_used_reasoning_effort,
        reasoning_effort_percent: stats.most_used_reasoning_effort_percentage,
        skills_explored: stats.unique_skills_used,
        total_skills_used: stats.total_skills_used,
        total_threads: stats.total_threads,
    })
    &&& shown.daily@ == sent_days(stats).map_values(
        |bucket: ProfileDailyUsageBucket|
            AccountDailyUsage { date: bucket.start_date, tokens: bucket.tokens },
    )
    &&& shown.top_invocations@.len() == sent_invocations(stats).len()
    &&& forall|i: int|
        0 <= i < shown.top_invocations@.len() ==> is_shown_invocation(
            #[trigger] shown.top_invocations@[i],
            sent_invocations(stats)[i],
        )
    &&& shown.reset_credits is None
}

/// What is shown of the statistics that the server sends.
pub fn map_profile_usage(account_id: &str, payload: ProfileUsageResponse) -> (r: AccountUsageStats)
    ensures
        is_shown_profile(r, account_id@, payload),
{
    let stats_error = match payload.metadata.stats_error {
        Some(error) => {
            if error.as_str().is_empty() {
                None
            } else {
                Some(error)
            }
        },
        None => None,
    };
    let available = stats_error.is_none();
    let stats = payload.stats;
    let daily = match &stats.daily_usage_buckets {
        Some(buckets) => map_days(buckets),
        None => Vec::new(),
    };
    assert(daily@ =~= sent_days(stats).map_values(
        |bucket: ProfileDailyUsageBucket|
            AccountDailyUsage { date: bucket.start_date, tokens: bucket.tokens },
    ));
    let top_invocations = match &stats.top_invocations {
        Some(invocations) => map_invocations(invocations),
        None => Vec::new(),
    };
    AccountUsageStats {
        account_id: account_id.to_string(),
        available,
        source: STATS_SOURCE.to_string(),
        generated_at: payload.metadata.generated_at,
        stats_as_of: payload.metadata.stats_as_of,
        summary: AccountUsageSummary {
            lifetime_tokens: stats.lifetime_tokens,
            peak_daily_tokens: stats.peak_daily_tokens,
            longest_task_seconds: stats.longest_running_turn_sec,
            current_streak_days: stats.current_streak_days,
            longest_streak_days: stats.longest_streak_days,
        },
        activity: AccountUsageActivity {
            fast_mode_percent: stats.fast_mode_usage_percentage,
            reasoning_effort: stats.most_used_reasoning_effort,
            reasoning_effort_percent: stats.most_used_reasoning_effort_percentage,
            skills_explored: stats.unique_skills_used,
            total_skills_used: stats.total_skills_used,
            total_threads: stats.total_threads,
        },
        daily,
        top_invocations,
        reset_credits: None,
        error: stats_error,
    }
}

/// Statistics that are not to be had, for the reason given.
pub open spec fn are_unavailable(
    shown: AccountUsageStats,
    account_id: String,
    message: Seq<char>,
) -> bool {
    &&& shown.account_id == account_id
    &&& !shown.available
    &&& shown.source@ == STATS_SOURCE@
    &&& shown.generated_at is None
    &&& shown.stats_as_of is None
    &&& shown.summary == no_summary()
    &&& shown.activity == no_activity()
    &&& shown.daily@.len() == 0
    &&& shown.top_invocations@.len() == 0
    &&& shown.reset_credits is None
    &&& shown.error is Some && shown.error->0@ == message
}

/// Statistics that are not to be had, for the reason given.
pub fn unavailable_stats(account_id: String, message: &str) -> (r: AccountUsageStats)
    ensures
        are_unavailable(r, account_id, message@),
{
    AccountUsageStats {
        account_id,
        available: false,
        source: STATS_SOURCE.to_string(),
        generated_at: None,
        stats_as_of: None,
        summary: AccountUsageSummary::default(),
        activity: AccountUsageActivity::default(),
        daily: Vec::new(),
        top_invocations: Vec::new(),
        reset_credits: None,
        error: Some(message.to_string()),
    }
}

/// Whether there are statistics for accounts of this kind.
pub fn supports_usage_stats(auth_mode: AuthMode) -> (r: bool)
    ensures
        r == (auth_mode != AuthMode::ApiKey),
{
    match auth_mode {
        AuthMode::ChatGPT => true,
        AuthMode::CodexAccessToken => true,
        AuthMode::ApiKey => false,
    }
}

/// What is shown where there are no statistics.
pub fn api_key_unavailable_message() -> (r: &'static str)
    ensures
        r@ == "Usage stats are unavailable for API key accounts."@,
{
    "Usage stats are unavailable for API key accounts."
}

/// What is shown where the statistics were refused with a status.
pub fn refused_stats(account_id: &str, status: &str) -> (r: AccountUsageStats)
    ensures
        r.account_id@ == account_id@,
        are_unavailable(r, r.account_id, "Usage stats request failed: "@ + status@),
{
    let message = text::joined("Usage stats request failed: ", status);
    unavailable_stats(account_id.to_string(), message.as_str())
}

/// How statistics are asked for
#[derive(Debug)]
pub enum StatsStep {
    WithTokens,
    WithAccessToken,
    /// They are known without asking.
    Known(AccountUsageStats),
}

/// How the statistics of an account are asked for.
pub open spec fn is_stats_step(account: StoredAccount, r: StatsStep) -> bool {
    match account.auth_mode {
        AuthMode::ChatGPT => r == StatsStep::WithTokens,
        AuthMode::CodexAccessToken => r == StatsStep::WithAccessToken,
        AuthMode::ApiKey => r matches StatsStep::Known(stats) && are_unavailable(
            stats,
            account.id,
            "Usage stats are unavailable for API key accounts."@,
        ),
    }
}

/// How the statistics of an account are asked for.
pub fn get_account_usage_stats(account: &StoredAccount) -> (r: StatsStep)
    ensures
        is_stats_step(*account, r),
{
    match account.auth_mode {
        AuthMode::ChatGPT => StatsStep::WithTokens,
        AuthMode::CodexAccessToken => StatsStep::WithAccessToken,
        AuthMode::ApiKey => StatsStep::Known(
            unavailable_stats(account.id.clone(), api_key_unavailable_message()),
        ),
    }
}

// ---------------------------------------------------------------------------
// Reset credits
// ---------------------------------------------------------------------------

/// When a credit that can be used expires, if that is after `now`.
pub open spec fn upcoming_instant(credit: ResetCredit, now: Timestamp) -> Option<Timestamp> {
    if credit.status@ != "available"@ {
        None
    } else {
        match credit.expires_at {
            None => None,
            Some(expires_at) => match clock::rfc3339_instant(expires_at@) {
                Some(at) if at.after(now) => Some(at),
                _ => None,
            },
        }
    }
}

/// When a credit that can be used expires, as it is shown, if that is after `now`.
pub open spec fn upcoming_expiry(credit: ResetCredit, now: Timestamp) -> Option<Seq<char>> {
    match upcoming_instant(credit, now) {
        Some(at) => clock::rfc3339_text(at.seconds, at.nanos),
        None => None,
    }
}

/// Every credit that can be used and expires after `now` does so in a year whose
/// notation sorts by time.
pub open spec fn expire_in_sorted_years(credits: Seq<ResetCredit>, now: Timestamp) -> bool {
    forall|i: int|
        0 <= i < credits.len() ==> (#[trigger] upcoming_instant(credits[i], now) matches Some(at)
            ==> at.has_sorted_year())
}

/// `first` is the text of the earliest point in time at which a credit that can be
/// used expires after `now`; it is none where there is no such credit.
pub open spec fn is_earliest_expiry(
    first: Option<Seq<char>>,
    credits: Seq<ResetCredit>,
    now: Timestamp,
) -> bool {
    match first {
        Some(first) => exists|i: int|
            {
                &&& 0 <= i < credits.len()
                &&& #[trigger] upcoming_instant(credits[i], now) matches Some(at)
                &&& clock::rfc3339_text(at.seconds, at.nanos) == Some(first)
                &&& forall|j: int|
                    0 <= j < credits.len() ==> (#[trigger] upcoming_instant(
                        credits[j],
                        now,
                    ) matches Some(other) ==> !at.after(other))
            },
        None => forall|i: int|
            0 <= i < credits.len() ==> #[trigger] upcoming_instant(credits[i], now) is None,
    }
}

/// The earlier of two texts in the order of texts.
pub open spec fn earlier(a: Option<Seq<char>>, b: Option<Seq<char>>) -> Option<Seq<char>> {
    match (a, b) {
        (Some(a), Some(b)) => if text::text_less(b, a) {
            Some(b)
        } else {
            Some(a)
        },
        (Some(a), None) => Some(a),
        (None, b) => b,
    }
}

/// The first of the expiries of the credits that can be used, as they are shown.
pub open spec fn next_expiry(credits: Seq<ResetCredit>, now: Timestamp) -> Option<Seq<char>>
    decreases credits.len(),
{
    if credits.len() == 0 {
        None
    } else {
        earlier(next_expiry(credits.drop_last(), now), upcoming_expiry(credits.last(), now))
    }
}

fn upcoming(credit: &ResetCredit, now: Timestamp) -> (r: Option<String>)
    ensures
        text::opt_text(r) == upcoming_expiry(*credit, now),
        upcoming_instant(*credit, now) matches Some(at) ==> r matches Some(written)
            && clock::later_texts_follow(at, written@),
{
    if !text::same(credit.status.as_str(), "available") {
        return None;
    }
    match &credit.expires_at {
        None => None,
        Some(expires_at) => match clock::parse_rfc3339(expires_at.as_str()) {
            Some(at) => {
                if at.is_after(&now) {
                    clock::to_rfc3339(&at)
                } else {
                    None
                }
            },
            None => None,
        },
    }
}

/// The texts of the expiries are in the order of time.
spec fn are_written_in_order(credits: Seq<ResetCredit>, now: Timestamp) -> bool {
    forall|i: int|
        0 <= i < credits.len() ==> (#[trigger] upcoming_instant(credits[i], now) matches Some(at)
            ==> clock::rfc3339_text(at.seconds, at.nanos) matches Some(written)
            && clock::later_texts_follow(at, written))
}

proof fn lemma_first_is_earliest(credits: Seq<ResetCredit>, now: Timestamp)
    requires
        are_written_in_order(credits, now),
        expire_in_sorted_years(credits, now),
    ensures
        is_earliest_expiry(next_expiry(credits, now), credits, now),
{
    law_next_expiry_is_the_first(credits, now);
    match next_expiry(credits, now) {
        Some(first) => {
            let i = choose|i: int|
                0 <= i < credits.len() && #[trigger] upcoming_expiry(credits[i], now) == Some(
                    first,
                );
            assert(upcoming_instant(credits[i], now) is Some);
            let at = upcoming_instant(credits[i], now)->0;
            assert forall|j: int| 0 <= j < credits.len() implies (#[trigger] upcoming_instant(
                credits[j],
                now,
            ) matches Some(other) ==> !at.after(other)) by {
                if upcoming_instant(credits[j], now) is Some {
                    let other = upcoming_instant(credits[j], now)->0;
                    assert(upcoming_expiry(credits[j], now) is Some);
                    if at.after(other) {
                        assert(clock::rfc3339_text(at.seconds, at.nanos) == Some(first));
                    }
                }
            }
        },
        None => {
            assert forall|i: int| 0 <= i < credits.len() implies #[trigger] upcoming_instant(
                credits[i],
                now,
            ) is None by {
                assert(upcoming_expiry(credits[i], now) is None);
            }
        },
    }
}

/// What is shown of a credit.
pub open spec fn shown_credit(credit: ResetCredit) -> AccountResetCredit {
    AccountResetCredit {
        id: credit.id,
        reset_type: credit.reset_type,
        status: credit.status,
        granted_at: credit.granted_at,
        expires_at: credit.expires_at,
        redeem_started_at: credit.redeem_started_at,
        redeemed_at: credit.redeemed_at,
        title: credit.title,
        description: credit.description,
    }
}

/// What is shown of a credit.
pub fn map_reset_credit(credit: &ResetCredit) -> (r: AccountResetCredit)
    ensures
        r == shown_credit(*credit),
{
    AccountResetCredit {
        id: credit.id.clone(),
        reset_type: credit.reset_type.clone(),
        status: credit.status.clone(),
        granted_at: text::copy_opt(&credit.granted_at),
        expires_at: text::copy_opt(&credit.expires_at),
        redeem_started_at: text::copy_opt(&credit.redeem_started_at),
        redeemed_at: text::copy_opt(&credit.redeemed_at),
        title: text::copy_opt(&credit.title),
        description: text::copy_opt(&credit.description),
    }
}

fn earlier_of(a: Option<String>, b: Option<String>) -> (r: Option<String>)
    ensures
        text::opt_text(r) == earlier(text::opt_text(a), text::opt_text(b)),
{
    match (a, b) {
        (Some(a), Some(b)) => {
            if text::comes_before(b.as_str(), a.as_str()) {
                Some(b)
            } else {
                Some(a)
            }
        },
        (Some(a), None) => Some(a),
        (None, b) => b,
    }
}

/// What is shown of the credits that the server sends, at `now`.
pub open spec fn are_shown_credits(
    shown: AccountResetCredits,
    sent: ResetCreditsResponse,
    now: Timestamp,
) -> bool {
    &&& shown.available_count == (if sent.available_count < 0 {
        0
    } else {
        sent.available_count as int
    })
    &&& text::opt_text(shown.next_expires_at) == next_expiry(sent.credits@, now)
    &&& shown.credits@ == sent.credits@.map_values(|credit: ResetCredit| shown_credit(credit))
}

/// What is shown of the credits at `now`. Where none of them expires after the year
/// 9999, the expiry that is shown is the earliest in time.
pub fn map_reset_credits(payload: ResetCreditsResponse, now: Timestamp) -> (r: AccountResetCredits)
    ensures
        are_shown_credits(r, payload, now),
        expire_in_sorted_years(payload.credits@, now) ==> is_earliest_expiry(
            text::opt_text(r.next_expires_at),
            payload.credits@,
            now,
        ),
{
    let ghost all = payload.credits@;
    let ghost shown = all.map_values(|credit: ResetCredit| shown_credit(credit));
    let mut next_expires_at: Option<String> = None;
    let mut credits: Vec<AccountResetCredit> = Vec::new();
    let mut i: usize = 0;
    assert(all.take(0) =~= Seq::<ResetCredit>::empty());
    while i < payload.credits.len()
        invariant
            all == payload.credits@,
            shown == all.map_values(|credit: ResetCredit| shown_credit(credit)),
            i <= all.len(),
            text::opt_text(next_expires_at) == next_expiry(all.take(i as int), now),
            are_written_in_order(all.take(i as int), now),
            credits@ == shown.take(i as int),
        decreases all.len() - i,
    {
        assert(all.take(i + 1).drop_last() =~= all.take(i as int));
        let upcoming = upcoming(&payload.credits[i], now);
        next_expires_at = earlier_of(next_expires_at, upcoming);
        credits.push(map_reset_credit(&payload.credits[i]));
        i = i + 1;
        assert(credits@ =~= shown.take(i as int));
    }
    assert(all.take(all.len() as int) =~= all);
    proof {
        if expire_in_sorted_years(all, now) {
            lemma_first_is_earliest(all, now);
        }
    }
    assert(shown.take(shown.len() as int) =~= shown);
    let available_count: i64 = if payload.available_count < 0 {
        0
    } else {
        payload.available_count
    };
    AccountResetCredits { available_count, next_expires_at, credits }
}

/// The expiry that is shown is that of a credit that can be used and expires after
/// `now`, and none of those comes before it in the order of texts. Where none is
/// shown, there is none.
pub proof fn law_next_expiry_is_the_first(credits: Seq<ResetCredit>, now: Timestamp)
    ensures
        match next_expiry(credits, now) {
            Some(first) => {
                &&& exists|i: int|
                    0 <= i < credits.len() && #[trigger] upcoming_expiry(credits[i], now)
                        == Some(first)
                &&& forall|i: int|
                    0 <= i < credits.len() ==> (#[trigger] upcoming_expiry(credits[i], now) matches
                        Some(other) ==> !text::text_less(other, first))
            },
            None => forall|i: int|
                0 <= i < credits.len() ==> #[trigger] upcoming_expiry(credits[i], now) is None,
        },
    decreases credits.len(),
{
    if credits.len() > 0 {
        let front = credits.drop_last();
        law_next_expiry_is_the_first(front, now);
        let before = next_expiry(front, now);
        let last = upcoming_expiry(credits.last(), now);
        let n = credits.len() - 1;
        assert(credits[n] == credits.last());
        assert forall|i: int| 0 <= i < n implies #[trigger] upcoming_expiry(credits[i], now)
            == upcoming_expiry(front[i], now) by {}
        if before is Some {
            let i = choose|i: int|
                0 <= i < front.len() && #[trigger] upcoming_expiry(front[i], now) == before;
            assert(upcoming_expiry(credits[i], now) == before);
        }
        match next_expiry(credits, now) {
            Some(first) => {
                assert forall|i: int| 0 <= i < credits.len() implies (
                #[trigger] upcoming_expiry(credits[i], now) matches Some(other)
                    ==> !text::text_less(other, first)) by {
                    if i < n && upcoming_expiry(credits[i], now) is Some {
                        let other = upcoming_expiry(credits[i], now)->0;
                        assert(upcoming_expiry(front[i], now) == Some(other));
                        let b = before->0;
                        if last is Some && text::text_less(last->0, b) {
                            // `first` comes before what came first so far.
                            if text::text_less(other, first) {
                                text::lemma_text_less_transitive(other, first, b);
                            }
                        }
                    } else if i == n && last is Some {
                        text::lemma_text_less_total(last->0, last->0);
                        text::lemma_text_less_total(last->0, first);
                    }
                }
            },
            None => {},
        }
    }
}

// ---------------------------------------------------------------------------
// Headers
// ---------------------------------------------------------------------------

/// The headers of a request for statistics, for an account.
pub open spec fn stats_headers(
    access_token: Seq<char>,
    account_id: Option<Seq<char>>,
) -> Result<Map<Seq<char>, Seq<Seq<u8>>>, RequestError> {
    if !headers::is_header_value(requests::bearer(access_token)) {
        Err(RequestError::InvalidHeaderValue)
    } else if account_id is Some && !headers::is_header_value(account_id->0) {
        Err(RequestError::InvalidHeaderValue)
    } else {
        Ok(
            requests::with_account(
                requests::authorized(requests::bearer(access_token)),
                account_id,
            ),
        )
    }
}

/// What headers or an error are.
pub open spec fn header_result(r: Result<reqwest::header::HeaderMap, RequestError>) -> Result<
    Map<Seq<char>, Seq<Seq<u8>>>,
    RequestError,
> {
    match r {
        Ok(headers) => Ok(headers::header_fields(headers)),
        Err(error) => Err(error),
    }
}

/// The headers of a request for statistics, for an account. One whose identifier
/// cannot be sent has no statistics.
pub fn build_chatgpt_headers(access_token: &str, chatgpt_account_id: Option<&str>) -> (r: Result<
    reqwest::header::HeaderMap,
    RequestError,
>)
    ensures
        header_result(r) == stats_headers(access_token@, text::opt_str(chatgpt_account_id)),
{
    let authorization = text::joined("Bearer ", access_token);
    match requests::authorized_headers(authorization.as_str()) {
        Some(mut headers) => {
            proof {
                requests::lemma_header_names();
            }
            match chatgpt_account_id {
                Some(id) => {
                    if !requests::put(&mut headers, "chatgpt-account-id", id) {
                        return Err(RequestError::InvalidHeaderValue);
                    }
                },
                None => {},
            }
            Ok(headers)
        },
        None => Err(RequestError::InvalidHeaderValue),
    }
}

/// The token and the account that statistics are asked for with.
pub open spec fn stats_auth(auth: AuthData) -> Result<
    (Seq<char>, Option<Seq<char>>),
    RequestError,
> {
    match auth {
        AuthData::ChatGPT { access_token, account_id, .. } => Ok(
            (access_token@, text::opt_text(account_id)),
        ),
        _ => Err(RequestError::NotOAuth),
    }
}

/// The token and the account that statistics are asked for with.
pub fn extract_chatgpt_auth(account: &StoredAccount) -> (r: Result<
    (&str, Option<&str>),
    RequestError,
>)
    ensures
        requests::auth_result(r) == stats_auth(account.auth_data),
{
    match &account.auth_data {
        AuthData::ChatGPT { access_token, account_id, .. } => Ok(
            (access_token.as_str(), text::as_opt_str(account_id)),
        ),
        _ => Err(RequestError::NotOAuth),
    }
}

/// The headers with which statistics are asked for, for an account.
pub open spec fn account_headers(auth: AuthData) -> Result<
    Map<Seq<char>, Seq<Seq<u8>>>,
    RequestError,
> {
    match auth {
        AuthData::ChatGPT { access_token, account_id, .. } => stats_headers(
            access_token@,
            text::opt_text(account_id),
        ),
        _ => Err(RequestError::NotOAuth),
    }
}

/// The headers with which statistics are asked for, for an account.
pub fn chatgpt_headers_for_account(account: &StoredAccount) -> (r: Result<
    reqwest::header::HeaderMap,
    RequestError,
>)
    ensures
        header_result(r) == account_headers(account.auth_data),
{
    match extract_chatgpt_auth(account) {
        Ok((token, id)) => build_chatgpt_headers(token, id),
        Err(error) => Err(error),
    }
}

/// The headers of a request for reset credits.
pub open spec fn reset_credits_fields(fields: Map<Seq<char>, Seq<Seq<u8>>>) -> Map<
    Seq<char>,
    Seq<Seq<u8>>,
> {
    headers::with_field(
        headers::with_field(
            headers::with_field(fields, "accept"@, "application/json"@),
            "openai-beta"@,
            "codex-1"@,
        ),
        "originator"@,
        "Codex Desktop"@,
    )
}

/// A request for reset credits keeps every other header as it is, the authorization
/// and the account among them.
pub proof fn law_reset_credits_keep_other_headers(
    fields: Map<Seq<char>, Seq<Seq<u8>>>,
    name: Seq<char>,
)
    requires
        name != "accept"@,
        name != "openai-beta"@,
        name != "originator"@,
    ensures
        reset_credits_fields(fields).contains_key(name) <==> fields.contains_key(name),
        fields.contains_key(name) ==> reset_credits_fields(fields)[name] == fields[name],
{
    reveal_strlit("accept");
    reveal_strlit("openai-beta");
    reveal_strlit("originator");
    assert(text::lower_of("accept"@) =~= "accept"@);
    assert(text::lower_of("openai-beta"@) =~= "openai-beta"@);
    assert(text::lower_of("originator"@) =~= "originator"@);
}

/// The headers of a request for reset credits: those of the request for statistics,
/// and three more.
pub fn build_reset_credits_headers(headers: reqwest::header::HeaderMap) -> (r:
    reqwest::header::HeaderMap)
    requires
        requests::few(headers::header_fields(headers), 6551),
    ensures
        headers::header_fields(r) == reset_credits_fields(headers::header_fields(headers)),
{
    proof {
        requests::lemma_header_names();
    }
    let mut headers = headers;
    assert(requests::few(headers::header_fields(headers), 6551));
    requests::put(&mut headers, "accept", "application/json");
    assert(requests::few(headers::header_fields(headers), 6552));
    requests::put(&mut headers, "openai-beta", "codex-1");
    assert(requests::few(headers::header_fields(headers), 6553));
    requests::put(&mut headers, "originator", "Codex Desktop");
    headers
}

// ---------------------------------------------------------------------------
// What holds of what is shown
// ---------------------------------------------------------------------------

/// The statistics that the server sends are shown, each under its own heading, and are
/// available exactly where it sends no error that says something.
pub proof fn law_profiles_are_shown(
    shown: AccountUsageStats,
    account_id: Seq<char>,
    sent: ProfileUsageResponse,
)
    requires
        is_shown_profile(shown, account_id, sent),
    ensures
        shown.account_id@ == account_id,
        shown.available <==> sent.metadata.stats_error is None
            || sent.metadata.stats_error->0@.len() == 0,
        !shown.available ==> shown.error == sent.metadata.stats_error,
        shown.available ==> shown.error is None,
        shown.source@ == "Codex usage stats via ChatGPT backend"@,
        shown.generated_at == sent.metadata.generated_at,
        shown.stats_as_of == sent.metadata.stats_as_of,
        shown.summary.lifetime_tokens == sent.stats.lifetime_tokens,
        shown.summary.peak_daily_tokens == sent.stats.peak_daily_tokens,
        shown.summary.longest_task_seconds == sent.stats.longest_running_turn_sec,
        shown.summary.current_streak_days == sent.stats.current_streak_days,
        shown.summary.longest_streak_days == sent.stats.longest_streak_days,
        shown.activity.fast_mode_percent == sent.stats.fast_mode_usage_percentage,
        shown.activity.reasoning_effort == sent.stats.most_used_reasoning_effort,
        shown.activity.reasoning_effort_percent
            == sent.stats.most_used_reasoning_effort_percentage,
        shown.activity.skills_explored == sent.stats.unique_skills_used,
        shown.activity.total_skills_used == sent.stats.total_skills_used,
        shown.activity.total_threads == sent.stats.total_threads,
        shown.reset_credits is None,
{
}

/// Every day and every invocation that the server sends is shown, in its order; none is
/// shown where it sends none.
pub proof fn law_days_and_invocations_are_shown(
    shown: AccountUsageStats,
    account_id: Seq<char>,
    sent: ProfileUsageResponse,
)
    requires
        is_shown_profile(shown, account_id, sent),
    ensures
        sent.stats.daily_usage_buckets is None ==> shown.daily@.len() == 0,
        sent.stats.daily_usage_buckets matches Some(days) ==> {
            &&& shown.daily@.len() == days@.len()
            &&& forall|i: int|
                #![trigger shown.daily@[i]]
                #![trigger days@[i]]
                0 <= i < days@.len() ==> shown.daily@[i].date == days@[i].start_date
                    && shown.daily@[i].tokens == days@[i].tokens
        },
        sent.stats.top_invocations is None ==> shown.top_invocations@.len() == 0,
        sent.stats.top_invocations matches Some(all) ==> {
            &&& shown.top_invocations@.len() == all@.len()
            &&& forall|i: int|
                #![trigger shown.top_invocations@[i]]
                #![trigger all@[i]]
                0 <= i < all@.len() ==> {
                    let invocation = shown.top_invocations@[i];
                    &&& all@[i].skill_name matches Some(name) ==> invocation.display_name@ == name@
                    &&& all@[i].skill_name is None ==> (all@[i].plugin_name matches Some(name)
                        ==> invocation.display_name@ == name@)
                    &&& all@[i].usage_count matches Some(count) ==> invocation.usage_count == count
                }
        },
{
    if let Some(all) = sent.stats.top_invocations {
        assert forall|i: int|
            #![trigger shown.top_invocations@[i]]
            #![trigger all@[i]]
            0 <= i < all@.len() implies is_shown_invocation(shown.top_invocations@[i], all@[i]) by {
            assert(sent_invocations(sent.stats)[i] == all@[i]);
            assert(is_shown_invocation(
                shown.top_invocations@[i],
                sent_invocations(sent.stats)[i],
            ));
        }
    }
}

/// An invocation goes by the name of its skill, or else by that of its plugin, or else by
/// none that is known. What is not said of it is unknown or zero.
pub proof fn law_invocations_go_by_their_skill(
    shown: AccountTopInvocation,
    sent: ProfileTopInvocation,
)
    requires
        is_shown_invocation(shown, sent),
    ensures
        sent.skill_name matches Some(name) ==> shown.display_name@ == name@,
        sent.skill_name is None ==> (sent.plugin_name matches Some(name) ==> shown.display_name@
            == name@),
        sent.skill_name is None && sent.plugin_name is None ==> shown.display_name@ == "Unknown"@,
        sent.kind matches Some(kind) ==> shown.kind@ == kind@,
        sent.kind is None ==> shown.kind@ == "unknown"@,
        sent.usage_count matches Some(count) ==> shown.usage_count == count,
        sent.usage_count is None ==> shown.usage_count == 0,
        shown.plugin_id == sent.plugin_id,
        shown.plugin_name == sent.plugin_name,
        shown.skill_id == sent.skill_id,
        shown.skill_name == sent.skill_name,
{
}

/// Statistics that are not to be had show why and nothing else, under the account that they
/// were asked for.
pub proof fn law_missing_statistics_say_why(
    shown: AccountUsageStats,
    account_id: String,
    message: Seq<char>,
)
    requires
        are_unavailable(shown, account_id, message),
    ensures
        shown.account_id == account_id,
        !shown.available,
        shown.error is Some,
        shown.error->0@ == message,
        shown.summary.lifetime_tokens is None,
        shown.summary.peak_daily_tokens is None,
        shown.activity.total_threads is None,
        shown.daily@.len() == 0,
        shown.top_invocations@.len() == 0,
        shown.reset_credits is None,
{
}

/// Statistics are asked for exactly for accounts with a token, and those with an API key
/// are told without asking that there are none.
pub proof fn law_api_keys_have_no_statistics(account: StoredAccount, step: StatsStep)
    requires
        is_stats_step(account, step),
    ensures
        step is WithTokens <==> account.auth_mode == AuthMode::ChatGPT,
        step is WithAccessToken <==> account.auth_mode == AuthMode::CodexAccessToken,
        step matches StatsStep::Known(stats) ==> {
            &&& account.auth_mode == AuthMode::ApiKey
            &&& stats.account_id == account.id
            &&& !stats.available
            &&& stats.error is Some
            &&& stats.error->0@ == "Usage stats are unavailable for API key accounts."@
        },
{
}

/// Every credit that the server sends is shown, in its order and as it was sent. The number
/// of those that can be used is the one that was sent, and never less than zero.
pub proof fn law_credits_are_shown(
    shown: AccountResetCredits,
    sent: ResetCreditsResponse,
    now: Timestamp,
)
    requires
        are_shown_credits(shown, sent, now),
    ensures
        shown.available_count >= 0,
        sent.available_count >= 0 ==> shown.available_count == sent.available_count,
        sent.available_count < 0 ==> shown.available_count == 0,
        shown.credits@.len() == sent.credits@.len(),
        forall|i: int|
            #![trigger shown.credits@[i]]
            #![trigger sent.credits@[i]]
            0 <= i < sent.credits@.len() ==> {
                let credit = sent.credits@[i];
                &&& shown.credits@[i].id == credit.id
                &&& shown.credits@[i].reset_type == credit.reset_type
                &&& shown.credits@[i].status == credit.status
                &&& shown.credits@[i].granted_at == credit.granted_at
                &&& shown.credits@[i].expires_at == credit.expires_at
                &&& shown.credits@[i].redeem_started_at == credit.redeem_started_at
                &&& shown.credits@[i].redeemed_at == credit.redeemed_at
                &&& shown.credits@[i].title == credit.title
                &&& shown.credits@[i].description == credit.description
            },
{
}

/// The next expiry is that of a credit which is available and expires later than `now`, and
/// no other such credit expires before it; there is one as soon as there is such a credit.
pub proof fn law_next_expiry_lies_ahead(
    shown: Option<Seq<char>>,
    credits: Seq<ResetCredit>,
    now: Timestamp,
)
    requires
        is_earliest_expiry(shown, credits, now),
    ensures
        shown matches Some(written) ==> exists|i: int|
            {
                &&& 0 <= i < credits.len()
                &&& (#[trigger] credits[i]).status@ == "available"@
                &&& credits[i].expires_at is Some
                &&& clock::rfc3339_instant(credits[i].expires_at->0@) matches Some(at)
                &&& at.seconds > now.seconds || (at.seconds == now.seconds && at.nanos > now.nanos)
                &&& clock::rfc3339_text(at.seconds, at.nanos) == Some(written)
                &&& forall|j: int|
                    0 <= j < credits.len() && (#[trigger] credits[j]).status@ == "available"@
                        && credits[j].expires_at is Some ==> (clock::rfc3339_instant(
                        credits[j].expires_at->0@,
                    ) matches Some(other) ==> !other.after(now) || !at.after(other))
            },
        (exists|j: int|
            {
                &&& 0 <= j < credits.len()
                &&& (#[trigger] credits[j]).status@ == "available"@
                &&& credits[j].expires_at is Some
                &&& clock::rfc3339_instant(credits[j].expires_at->0@) matches Some(at)
                &&& at.after(now)
            }) ==> shown is Some,
{
    if shown is Some {
        let i = choose|i: int|
            {
                &&& 0 <= i < credits.len()
                &&& #[trigger] upcoming_instant(credits[i], now) matches Some(at)
                &&& clock::rfc3339_text(at.seconds, at.nanos) == Some(shown->0)
                &&& forall|j: int|
                    0 <= j < credits.len() ==> (#[trigger] upcoming_instant(
                        credits[j],
                        now,
                    ) matches Some(other) ==> !at.after(other))
            };
        let at = upcoming_instant(credits[i], now)->0;
        assert(credits[i].status@ == "available"@);
        assert forall|j: int|
            0 <= j < credits.len() && (#[trigger] credits[j]).status@ == "available"@
                && credits[j].expires_at is Some implies (clock::rfc3339_instant(
            credits[j].expires_at->0@,
        ) matches Some(other) ==> !other.after(now) || !at.after(other)) by {
            let other = upcoming_instant(credits[j], now);
        }
    } else {
        assert forall|j: int| 0 <= j < credits.len() implies upcoming_instant(
            #[trigger] credits[j],
            now,
        ) is None by {}
    }
}

/// A request for statistics carries the token behind `Bearer` and names the account. It
/// cannot be made exactly where either of them cannot be sent.
pub proof fn law_statistics_are_asked_for_with_the_account(
    access_token: Seq<char>,
    account_id: Option<Seq<char>>,
)
    ensures
        stats_headers(access_token, account_id) is Ok <==> headers::is_header_value(
            "Bearer "@ + access_token,
        ) && (account_id is Some ==> headers::is_header_value(account_id->0)),
        stats_headers(access_token, account_id) matches Err(error) ==> error
            == RequestError::InvalidHeaderValue,
        stats_headers(access_token, account_id) matches Ok(fields) ==> {
            &&& fields.contains_key("user-agent"@)
            &&& fields["user-agent"@] == seq![vstd::utf8::encode_utf8("codex-cli/1.0.0"@)]
            &&& fields.contains_key("authorization"@)
            &&& fields["authorization"@] == seq![
                vstd::utf8::encode_utf8("Bearer "@ + access_token),
            ]
            &&& fields.contains_key("chatgpt-account-id"@) <==> account_id is Some
            &&& account_id is Some ==> fields["chatgpt-account-id"@] == seq![
                vstd::utf8::encode_utf8(account_id->0),
            ]
        },
{
    requests::lemma_names_in_lower_case();
}

/// Statistics are asked for with the stored access token and account; without ChatGPT
/// tokens they are not asked for.
pub proof fn law_statistics_need_tokens(auth: AuthData)
    ensures
        auth is ChatGPT ==> {
            &&& stats_auth(auth) == Ok::<(Seq<char>, Option<Seq<char>>), RequestError>(
                (auth->ChatGPT_access_token@, text::opt_text(auth->ChatGPT_account_id)),
            )
            &&& account_headers(auth) == stats_headers(
                auth->ChatGPT_access_token@,
                text::opt_text(auth->ChatGPT_account_id),
            )
        },
        !(auth is ChatGPT) ==> {
            &&& stats_auth(auth) == Err::<(Seq<char>, Option<Seq<char>>), RequestError>(
                RequestError::NotOAuth,
            )
            &&& account_headers(auth) == Err::<Map<Seq<char>, Seq<Seq<u8>>>, RequestError>(
                RequestError::NotOAuth,
            )
        },
{
}

/// A request for reset credits takes JSON and says that it comes from the desktop app.
pub proof fn law_reset_credits_name_the_app(fields: Map<Seq<char>, Seq<Seq<u8>>>)
    ensures
        ({
            let sent = reset_credits_fields(fields);
            &&& sent.contains_key("accept"@)
            &&& sent["accept"@] == seq![vstd::utf8::encode_utf8("application/json"@)]
            &&& sent.contains_key("openai-beta"@)
            &&& sent["openai-beta"@] == seq![vstd::utf8::encode_utf8("codex-1"@)]
            &&& sent.contains_key("originator"@)
            &&& sent["originator"@] == seq![vstd::utf8::encode_utf8("Codex Desktop"@)]
        }),
{
    reveal_strlit("accept");
    reveal_strlit("openai-beta");
    reveal_strlit("originator");
    assert(text::lower_of("accept"@) =~= "accept"@);
    assert(text::lower_of("openai-beta"@) =~= "openai-beta"@);
    assert(text::lower_of("originator"@) =~= "originator"@);
    assert("accept"@.len() == 6);
    assert("openai-beta"@.len() == 11);
    assert("originator"@.len() == 10);
}

} // verus!
