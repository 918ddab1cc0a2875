//! The accounts, the settings and the messages of the switcher.

use vstd::prelude::*;

use crate::clock;
use crate::clock::Timestamp;
use crate::json::Json;
use crate::json::JsonView;
use crate::text;

verus! {

/// The store of all accounts.
#[derive(Debug)]
pub struct AccountsStore {
    /// Schema version for future migrations
    pub version: u32,
    /// All stored accounts
    pub accounts: Vec<StoredAccount>,
    /// The account in use
    pub active_account_id: Option<String>,
    /// The accounts that are hidden
    pub masked_account_ids: Vec<String>,
}

/// What an account store holds.
pub struct StoreView {
    pub version: u32,
    pub accounts: Seq<StoredAccount>,
    pub active: Option<Seq<char>>,
    pub masked: Seq<Seq<char>>,
}

impl View for AccountsStore {
    type V = StoreView;

    open spec fn view(&self) -> StoreView {
        StoreView {
            version: self.version,
            accounts: self.accounts@,
            active: text::opt_text(self.active_account_id),
            masked: text::texts(self.masked_account_ids@),
        }
    }
}

/// How the tray shows the account in use.
#[derive(Debug, Clone, Copy, PartialEq, Eq, Structural)]
pub enum TrayDisplayMode {
    IconAndSession,
    ActiveUsageText,
    Hidden,
}

/// Where the application shows up on macOS.
#[derive(Debug, Clone, Copy, PartialEq, Eq, Structural)]
pub enum DockDisplayMode {
    ShowInDock,
    MenuBarOnly,
}

impl Default for TrayDisplayMode {
    fn default() -> (r: Self)
        ensures
            r == TrayDisplayMode::ActiveUsageText,
    {
        TrayDisplayMode::ActiveUsageText
    }
}

impl Default for DockDisplayMode {
    fn default() -> (r: Self)
        ensures
            r == DockDisplayMode::ShowInDock,
    {
        DockDisplayMode::ShowInDock
    }
}

/// Whether the application asks what closing its window means, where the
/// settings do not say.
pub fn default_close_behavior_prompt_enabled() -> (r: bool)
    ensures
        r,
{
    true
}

#[derive(Debug, Clone, Copy, PartialEq, Eq, Structural)]
pub struct AppSettings {
    pub tray_display_mode: TrayDisplayMode,
    pub dock_display_mode: DockDisplayMode,
    pub close_behavior_prompt_enabled: bool,
}

/// The settings of a first start.
pub open spec fn default_settings() -> AppSettings {
    AppSettings {
        tray_display_mode: TrayDisplayMode::ActiveUsageText,
        dock_display_mode: DockDisplayMode::ShowInDock,
        close_behavior_prompt_enabled: true,
    }
}

impl Default for AppSettings {
    fn default() -> (r: Self)
        ensures
            r == default_settings(),
    {
        AppSettings {
            tray_display_mode: TrayDisplayMode::default(),
            dock_display_mode: DockDisplayMode::default(),
            close_behavior_prompt_enabled: default_close_behavior_prompt_enabled(),
        }
    }
}

/// A store without accounts.
pub open spec fn empty_store() -> StoreView {
    StoreView { version: 1, accounts: Seq::empty(), active: None, masked: Seq::empty() }
}

impl Default for AccountsStore {
    fn default() -> (r: Self)
        ensures
            r@ == empty_store(),
    {
        let r = AccountsStore {
            version: 1,
            accounts: Vec::new(),
            active_account_id: None,
            masked_account_ids: Vec::new(),
        };
        assert(r@.masked =~= Seq::<Seq<char>>::empty());
        r
    }
}

/// Authentication mode
#[derive(Debug, Clone, Copy, PartialEq, Eq, Structural)]
pub enum AuthMode {
    /// An OpenAI API key
    ApiKey,
    /// ChatGPT OAuth tokens
    ChatGPT,
    /// A Codex CLI access token
    CodexAccessToken,
}

/// Credentials
#[derive(Debug)]
pub enum AuthData {
    /// An API key
    ApiKey {
        key: String,
    },
    /// ChatGPT OAuth tokens
    ChatGPT {
        /// JWT with the user's data
        id_token: String,
        /// Token for API calls
        access_token: String,
        /// Token for new tokens
        refresh_token: String,
        /// ChatGPT account ID
        account_id: Option<String>,
    },
    /// A Codex CLI access token
    CodexAccessToken {
        /// The value of `CODEX_ACCESS_TOKEN`
        token: String,
        /// Account ID from the token's claims
        account_id: Option<String>,
        /// Agent runtime ID from the token's claims
        agent_runtime_id: Option<String>,
        /// Agent private key from the token's claims
        agent_private_key: Option<String>,
        /// ChatGPT user ID from the token's claims
        chatgpt_user_id: Option<String>,
        /// Whether requests carry the FedRAMP header
        chatgpt_account_is_fedramp: bool,
        /// The task under which requests are signed, once it is registered
        task_id: Option<String>,
    },
}

impl Clone for AuthData {
    fn clone(&self) -> (r: Self)
        ensures
            r == *self,
    {
        match self {
            AuthData::ApiKey { key } => AuthData::ApiKey { key: key.clone() },
            AuthData::ChatGPT { id_token, access_token, refresh_token, account_id } => {
                AuthData::ChatGPT {
                    id_token: id_token.clone(),
                    access_token: access_token.clone(),
                    refresh_token: refresh_token.clone(),
                    account_id: text::copy_opt(account_id),
                }
            },
            AuthData::CodexAccessToken {
                token,
                account_id,
                agent_runtime_id,
                agent_private_key,
                chatgpt_user_id,
                chatgpt_account_is_fedramp,
                task_id,
            } => {
                AuthData::CodexAccessToken {
                    token: token.clone(),
                    account_id: text::copy_opt(account_id),
                    agent_runtime_id: text::copy_opt(agent_runtime_id),
                    agent_private_key: text::copy_opt(agent_private_key),
                    chatgpt_user_id: text::copy_opt(chatgpt_user_id),
                    chatgpt_account_is_fedramp: *chatgpt_account_is_fedramp,
                    task_id: text::copy_opt(task_id),
                }
            },
        }
    }
}

/// An account with its metadata and credentials
#[derive(Debug)]
pub struct StoredAccount {
    /// Unique identifier (UUID)
    pub id: String,
    /// Display name
    pub name: String,
    /// Email from the ID token
    pub email: Option<String>,
    /// Plan: free, plus, pro, team, business, enterprise, edu
    pub plan_type: Option<String>,
    /// End of the subscription, where it is known
    pub subscription_expires_at: Option<Timestamp>,
    pub auth_mode: AuthMode,
    pub auth_data: AuthData,
    /// When the account was added
    pub created_at: Timestamp,
    /// When the account was last switched to
    pub last_used_at: Option<Timestamp>,
}

impl Clone for StoredAccount {
    fn clone(&self) -> (r: Self)
        ensures
            r == *self,
    {
        StoredAccount {
            id: self.id.clone(),
            name: self.name.clone(),
            email: text::copy_opt(&self.email),
            plan_type: text::copy_opt(&self.plan_type),
            subscription_expires_at: self.subscription_expires_at,
            auth_mode: self.auth_mode,
            auth_data: self.auth_data.clone(),
            created_at: self.created_at,
            last_used_at: self.last_used_at,
        }
    }
}

/// The account with an API key that has the given identifier and age.
pub open spec fn api_key_account(
    id: String,
    created_at: Timestamp,
    name: String,
    api_key: String,
) -> StoredAccount {
    StoredAccount {
        id,
        name,
        email: None,
        plan_type: None,
        subscription_expires_at: None,
        auth_mode: AuthMode::ApiKey,
        auth_data: AuthData::ApiKey { key: api_key },
        created_at,
        last_used_at: None,
    }
}

/// The account with ChatGPT tokens that has the given identifier and age.
pub open spec fn chatgpt_account(
    id: String,
    created_at: Timestamp,
    name: String,
    email: Option<String>,
    plan_type: Option<String>,
    subscription_expires_at: Option<Timestamp>,
    id_token: String,
    access_token: String,
    refresh_token: String,
    account_id: Option<String>,
) -> StoredAccount {
    StoredAccount {
        id,
        name,
        email,
        plan_type,
        subscription_expires_at,
        auth_mode: AuthMode::ChatGPT,
        auth_data: AuthData::ChatGPT { id_token, access_token, refresh_token, account_id },
        created_at,
        last_used_at: None,
    }
}

impl StoredAccount {
    /// A new account with an API key.
    pub fn new_api_key(name: String, api_key: String) -> (r: Self)
        ensures
            r == api_key_account(r.id, r.created_at, name, api_key),
            clock::is_uuid_v4(r.id@),
            clock::is_reading(r.created_at),
    {
        StoredAccount {
            id: clock::new_id(),
            name,
            email: None,
            plan_type: None,
            subscription_expires_at: None,
            auth_mode: AuthMode::ApiKey,
            auth_data: AuthData::ApiKey { key: api_key },
            created_at: clock::utc_now(),
            last_used_at: None,
        }
    }

    /// A new account with ChatGPT tokens.
    pub fn new_chatgpt(
        name: String,
        email: Option<String>,
        plan_type: Option<String>,
        subscription_expires_at: Option<Timestamp>,
        id_token: String,
        access_token: String,
        refresh_token: String,
        account_id: Option<String>,
    ) -> (r: Self)
        ensures
            r == chatgpt_account(
                r.id,
                r.created_at,
                name,
                email,
                plan_type,
                subscription_expires_at,
                id_token,
                access_token,
                refresh_token,
                account_id,
            ),
            clock::is_uuid_v4(r.id@),
            clock::is_reading(r.created_at),
    {
        StoredAccount {
            id: clock::new_id(),
            name,
            email,
            plan_type,
            subscription_expires_at,
            auth_mode: AuthMode::ChatGPT,
            auth_data: AuthData::ChatGPT { id_token, access_token, refresh_token, account_id },
            created_at: clock::utc_now(),
            last_used_at: None,
        }
    }
}

/// The auth.json of the Codex CLI
#[derive(Debug)]
pub struct AuthDotJson {
    /// Auth mode, in newer files
    pub auth_mode: Option<String>,
    /// OpenAI API key
    pub openai_api_key: Option<String>,
    /// OAuth tokens
    pub tokens: Option<TokenData>,
    /// Last token refresh
    pub last_refresh: Option<Timestamp>,
    /// Agent identity, for access tokens that are JWTs
    pub agent_identity: Option<Json>,
    /// Personal access token, for access tokens that start with `at-`
    pub personal_access_token: Option<String>,
}

/// The tokens in auth.json
#[derive(Debug)]
pub struct TokenData {
    pub id_token: String,
    pub access_token: String,
    pub refresh_token: String,
    pub account_id: Option<String>,
}

/// What an auth.json says.
pub struct AuthView {
    pub auth_mode: Option<Seq<char>>,
    pub openai_api_key: Option<Seq<char>>,
    pub tokens: Option<TokenView>,
    pub last_refresh: Option<Timestamp>,
    pub agent_identity: Option<JsonView>,
    pub personal_access_token: Option<Seq<char>>,
}

/// What the tokens in auth.json are.
pub struct TokenView {
    pub id_token: Seq<char>,
    pub access_token: Seq<char>,
    pub refresh_token: Seq<char>,
    pub account_id: Option<Seq<char>>,
}

impl View for TokenData {
    type V = TokenView;

    open spec fn view(&self) -> TokenView {
        TokenView {
            id_token: self.id_token@,
            access_token: self.access_token@,
            refresh_token: self.refresh_token@,
            account_id: text::opt_text(self.account_id),
        }
    }
}

impl View for AuthDotJson {
    type V = AuthView;

    open spec fn view(&self) -> AuthView {
        AuthView {
            auth_mode: text::opt_text(self.auth_mode),
            openai_api_key: text::opt_text(self.openai_api_key),
            tokens: match self.tokens {
                Some(tokens) => Some(tokens@),
                None => None,
            },
            last_refresh: self.last_refresh,
            agent_identity: match self.agent_identity {
                Some(identity) => Some(identity@),
                None => None,
            },
            personal_access_token: text::opt_text(self.personal_access_token),
        }
    }
}

/// A percentage as the server sends it, by the bits of its IEEE 754 double.
#[derive(Debug, Clone, Copy, PartialEq, Eq, Structural)]
pub struct Percent {
    pub bits: u64,
}

/// How much of its limits an account has used
#[derive(Debug)]
pub struct UsageInfo {
    pub account_id: String,
    pub plan_type: Option<String>,
    /// Share of the primary window that is used
    pub primary_used_percent: Option<Percent>,
    /// Length of the primary window in minutes
    pub primary_window_minutes: Option<i64>,
    /// End of the primary window (unix seconds)
    pub primary_resets_at: Option<i64>,
    /// Share of the secondary window that is used
    pub secondary_used_percent: Option<Percent>,
    /// Length of the secondary window in minutes
    pub secondary_window_minutes: Option<i64>,
    /// End of the secondary window (unix seconds)
    pub secondary_resets_at: Option<i64>,
    pub has_credits: Option<bool>,
    pub unlimited_credits: Option<bool>,
    /// Credit balance (e.g., "$10.50")
    pub credits_balance: Option<String>,
    /// Why the usage is not known
    pub error: Option<String>,
}

/// Usage that holds nothing but an account, a plan and a message.
pub open spec fn unknown_usage(
    account_id: String,
    plan_type: Option<String>,
    error: Option<String>,
) -> UsageInfo {
    UsageInfo {
        account_id,
        plan_type,
        primary_used_percent: None,
        primary_window_minutes: None,
        primary_resets_at: None,
        secondary_used_percent: None,
        secondary_window_minutes: None,
        secondary_resets_at: None,
        has_credits: None,
        unlimited_credits: None,
        credits_balance: None,
        error,
    }
}

impl UsageInfo {
    /// Usage that is not known for the reason given.
    pub fn error(account_id: String, error: String) -> (r: Self)
        ensures
            r == unknown_usage(account_id, None, Some(error)),
    {
        UsageInfo {
            account_id,
            plan_type: None,
            primary_used_percent: None,
            primary_window_minutes: None,
            primary_resets_at: None,
            secondary_used_percent: None,
            secondary_window_minutes: None,
            secondary_resets_at: None,
            has_credits: None,
            unlimited_credits: None,
            credits_balance: None,
            error: Some(error),
        }
    }
}

/// What came of warming up all accounts
#[derive(Debug)]
pub struct WarmupSummary {
    /// Number of accounts that were targeted
    pub total_accounts: usize,
    /// Number of accounts whose request succeeded
    pub warmed_accounts: usize,
    /// The accounts whose request failed
    pub failed_account_ids: Vec<String>,
}

/// What came of an import
#[derive(Debug, Clone, Copy, PartialEq, Eq, Structural)]
pub struct ImportAccountsSummary {
    /// Number of accounts in the payload
    pub total_in_payload: usize,
    /// Number of accounts that were added
    pub imported_count: usize,
    /// Number of accounts that were there already
    pub skipped_count: usize,
}

/// What the frontend needs for an OAuth login
#[derive(Debug)]
pub struct OAuthLoginInfo {
    /// The authorization URL to open in a browser
    pub auth_url: String,
    /// The local callback port
    pub callback_port: u16,
}

/// Rate limits, as the server sends them
#[derive(Debug)]
pub struct RateLimitStatusPayload {
    pub plan_type: String,
    pub rate_limit: Option<RateLimitDetails>,
    pub credits: Option<CreditStatusDetails>,
}

#[derive(Debug)]
pub struct RateLimitDetails {
    pub primary_window: Option<RateLimitWindow>,
    pub secondary_window: Option<RateLimitWindow>,
}

#[derive(Debug, Clone, Copy, PartialEq, Eq, Structural)]
pub struct RateLimitWindow {
    pub used_percent: Percent,
    pub limit_window_seconds: Option<i32>,
    pub window_duration_mins: Option<i64>,
    pub reset_at: Option<i64>,
}

#[derive(Debug)]
pub struct CreditStatusDetails {
    pub has_credits: bool,
    pub unlimited: bool,
    pub balance: Option<String>,
}

/// An account holds the credentials that it is made with, under the name it is made with.
/// It was never switched to.
pub proof fn law_new_accounts_hold_their_credentials(
    id: String,
    created_at: Timestamp,
    name: String,
    email: Option<String>,
    plan_type: Option<String>,
    subscription_expires_at: Option<Timestamp>,
    key: String,
    id_token: String,
    access_token: String,
    refresh_token: String,
    account_id: Option<String>,
)
    ensures
        ({
            let account = api_key_account(id, created_at, name, key);
            &&& account.id == id
            &&& account.name == name
            &&& account.created_at == created_at
            &&& account.auth_mode == AuthMode::ApiKey
            &&& account.auth_data is ApiKey
            &&& account.auth_data->ApiKey_key == key
            &&& account.email is None && account.plan_type is None
            &&& account.last_used_at is None
        }),
        ({
            let account = chatgpt_account(
                id,
                created_at,
                name,
                email,
                plan_type,
                subscription_expires_at,
                id_token,
                access_token,
                refresh_token,
                account_id,
            );
            &&& account.id == id
            &&& account.name == name
            &&& account.created_at == created_at
            &&& account.email == email
            &&& account.plan_type == plan_type
            &&& account.subscription_expires_at == subscription_expires_at
            &&& account.auth_mode == AuthMode::ChatGPT
            &&& account.auth_data is ChatGPT
            &&& account.auth_data->ChatGPT_id_token == id_token
            &&& account.auth_data->ChatGPT_access_token == access_token
            &&& account.auth_data->ChatGPT_refresh_token == refresh_token
            &&& account.auth_data->ChatGPT_account_id == account_id
            &&& account.last_used_at is None
        }),
{
}

/// Usage that is not known shows nothing but the account, the plan and the reason.
pub proof fn law_unknown_usage_shows_nothing(
    account_id: String,
    plan_type: Option<String>,
    error: Option<String>,
)
    ensures
        ({
            let usage = unknown_usage(account_id, plan_type, error);
            &&& usage.account_id == account_id
            &&& usage.plan_type == plan_type
            &&& usage.error == error
            &&& usage.primary_used_percent is None && usage.secondary_used_percent is None
            &&& usage.primary_window_minutes is None && usage.secondary_window_minutes is None
            &&& usage.primary_resets_at is None && usage.secondary_resets_at is None
            &&& usage.has_credits is None && usage.unlimited_credits is None
            &&& usage.credits_balance is None
        }),
{
}

} // verus!
