//! What the tokens of an account say of it.

use vstd::prelude::*;

use crate::clock;
use crate::clock::Timestamp;
use crate::encoding;
use crate::json;
use crate::json::Json;
use crate::json::JsonView;
use crate::text;
use crate::types::AuthData;
use crate::types::AuthMode;
use crate::types::StoredAccount;
use crate::words;

verus! {

/// How long before its end a token counts as expired, in seconds.
pub const EXPIRY_SKEW_SECONDS: i64 = 60;

/// What a ChatGPT ID token says
#[derive(Debug)]
pub struct ChatGptIdTokenClaims {
    pub email: Option<String>,
    pub plan_type: Option<String>,
    pub account_id: Option<String>,
    pub subscription_expires_at: Option<Timestamp>,
}

/// What a ChatGPT ID token says.
pub struct IdClaims {
    pub email: Option<Seq<char>>,
    pub plan_type: Option<Seq<char>>,
    pub account_id: Option<Seq<char>>,
    pub subscription_expires_at: Option<Timestamp>,
}

impl View for ChatGptIdTokenClaims {
    type V = IdClaims;

    open spec fn view(&self) -> IdClaims {
        IdClaims {
            email: text::opt_text(self.email),
            plan_type: text::opt_text(self.plan_type),
            account_id: text::opt_text(self.account_id),
            subscription_expires_at: self.subscription_expires_at,
        }
    }
}

/// What a Codex access token says
#[derive(Debug)]
pub struct CodexAccessTokenClaims {
    pub email: Option<String>,
    pub plan_type: Option<String>,
    pub account_id: Option<String>,
    pub agent_runtime_id: Option<String>,
    pub agent_private_key: Option<String>,
    pub chatgpt_user_id: Option<String>,
    pub chatgpt_account_is_fedramp: bool,
}

/// What a Codex access token says.
pub struct AccessClaims {
    pub email: Option<Seq<char>>,
    pub plan_type: Option<Seq<char>>,
    pub account_id: Option<Seq<char>>,
    pub agent_runtime_id: Option<Seq<char>>,
    pub agent_private_key: Option<Seq<char>>,
    pub chatgpt_user_id: Option<Seq<char>>,
    pub chatgpt_account_is_fedramp: bool,
}

impl View for CodexAccessTokenClaims {
    type V = AccessClaims;

    open spec fn view(&self) -> AccessClaims {
        AccessClaims {
            email: text::opt_text(self.email),
            plan_type: text::opt_text(self.plan_type),
            account_id: text::opt_text(self.account_id),
            agent_runtime_id: text::opt_text(self.agent_runtime_id),
            agent_private_key: text::opt_text(self.agent_private_key),
            chatgpt_user_id: text::opt_text(self.chatgpt_user_id),
            chatgpt_account_is_fedramp: self.chatgpt_account_is_fedramp,
        }
    }
}

pub open spec fn no_id_claims() -> IdClaims {
    IdClaims { email: None, plan_type: None, account_id: None, subscription_expires_at: None }
}

pub open spec fn no_access_claims() -> AccessClaims {
    AccessClaims {
        email: None,
        plan_type: None,
        account_id: None,
        agent_runtime_id: None,
        agent_private_key: None,
        chatgpt_user_id: None,
        chatgpt_account_is_fedramp: false,
    }
}

impl Default for ChatGptIdTokenClaims {
    fn default() -> (r: Self)
        ensures
            r@ == no_id_claims(),
    {
        ChatGptIdTokenClaims {
            email: None,
            plan_type: None,
            account_id: None,
            subscription_expires_at: None,
        }
    }
}

impl Default for CodexAccessTokenClaims {
    fn default() -> (r: Self)
        ensures
            r@ == no_access_claims(),
    {
        CodexAccessTokenClaims {
            email: None,
            plan_type: None,
            account_id: None,
            agent_runtime_id: None,
            agent_private_key: None,
            chatgpt_user_id: None,
            chatgpt_account_is_fedramp: false,
        }
    }
}

// ---------------------------------------------------------------------------
// Payloads
// ---------------------------------------------------------------------------

/// The middle one of the three parts of a token.
pub open spec fn middle_part(token: Seq<char>) -> Option<Seq<char>> {
    let parts = words::split_of(token, '.');
    if parts.len() == 3 {
        Some(parts[1])
    } else {
        None
    }
}

fn token_middle(token: &str) -> (r: Option<String>)
    ensures
        text::opt_text(r) == middle_part(token@),
{
    let parts = words::split(token, '.');
    let ghost all = words::split_of(token@, '.');
    if parts.len() != 3 {
        return None;
    }
    assert(parts@[1]@ == all[1]);
    Some(parts[1].clone())
}

/// The payload of a token: the JSON document that its middle part encodes, with
/// or without padding.
pub open spec fn jwt_payload(token: Seq<char>) -> Option<JsonView> {
    match middle_part(token) {
        None => None,
        Some(part) => match encoding::base64_url_decoded(part) {
            Ok(bytes) => json::json_document(bytes),
            Err(_) => match encoding::base64_url_padded_decoded(part) {
                Some(bytes) => json::json_document(bytes),
                None => None,
            },
        },
    }
}

/// The payload of a token.
pub fn parse_jwt_payload(token: &str) -> (r: Option<Json>)
    ensures
        json::opt_json(r) == jwt_payload(token@),
{
    match token_middle(token) {
        None => None,
        Some(part) => match encoding::decode_base64_url(part.as_str()) {
            Ok(bytes) => json::parse_json(bytes.as_slice()),
            Err(_) => match encoding::decode_base64_url_padded(part.as_str()) {
                Some(bytes) => json::parse_json(bytes.as_slice()),
                None => None,
            },
        },
    }
}

// ---------------------------------------------------------------------------
// Claims
// ---------------------------------------------------------------------------

/// The claims in the payload of a Codex access token.
pub open spec fn access_claims(payload: JsonView) -> AccessClaims {
    AccessClaims {
        email: payload.member_text("email"@),
        plan_type: payload.member_text("plan_type"@),
        account_id: payload.member_text("account_id"@),
        agent_runtime_id: payload.member_text("agent_runtime_id"@),
        agent_private_key: payload.member_text("agent_private_key"@),
        chatgpt_user_id: payload.member_text("chatgpt_user_id"@),
        chatgpt_account_is_fedramp: payload.member_flag("chatgpt_account_is_fedramp"@),
    }
}

/// The claims of a Codex access token; none where it is not a token with a
/// payload.
pub open spec fn access_token_claims(token: Seq<char>) -> AccessClaims {
    match jwt_payload(token) {
        Some(payload) => access_claims(payload),
        None => no_access_claims(),
    }
}

/// The claims in the payload of a Codex access token.
pub fn read_codex_access_claims(payload: &Json) -> (r: CodexAccessTokenClaims)
    ensures
        r@ == access_claims(payload@),
{
    CodexAccessTokenClaims {
        email: payload.get_text("email"),
        plan_type: payload.get_text("plan_type"),
        account_id: payload.get_text("account_id"),
        agent_runtime_id: payload.get_text("agent_runtime_id"),
        agent_private_key: payload.get_text("agent_private_key"),
        chatgpt_user_id: payload.get_text("chatgpt_user_id"),
        chatgpt_account_is_fedramp: payload.get_flag("chatgpt_account_is_fedramp"),
    }
}

/// The claims of a Codex access token.
pub fn parse_codex_access_token_claims(token: &str) -> (r: CodexAccessTokenClaims)
    ensures
        r@ == access_token_claims(token@),
{
    match parse_jwt_payload(token) {
        Some(payload) => read_codex_access_claims(&payload),
        None => CodexAccessTokenClaims::default(),
    }
}

/// The claims in the payload of a ChatGPT ID token.
pub open spec fn id_claims(payload: JsonView) -> IdClaims {
    let email = payload.member_text("email"@);
    match payload.member("https://api.openai.com/auth"@) {
        None => IdClaims { email, ..no_id_claims() },
        Some(auth) => IdClaims {
            email,
            plan_type: auth.member_text("chatgpt_plan_type"@),
            account_id: auth.member_text("chatgpt_account_id"@),
            subscription_expires_at: match auth.member_text(
                "chatgpt_subscription_active_until"@,
            ) {
                Some(instant) => clock::rfc3339_instant(instant),
                None => None,
            },
        },
    }
}

/// The claims of a ChatGPT ID token; none where it is not a token with a payload.
pub open spec fn id_token_claims(token: Seq<char>) -> IdClaims {
    match jwt_payload(token) {
        Some(payload) => id_claims(payload),
        None => no_id_claims(),
    }
}

/// The claims in the payload of a ChatGPT ID token.
pub fn read_chatgpt_id_claims(payload: &Json) -> (r: ChatGptIdTokenClaims)
    ensures
        r@ == id_claims(payload@),
{
    let email = payload.get_text("email");
    match payload.get("https://api.openai.com/auth") {
        None => ChatGptIdTokenClaims {
            email,
            plan_type: None,
            account_id: None,
            subscription_expires_at: None,
        },
        Some(auth) => {
            let subscription_expires_at = match auth.get_text(
                "chatgpt_subscription_active_until",
            ) {
                Some(instant) => clock::parse_rfc3339(instant.as_str()),
                None => None,
            };
            ChatGptIdTokenClaims {
                email,
                plan_type: auth.get_text("chatgpt_plan_type"),
                account_id: auth.get_text("chatgpt_account_id"),
                subscription_expires_at,
            }
        },
    }
}

/// The claims of a ChatGPT ID token.
pub fn parse_chatgpt_id_token_claims(id_token: &str) -> (r: ChatGptIdTokenClaims)
    ensures
        r@ == id_token_claims(id_token@),
{
    match parse_jwt_payload(id_token) {
        Some(payload) => read_chatgpt_id_claims(&payload),
        None => ChatGptIdTokenClaims::default(),
    }
}

/// A text that is not made of three parts with dots between them says nothing: its
/// claims are empty, as those of a token without a payload.
pub proof fn law_malformed_token_has_no_claims(token: Seq<char>)
    requires
        words::split_of(token, '.').len() != 3,
    ensures
        access_token_claims(token) == no_access_claims(),
        id_token_claims(token) == no_id_claims(),
        jwt_expiry(token) is None,
{
}

// ---------------------------------------------------------------------------
// Expiry
// ---------------------------------------------------------------------------

/// When a token expires, in seconds since the epoch, where its payload, which has
/// no padding, says so.
pub open spec fn jwt_expiry(token: Seq<char>) -> Option<i64> {
    match middle_part(token) {
        None => None,
        Some(part) => match encoding::base64_url_decoded(part) {
            Err(_) => None,
            Ok(bytes) => match json::json_document(bytes) {
                None => None,
                Some(payload) => payload_expiry(payload),
            },
        },
    }
}

/// When the payload of a token says that it expires.
pub open spec fn payload_expiry(payload: JsonView) -> Option<i64> {
    match payload.member("exp"@) {
        Some(value) => value.integer(),
        None => None,
    }
}

/// When the payload of a token says that it expires.
pub fn read_expiry(payload: &Json) -> (r: Option<i64>)
    ensures
        r == payload_expiry(payload@),
{
    match payload.get("exp") {
        Some(value) => value.as_i64(),
        None => None,
    }
}

/// When a token expires, in seconds since the epoch.
pub fn parse_jwt_exp(token: &str) -> (r: Option<i64>)
    ensures
        r == jwt_expiry(token@),
{
    match token_middle(token) {
        None => None,
        Some(part) => match encoding::decode_base64_url(part.as_str()) {
            Err(_) => None,
            Ok(bytes) => match json::parse_json(bytes.as_slice()) {
                None => None,
                Some(payload) => read_expiry(&payload),
            },
        },
    }
}

/// A token that expires at `expiry` is to be replaced at `now`. One that does not
/// say when it expires is not.
pub open spec fn is_stale(expiry: Option<i64>, now: i64) -> bool {
    match expiry {
        Some(expiry) => expiry <= now + EXPIRY_SKEW_SECONDS,
        None => false,
    }
}

/// Whether a token that expires at `expiry` is to be replaced at `now`.
pub fn expired_or_near_expiry(expiry: Option<i64>, now: i64) -> (r: bool)
    ensures
        r == is_stale(expiry, now),
{
    match expiry {
        Some(expiry) => {
            if now > i64::MAX - EXPIRY_SKEW_SECONDS {
                true
            } else {
                expiry <= now + EXPIRY_SKEW_SECONDS
            }
        },
        None => false,
    }
}

/// Whether a token is to be replaced now.
pub fn token_expired_or_near_expiry(access_token: &str) -> (r: bool)
    ensures
        jwt_expiry(access_token@) is None ==> !r,
        exists|now: Timestamp| #[trigger]
            clock::is_reading(now) && r == is_stale(jwt_expiry(access_token@), now.seconds),
{
    let now = clock::utc_now();
    let r = expired_or_near_expiry(parse_jwt_exp(access_token), now.seconds);
    r
}

/// A token stays stale: once it is to be replaced, it is so at every later time.
pub proof fn law_stale_stays_stale(expiry: Option<i64>, now: i64, later: i64)
    requires
        is_stale(expiry, now),
        now <= later,
    ensures
        is_stale(expiry, later),
{
}

// ---------------------------------------------------------------------------
// Accounts from tokens
// ---------------------------------------------------------------------------

/// The account that an access token with the given claims makes.
pub open spec fn is_access_token_account(
    account: StoredAccount,
    name: Seq<char>,
    token: Seq<char>,
    claims: AccessClaims,
) -> bool {
    &&& account.name@ == name
    &&& text::opt_text(account.email) == claims.email
    &&& text::opt_text(account.plan_type) == claims.plan_type
    &&& account.subscription_expires_at is None
    &&& account.auth_mode == AuthMode::CodexAccessToken
    &&& account.last_used_at is None
    &&& account.auth_data matches AuthData::CodexAccessToken {
        token: kept,
        account_id,
        agent_runtime_id,
        agent_private_key,
        chatgpt_user_id,
        chatgpt_account_is_fedramp,
        task_id,
    } && {
        &&& kept@ == token
        &&& text::opt_text(account_id) == claims.account_id
        &&& text::opt_text(agent_runtime_id) == claims.agent_runtime_id
        &&& text::opt_text(agent_private_key) == claims.agent_private_key
        &&& text::opt_text(chatgpt_user_id) == claims.chatgpt_user_id
        &&& chatgpt_account_is_fedramp == claims.chatgpt_account_is_fedramp
        &&& task_id is None
    }
}

/// The account that an access token with the given claims makes, with the given
/// identifier and age.
pub fn access_token_account(
    id: String,
    created_at: Timestamp,
    name: String,
    token: String,
    claims: CodexAccessTokenClaims,
) -> (r: StoredAccount)
    ensures
        r.id == id,
        r.created_at == created_at,
        is_access_token_account(r, name@, token@, claims@),
{
    StoredAccount {
        id,
        name,
        email: claims.email,
        plan_type: claims.plan_type,
        subscription_expires_at: None,
        auth_mode: AuthMode::CodexAccessToken,
        auth_data: AuthData::CodexAccessToken {
            token,
            account_id: claims.account_id,
            agent_runtime_id: claims.agent_runtime_id,
            agent_private_key: claims.agent_private_key,
            chatgpt_user_id: claims.chatgpt_user_id,
            chatgpt_account_is_fedramp: claims.chatgpt_account_is_fedramp,
            task_id: None,
        },
        created_at,
        last_used_at: None,
    }
}

impl StoredAccount {
    /// A new account with a Codex access token.
    pub fn new_codex_access_token(name: String, token: String) -> (r: Self)
        ensures
            is_access_token_account(r, name@, token@, access_token_claims(token@)),
            clock::is_uuid_v4(r.id@),
            clock::is_reading(r.created_at),
    {
        let claims = parse_codex_access_token_claims(token.as_str());
        access_token_account(clock::new_id(), clock::utc_now(), name, token, claims)
    }
}

// ---------------------------------------------------------------------------
// Accounts as they are shown
// ---------------------------------------------------------------------------

/// An account without its credentials
#[derive(Debug)]
pub struct AccountInfo {
    pub id: String,
    pub name: String,
    pub email: Option<String>,
    pub plan_type: Option<String>,
    pub subscription_expires_at: Option<Timestamp>,
    pub auth_mode: AuthMode,
    pub is_active: bool,
    pub created_at: Timestamp,
    pub last_used_at: Option<Timestamp>,
}

/// The end of the subscription: as it is stored, or else as the ID token says.
pub open spec fn shown_expiry(account: StoredAccount) -> Option<Timestamp> {
    match account.subscription_expires_at {
        Some(expires_at) => Some(expires_at),
        None => match account.auth_data {
            AuthData::ChatGPT { id_token, .. } => id_token_claims(
                id_token@,
            ).subscription_expires_at,
            _ => None,
        },
    }
}

/// What is shown of an account.
pub open spec fn shown(account: StoredAccount, active_id: Option<Seq<char>>) -> AccountInfo {
    AccountInfo {
        id: account.id,
        name: account.name,
        email: account.email,
        plan_type: account.plan_type,
        subscription_expires_at: shown_expiry(account),
        auth_mode: account.auth_mode,
        is_active: active_id == Some(account.id@),
        created_at: account.created_at,
        last_used_at: account.last_used_at,
    }
}

impl AccountInfo {
    /// What is shown of an account, given the identifier of the active one.
    pub fn from_stored(account: &StoredAccount, active_id: Option<&str>) -> (r: Self)
        ensures
            r == shown(*account, text::opt_str(active_id)),
    {
        let fallback = match &account.auth_data {
            AuthData::ChatGPT { id_token, .. } => parse_chatgpt_id_token_claims(
                id_token.as_str(),
            ).subscription_expires_at,
            _ => None,
        };
        let subscription_expires_at = match account.subscription_expires_at {
            Some(expires_at) => Some(expires_at),
            None => fallback,
        };
        AccountInfo {
            id: account.id.clone(),
            name: account.name.clone(),
            email: text::copy_opt(&account.email),
            plan_type: text::copy_opt(&account.plan_type),
            subscription_expires_at,
            auth_mode: account.auth_mode,
            is_active: text::same_opt(active_id, Some(account.id.as_str())),
            created_at: account.created_at,
            last_used_at: account.last_used_at,
        }
    }
}

// ---------------------------------------------------------------------------
// Laws
// ---------------------------------------------------------------------------

/// The payload of a token is what its middle part encodes.
pub proof fn law_payload_is_the_middle_part(
    head: Seq<char>,
    middle: Seq<char>,
    tail: Seq<char>,
)
    requires
        !head.contains('.'),
        !middle.contains('.'),
        !tail.contains('.'),
    ensures
        ({
            let token = head + seq!['.'] + middle + seq!['.'] + tail;
            match encoding::base64_url_decoded(middle) {
                Ok(bytes) => {
                    &&& jwt_payload(token) == json::json_document(bytes)
                    &&& json::json_document(bytes) matches Some(payload) ==> jwt_expiry(token) == (
                    match payload.member("exp"@) {
                        Some(JsonView::Number(exp)) => exp,
                        _ => None,
                    })
                },
                Err(_) => {
                    &&& encoding::base64_url_padded_decoded(middle) matches Some(bytes)
                        ==> jwt_payload(token) == json::json_document(bytes)
                    &&& encoding::base64_url_padded_decoded(middle) is None ==> jwt_payload(
                        token,
                    ) is None
                    &&& jwt_expiry(token) is None
                },
            }
        }),
{
    let token = head + seq!['.'] + middle + seq!['.'] + tail;
    assert(token =~= (head + seq!['.'] + middle) + seq!['.'] + tail);
    words::lemma_split_at(head + seq!['.'] + middle, '.', tail);
    words::lemma_split_at(head, '.', middle);
    words::lemma_uncut(head, '.');
    words::lemma_uncut(middle, '.');
    words::lemma_uncut(tail, '.');
    let parts = words::split_of(token, '.');
    assert(parts =~= seq![head, middle, tail]);
    assert(middle_part(token) == Some(middle));
}

/// Each claim of an ID token is the text of its own member: the email of the payload, and
/// the plan, the account and the end of the subscription of its part for OpenAI.
pub proof fn law_id_claims_are_members(payload: JsonView)
    ensures
        payload.member("email"@) == Some(JsonView::Text(id_claims(payload).email->0))
            || id_claims(payload).email is None,
        payload.member("email"@) matches Some(JsonView::Text(email)) ==> id_claims(payload).email
            == Some(email),
        payload.member("https://api.openai.com/auth"@) is None ==> id_claims(payload).plan_type is None
            && id_claims(payload).account_id is None && id_claims(
            payload,
        ).subscription_expires_at is None,
        payload.member("https://api.openai.com/auth"@) matches Some(auth) ==> {
            &&& auth.member("chatgpt_plan_type"@) matches Some(JsonView::Text(plan)) ==> id_claims(
                payload,
            ).plan_type == Some(plan)
            &&& auth.member("chatgpt_plan_type"@) is None ==> id_claims(payload).plan_type is None
            &&& auth.member("chatgpt_account_id"@) matches Some(JsonView::Text(account))
                ==> id_claims(payload).account_id == Some(account)
            &&& auth.member("chatgpt_account_id"@) is None ==> id_claims(payload).account_id is None
            &&& auth.member("chatgpt_subscription_active_until"@) matches Some(
                JsonView::Text(until),
            ) ==> id_claims(payload).subscription_expires_at == clock::rfc3339_instant(until)
            &&& auth.member("chatgpt_subscription_active_until"@) is None ==> id_claims(
                payload,
            ).subscription_expires_at is None
        },
{
}

/// Each claim of an access token is the text of its own member; what is missing or of
/// another kind is not claimed.
pub proof fn law_access_claims_are_members(payload: JsonView)
    ensures
        ({
            let claims = access_claims(payload);
            let said = |key: Seq<char>|
                match payload.member(key) {
                    Some(JsonView::Text(value)) => Some(value),
                    _ => None,
                };
            &&& claims.email == said("email"@)
            &&& claims.plan_type == said("plan_type"@)
            &&& claims.account_id == said("account_id"@)
            &&& claims.agent_runtime_id == said("agent_runtime_id"@)
            &&& claims.agent_private_key == said("agent_private_key"@)
            &&& claims.chatgpt_user_id == said("chatgpt_user_id"@)
            &&& claims.chatgpt_account_is_fedramp <==> payload.member(
                "chatgpt_account_is_fedramp"@,
            ) == Some(JsonView::Bool(true))
        }),
{
}

/// A token is to be replaced from a minute before it expires.
pub proof fn law_tokens_expire_a_minute_early(expiry: i64, now: i64)
    ensures
        is_stale(Some(expiry), now) <==> expiry - now <= 60,
        !is_stale(None, now),
{
}

/// The account that an access token makes holds the token and what its claims say, and has
/// no task yet.
pub proof fn law_access_token_account_holds_the_claims(
    account: StoredAccount,
    name: Seq<char>,
    token: Seq<char>,
    claims: AccessClaims,
)
    requires
        is_access_token_account(account, name, token, claims),
    ensures
        account.name@ == name,
        account.auth_mode == AuthMode::CodexAccessToken,
        text::opt_text(account.email) == claims.email,
        text::opt_text(account.plan_type) == claims.plan_type,
        account.subscription_expires_at is None,
        account.last_used_at is None,
        account.auth_data is CodexAccessToken,
        account.auth_data->CodexAccessToken_token@ == token,
        text::opt_text(account.auth_data->CodexAccessToken_account_id) == claims.account_id,
        text::opt_text(account.auth_data->agent_runtime_id) == claims.agent_runtime_id,
        text::opt_text(account.auth_data->agent_private_key) == claims.agent_private_key,
        text::opt_text(account.auth_data->chatgpt_user_id) == claims.chatgpt_user_id,
        account.auth_data->chatgpt_account_is_fedramp == claims.chatgpt_account_is_fedramp,
        account.auth_data->task_id is None,
{
}

/// An account is shown as it is stored, without its credentials, and as active exactly
/// where its identifier is that of the active account. The end of the subscription is the
/// stored one, or else the one of the ID token.
pub proof fn law_accounts_are_shown_as_stored(account: StoredAccount, active_id: Option<Seq<char>>)
    ensures
        ({
            let info = shown(account, active_id);
            &&& info.id == account.id
            &&& info.name == account.name
            &&& info.email == account.email
            &&& info.plan_type == account.plan_type
            &&& info.auth_mode == account.auth_mode
            &&& info.created_at == account.created_at
            &&& info.last_used_at == account.last_used_at
            &&& info.is_active <==> active_id == Some(account.id@)
            &&& account.subscription_expires_at is Some ==> info.subscription_expires_at
                == account.subscription_expires_at
            &&& account.subscription_expires_at is None && account.auth_data is ChatGPT
                ==> info.subscription_expires_at == id_token_claims(
                account.auth_data->ChatGPT_id_token@,
            ).subscription_expires_at
            &&& account.subscription_expires_at is None && !(account.auth_data is ChatGPT)
                ==> info.subscription_expires_at is None
        }),
{
}

} // verus!
