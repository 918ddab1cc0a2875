//! The auth.json of the Codex CLI: what a switch writes, and what an import reads.

use vstd::prelude::*;

use crate::claims;
use crate::claims::IdClaims;
use crate::clock;
use crate::clock::Timestamp;
use crate::json::Json;
use crate::json::JsonView;
use crate::text;
use crate::types;
use crate::types::AuthData;
use crate::types::AuthDotJson;
use crate::types::AuthMode;
use crate::types::AuthView;
use crate::types::StoredAccount;
use crate::types::TokenData;
use crate::types::TokenView;
use crate::words;

verus! {

/// What stands in place of an access token.
pub const REDACTED: &'static str = "[redacted access token]";

// ---------------------------------------------------------------------------
// Switching
// ---------------------------------------------------------------------------

/// An auth.json that says nothing.
pub open spec fn empty_auth() -> AuthView {
    AuthView {
        auth_mode: None,
        openai_api_key: None,
        tokens: None,
        last_refresh: None,
        agent_identity: None,
        personal_access_token: None,
    }
}

/// The auth.json for an access token: personal tokens start with `at-`, all others
/// are agent identities.
pub open spec fn access_token_auth(token: Seq<char>) -> AuthView {
    let trimmed = text::trim_of(token);
    if text::starts_with_of(trimmed, "at-"@) {
        AuthView { personal_access_token: Some(trimmed), ..empty_auth() }
    } else {
        AuthView {
            auth_mode: Some("agentIdentity"@),
            agent_identity: Some(JsonView::Text(trimmed)),
            ..empty_auth()
        }
    }
}

/// The auth.json for an account.
pub open spec fn auth_of(account: StoredAccount, now: Timestamp) -> AuthView {
    match account.auth_data {
        AuthData::ApiKey { key } => AuthView { openai_api_key: Some(key@), ..empty_auth() },
        AuthData::ChatGPT { id_token, access_token, refresh_token, account_id } => AuthView {
            tokens: Some(
                TokenView {
                    id_token: id_token@,
                    access_token: access_token@,
                    refresh_token: refresh_token@,
                    account_id: text::opt_text(account_id),
                },
            ),
            last_refresh: Some(now),
            ..empty_auth()
        },
        AuthData::CodexAccessToken { token, .. } => access_token_auth(token@),
    }
}

/// The auth.json for an access token.
pub fn create_access_token_auth_json(token: &str) -> (r: AuthDotJson)
    ensures
        r@ == access_token_auth(token@),
{
    let trimmed = text::trim(token);
    if text::starts_with_text(trimmed.as_str(), "at-") {
        AuthDotJson {
            auth_mode: None,
            openai_api_key: None,
            tokens: None,
            last_refresh: None,
            agent_identity: None,
            personal_access_token: Some(trimmed),
        }
    } else {
        AuthDotJson {
            auth_mode: Some("agentIdentity".to_string()),
            openai_api_key: None,
            tokens: None,
            last_refresh: None,
            agent_identity: Some(Json::Text(trimmed)),
            personal_access_token: None,
        }
    }
}

/// The auth.json for an account, written at `now`.
pub fn create_auth_json(account: &StoredAccount, now: Timestamp) -> (r: AuthDotJson)
    ensures
        r@ == auth_of(*account, now),
{
    match &account.auth_data {
        AuthData::ApiKey { key } => AuthDotJson {
            auth_mode: None,
            openai_api_key: Some(key.clone()),
            tokens: None,
            last_refresh: None,
            agent_identity: None,
            personal_access_token: None,
        },
        AuthData::ChatGPT { id_token, access_token, refresh_token, account_id } => AuthDotJson {
            auth_mode: None,
            openai_api_key: None,
            tokens: Some(
                TokenData {
                    id_token: id_token.clone(),
                    access_token: access_token.clone(),
                    refresh_token: refresh_token.clone(),
                    account_id: text::copy_opt(account_id),
                },
            ),
            last_refresh: Some(now),
            agent_identity: None,
            personal_access_token: None,
        },
        AuthData::CodexAccessToken { token, .. } => create_access_token_auth_json(token.as_str()),
    }
}

/// What makes an account the one that Codex uses
#[derive(Debug)]
pub enum SwitchAction {
    /// Logging in with an access token, through the Codex CLI
    LogIn(String),
    /// Writing an auth.json
    Write(AuthDotJson),
}

/// The action makes an account the one that Codex uses; there is none where its
/// access token is empty.
pub open spec fn is_switch(
    action: Option<SwitchAction>,
    account: StoredAccount,
    now: Timestamp,
) -> bool {
    match account.auth_data {
        AuthData::CodexAccessToken { token, .. } => if text::blank(token@) {
            action is None
        } else {
            action matches Some(SwitchAction::LogIn(given)) && given@ == text::trim_of(token@)
        },
        _ => action matches Some(SwitchAction::Write(auth)) && auth@ == auth_of(account, now),
    }
}

/// What makes an account the one that Codex uses, now.
pub fn switch_to_account(account: &StoredAccount) -> (r: Option<SwitchAction>)
    ensures
        exists|now: Timestamp| #[trigger] clock::is_reading(now) && is_switch(r, *account, now),
{
    let now = clock::utc_now();
    let r = switch_to_account_at(account, now);
    r
}

/// What makes an account the one that Codex uses, at `now`.
pub fn switch_to_account_at(account: &StoredAccount, now: Timestamp) -> (r: Option<SwitchAction>)
    ensures
        is_switch(r, *account, now),
{
    match &account.auth_data {
        AuthData::CodexAccessToken { token, .. } => {
            let trimmed = text::trim(token.as_str());
            proof {
                text::lemma_blank_iff_trim_empty(token@);
            }
            if trimmed.as_str().is_empty() {
                None
            } else {
                Some(SwitchAction::LogIn(trimmed))
            }
        },
        _ => Some(SwitchAction::Write(create_auth_json(account, now))),
    }
}

/// What an empty access token is answered with.
pub fn empty_access_token_message() -> (r: String)
    ensures
        r@ == "Codex access token is empty"@,
{
    "Codex access token is empty".to_string()
}

/// The output with the token replaced, wherever it stands.
pub open spec fn redacted(output: Seq<char>, token: Seq<char>) -> Seq<char> {
    words::replace_of(output, token, REDACTED@)
}

/// The output with the token replaced, wherever it stands.
pub fn redact_access_token_from_output(output: &str, token: &str) -> (r: String)
    ensures
        r@ == redacted(output@, token@),
{
    words::replace(output, token, REDACTED)
}

/// What a failed login is put down to: what was printed as an error, or else what
/// was printed, or else the exit status.
pub open spec fn login_detail(
    stderr: Seq<char>,
    stdout: Seq<char>,
    status: Seq<char>,
) -> Seq<char> {
    if !text::blank(stderr) {
        text::trim_of(stderr)
    } else if !text::blank(stdout) {
        text::trim_of(stdout)
    } else {
        "exit status "@ + status
    }
}

/// What a failed login is answered with.
pub open spec fn login_failure_text(
    stderr: Seq<char>,
    stdout: Seq<char>,
    status: Seq<char>,
    token: Seq<char>,
) -> Seq<char> {
    "Codex access token login failed: "@ + redacted(login_detail(stderr, stdout, status), token)
}

/// What a failed login is answered with. The token is replaced in it.
pub fn login_failure(stderr: &str, stdout: &str, status: &str, token: &str) -> (r: String)
    ensures
        r@ == login_failure_text(stderr@, stdout@, status@, token@),
{
    let detail = if !text::is_blank(stderr) {
        text::trim(stderr)
    } else if !text::is_blank(stdout) {
        text::trim(stdout)
    } else {
        text::joined("exit status ", status)
    };
    let detail = redact_access_token_from_output(detail.as_str(), token);
    text::joined("Codex access token login failed: ", detail.as_str())
}

/// `b`, written over `a` from place `at` on, says the same as `a` wherever it covers it.
pub open spec fn agree_at(a: Seq<char>, b: Seq<char>, at: int) -> bool {
    forall|i: int| 0 <= i < a.len() && 0 <= i - at < b.len() ==> #[trigger] a[i] == b[i - at]
}

/// `a` and `b` can share a piece of a text: an end of one is a start of the other, or
/// one is part of the other.
pub open spec fn can_overlap(a: Seq<char>, b: Seq<char>) -> bool {
    exists|at: int| -(b.len() as int) < at < a.len() && #[trigger] agree_at(a, b, at)
}

/// What is left of an output after a token was replaced does not hold the token,
/// as long as the token shares no piece with what takes its place. Where the output
/// did not hold the token, that makes no difference.
pub proof fn law_redaction_removes_the_token(output: Seq<char>, token: Seq<char>)
    requires
        token.len() > 0,
        text::has_part(output, token) ==> !can_overlap(REDACTED@, token),
    ensures
        !text::has_part(redacted(output, token), token),
    decreases output.len(),
{
    let mark = REDACTED@;
    let all = redacted(output, token);
    text::lemma_has_part_iff_found(output, token);
    text::lemma_find_from(output, token, 0);
    match text::find_of(output, token) {
        None => {},
        Some(at) => {
            let rest = output.skip(at + token.len());
            law_redaction_removes_the_token(rest, token);
            let tail = redacted(rest, token);
            assert(all == output.take(at) + mark + tail);
            let n = mark.len() as int;
            let t = token.len() as int;
            assert forall|k: int| !text::occurs_at(all, token, k) by {
                if text::occurs_at(all, token, k) {
                    let here = all.subrange(k, k + t);
                    assert(here == token);
                    if k + t <= at {
                        assert(output.subrange(k, k + t) =~= here);
                        assert(text::occurs_at(output, token, k));
                    } else if k >= at + n {
                        assert(tail.subrange(k - at - n, k - at - n + t) =~= here);
                        assert(text::occurs_at(tail, token, k - at - n));
                    } else {
                        assert forall|i: int|
                            0 <= i < n && 0 <= i - (k - at) < t implies #[trigger] mark[i]
                            == token[i - (k - at)] by {
                            assert(all[at + i] == mark[i]);
                            assert(here[at + i - k] == all[at + i]);
                        }
                        assert(agree_at(mark, token, k - at));
                    }
                }
            }
        },
    }
}

// ---------------------------------------------------------------------------
// Importing
// ---------------------------------------------------------------------------

/// Why no account can be made of an auth.json
#[derive(Debug, Clone, Copy, PartialEq, Eq, Structural)]
pub enum AuthImportError {
    UnsupportedIdentity,
    NoCredentials,
}

impl AuthImportError {
    pub open spec fn text(self) -> Seq<char> {
        match self {
            AuthImportError::UnsupportedIdentity => "auth.json agent_identity has an unsupported shape"@,
            AuthImportError::NoCredentials => "auth.json contains neither API key, tokens, nor access-token auth"@,
        }
    }

    pub fn message(&self) -> (r: String)
        ensures
            r@ == self.text(),
    {
        match self {
            AuthImportError::UnsupportedIdentity => {
                "auth.json agent_identity has an unsupported shape".to_string()
            },
            AuthImportError::NoCredentials => {
                "auth.json contains neither API key, tokens, nor access-token auth".to_string()
            },
        }
    }
}

/// The account with ChatGPT tokens and the metadata that the claims of its ID
/// token give.
pub open spec fn is_chatgpt_account(
    account: StoredAccount,
    name: Seq<char>,
    claims: IdClaims,
    tokens: TokenView,
) -> bool {
    &&& account.name@ == name
    &&& text::opt_text(account.email) == claims.email
    &&& text::opt_text(account.plan_type) == claims.plan_type
    &&& account.subscription_expires_at == claims.subscription_expires_at
    &&& account.auth_mode == AuthMode::ChatGPT
    &&& account.last_used_at is None
    &&& account.auth_data matches AuthData::ChatGPT {
        id_token,
        access_token,
        refresh_token,
        account_id,
    } && {
        &&& id_token@ == tokens.id_token
        &&& access_token@ == tokens.access_token
        &&& refresh_token@ == tokens.refresh_token
        &&& text::opt_text(account_id) == tokens.account_id
    }
}

/// The first of two that is there.
pub open spec fn either(first: Option<Seq<char>>, second: Option<Seq<char>>) -> Option<Seq<char>> {
    match first {
        Some(first) => Some(first),
        None => second,
    }
}

/// The account is the one that an auth.json makes under the given name: with its
/// API key, or else its tokens, or else its access token.
pub open spec fn is_import_of(account: StoredAccount, auth: AuthView, name: String) -> bool {
    match auth {
        AuthView { openai_api_key: Some(key), .. } => {
            &&& account.auth_data matches AuthData::ApiKey { key: kept } && kept@ == key
            &&& account == types::api_key_account(
                account.id,
                account.created_at,
                name,
                account.auth_data->key,
            )
        },
        AuthView { tokens: Some(tokens), .. } => {
            let claims = claims::id_token_claims(tokens.id_token);
            is_chatgpt_account(
                account,
                name@,
                claims,
                TokenView { account_id: either(claims.account_id, tokens.account_id), ..tokens },
            )
        },
        AuthView { agent_identity: Some(identity), .. } => identity matches JsonView::Text(token)
            && claims::is_access_token_account(
            account,
            name@,
            token,
            claims::access_token_claims(token),
        ),
        AuthView { personal_access_token: Some(token), .. } => claims::is_access_token_account(
            account,
            name@,
            token,
            claims::access_token_claims(token),
        ),
        _ => false,
    }
}

/// Why no account can be made of an auth.json.
pub open spec fn import_error(auth: AuthView) -> Option<AuthImportError> {
    if auth.openai_api_key is Some || auth.tokens is Some {
        None
    } else {
        match auth.agent_identity {
            Some(JsonView::Text(token)) => None,
            Some(_) => Some(AuthImportError::UnsupportedIdentity),
            None => if auth.personal_access_token is Some {
                None
            } else {
                Some(AuthImportError::NoCredentials)
            },
        }
    }
}

fn first_of(first: Option<String>, second: Option<String>) -> (r: Option<String>)
    ensures
        text::opt_text(r) == either(text::opt_text(first), text::opt_text(second)),
{
    match first {
        Some(first) => Some(first),
        None => second,
    }
}

/// The account that an auth.json makes under the given name.
pub fn import_from_auth_json_contents(auth: AuthDotJson, account_name: String) -> (r: Result<
    StoredAccount,
    AuthImportError,
>)
    ensures
        match r {
            Ok(account) => {
                &&& import_error(auth@) is None
                &&& is_import_of(account, auth@, account_name)
                &&& clock::is_uuid_v4(account.id@)
                &&& clock::is_reading(account.created_at)
            },
            Err(error) => import_error(auth@) == Some(error),
        },
{
    if let Some(api_key) = auth.openai_api_key {
        return Ok(StoredAccount::new_api_key(account_name, api_key));
    }
    if let Some(tokens) = auth.tokens {
        let claims = claims::parse_chatgpt_id_token_claims(tokens.id_token.as_str());
        return Ok(
            StoredAccount::new_chatgpt(
                account_name,
                claims.email,
                claims.plan_type,
                claims.subscription_expires_at,
                tokens.id_token,
                tokens.access_token,
                tokens.refresh_token,
                first_of(claims.account_id, tokens.account_id),
            ),
        );
    }
    if let Some(identity) = auth.agent_identity {
        return match identity {
            Json::Text(token) => Ok(StoredAccount::new_codex_access_token(account_name, token)),
            _ => Err(AuthImportError::UnsupportedIdentity),
        };
    }
    match auth.personal_access_token {
        Some(token) => Ok(StoredAccount::new_codex_access_token(account_name, token)),
        None => Err(AuthImportError::NoCredentials),
    }
}

/// An auth.json holds credentials.
pub open spec fn holds_credentials(auth: AuthView) -> bool {
    auth.openai_api_key is Some || auth.tokens is Some || auth.agent_identity is Some
        || auth.personal_access_token is Some
}

/// Whether Codex is logged in, given its auth.json, which may be missing.
pub fn has_active_login(auth: Option<&AuthDotJson>) -> (r: bool)
    ensures
        r == (match auth {
            Some(auth) => holds_credentials(auth@),
            None => false,
        }),
{
    match auth {
        Some(auth) => auth.openai_api_key.is_some() || auth.tokens.is_some()
            || auth.agent_identity.is_some() || auth.personal_access_token.is_some(),
        None => false,
    }
}

/// The auth.json of any account is a login.
pub proof fn law_written_auth_is_a_login(account: StoredAccount, now: Timestamp)
    ensures
        holds_credentials(auth_of(account, now)),
{
}

/// What a switch writes can be imported again, and the import restores the
/// credentials: the API key, the tokens, or the access token without the white
/// space around it.
pub proof fn law_import_restores_credentials(
    account: StoredAccount,
    now: Timestamp,
    name: String,
    imported: StoredAccount,
)
    requires
        is_import_of(imported, auth_of(account, now), name),
    ensures
        import_error(auth_of(account, now)) is None,
        match account.auth_data {
            AuthData::ApiKey { key } => imported.auth_data matches AuthData::ApiKey { key: kept }
                && kept@ == key@,
            AuthData::ChatGPT {
                id_token,
                access_token,
                refresh_token,
                account_id,
            } => imported.auth_data matches AuthData::ChatGPT {
                id_token: kept_id,
                access_token: kept_access,
                refresh_token: kept_refresh,
                account_id: kept_account,
            } && kept_id@ == id_token@ && kept_access@ == access_token@ && kept_refresh@
                == refresh_token@ && text::opt_text(kept_account) == either(
                claims::id_token_claims(id_token@).account_id,
                text::opt_text(account_id),
            ),
            AuthData::CodexAccessToken {
                token,
                ..
            } => imported.auth_data matches AuthData::CodexAccessToken { token: kept, .. }
                && kept@ == text::trim_of(token@),
        },
{
}

// ---------------------------------------------------------------------------
// Laws
// ---------------------------------------------------------------------------

/// The auth.json of an account holds its own credentials and no others: the API key, or
/// all its tokens and the time, or its access token under the name that its kind has.
pub proof fn law_auth_json_holds_the_credentials(account: StoredAccount, now: Timestamp)
    ensures
        ({
            let auth = auth_of(account, now);
            let trimmed = text::trim_of(account.auth_data->CodexAccessToken_token@);
            let personal = text::starts_with_of(trimmed, "at-"@);
            &&& account.auth_data is ApiKey ==> auth.openai_api_key == Some(
                account.auth_data->ApiKey_key@,
            )
            &&& !(account.auth_data is ApiKey) ==> auth.openai_api_key is None
            &&& account.auth_data is ChatGPT ==> {
                &&& auth.tokens matches Some(tokens)
                &&& tokens.id_token == account.auth_data->ChatGPT_id_token@
                &&& tokens.access_token == account.auth_data->ChatGPT_access_token@
                &&& tokens.refresh_token == account.auth_data->ChatGPT_refresh_token@
                &&& tokens.account_id == text::opt_text(account.auth_data->ChatGPT_account_id)
                &&& auth.last_refresh == Some(now)
            }
            &&& !(account.auth_data is ChatGPT) ==> auth.tokens is None && auth.last_refresh is None
            &&& account.auth_data is CodexAccessToken && personal ==> auth.personal_access_token
                == Some(trimmed) && auth.agent_identity is None && auth.auth_mode is None
            &&& account.auth_data is CodexAccessToken && !personal ==> auth.agent_identity == Some(
                JsonView::Text(trimmed),
            ) && auth.auth_mode == Some("agentIdentity"@) && auth.personal_access_token is None
            &&& !(account.auth_data is CodexAccessToken) ==> auth.personal_access_token is None
                && auth.agent_identity is None && auth.auth_mode is None
        }),
{
}

/// A switch writes the auth.json of the account, or logs in with its access token, without
/// the white space around it; only a blank access token makes no switch.
pub proof fn law_switch_uses_the_account(
    action: Option<SwitchAction>,
    account: StoredAccount,
    now: Timestamp,
)
    requires
        is_switch(action, account, now),
    ensures
        account.auth_data is CodexAccessToken ==> {
            let token = account.auth_data->CodexAccessToken_token@;
            &&& action is None <==> text::blank(token)
            &&& action is Some ==> (action->0 matches SwitchAction::LogIn(given) && given@
                == text::trim_of(token))
        },
        !(account.auth_data is CodexAccessToken) ==> (action matches Some(
            SwitchAction::Write(auth),
        ) && auth@ == auth_of(account, now)),
{
}

/// Redaction puts its mark where the token stands first and goes on behind it; text without
/// the token stays as it is.
pub proof fn law_redaction_keeps_the_rest(front: Seq<char>, token: Seq<char>, rest: Seq<char>)
    requires
        token.len() > 0,
        forall|i: int|
            0 <= i < front.len() ==> !text::occurs_at(front + token + rest, token, i),
    ensures
        redacted(front + token + rest, token) == front + "[redacted access token]"@ + redacted(
            rest,
            token,
        ),
        !text::has_part(rest, token) ==> redacted(rest, token) == rest,
{
    let whole = front + token + rest;
    let n = front.len() as int;
    assert(whole.subrange(n, n + token.len()) =~= token);
    assert(text::occurs_at(whole, token, n));
    text::lemma_find_from(whole, token, 0);
    let at = text::find_of(whole, token)->0;
    assert(text::occurs_at(whole, token, at));
    assert(at == n);
    assert(whole.take(n) =~= front);
    assert(whole.skip(n + token.len()) =~= rest);
    text::lemma_has_part_iff_found(rest, token);
}

/// A failed login is put down to the errors that were printed, or else to the output, or
/// else to the exit status; the token does not show in it where it can be told apart from
/// what takes its place.
pub proof fn law_login_failures_are_explained(
    stderr: Seq<char>,
    stdout: Seq<char>,
    status: Seq<char>,
    token: Seq<char>,
)
    ensures
        ({
            let answer = login_failure_text(stderr, stdout, status, token);
            let head = "Codex access token login failed: "@;
            &&& text::starts_with_of(answer, head)
            &&& !text::blank(stderr) && !text::has_part(text::trim_of(stderr), token) ==> answer
                == head + text::trim_of(stderr)
            &&& text::blank(stderr) && !text::blank(stdout) && !text::has_part(
                text::trim_of(stdout),
                token,
            ) ==> answer == head + text::trim_of(stdout)
            &&& text::blank(stderr) && text::blank(stdout) && !text::has_part(
                "exit status "@ + status,
                token,
            ) ==> answer == head + ("exit status "@ + status)
        }),
{
    let answer = login_failure_text(stderr, stdout, status, token);
    let head = "Codex access token login failed: "@;
    assert(answer.subrange(0, head.len() as int) =~= head);
    text::lemma_has_part_iff_found(text::trim_of(stderr), token);
    text::lemma_has_part_iff_found(text::trim_of(stdout), token);
    text::lemma_has_part_iff_found("exit status "@ + status, token);
}

/// An import takes the API key first, then the tokens, then the agent identity, then the
/// personal access token, under the name that was given. The account of the tokens is the
/// one that the ID token claims, or else the one beside them.
pub proof fn law_import_takes_the_credentials(
    account: StoredAccount,
    auth: AuthView,
    name: String,
)
    requires
        is_import_of(account, auth, name),
    ensures
        account.name@ == name@,
        account.last_used_at is None,
        auth.openai_api_key matches Some(key) ==> {
            &&& account.auth_mode == AuthMode::ApiKey
            &&& account.auth_data is ApiKey
            &&& account.auth_data->ApiKey_key@ == key
        },
        auth.openai_api_key is None ==> (auth.tokens matches Some(tokens) ==> {
            let claims = claims::id_token_claims(tokens.id_token);
            &&& account.auth_mode == AuthMode::ChatGPT
            &&& account.auth_data is ChatGPT
            &&& account.auth_data->ChatGPT_id_token@ == tokens.id_token
            &&& account.auth_data->ChatGPT_access_token@ == tokens.access_token
            &&& account.auth_data->ChatGPT_refresh_token@ == tokens.refresh_token
            &&& claims.account_id is Some ==> text::opt_text(
                account.auth_data->ChatGPT_account_id,
            ) == claims.account_id
            &&& claims.account_id is None ==> text::opt_text(
                account.auth_data->ChatGPT_account_id,
            ) == tokens.account_id
            &&& text::opt_text(account.email) == claims.email
            &&& text::opt_text(account.plan_type) == claims.plan_type
            &&& account.subscription_expires_at == claims.subscription_expires_at
        }),
        auth.openai_api_key is None && auth.tokens is None ==> {
            &&& account.auth_mode == AuthMode::CodexAccessToken
            &&& account.auth_data is CodexAccessToken
            &&& auth.agent_identity is Some ==> auth.agent_identity == Some(
                JsonView::Text(account.auth_data->CodexAccessToken_token@),
            )
            &&& auth.agent_identity is None ==> auth.personal_access_token == Some(
                account.auth_data->CodexAccessToken_token@,
            )
        },
{
}

/// An auth.json is refused exactly where it holds no credentials, or where an agent
/// identity is all it holds and is not a text.
pub proof fn law_import_needs_credentials(auth: AuthView)
    ensures
        import_error(auth) == Some(AuthImportError::NoCredentials) <==> auth.openai_api_key is None
            && auth.tokens is None && auth.agent_identity is None
            && auth.personal_access_token is None,
        import_error(auth) == Some(AuthImportError::UnsupportedIdentity)
            <==> auth.openai_api_key is None && auth.tokens is None && auth.agent_identity is Some
            && !(auth.agent_identity->0 is Text),
        holds_credentials(auth) <==> import_error(auth) != Some(AuthImportError::NoCredentials),
{
}

/// The account with ChatGPT tokens that is made under a name holds them, and what the
/// claims of its ID token say.
pub proof fn law_chatgpt_account_holds_the_tokens(
    account: StoredAccount,
    name: Seq<char>,
    claims: IdClaims,
    tokens: TokenView,
)
    requires
        is_chatgpt_account(account, name, claims, tokens),
    ensures
        account.name@ == name,
        account.auth_mode == AuthMode::ChatGPT,
        account.auth_data is ChatGPT,
        account.auth_data->ChatGPT_id_token@ == tokens.id_token,
        account.auth_data->ChatGPT_access_token@ == tokens.access_token,
        account.auth_data->ChatGPT_refresh_token@ == tokens.refresh_token,
        text::opt_text(account.auth_data->ChatGPT_account_id) == tokens.account_id,
        text::opt_text(account.email) == claims.email,
        text::opt_text(account.plan_type) == claims.plan_type,
        account.subscription_expires_at == claims.subscription_expires_at,
        account.last_used_at is None,
{
}

} // verus!
