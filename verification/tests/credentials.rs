use base64::Engine;
use ed25519_dalek::pkcs8::EncodePrivateKey;
use ed25519_dalek::{Signature, SigningKey, Verifier};
use reqwest::header::AUTHORIZATION;

use codex_switcher::agent::{
    agent_timestamp, authorization_header_at, authorization_header_for_agent_task,
    curve25519_secret_key_from_signing_key, decrypt_task_id_response, registration_failure,
    registration_request, registration_url, sign_agent_identity_payload,
    sign_task_registration_payload, signing_key_from_private_key_pkcs8_base64,
    task_id_from_register_task_response, AgentError, RegisterTaskResponse,
};
use codex_switcher::auth_file::{
    create_access_token_auth_json, create_auth_json, has_active_login,
    import_from_auth_json_contents, login_failure, redact_access_token_from_output,
    switch_to_account, switch_to_account_at, AuthImportError, SwitchAction,
};
use codex_switcher::claims::{
    expired_or_near_expiry, parse_chatgpt_id_token_claims, parse_codex_access_token_claims,
    parse_jwt_exp, parse_jwt_payload, token_expired_or_near_expiry, AccountInfo,
};
use codex_switcher::clock::Timestamp;
use codex_switcher::json::Json;
use codex_switcher::requests::{
    access_headers_at, build_chatgpt_headers, build_codex_access_token_headers, codex_access,
    codex_usage_url, extract_chatgpt_auth, AgentAccess, CodexAccess, HeaderStep, RequestError,
};
use codex_switcher::token_refresh::{
    apply_refreshed_tokens, check_refresh_token, create_chatgpt_account_from_refresh_token,
    ensure_chatgpt_tokens_fresh, needs_refresh_at, refresh_chatgpt_tokens, refresh_request_body,
    refresh_request_url, refresh_tokens_with_refresh_token, RefreshEvent, RefreshPlan,
    RefreshStep, RefreshTokenResponse, RestoreFailure,
};
use codex_switcher::types::{
    AccountsStore, AuthData, AuthDotJson, AuthMode, StoredAccount, TokenData,
};

fn jwt(payload: &str) -> String {
    let encoded = base64::engine::general_purpose::URL_SAFE_NO_PAD.encode(payload);
    format!("header.{encoded}.signature")
}

fn private_key(seed: u8) -> String {
    let signing_key = SigningKey::from_bytes(&[seed; 32]);
    let private_key = signing_key.to_pkcs8_der().unwrap();
    base64::engine::general_purpose::STANDARD.encode(private_key.as_bytes())
}

fn chatgpt(access_token: &str, refresh_token: &str) -> StoredAccount {
    StoredAccount::new_chatgpt(
        "chat".to_string(),
        Some("old@example.com".to_string()),
        Some("plus".to_string()),
        None,
        "id".to_string(),
        access_token.to_string(),
        refresh_token.to_string(),
        Some("acc".to_string()),
    )
}

fn agent_account(key: &str, task_id: Option<&str>) -> StoredAccount {
    let sample_access_token = ["header", "payload", "signature"].join(".");
    StoredAccount {
        id: "agent-account".to_string(),
        name: "agent".to_string(),
        email: Some("agent@example.com".to_string()),
        plan_type: Some("k12".to_string()),
        subscription_expires_at: None,
        auth_mode: AuthMode::CodexAccessToken,
        auth_data: AuthData::CodexAccessToken {
            token: sample_access_token,
            account_id: Some("account-123".to_string()),
            agent_runtime_id: Some("agent-runtime-123".to_string()),
            agent_private_key: Some(key.to_string()),
            chatgpt_user_id: Some("user-123".to_string()),
            chatgpt_account_is_fedramp: false,
            task_id: task_id.map(|id| id.to_string()),
        },
        created_at: Timestamp { seconds: 0, nanos: 0 },
        last_used_at: None,
    }
}

fn header<'a>(headers: &'a reqwest::header::HeaderMap, name: &str) -> Option<&'a str> {
    headers.get(name).and_then(|value| value.to_str().ok())
}

fn rfc3339(time: Timestamp) -> String {
    chrono::DateTime::from_timestamp(time.seconds, time.nanos)
        .unwrap()
        .to_rfc3339()
}

// ---------------------------------------------------------------------------
// Claims
// ---------------------------------------------------------------------------

#[test]
fn parses_subscription_expiry_from_realistic_id_token_claims() {
    let payload = r#"{"email":"user@example.com","https://api.openai.com/auth":{"chatgpt_plan_type":"plus","chatgpt_account_id":"acc_123","chatgpt_subscription_active_until":"2026-04-23T05:03:38+00:00"}}"#;
    let encoded = base64::engine::general_purpose::URL_SAFE_NO_PAD.encode(payload);
    let token = format!("header.{encoded}.signature");

    let claims = parse_chatgpt_id_token_claims(&token);

    assert_eq!(claims.email.as_deref(), Some("user@example.com"));
    assert_eq!(claims.plan_type.as_deref(), Some("plus"));
    assert_eq!(claims.account_id.as_deref(), Some("acc_123"));
    assert_eq!(
        claims.subscription_expires_at.map(rfc3339),
        Some("2026-04-23T05:03:38+00:00".to_string())
    );
}

#[test]
fn creates_codex_access_token_account_from_jwt_claims() {
    let payload = r#"{"account_id":"acc_env_123","agent_runtime_id":"agent-runtime-123","agent_private_key":"private-key","chatgpt_user_id":"user-123","chatgpt_account_is_fedramp":true,"email":"token-user@example.com","plan_type":"team","exp":2098606399}"#;
    let encoded = base64::engine::general_purpose::URL_SAFE_NO_PAD.encode(payload);
    let token = format!("header.{encoded}.signature");

    let account = StoredAccount::new_codex_access_token("Env Account".to_string(), token.clone());

    assert_eq!(account.name, "Env Account");
    assert_eq!(account.email.as_deref(), Some("token-user@example.com"));
    assert_eq!(account.plan_type.as_deref(), Some("team"));
    assert_eq!(account.auth_mode, AuthMode::CodexAccessToken);
    match account.auth_data {
        AuthData::CodexAccessToken {
            token: stored_token,
            account_id,
            agent_runtime_id,
            agent_private_key,
            chatgpt_user_id,
            chatgpt_account_is_fedramp,
            task_id,
        } => {
            assert_eq!(stored_token, token);
            assert_eq!(account_id.as_deref(), Some("acc_env_123"));
            assert_eq!(agent_runtime_id.as_deref(), Some("agent-runtime-123"));
            assert_eq!(agent_private_key.as_deref(), Some("private-key"));
            assert_eq!(chatgpt_user_id.as_deref(), Some("user-123"));
            assert!(chatgpt_account_is_fedramp);
            assert_eq!(task_id, None);
        }
        other => panic!("expected CodexAccessToken auth data, got {other:?}"),
    }
}

#[test]
fn malformed_tokens_have_no_claims() {
    for token in ["", "a.b", "a.b.c.d", "a.*.c", "a.e30.c", "a.W10.c"] {
        let claims = parse_codex_access_token_claims(token);
        assert_eq!(claims.email, None);
        assert!(!claims.chatgpt_account_is_fedramp);
        assert_eq!(parse_chatgpt_id_token_claims(token).email, None);
        assert_eq!(parse_jwt_exp(token), None);
    }
    assert!(parse_jwt_payload("a.b").is_none());
    assert!(matches!(parse_jwt_payload("a.e30.c"), Some(Json::Object(_))));
}

#[test]
fn padded_payloads_have_claims() {
    let payload = r#"{"email":"a","exp":9}"#;
    let padded = base64::engine::general_purpose::URL_SAFE.encode(format!("{payload} "));
    assert!(padded.ends_with('='));
    let token = format!("h.{padded}.s");
    assert_eq!(
        parse_codex_access_token_claims(&token).email.as_deref(),
        Some("a")
    );
    assert_eq!(
        parse_chatgpt_id_token_claims(&token).email.as_deref(),
        Some("a")
    );
    assert_eq!(parse_jwt_exp(&token), None);
    assert_eq!(parse_jwt_exp(&jwt(payload)), Some(9));
}

#[test]
fn tokens_are_stale_from_a_minute_before_their_expiry() {
    assert_eq!(parse_jwt_exp(&jwt(r#"{"exp":1000}"#)), Some(1000));
    assert_eq!(parse_jwt_exp(&jwt(r#"{"exp":"1000"}"#)), None);
    assert_eq!(parse_jwt_exp(&jwt(r#"{"exp":1000.5}"#)), None);
    assert!(!expired_or_near_expiry(Some(1000), 939));
    assert!(expired_or_near_expiry(Some(1000), 940));
    assert!(expired_or_near_expiry(Some(1000), 2000));
    assert!(!expired_or_near_expiry(None, 2000));
    assert!(!expired_or_near_expiry(Some(i64::MAX), i64::MAX - 61));
    assert!(expired_or_near_expiry(Some(i64::MIN), i64::MIN));
    assert!(token_expired_or_near_expiry(&jwt(r#"{"exp":1000}"#)));
    assert!(!token_expired_or_near_expiry("opaque"));
}

#[test]
fn accounts_are_shown_with_the_expiry_of_their_token() {
    let mut account = chatgpt("a", "r");
    account.subscription_expires_at = Some(Timestamp { seconds: 7, nanos: 0 });
    let info = AccountInfo::from_stored(&account, Some(account.id.as_str()));
    assert!(info.is_active);
    assert_eq!(
        info.subscription_expires_at,
        Some(Timestamp { seconds: 7, nanos: 0 })
    );
    let payload = r#"{"https://api.openai.com/auth":{"chatgpt_subscription_active_until":"1970-01-01T00:00:09Z"}}"#;
    if let AuthData::ChatGPT { id_token, .. } = &mut account.auth_data {
        *id_token = jwt(payload);
    }
    account.subscription_expires_at = None;
    let info = AccountInfo::from_stored(&account, None);
    assert!(!info.is_active);
    assert_eq!(
        info.subscription_expires_at,
        Some(Timestamp { seconds: 9, nanos: 0 })
    );
}

// ---------------------------------------------------------------------------
// The login file
// ---------------------------------------------------------------------------

#[test]
fn redacts_access_token_from_cli_error_output() {
    let marker = ["sample", "token", "value"].join("-");
    let output = format!("login failed for {marker}");

    assert_eq!(
        redact_access_token_from_output(&output, &marker),
        "login failed for [redacted access token]"
    );
}

#[test]
fn empty_tokens_redact_nothing() {
    assert_eq!(redact_access_token_from_output("  out\n", ""), "  out\n");
    assert_eq!(
        redact_access_token_from_output("a-t-a-t", "t"),
        "a-[redacted access token]-a-[redacted access token]"
    );
}

#[test]
fn failed_logins_are_explained_without_the_token() {
    assert_eq!(
        login_failure("bad tok", "out", "1", "tok"),
        "Codex access token login failed: bad [redacted access token]"
    );
    assert_eq!(
        login_failure(" \n", "out tok", "1", "tok"),
        "Codex access token login failed: out [redacted access token]"
    );
    assert_eq!(
        login_failure("", "", "1", "tok"),
        "Codex access token login failed: exit status 1"
    );
}

#[test]
fn creates_agent_identity_auth_json_for_codex_access_token_jwt() {
    let sample_access_token = ["header", "payload", "signature"].join(".");
    let auth = create_access_token_auth_json(&sample_access_token);

    assert_eq!(auth.auth_mode.as_deref(), Some("agentIdentity"));
    assert_eq!(
        auth.agent_identity
            .as_ref()
            .and_then(|value| value.as_str()),
        Some(sample_access_token.as_str())
    );
    assert!(auth.tokens.is_none());
    assert!(auth.personal_access_token.is_none());
}

#[test]
fn switching_writes_the_login_file_or_logs_in() {
    let now = Timestamp { seconds: 3, nanos: 4 };
    let api = StoredAccount::new_api_key("api".to_string(), "sk".to_string());
    match switch_to_account_at(&api, now) {
        Some(SwitchAction::Write(auth)) => {
            assert_eq!(auth.openai_api_key.as_deref(), Some("sk"));
            assert!(auth.tokens.is_none());
            assert_eq!(auth.last_refresh, None);
            assert!(has_active_login(Some(&auth)));
        }
        other => panic!("unexpected action: {other:?}"),
    }
    match switch_to_account_at(&chatgpt("a", "r"), now) {
        Some(SwitchAction::Write(auth)) => {
            assert_eq!(auth.last_refresh, Some(now));
            let tokens = auth.tokens.unwrap();
            assert_eq!(tokens.access_token, "a");
            assert_eq!(tokens.account_id.as_deref(), Some("acc"));
        }
        other => panic!("unexpected action: {other:?}"),
    }
    let token = |t: &str| StoredAccount::new_codex_access_token("t".to_string(), t.to_string());
    assert!(matches!(
        switch_to_account(&token(" at-1 ")),
        Some(SwitchAction::LogIn(t)) if t == "at-1"
    ));
    assert!(switch_to_account(&token(" ")).is_none());
    assert!(matches!(
        switch_to_account(&token("header.payload.signature")),
        Some(SwitchAction::LogIn(t)) if t == "header.payload.signature"
    ));
    let personal = create_auth_json(&token(" at-1 "), now);
    assert_eq!(personal.personal_access_token.as_deref(), Some("at-1"));
    assert!(personal.agent_identity.is_none());
}

fn no_login() -> AuthDotJson {
    AuthDotJson {
        auth_mode: None,
        openai_api_key: None,
        tokens: None,
        last_refresh: None,
        agent_identity: None,
        personal_access_token: None,
    }
}

#[test]
fn login_files_give_their_credentials_back() {
    let account = chatgpt("a", "r");
    let auth = create_auth_json(&account, Timestamp { seconds: 1, nanos: 0 });
    let read = import_from_auth_json_contents(auth, "copy".to_string()).unwrap();
    assert_eq!(read.name, "copy");
    match read.auth_data {
        AuthData::ChatGPT {
            id_token,
            access_token,
            refresh_token,
            account_id,
        } => {
            assert_eq!(
                (id_token.as_str(), access_token.as_str(), refresh_token.as_str()),
                ("id", "a", "r")
            );
            assert_eq!(account_id.as_deref(), Some("acc"));
        }
        other => panic!("unexpected credentials: {other:?}"),
    }
}

#[test]
fn login_files_may_hold_access_tokens() {
    let token_of = |auth: AuthDotJson| {
        match import_from_auth_json_contents(auth, "n".to_string()).unwrap().auth_data {
            AuthData::CodexAccessToken { token, .. } => token,
            other => panic!("unexpected credentials: {other:?}"),
        }
    };
    let mut personal = no_login();
    personal.personal_access_token = Some("at-1".to_string());
    assert!(has_active_login(Some(&personal)));
    assert_eq!(token_of(personal), "at-1");
    let mut agent = no_login();
    agent.agent_identity = Some(Json::Text("h.p.s".to_string()));
    assert!(has_active_login(Some(&agent)));
    assert_eq!(token_of(agent), "h.p.s");
}

#[test]
fn login_files_without_credentials_are_rejected() {
    let error = import_from_auth_json_contents(no_login(), "n".to_string()).unwrap_err();
    assert_eq!(error, AuthImportError::NoCredentials);
    let mut odd = no_login();
    odd.agent_identity = Some(Json::Bool(true));
    let error = import_from_auth_json_contents(odd, "n".to_string()).unwrap_err();
    assert_eq!(error, AuthImportError::UnsupportedIdentity);
    assert_eq!(
        error.message(),
        "auth.json agent_identity has an unsupported shape"
    );
    assert!(!has_active_login(Some(&no_login())));
    assert!(!has_active_login(None));
    let mut tokens = no_login();
    tokens.tokens = Some(TokenData {
        id_token: "i".to_string(),
        access_token: "a".to_string(),
        refresh_token: "r".to_string(),
        account_id: None,
    });
    assert!(has_active_login(Some(&tokens)));
}

// ---------------------------------------------------------------------------
// New tokens
// ---------------------------------------------------------------------------

#[test]
fn requests_for_new_tokens_are_encoded() {
    assert_eq!(
        refresh_request_body("a b/c~\u{e9}"),
        "grant_type=refresh_token&refresh_token=a%20b%2Fc~%C3%A9&client_id=app_EMoamEEZ73f0CkXaXp7hrann"
    );
    assert_eq!(refresh_request_url(), "https://auth.openai.com/oauth/token");
}

#[test]
fn requests_for_new_tokens_are_sent_three_times_at_most() {
    assert!(matches!(
        refresh_tokens_with_refresh_token(1, RefreshEvent::NotSent),
        RefreshStep::SendAgain(250)
    ));
    assert!(matches!(
        refresh_tokens_with_refresh_token(2, RefreshEvent::NotSent),
        RefreshStep::SendAgain(500)
    ));
    assert!(matches!(
        refresh_tokens_with_refresh_token(3, RefreshEvent::NotSent),
        RefreshStep::GiveUp
    ));
    assert!(matches!(
        refresh_tokens_with_refresh_token(1, RefreshEvent::Granted),
        RefreshStep::ReadTokens
    ));
    let refused = RefreshEvent::Refused {
        status: "400 Bad Request".to_string(),
        body: "no".to_string(),
    };
    match refresh_tokens_with_refresh_token(1, refused) {
        RefreshStep::Fail(message) => {
            assert_eq!(message, "Token refresh failed: 400 Bad Request - no")
        }
        other => panic!("unexpected step: {other:?}"),
    }
}

#[test]
fn stale_tokens_are_replaced() {
    let account = chatgpt(&jwt(r#"{"exp":1000}"#), "r");
    assert!(!needs_refresh_at(&account, 939));
    assert!(needs_refresh_at(&account, 940));
    assert!(ensure_chatgpt_tokens_fresh(&account));
    assert!(!ensure_chatgpt_tokens_fresh(&StoredAccount::new_api_key(
        "a".to_string(),
        "k".to_string()
    )));
    assert!(matches!(
        refresh_chatgpt_tokens(&account),
        RefreshPlan::Ask(token) if token == "r"
    ));
    match refresh_chatgpt_tokens(&chatgpt("a", "")) {
        RefreshPlan::Fail(message) => {
            assert_eq!(message, "Missing refresh token for account chat")
        }
        other => panic!("unexpected plan: {other:?}"),
    }
    assert!(matches!(
        refresh_chatgpt_tokens(&StoredAccount::new_api_key("a".to_string(), "k".to_string())),
        RefreshPlan::Nothing
    ));
}

#[test]
fn new_tokens_are_stored() {
    let account = chatgpt("a", "r");
    let other = StoredAccount::new_api_key("api".to_string(), "k".to_string());
    let id = account.id.clone();
    let mut store = AccountsStore {
        version: 1,
        accounts: vec![other, chatgpt("x", "y")],
        active_account_id: Some(id.clone()),
        masked_account_ids: Vec::new(),
    };
    store.accounts[1].id = id.clone();
    let answer = RefreshTokenResponse {
        id_token: Some(jwt(
            r#"{"email":"new@example.com","https://api.openai.com/auth":{"chatgpt_plan_type":"pro"}}"#,
        )),
        access_token: "new-access".to_string(),
        refresh_token: None,
    };
    let (updated, in_use) = apply_refreshed_tokens(&mut store, &account, answer).unwrap();
    assert!(in_use);
    assert_eq!(updated.email.as_deref(), Some("new@example.com"));
    assert_eq!(store.accounts[1].plan_type.as_deref(), Some("pro"));
    match &store.accounts[1].auth_data {
        AuthData::ChatGPT {
            access_token,
            refresh_token,
            account_id,
            ..
        } => {
            assert_eq!(access_token, "new-access");
            assert_eq!(refresh_token, "r");
            assert_eq!(account_id.as_deref(), Some("acc"));
        }
        other => panic!("unexpected credentials: {other:?}"),
    }
    let answer = RefreshTokenResponse {
        id_token: None,
        access_token: "x".to_string(),
        refresh_token: None,
    };
    let mut empty = AccountsStore::default();
    let error = apply_refreshed_tokens(&mut empty, &account, answer).unwrap_err();
    assert_eq!(error.message(), "Account not found");
}

#[test]
fn accounts_are_made_from_refresh_tokens() {
    assert_eq!(
        check_refresh_token("n", " ").unwrap_err().message(),
        "Missing refresh token for account n"
    );
    assert!(check_refresh_token("n", "r").is_ok());
    let answer = |id_token: Option<String>| RefreshTokenResponse {
        id_token,
        access_token: "a".to_string(),
        refresh_token: Some("r2".to_string()),
    };
    let error = create_chatgpt_account_from_refresh_token(
        "n".to_string(),
        "r".to_string(),
        answer(None),
    )
    .unwrap_err();
    assert!(matches!(error, RestoreFailure::NoIdToken));
    assert_eq!(error.message(), "Refresh response did not include id_token");
    let account = create_chatgpt_account_from_refresh_token(
        "n".to_string(),
        "r".to_string(),
        answer(Some(jwt(r#"{"email":"e@example.com"}"#))),
    )
    .unwrap();
    assert_eq!(account.email.as_deref(), Some("e@example.com"));
    assert!(matches!(
        account.auth_data,
        AuthData::ChatGPT { refresh_token, .. } if refresh_token == "r2"
    ));
}

// ---------------------------------------------------------------------------
// Agents
// ---------------------------------------------------------------------------

#[test]
fn agent_identity_authorization_header_uses_agent_assertion_scheme() {
    let signing_key = SigningKey::from_bytes(&[7u8; 32]);
    let private_key = signing_key.to_pkcs8_der().unwrap();
    let private_key_base64 =
        base64::engine::general_purpose::STANDARD.encode(private_key.as_bytes());

    let header = authorization_header_for_agent_task(
        "agent-runtime-123",
        &private_key_base64,
        "task-123",
    )
    .unwrap();
    let encoded = header.strip_prefix("AgentAssertion ").unwrap();
    let payload = base64::engine::general_purpose::URL_SAFE_NO_PAD
        .decode(encoded)
        .unwrap();
    let envelope: serde_json::Value = serde_json::from_slice(&payload).unwrap();

    assert_eq!(envelope["agent_runtime_id"], "agent-runtime-123");
    assert_eq!(envelope["task_id"], "task-123");
    assert!(envelope["timestamp"].as_str().is_some());
    assert!(envelope["signature"].as_str().is_some());
}

#[test]
fn assertions_carry_a_signature_that_verifies() {
    let key = private_key(7);
    let header = authorization_header_at("run", &key, "task", "2026-01-02T03:04:05Z").unwrap();
    let payload = base64::engine::general_purpose::URL_SAFE_NO_PAD
        .decode(header.strip_prefix("AgentAssertion ").unwrap())
        .unwrap();
    let envelope: serde_json::Value = serde_json::from_slice(&payload).unwrap();
    assert_eq!(envelope["timestamp"], "2026-01-02T03:04:05Z");
    assert_eq!(envelope.as_object().unwrap().len(), 4);

    let verifying = SigningKey::from_bytes(&[7u8; 32]).verifying_key();
    let verify = |signed: &str, message: &str| {
        let bytes = base64::engine::general_purpose::STANDARD
            .decode(signed)
            .unwrap();
        let signature = Signature::from_slice(&bytes).unwrap();
        verifying.verify(message.as_bytes(), &signature).is_ok()
    };
    let signed = envelope["signature"].as_str().unwrap();
    assert!(verify(signed, "run:task:2026-01-02T03:04:05Z"));
    let signed = sign_task_registration_payload("run", &key, "now").unwrap();
    assert!(verify(&signed, "run:now"));
    let signed = sign_agent_identity_payload(&key, "text").unwrap();
    assert!(verify(&signed, "text"));
    let request = registration_request("run", &key).unwrap();
    assert!(verify(&request.signature, &format!("run:{}", request.timestamp)));
}

#[test]
fn agent_keys_are_read() {
    assert_eq!(
        signing_key_from_private_key_pkcs8_base64(&private_key(7)).unwrap(),
        vec![7u8; 32]
    );
    assert_eq!(
        signing_key_from_private_key_pkcs8_base64("***").unwrap_err(),
        AgentError::KeyNotBase64
    );
    assert_eq!(
        signing_key_from_private_key_pkcs8_base64("AAAA").unwrap_err(),
        AgentError::KeyNotPkcs8
    );
    let mut expected = SigningKey::from_bytes(&[7u8; 32]).to_scalar_bytes();
    expected[0] &= 248;
    expected[31] &= 127;
    expected[31] |= 64;
    assert_eq!(
        curve25519_secret_key_from_signing_key(&[7u8; 32]),
        expected.to_vec()
    );
}

#[test]
fn agent_timestamps_have_seconds() {
    let timestamp = agent_timestamp();
    assert_eq!(timestamp.len(), 20);
    assert!(timestamp.ends_with('Z'));
}

#[test]
fn tasks_are_read_from_the_answer() {
    let key = private_key(9);
    let secret = curve25519_secret_key_from_signing_key(&[9u8; 32]);
    let secret = crypto_box::SecretKey::from_slice(&secret).unwrap();
    let seal = |text: &[u8]| {
        let sealed = secret
            .public_key()
            .seal(&mut crypto_box::aead::OsRng, text)
            .unwrap();
        base64::engine::general_purpose::STANDARD.encode(sealed)
    };
    assert_eq!(
        decrypt_task_id_response(&key, &seal(b"task-42")).unwrap(),
        "task-42"
    );
    assert_eq!(
        decrypt_task_id_response(&key, &seal(&[0xff])).unwrap_err(),
        AgentError::TaskNotUtf8
    );
    assert_eq!(
        decrypt_task_id_response(&key, "AAAA").unwrap_err(),
        AgentError::TaskUndecryptable
    );
    assert_eq!(
        decrypt_task_id_response(&key, "***").unwrap_err(),
        AgentError::TaskNotBase64
    );

    let answer = |plain: Option<&str>, sealed: Option<String>| RegisterTaskResponse {
        task_id: None,
        task_id_camel: plain.map(|id| id.to_string()),
        encrypted_task_id: sealed,
        encrypted_task_id_camel: None,
    };
    assert_eq!(
        task_id_from_register_task_response(&key, answer(Some("t"), Some(seal(b"s")))).unwrap(),
        "t"
    );
    assert_eq!(
        task_id_from_register_task_response(&key, answer(None, Some(seal(b"s")))).unwrap(),
        "s"
    );
    let error = task_id_from_register_task_response(&key, answer(None, None)).unwrap_err();
    assert_eq!(
        error.message(),
        "Agent Identity task registration response omitted task_id"
    );
    assert_eq!(
        registration_url("run"),
        "https://auth.openai.com/api/accounts/v1/agent/run/task/register"
    );
    assert_eq!(
        registration_failure("500", "x"),
        "Agent Identity task registration failed: 500 - x"
    );
}

// ---------------------------------------------------------------------------
// Headers
// ---------------------------------------------------------------------------

#[test]
fn codex_access_token_usage_uses_chatgpt_wham_usage_endpoint() {
    assert_eq!(
        codex_usage_url(),
        "https://chatgpt.com/backend-api/wham/usage"
    );
}

#[test]
fn codex_access_token_headers_include_account_id_when_available() {
    let headers = build_chatgpt_headers("token", Some("acc_123")).unwrap();

    assert_eq!(
        headers
            .get("ChatGPT-Account-Id")
            .and_then(|value| value.to_str().ok()),
        Some("acc_123")
    );
}

#[test]
fn chatgpt_headers_name_the_client() {
    let headers = build_chatgpt_headers("token", None).unwrap();
    assert_eq!(header(&headers, "authorization"), Some("Bearer token"));
    assert_eq!(header(&headers, "user-agent"), Some("codex-cli/1.0.0"));
    assert_eq!(headers.len(), 2);
    assert_eq!(
        build_chatgpt_headers("to\nken", None).unwrap_err(),
        RequestError::InvalidAccessToken
    );
    let lenient = build_chatgpt_headers("token", Some("acc\n")).unwrap();
    assert_eq!(lenient.len(), 2);
}

#[test]
fn only_chatgpt_accounts_have_tokens() {
    let account = chatgpt("a", "r");
    assert_eq!(extract_chatgpt_auth(&account).unwrap(), ("a", Some("acc")));
    let api = StoredAccount::new_api_key("a".to_string(), "k".to_string());
    let error = extract_chatgpt_auth(&api).unwrap_err();
    assert_eq!(error.message(), "Account is not using ChatGPT OAuth");
    let error = build_codex_access_token_headers(&api, None).unwrap_err();
    assert_eq!(error.message(), "Account is not using a Codex access token");
}

#[test]
fn codex_access_token_headers_use_agent_assertion_when_agent_claims_exist() {
    let signing_key = SigningKey::from_bytes(&[8u8; 32]);
    let private_key = signing_key.to_pkcs8_der().unwrap();
    let private_key_base64 =
        base64::engine::general_purpose::STANDARD.encode(private_key.as_bytes());
    let account = agent_account(&private_key_base64, Some("task-123"));

    let headers = match build_codex_access_token_headers(&account, None).unwrap() {
        HeaderStep::Headers(headers) => headers,
        other => panic!("expected headers, got {other:?}"),
    };

    assert_eq!(
        headers
            .get("ChatGPT-Account-ID")
            .and_then(|value| value.to_str().ok()),
        Some("account-123")
    );
    assert!(headers
        .get(AUTHORIZATION)
        .and_then(|value| value.to_str().ok())
        .is_some_and(|value| value.starts_with("AgentAssertion ")));
}

#[test]
fn agents_without_a_task_register_first() {
    let key = private_key(8);
    let account = agent_account(&key, None);
    match build_codex_access_token_headers(&account, None).unwrap() {
        HeaderStep::Register {
            runtime_id,
            private_key,
        } => {
            assert_eq!(runtime_id, "agent-runtime-123");
            assert_eq!(private_key, key);
        }
        other => panic!("expected a registration, got {other:?}"),
    }
    assert!(matches!(
        build_codex_access_token_headers(&account, Some("task-9")).unwrap(),
        HeaderStep::Headers(_)
    ));
    let broken = agent_account("***", Some("task"));
    assert_eq!(
        build_codex_access_token_headers(&broken, None).unwrap_err(),
        RequestError::Agent(AgentError::KeyNotBase64)
    );
}

#[test]
fn plain_access_tokens_are_bearer_tokens() {
    let account = StoredAccount::new_codex_access_token("t".to_string(), " at-1 ".to_string());
    match build_codex_access_token_headers(&account, None).unwrap() {
        HeaderStep::Headers(headers) => {
            assert_eq!(header(&headers, "authorization"), Some("Bearer at-1"));
            assert_eq!(header(&headers, "x-openai-fedramp"), None);
        }
        other => panic!("expected headers, got {other:?}"),
    }
    let access = codex_access(&account, parse_codex_access_token_claims(" at-1 ")).unwrap();
    assert!(access.agent.is_none());
    let access = CodexAccess {
        token: "x".to_string(),
        account_id: None,
        agent: Some(AgentAccess {
            runtime_id: "run".to_string(),
            private_key: private_key(3),
            task_id: Some("task".to_string()),
        }),
        is_fedramp: true,
    };
    match access_headers_at(&access, None, "2026-01-02T03:04:05Z").unwrap() {
        HeaderStep::Headers(headers) => {
            assert_eq!(header(&headers, "x-openai-fedramp"), Some("true"));
            let expected =
                authorization_header_at("run", &private_key(3), "task", "2026-01-02T03:04:05Z")
                    .unwrap();
            assert_eq!(header(&headers, "authorization"), Some(expected.as_str()));
        }
        other => panic!("expected headers, got {other:?}"),
    }
}
