use codex_switcher::accounts::{
    add_account_from_access_token, add_account_from_auth_json_text, delete_account,
    get_active_account_info, import_store, list_accounts, rename_account, switch_account_by_id,
    AddError,
};
use codex_switcher::clock::Timestamp;
use codex_switcher::files::{
    get_accounts_file, get_codex_auth_file, get_codex_home, get_config_dir, get_settings_file,
    is_stale_tmp_file, rename_replacing, tmp_file_name, Base, NoHome,
};
use codex_switcher::merging::{merge_accounts_store, validate_imported_store};
use codex_switcher::slim::{
    build_store_from_slim_payload, decode_slim_payload, encode_slim_payload, import_candidates,
    restore_action, slim_payload_from_store, slim_summary, validate_slim_payload,
    RestoreAction, RestoreError, SlimAccountPayload, SlimPayload, SlimTextError,
};
use codex_switcher::store::{
    add_account, get_account, get_active_account, get_masked_account_ids, load_accounts,
    load_app_settings, mark_switched, mark_switched_at, remove_account, set_masked_account_ids,
    update_account_metadata,
};
use codex_switcher::types::{
    AccountsStore, AppSettings, AuthData, AuthDotJson, AuthMode, DockDisplayMode,
    ImportAccountsSummary, StoredAccount, TrayDisplayMode,
};
use codex_switcher::vault::{
    compress_bytes, decode_full_encrypted_store, decompress_bytes_with_limit,
    derive_encryption_key, encode_full_encrypted_store, seal_document, InflateError, VaultError,
    FULL_PRESET_PASSPHRASE,
};

fn account(id: &str, name: &str) -> StoredAccount {
    let mut account = StoredAccount::new_api_key(name.to_string(), "dummy-api-key".to_string());
    account.id = id.to_string();
    account
}

fn chatgpt(id: &str, name: &str, refresh_token: &str) -> StoredAccount {
    let mut account = StoredAccount::new_chatgpt(
        name.to_string(),
        None,
        None,
        None,
        "id".to_string(),
        "access".to_string(),
        refresh_token.to_string(),
        None,
    );
    account.id = id.to_string();
    account
}

fn store(accounts: Vec<StoredAccount>, active: Option<&str>) -> AccountsStore {
    AccountsStore {
        version: 1,
        accounts,
        active_account_id: active.map(|id| id.to_string()),
        masked_account_ids: Vec::new(),
    }
}

fn ids(store: &AccountsStore) -> Vec<&str> {
    store.accounts.iter().map(|a| a.id.as_str()).collect()
}

#[test]
fn new_accounts_have_their_own_identifier() {
    let a = StoredAccount::new_api_key("a".to_string(), "k".to_string());
    let b = StoredAccount::new_api_key("a".to_string(), "k".to_string());
    assert_ne!(a.id, b.id);
    assert_eq!(a.id.len(), 36);
    assert_eq!(&a.id[14..15], "4");
    assert_eq!(a.auth_mode, AuthMode::ApiKey);
    assert!(a.created_at.seconds > 1_600_000_000);
    assert!(a.last_used_at.is_none());
}

#[test]
fn first_account_becomes_active() {
    let mut s = AccountsStore::default();
    assert_eq!(s.version, 1);
    add_account(&mut s, account("a", "one")).unwrap();
    add_account(&mut s, account("b", "two")).unwrap();
    assert_eq!(s.active_account_id.as_deref(), Some("a"));
    assert_eq!(ids(&s), vec!["a", "b"]);
    assert_eq!(get_account(&s, "b").unwrap().name, "two");
    assert_eq!(get_active_account(&s).unwrap().id, "a");
    assert!(get_account(&s, "c").is_none());
}

#[test]
fn names_are_taken_once() {
    let mut s = store(vec![account("a", "one")], Some("a"));
    let error = add_account(&mut s, account("b", "one")).unwrap_err();
    assert_eq!(error.message(), "An account with name 'one' already exists");
    assert_eq!(ids(&s), vec!["a"]);
}

#[test]
fn removing_the_active_account_activates_the_first_one() {
    let mut s = store(
        vec![account("a", "one"), account("b", "two"), account("c", "three")],
        Some("a"),
    );
    remove_account(&mut s, "a").unwrap();
    assert_eq!(s.active_account_id.as_deref(), Some("b"));
    remove_account(&mut s, "c").unwrap();
    assert_eq!(s.active_account_id.as_deref(), Some("b"));
    remove_account(&mut s, "b").unwrap();
    assert_eq!(s.active_account_id, None);
    let error = remove_account(&mut s, "b").unwrap_err();
    assert_eq!(error.message(), "Account not found: b");
}

#[test]
fn removing_undoes_adding() {
    let mut s = store(vec![account("a", "one")], Some("a"));
    add_account(&mut s, account("b", "two")).unwrap();
    remove_account(&mut s, "b").unwrap();
    assert_eq!(ids(&s), vec!["a"]);
    assert_eq!(s.active_account_id.as_deref(), Some("a"));
}

#[test]
fn metadata_is_updated_as_far_as_it_is_given() {
    let mut s = store(vec![account("a", "one"), account("b", "two")], Some("a"));
    let when = Timestamp { seconds: 5, nanos: 0 };
    let updated = update_account_metadata(
        &mut s,
        "b",
        None,
        Some("b@example.com".to_string()),
        None,
        Some(Some(when)),
    )
    .unwrap();
    assert_eq!(updated.name, "two");
    assert_eq!(s.accounts[1].email.as_deref(), Some("b@example.com"));
    assert_eq!(s.accounts[1].subscription_expires_at, Some(when));
    let taken =
        update_account_metadata(&mut s, "b", Some("one".to_string()), None, None, None).unwrap_err();
    assert_eq!(taken.message(), "An account with name 'one' already exists");
    let missing =
        update_account_metadata(&mut s, "c", Some("x".to_string()), None, None, None).unwrap_err();
    assert_eq!(missing.message(), "Account not found");
    rename_account(&mut s, "b", "two".to_string()).unwrap();
    rename_account(&mut s, "b", "three".to_string()).unwrap();
    assert_eq!(s.accounts[1].name, "three");
    delete_account(&mut s, "b").unwrap();
    assert_eq!(ids(&s), vec!["a"]);
}

#[test]
fn accounts_are_masked() {
    let mut s = AccountsStore::default();
    set_masked_account_ids(&mut s, vec!["a".to_string(), "b".to_string()]);
    assert_eq!(get_masked_account_ids(&s), vec!["a", "b"]);
}

#[test]
fn switching_marks_the_account() {
    let mut s = store(vec![account("a", "one"), account("b", "two")], Some("a"));
    let now = Timestamp { seconds: 9, nanos: 1 };
    mark_switched_at(&mut s, "b", now);
    assert_eq!(s.active_account_id.as_deref(), Some("b"));
    assert_eq!(s.accounts[1].last_used_at, Some(now));
    assert_eq!(s.accounts[0].last_used_at, None);
    mark_switched(&mut s, "a");
    assert!(s.accounts[0].last_used_at.unwrap().seconds > 1_600_000_000);

    assert_eq!(
        switch_account_by_id(&s, "b", &vec![]).unwrap().name,
        "two"
    );
    assert_eq!(
        switch_account_by_id(&s, "b", &vec![4]).unwrap_err().message(),
        "Cannot switch accounts while 1 Codex process is running"
    );
    assert_eq!(
        switch_account_by_id(&s, "x", &vec![]).unwrap_err().message(),
        "Account not found: x"
    );
}

#[test]
fn treats_empty_accounts_file_as_missing() {
    let s = load_accounts(Some(""), None).unwrap();
    assert!(s.accounts.is_empty());
    assert_eq!(s.version, 1);
    assert!(load_accounts(Some(" \n"), None).is_some());
    assert!(load_accounts(None, None).is_some());
}

#[test]
fn rejects_corrupt_accounts_file_instead_of_wiping_it() {
    let content = "{\"version\":1,";
    let parsed = serde_json::from_str::<serde_json::Value>(content)
        .ok()
        .map(|_| AccountsStore::default());
    assert!(load_accounts(Some(content), parsed).is_none());
}

#[test]
fn failed_changes_leave_the_store_as_it_was() {
    let mut s = AccountsStore::default();
    add_account(
        &mut s,
        StoredAccount::new_api_key("keep".into(), "dummy-api-key".into()),
    )
    .unwrap();
    assert!(remove_account(&mut s, "boom").is_err());
    assert!(add_account(&mut s, account("x", "keep")).is_err());
    assert_eq!(s.accounts.len(), 1, "failed mutation must not be saved");
}

#[test]
fn settings_have_defaults() {
    let settings = load_app_settings(None, None).unwrap();
    assert_eq!(settings, AppSettings::default());
    assert_eq!(settings.tray_display_mode, TrayDisplayMode::ActiveUsageText);
    assert_eq!(settings.dock_display_mode, DockDisplayMode::ShowInDock);
    assert!(settings.close_behavior_prompt_enabled);
    assert!(load_app_settings(Some("{"), None).is_none());
    let other = AppSettings {
        tray_display_mode: TrayDisplayMode::Hidden,
        ..settings
    };
    assert_eq!(load_app_settings(Some("{}"), Some(other)), Some(other));
}

#[test]
fn accounts_are_shown_without_credentials() {
    let s = store(vec![account("a", "one"), account("b", "two")], Some("b"));
    let shown = list_accounts(&s);
    assert_eq!(shown.len(), 2);
    assert!(!shown[0].is_active);
    assert!(shown[1].is_active);
    assert_eq!(shown[1].name, "two");
    assert_eq!(get_active_account_info(&s).unwrap().id, "b");
    assert!(get_active_account_info(&AccountsStore::default()).is_none());
}

#[test]
fn access_token_accounts_need_a_name_and_a_token() {
    let mut s = AccountsStore::default();
    assert_eq!(
        add_account_from_access_token(&mut s, " ", "t")
            .unwrap_err()
            .message(),
        "Account name is required"
    );
    assert_eq!(
        add_account_from_access_token(&mut s, "n", "\t")
            .unwrap_err()
            .message(),
        "Access token is required"
    );
    let info = add_account_from_access_token(&mut s, " n ", " at-1 ").unwrap();
    assert_eq!(info.name, "n");
    assert!(info.is_active);
    match &s.accounts[0].auth_data {
        AuthData::CodexAccessToken { token, .. } => assert_eq!(token, "at-1"),
        other => panic!("unexpected credentials: {other:?}"),
    }
    let again = add_account_from_access_token(&mut s, "n", "at-2").unwrap_err();
    assert!(matches!(again, AddError::Store(_)));
    assert_eq!(again.message(), "An account with name 'n' already exists");
}

#[test]
fn accounts_are_added_from_auth_json() {
    let mut s = AccountsStore::default();
    let auth = || AuthDotJson {
        auth_mode: None,
        openai_api_key: Some("sk".to_string()),
        tokens: None,
        last_refresh: None,
        agent_identity: None,
        personal_access_token: None,
    };
    let info = add_account_from_auth_json_text(&mut s, "x".to_string(), auth()).unwrap();
    assert_eq!(info.auth_mode, AuthMode::ApiKey);
    assert!(add_account_from_auth_json_text(&mut s, "x".to_string(), auth()).is_err());
    let mut empty = auth();
    empty.openai_api_key = None;
    assert_eq!(
        add_account_from_auth_json_text(&mut s, "y".to_string(), empty)
            .unwrap_err()
            .message(),
        "auth.json contains neither API key, tokens, nor access-token auth"
    );
}

// ---------------------------------------------------------------------------
// Merging
// ---------------------------------------------------------------------------

#[test]
fn merge_adds_what_is_new() {
    let current = store(vec![account("a", "one")], Some("a"));
    let mut imported = store(
        vec![account("a", "other"), account("c", "one"), account("d", "four")],
        Some("d"),
    );
    imported.version = 3;
    let (merged, summary) = merge_accounts_store(current, imported);
    assert_eq!(ids(&merged), vec!["a", "d"]);
    assert_eq!(merged.accounts[0].name, "one");
    assert_eq!(merged.version, 3);
    assert_eq!(merged.active_account_id.as_deref(), Some("a"));
    assert_eq!(
        summary,
        ImportAccountsSummary {
            total_in_payload: 3,
            imported_count: 1,
            skipped_count: 2
        }
    );
}

#[test]
fn merge_twice_is_merge_once() {
    let imported = || store(vec![account("b", "two"), account("c", "three")], None);
    let (once, _) = merge_accounts_store(store(vec![account("a", "one")], Some("a")), imported());
    let (twice, summary) = merge_accounts_store(once, imported());
    assert_eq!(ids(&twice), vec!["a", "b", "c"]);
    assert_eq!(summary.imported_count, 0);
}

#[test]
fn merge_repairs_the_active_account() {
    let (merged, _) = merge_accounts_store(
        store(vec![], Some("gone")),
        store(vec![account("b", "two"), account("c", "three")], Some("c")),
    );
    assert_eq!(merged.active_account_id.as_deref(), Some("c"));
    let (first, _) = merge_accounts_store(
        store(vec![], None),
        store(vec![account("b", "two")], Some("gone")),
    );
    assert_eq!(first.active_account_id.as_deref(), Some("b"));
}

#[test]
fn stores_are_checked_before_they_are_taken_over() {
    let message = |s: &AccountsStore| validate_imported_store(s).unwrap_err().message();
    assert!(validate_imported_store(&store(vec![account("a", "one")], Some("a"))).is_ok());
    assert_eq!(
        message(&store(vec![account(" ", "one")], None)),
        "Import contains an account with empty id"
    );
    assert_eq!(
        message(&store(vec![account("a", "")], None)),
        "Import contains an account with empty name"
    );
    assert_eq!(
        message(&store(vec![account("a", "one"), account("a", "two")], None)),
        "Import contains duplicate account id: a"
    );
    assert_eq!(
        message(&store(vec![account("a", "one"), account("b", "one")], None)),
        "Import contains duplicate account name: one"
    );
    assert_eq!(
        message(&store(vec![account("a", "one")], Some("b"))),
        "Import references a missing active account: b"
    );
    let mut current = store(vec![account("a", "one")], Some("a"));
    assert!(import_store(&mut current, store(vec![account("b", "")], None)).is_err());
    assert_eq!(ids(&current), vec!["a"]);
    let summary = import_store(&mut current, store(vec![account("b", "two")], None)).unwrap();
    assert_eq!(summary.imported_count, 1);
    assert_eq!(ids(&current), vec!["a", "b"]);
}

// ---------------------------------------------------------------------------
// Compact text
// ---------------------------------------------------------------------------

#[test]
fn compact_text_carries_a_document() {
    let json = b"{\"v\":1,\"c\":[]}";
    let text = encode_slim_payload(json).unwrap();
    assert!(text.starts_with("css1."));
    assert_eq!(decode_slim_payload(&text).unwrap(), json.to_vec());
    let spread = format!(" {} \n {}\t", &text[..4], &text[4..]);
    assert_eq!(decode_slim_payload(&spread).unwrap(), json.to_vec());
    assert_eq!(decode_slim_payload(&text[5..]).unwrap(), json.to_vec());
    let empty = encode_slim_payload(b"").unwrap();
    let bare = format!(" {}\n{}", &empty[5..7], &empty[7..]);
    assert_eq!(decode_slim_payload(&bare).unwrap(), Vec::<u8>::new());
}

#[test]
fn broken_compact_text_is_rejected() {
    assert_eq!(decode_slim_payload(" \n").unwrap_err(), SlimTextError::Empty);
    assert_eq!(
        decode_slim_payload("css1.***").unwrap_err(),
        SlimTextError::NotBase64("Invalid symbol 42, offset 0.".to_string())
    );
    assert_eq!(
        decode_slim_payload("css1.AAAA").unwrap_err(),
        SlimTextError::Uninflatable("corrupt deflate stream".to_string())
    );
    let text = encode_slim_payload(b"hello").unwrap();
    assert_eq!(
        decode_slim_payload(&text[..9]).unwrap_err().message(),
        "Invalid slim import string (decompression failed): incomplete deflate stream"
    );
    let large = encode_slim_payload(&vec![b'x'; 2_097_153]).unwrap();
    assert_eq!(
        decode_slim_payload(&large).unwrap_err(),
        SlimTextError::TooLarge
    );
    let largest = encode_slim_payload(&vec![b'x'; 2_097_152]).unwrap();
    assert_eq!(decode_slim_payload(&largest).unwrap().len(), 2_097_152);
    assert_eq!(SlimTextError::Empty.message(), "Import string is empty");
    assert_eq!(
        decode_slim_payload("css1.***").unwrap_err().message(),
        "Invalid slim import string (base64 decode failed): Invalid symbol 42, offset 0."
    );
    assert_eq!(
        SlimTextError::TooLarge.message(),
        "Invalid slim import string (decompression failed): Import data is too large"
    );
}

fn slim(name: &str, auth_type: u8, key: Option<&str>, token: Option<&str>) -> SlimAccountPayload {
    SlimAccountPayload {
        name: name.to_string(),
        auth_type,
        api_key: key.map(|k| k.to_string()),
        refresh_token: token.map(|t| t.to_string()),
    }
}

#[test]
fn stores_are_carried_with_the_least() {
    let s = store(
        vec![account("a", "one"), chatgpt("b", "two", "rt")],
        Some("b"),
    );
    let payload = slim_payload_from_store(&s).unwrap();
    assert_eq!(payload.version, 1);
    assert_eq!(payload.active_name.as_deref(), Some("two"));
    assert_eq!(payload.accounts[0].api_key.as_deref(), Some("dummy-api-key"));
    assert_eq!(payload.accounts[1].auth_type, 1);
    assert_eq!(payload.accounts[1].refresh_token.as_deref(), Some("rt"));
    assert!(validate_slim_payload(&payload).is_ok());

    let token = StoredAccount::new_codex_access_token("x".to_string(), "at-1".to_string());
    assert!(slim_payload_from_store(&store(vec![token], None)).is_none());
}

#[test]
fn exports_are_restored() {
    let s = store(
        vec![account("a", "one"), chatgpt("b", "two", "rt")],
        Some("b"),
    );
    let payload = slim_payload_from_store(&s).unwrap();
    assert!(matches!(
        restore_action(&payload.accounts[0]),
        Ok(RestoreAction::UseApiKey(key)) if key == "dummy-api-key"
    ));
    assert!(matches!(
        restore_action(&payload.accounts[1]),
        Ok(RestoreAction::UseRefreshToken(token)) if token == "rt"
    ));
    let restored = vec![account("x", "one"), chatgpt("y", "two", "rt")];
    let again = build_store_from_slim_payload(restored, payload.active_name);
    assert_eq!(get_active_account(&again).unwrap().name, "two");
}

#[test]
fn carried_accounts_are_checked() {
    let check = |version: u8, active: Option<&str>, accounts: Vec<SlimAccountPayload>| {
        validate_slim_payload(&SlimPayload {
            version,
            active_name: active.map(|n| n.to_string()),
            accounts,
        })
        .map_err(|error| error.message())
    };
    let message = |m: &str| Err(m.to_string());
    assert_eq!(check(1, None, vec![]), Ok(()));
    assert_eq!(
        check(2, None, vec![]),
        message("Unsupported slim payload version: 2")
    );
    assert_eq!(
        check(1, None, vec![slim(" ", 0, Some("k"), None)]),
        message("Slim import contains an account with empty name")
    );
    assert_eq!(
        check(
            1,
            None,
            vec![slim("a", 0, Some("k"), None), slim("a", 0, Some("k"), None)]
        ),
        message("Slim import contains duplicate account name: a")
    );
    assert_eq!(
        check(1, None, vec![slim("a", 0, Some(" "), Some("t"))]),
        message("API key is missing for account a")
    );
    assert_eq!(
        check(1, None, vec![slim("a", 1, Some("k"), None)]),
        message("Refresh token is missing for account a")
    );
    assert_eq!(
        check(1, None, vec![slim("a", 7, Some("k"), None)]),
        message("Unsupported auth type 7 for account a")
    );
    assert_eq!(
        check(1, Some("b"), vec![slim("a", 0, Some("k"), None)]),
        message("Slim import references missing active account: b")
    );
}

#[test]
fn carried_accounts_are_restored() {
    let current = store(vec![account("a", "one")], Some("a"));
    let payload = SlimPayload {
        version: 1,
        active_name: Some("two".to_string()),
        accounts: vec![slim("one", 0, Some("k"), None), slim("two", 1, None, Some("t"))],
    };
    let candidates = import_candidates(payload, &current);
    assert_eq!(candidates.len(), 1);
    assert_eq!(candidates[0].name, "two");
    match restore_action(&candidates[0]) {
        Ok(RestoreAction::UseRefreshToken(token)) => assert_eq!(token, "t"),
        other => panic!("unexpected action: {other:?}"),
    }
    assert!(matches!(
        restore_action(&slim("x", 0, None, None)),
        Err(RestoreError::NoApiKey)
    ));
    assert!(matches!(
        restore_action(&slim("x", 1, None, None)),
        Err(RestoreError::NoRefreshToken)
    ));
    assert!(matches!(
        restore_action(&slim("x", 2, None, None)),
        Err(RestoreError::UnknownAuthType)
    ));
    assert_eq!(
        RestoreError::UnknownAuthType.message(),
        "Unsupported auth type in slim payload"
    );

    let built = build_store_from_slim_payload(
        vec![account("x", "one"), account("y", "two")],
        Some("two".to_string()),
    );
    assert_eq!(built.active_account_id.as_deref(), Some("y"));
    let built = build_store_from_slim_payload(
        vec![account("x", "one"), account("y", "two")],
        Some("three".to_string()),
    );
    assert_eq!(built.active_account_id.as_deref(), Some("x"));

    let summary = slim_summary(
        5,
        ImportAccountsSummary {
            total_in_payload: 2,
            imported_count: 1,
            skipped_count: 1,
        },
    );
    assert_eq!(summary.skipped_count, 4);
}

// ---------------------------------------------------------------------------
// Encrypted file
// ---------------------------------------------------------------------------

#[test]
fn encrypted_file_holds_a_document() {
    let json = b"{\"version\":1}";
    let file = encode_full_encrypted_store(json, FULL_PRESET_PASSPHRASE).unwrap();
    assert_eq!(&file[..4], b"CSWF");
    assert_eq!(file[4], 1);
    assert_eq!(
        decode_full_encrypted_store(&file, FULL_PRESET_PASSPHRASE).unwrap(),
        json.to_vec()
    );
    assert_eq!(
        decode_full_encrypted_store(&file, "other").unwrap_err(),
        VaultError::Undecryptable
    );
    let again = encode_full_encrypted_store(json, FULL_PRESET_PASSPHRASE).unwrap();
    assert_ne!(&file[5..45], &again[5..45]);
}

#[test]
fn encrypted_file_is_fixed_by_its_salt_and_nonce() {
    let salt = [1u8; 16];
    let nonce = [2u8; 24];
    let one = seal_document(b"x", "p", &salt, &nonce).unwrap();
    let two = seal_document(b"x", "p", &salt, &nonce).unwrap();
    assert_eq!(one, two);
    assert_eq!(&one[5..21], &salt);
    assert_eq!(&one[21..45], &nonce);
    assert_ne!(
        derive_encryption_key("p", &salt),
        derive_encryption_key("p", &[3u8; 16])
    );
    assert_eq!(derive_encryption_key("p", &salt).len(), 32);
}

#[test]
fn foreign_files_are_rejected() {
    let decode = |bytes: &[u8]| decode_full_encrypted_store(bytes, "p").unwrap_err();
    assert_eq!(decode(&vec![0u8; 8_388_609]), VaultError::TooLarge);
    assert_eq!(decode(&[0u8; 45]), VaultError::Truncated);
    assert_eq!(decode(&[0u8; 46]), VaultError::BadHeader);
    let mut file = seal_document(b"x", "p", &[1u8; 16], &[2u8; 24]).unwrap();
    file[4] = 9;
    assert_eq!(decode(&file), VaultError::UnknownVersion(9));
    assert_eq!(
        VaultError::UnknownVersion(9).message(),
        "Unsupported encrypted file version: 9"
    );
    file[4] = 1;
    file[2] ^= 1;
    assert_eq!(decode(&file), VaultError::BadHeader);
    file[2] ^= 1;
    assert_eq!(decode(&file[..60]), VaultError::Undecryptable);
    let last = file.len() - 1;
    file[last] ^= 1;
    assert_eq!(decode(&file), VaultError::Undecryptable);
    assert_eq!(
        VaultError::Truncated.message(),
        "Encrypted file is invalid or truncated"
    );
}

#[test]
fn large_documents_are_not_taken_over() {
    let file = seal_document(&vec![b'x'; 2_097_153], "p", &[1u8; 16], &[2u8; 24]).unwrap();
    assert_eq!(
        decode_full_encrypted_store(&file, "p").unwrap_err(),
        VaultError::Uninflatable
    );
    let packed = compress_bytes(b"hello").unwrap();
    assert_ne!(packed, b"hello".to_vec());
    assert_eq!(
        decompress_bytes_with_limit(&packed, 5).unwrap(),
        b"hello".to_vec()
    );
    assert_eq!(
        decompress_bytes_with_limit(&packed, 4).unwrap_err(),
        InflateError::TooLarge
    );
    assert_eq!(
        decompress_bytes_with_limit(b"hello", 5).unwrap_err(),
        InflateError::Broken("corrupt deflate stream".to_string())
    );
}

// ---------------------------------------------------------------------------
// Files
// ---------------------------------------------------------------------------

#[test]
fn files_lie_below_the_home_directory() {
    let place = get_accounts_file(true).unwrap();
    assert!(matches!(place.base, Base::Home));
    assert_eq!(place.parts, vec![".codex-switcher", "accounts.json"]);
    assert_eq!(
        get_settings_file(true).unwrap().parts,
        vec![".codex-switcher", "settings.json"]
    );
    assert_eq!(get_config_dir(true).unwrap().parts, vec![".codex-switcher"]);
    assert_eq!(
        get_codex_auth_file(None, true).unwrap().parts,
        vec![".codex", "auth.json"]
    );
    let own = get_codex_auth_file(Some("/opt/codex".to_string()), false).unwrap();
    match own.base {
        Base::Directory(dir) => assert_eq!(dir, "/opt/codex"),
        Base::Home => panic!("the variable names the directory"),
    }
    assert_eq!(own.parts, vec!["auth.json"]);
    assert_eq!(
        get_codex_home(Some("/x".to_string()), false).unwrap().parts.len(),
        0
    );
    assert_eq!(get_accounts_file(false).unwrap_err(), NoHome);
    assert_eq!(NoHome.message(), "Could not find home directory");
}

#[test]
fn leftovers_of_writes_are_found() {
    let tmp = tmp_file_name("accounts.json", "abc");
    assert_eq!(tmp, "accounts.json.tmp.abc");
    assert!(is_stale_tmp_file(&tmp, "accounts.json"));
    assert!(is_stale_tmp_file(
        "accounts.json.tmp.stale-crash-leftover",
        "accounts.json"
    ));
    assert!(!is_stale_tmp_file("unrelated.txt", "accounts.json"));
    assert!(!is_stale_tmp_file("accounts.json", "accounts.json"));
    assert_eq!(tmp_file_name("LICENSE", "abc"), "LICENSE.tmp.tmp.abc");
    assert!(is_stale_tmp_file("LICENSE.tmp.tmp.abc", "LICENSE"));
    assert_eq!(tmp_file_name(".profile", "abc"), ".profile.tmp.tmp.abc");
}

#[test]
fn files_are_put_in_place_five_times_at_most() {
    assert_eq!(rename_replacing(1), Some(20));
    assert_eq!(rename_replacing(4), Some(20));
    assert_eq!(rename_replacing(5), None);
}
