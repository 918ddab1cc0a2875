use reqwest::header::{HeaderMap, HeaderName, HeaderValue, ACCEPT, AUTHORIZATION};

use base64::Engine;

use codex_switcher::clock::Timestamp;
use codex_switcher::json::{parse_json, Json};
use codex_switcher::stats::{
    api_key_unavailable_message, build_reset_credits_headers, chatgpt_headers_for_account,
    get_account_usage_stats, map_profile_usage, map_reset_credits, map_top_invocation,
    refused_stats, supports_usage_stats, ProfileDailyUsageBucket, ProfileTopInvocation,
    ProfileUsageMetadata, ProfileUsageResponse, ProfileUsageStats, ResetCredit,
    ResetCreditsResponse, StatsStep,
};
use codex_switcher::store::{add_account, StoreError};
use codex_switcher::tray::{
    account_menu_id, active_session_title, active_tray_title, active_usage_title, after_switch,
    build_menu, handle_menu_event, menu_label, refresh_tray_display, session_remaining_title,
    usage_suffix, MenuAction, MenuEntry, SwitchFollowUp, TrayChange, TrayPlatform, TrayUsage,
    UsageCache,
};
use codex_switcher::types::{
    AccountsStore, AuthMode, CreditStatusDetails, Percent, RateLimitDetails,
    RateLimitStatusPayload, RateLimitWindow, StoredAccount, TrayDisplayMode,
};
use codex_switcher::usage::{
    access_metadata, accounts_check_failure, convert_payload_to_usage_info,
    extract_rate_limits, fetch_chatgpt_account_metadata,
    fetch_codex_access_token_account_metadata, get_account_usage, no_entry_message,
    parse_usage_response, refresh_account_metadata, retries_with_new_tokens, store_account_metadata,
    usage_concurrency, warmup_account, warmup_all_accounts, warmup_failure, window_minutes,
    AccountsCheckEntry, ChatGptAccountMetadata, MetadataStep, UsageStep, WarmupStep,
};
use codex_switcher::warmup::{
    build_warmup_payload, extract_text_from_json, extract_text_from_sse, sse_data, truncate_text,
};

fn percent(value: f64) -> Percent {
    Percent {
        bits: value.to_bits(),
    }
}

fn text(value: &str) -> Option<String> {
    Some(value.to_string())
}

fn chatgpt() -> StoredAccount {
    StoredAccount::new_chatgpt(
        "chat".to_string(),
        None,
        None,
        None,
        "i".to_string(),
        "a".to_string(),
        "r".to_string(),
        None,
    )
}

fn api_key() -> StoredAccount {
    StoredAccount::new_api_key("api".to_string(), "sk".to_string())
}

// ---------------------------------------------------------------------------
// Limits
// ---------------------------------------------------------------------------

#[test]
fn converts_codex_usage_payload_aliases() {
    let payload = RateLimitStatusPayload {
        plan_type: "k12".to_string(),
        rate_limit: Some(RateLimitDetails {
            primary_window: Some(RateLimitWindow {
                used_percent: percent(12.5),
                limit_window_seconds: None,
                window_duration_mins: Some(300),
                reset_at: Some(1783250000),
            }),
            secondary_window: Some(RateLimitWindow {
                used_percent: percent(2.25),
                limit_window_seconds: None,
                window_duration_mins: Some(10080),
                reset_at: Some(1783850000),
            }),
        }),
        credits: Some(CreditStatusDetails {
            has_credits: true,
            unlimited: false,
            balance: text("$10.00"),
        }),
    };

    let usage = convert_payload_to_usage_info("acc_123", payload);

    assert_eq!(usage.plan_type.as_deref(), Some("k12"));
    assert_eq!(usage.primary_used_percent, Some(percent(12.5)));
    assert_eq!(usage.primary_window_minutes, Some(300));
    assert_eq!(usage.primary_resets_at, Some(1783250000));
    assert_eq!(usage.secondary_used_percent, Some(percent(2.25)));
    assert_eq!(usage.secondary_window_minutes, Some(10080));
    assert_eq!(usage.secondary_resets_at, Some(1783850000));
    assert_eq!(usage.has_credits, Some(true));
    assert_eq!(usage.unlimited_credits, Some(false));
    assert_eq!(usage.credits_balance.as_deref(), Some("$10.00"));
    assert_eq!(usage.error, None);
}

#[test]
fn windows_are_measured_in_whole_minutes() {
    let window = |seconds: Option<i32>, minutes: Option<i64>| RateLimitWindow {
        used_percent: percent(0.0),
        limit_window_seconds: seconds,
        window_duration_mins: minutes,
        reset_at: None,
    };
    assert_eq!(window_minutes(&window(Some(18000), None)), Some(300));
    assert_eq!(window_minutes(&window(Some(61), None)), Some(2));
    assert_eq!(window_minutes(&window(Some(0), None)), Some(0));
    assert_eq!(window_minutes(&window(Some(i32::MAX), None)), Some(35791395));
    assert_eq!(window_minutes(&window(Some(60), Some(7))), Some(7));
    assert_eq!(window_minutes(&window(None, None)), None);
    assert_eq!(window_minutes(&window(Some(-1), None)), Some(0));
    assert!(extract_rate_limits(None).0.is_none());
}

#[test]
fn usage_is_asked_for_with_tokens() {
    match get_account_usage(&api_key()) {
        UsageStep::Known(usage) => {
            assert_eq!(usage.plan_type.as_deref(), Some("api_key"));
            assert_eq!(
                usage.error.as_deref(),
                Some("Usage info not available for API key accounts")
            );
        }
        other => panic!("unexpected step: {other:?}"),
    }
    assert!(matches!(
        get_account_usage(&chatgpt()),
        UsageStep::AskWithTokens
    ));
    let token = StoredAccount::new_codex_access_token("t".to_string(), "at".to_string());
    assert!(matches!(
        get_account_usage(&token),
        UsageStep::AskWithAccessToken
    ));
    assert!(retries_with_new_tokens(401, false));
    assert!(!retries_with_new_tokens(401, true));
    assert!(!retries_with_new_tokens(500, false));
    let refused = parse_usage_response("a", false, "500 Internal Server Error", None).unwrap();
    assert_eq!(
        refused.error.as_deref(),
        Some("API error: 500 Internal Server Error")
    );
    assert_eq!(refused.account_id, "a");
    assert!(parse_usage_response("a", true, "200 OK", None).is_none());
    assert_eq!(usage_concurrency(0), 1);
    assert_eq!(usage_concurrency(4), 4);
    assert_eq!(usage_concurrency(50), 10);
}

#[test]
fn metadata_is_read_for_the_account_then_the_default() {
    let entry = |plan: &str| AccountsCheckEntry {
        plan_type: text(plan),
        expires_at: Some(Timestamp { seconds: 5, nanos: 0 }),
    };
    let entries = vec![
        ("one".to_string(), entry("plus")),
        ("default".to_string(), entry("free")),
        ("two".to_string(), entry("pro")),
    ];
    let plan = |id: Option<&str>| {
        fetch_chatgpt_account_metadata(&entries, id)
            .unwrap()
            .plan_type
            .unwrap()
    };
    assert_eq!(plan(Some("two")), "pro");
    assert_eq!(plan(Some("three")), "free");
    assert_eq!(plan(None), "free");
    let only = vec![("one".to_string(), entry("plus"))];
    let metadata = fetch_chatgpt_account_metadata(&only, None).unwrap();
    assert_eq!(metadata.plan_type.as_deref(), Some("plus"));
    assert_eq!(
        metadata.subscription_expires_at,
        Some(Timestamp { seconds: 5, nanos: 0 })
    );
    assert!(fetch_chatgpt_account_metadata(&vec![], Some("one")).is_none());
    assert_eq!(
        no_entry_message(),
        "Accounts check response did not include an account entry"
    );
    assert_eq!(
        accounts_check_failure("403", "x"),
        "Accounts check API error: 403 - x"
    );
}

#[test]
fn codex_access_token_metadata_comes_from_token_claims() {
    let payload = r#"{"email":"k12@example.com","plan_type":"k12","account_id":"account-123","agent_runtime_id":"agent-runtime-123"}"#;
    let encoded = base64::engine::general_purpose::URL_SAFE_NO_PAD.encode(payload);
    let account =
        StoredAccount::new_codex_access_token("agent".to_string(), format!("h.{encoded}.s"));

    let metadata = fetch_codex_access_token_account_metadata(&account).unwrap();

    assert_eq!(metadata.email.as_deref(), Some("k12@example.com"));
    assert_eq!(metadata.plan_type.as_deref(), Some("k12"));
}

#[test]
fn stored_metadata_stands_where_claims_are_missing() {
    let mut account = StoredAccount::new_codex_access_token("a".to_string(), "opaque".to_string());
    account.email = text("kept@example.com");
    let claims = codex_switcher::claims::parse_codex_access_token_claims("opaque");
    let metadata = access_metadata(&account, claims);
    assert_eq!(metadata.email.as_deref(), Some("kept@example.com"));
    assert!(fetch_codex_access_token_account_metadata(&api_key()).is_err());
    assert!(matches!(
        refresh_account_metadata(&api_key()),
        MetadataStep::Keep
    ));
    assert!(matches!(
        refresh_account_metadata(&chatgpt()),
        MetadataStep::RefreshAndCheck
    ));
    assert!(matches!(
        refresh_account_metadata(&account),
        MetadataStep::ReadClaims
    ));
}

#[test]
fn found_metadata_is_stored() {
    let mut accounts = AccountsStore::default();
    let mut account = chatgpt();
    account.email = text("old@example.com");
    account.plan_type = text("plus");
    account.subscription_expires_at = Some(Timestamp {
        seconds: 7,
        nanos: 0,
    });
    let id = account.id.clone();
    add_account(&mut accounts, account).unwrap();
    add_account(&mut accounts, api_key()).unwrap();

    let found = ChatGptAccountMetadata {
        email: None,
        plan_type: text("pro"),
        subscription_expires_at: None,
    };
    let stored = store_account_metadata(&mut accounts, &id, found).unwrap();
    assert_eq!(stored.name, "chat");
    assert_eq!(stored.email.as_deref(), Some("old@example.com"));
    assert_eq!(stored.plan_type.as_deref(), Some("pro"));
    assert!(stored.subscription_expires_at.is_none());
    assert_eq!(accounts.accounts[0].plan_type.as_deref(), Some("pro"));
    assert_eq!(accounts.accounts[1].name, "api");

    let found = ChatGptAccountMetadata {
        email: None,
        plan_type: text("team"),
        subscription_expires_at: None,
    };
    assert!(matches!(
        store_account_metadata(&mut accounts, "nobody", found),
        Err(StoreError::NotFound)
    ));
    assert_eq!(accounts.accounts[0].plan_type.as_deref(), Some("pro"));
}

// ---------------------------------------------------------------------------
// Warming up
// ---------------------------------------------------------------------------

#[test]
fn warm_ups_are_counted() {
    assert!(matches!(
        warmup_account(&api_key()),
        WarmupStep::WithApiKey(key) if key == "sk"
    ));
    assert!(matches!(warmup_account(&chatgpt()), WarmupStep::WithTokens));
    let token = StoredAccount::new_codex_access_token("t".to_string(), "at".to_string());
    assert!(matches!(warmup_account(&token), WarmupStep::Skip));
    let summary = warmup_all_accounts(
        3,
        vec![
            ("a".to_string(), false),
            ("b".to_string(), true),
            ("c".to_string(), false),
        ],
    );
    assert_eq!(summary.total_accounts, 3);
    assert_eq!(summary.warmed_accounts, 2);
    assert_eq!(summary.failed_account_ids, vec!["b"]);
    assert_eq!(
        warmup_failure("ChatGPT", "500"),
        "ChatGPT warm-up failed with status 500"
    );
}

fn member<'a>(value: &'a Json, key: &str) -> &'a Json {
    value.get(key).unwrap()
}

#[test]
fn warm_ups_ask_for_little() {
    let payload = build_warmup_payload(true, false);
    assert_eq!(member(&payload, "model").as_str(), Some("gpt-5.4-mini"));
    assert!(matches!(member(&payload, "stream"), Json::Bool(true)));
    assert!(payload.get("max_output_tokens").is_none());
    let payload = build_warmup_payload(false, true);
    assert_eq!(member(&payload, "max_output_tokens").as_i64(), Some(1));
    match member(&payload, "input") {
        Json::List(items) => assert_eq!(items.len(), 1),
        other => panic!("unexpected input: {other:?}"),
    }
}

#[test]
fn last_text_of_an_answer_is_found() {
    assert_eq!(
        extract_text_from_json(r#"{"text":"a","x":[{"delta":"b"},{"output_text":"c"},{"text":" "}]}"#)
            .as_deref(),
        Some(" ")
    );
    assert_eq!(
        extract_text_from_json(r#"{"text":"a","b":{"text":""}}"#).as_deref(),
        Some("a")
    );
    assert_eq!(extract_text_from_json("[1,2]"), None);
    assert_eq!(extract_text_from_json("{"), None);
    assert_eq!(
        extract_text_from_sse(
            "event: x\ndata: {\"delta\":\"a\"}\n\ndata:{\"delta\":\"b\"}\ndata: nonsense\ndata: [DONE]\n"
        )
        .as_deref(),
        Some("b")
    );
    assert_eq!(extract_text_from_sse("data: [DONE]\n"), None);
    assert_eq!(sse_data("data:  x ").as_deref(), Some("x"));
    assert_eq!(sse_data("event: x"), None);
    assert!(matches!(parse_json(b"[true]"), Some(Json::List(_))));
}

#[test]
fn long_texts_are_cut() {
    assert_eq!(truncate_text("hello", 5), "hello");
    assert_eq!(truncate_text("hello!", 5), "hello...");
    assert_eq!(truncate_text("", 0), "");
}

// ---------------------------------------------------------------------------
// Statistics
// ---------------------------------------------------------------------------

#[test]
fn usage_stats_support_chatgpt_and_codex_access_tokens() {
    assert!(supports_usage_stats(AuthMode::ChatGPT));
    assert!(supports_usage_stats(AuthMode::CodexAccessToken));
    assert!(!supports_usage_stats(AuthMode::ApiKey));
    assert_eq!(
        api_key_unavailable_message(),
        "Usage stats are unavailable for API key accounts."
    );
}

#[test]
fn usage_stats_are_asked_for_or_unavailable() {
    assert!(matches!(
        get_account_usage_stats(&chatgpt()),
        StatsStep::WithTokens
    ));
    match get_account_usage_stats(&api_key()) {
        StatsStep::Known(stats) => {
            assert!(!stats.available);
            assert_eq!(
                stats.error.as_deref(),
                Some("Usage stats are unavailable for API key accounts.")
            );
        }
        other => panic!("unexpected step: {other:?}"),
    }
    let refused = refused_stats("a", "503");
    assert_eq!(
        refused.error.as_deref(),
        Some("Usage stats request failed: 503")
    );
    assert_eq!(refused.source, "Codex usage stats via ChatGPT backend");
}

#[test]
fn reset_credit_headers_preserve_agent_identity_authentication() {
    let mut headers = HeaderMap::new();
    headers.insert(
        AUTHORIZATION,
        HeaderValue::from_static("AgentAssertion signed-assertion"),
    );
    headers.insert(
        HeaderName::from_static("chatgpt-account-id"),
        HeaderValue::from_static("account-123"),
    );

    let headers = build_reset_credits_headers(headers);

    assert_eq!(
        headers
            .get(AUTHORIZATION)
            .and_then(|value| value.to_str().ok()),
        Some("AgentAssertion signed-assertion")
    );
    assert_eq!(
        headers
            .get("chatgpt-account-id")
            .and_then(|value| value.to_str().ok()),
        Some("account-123")
    );
    assert_eq!(
        headers.get(ACCEPT).and_then(|value| value.to_str().ok()),
        Some("application/json")
    );
    assert_eq!(
        headers
            .get("openai-beta")
            .and_then(|value| value.to_str().ok()),
        Some("codex-1")
    );
    assert_eq!(
        headers
            .get("originator")
            .and_then(|value| value.to_str().ok()),
        Some("Codex Desktop")
    );
}

#[test]
fn stats_headers_are_strict() {
    let mut account = chatgpt();
    assert_eq!(chatgpt_headers_for_account(&account).unwrap().len(), 2);
    if let codex_switcher::types::AuthData::ChatGPT { account_id, .. } = &mut account.auth_data {
        *account_id = text("a\nb");
    }
    let error = chatgpt_headers_for_account(&account).unwrap_err();
    assert_eq!(error.message(), "failed to parse header value");
}

#[test]
fn profile_usage_response_maps_profile_stats() {
    let payload = ProfileUsageResponse {
        stats: ProfileUsageStats {
            lifetime_tokens: Some(1549926883),
            peak_daily_tokens: Some(135100741),
            longest_running_turn_sec: Some(10797),
            current_streak_days: Some(3),
            longest_streak_days: Some(10),
            daily_usage_buckets: Some(vec![
                ProfileDailyUsageBucket {
                    start_date: "2026-06-25".to_string(),
                    tokens: 44880283,
                },
                ProfileDailyUsageBucket {
                    start_date: "2026-06-26".to_string(),
                    tokens: 29,
                },
            ]),
            top_invocations: Some(vec![
                ProfileTopInvocation {
                    kind: text("skill"),
                    plugin_id: None,
                    plugin_name: None,
                    skill_id: None,
                    skill_name: text("dilekcebot-template-builder"),
                    usage_count: Some(95),
                },
                ProfileTopInvocation {
                    kind: text("plugin"),
                    plugin_id: None,
                    plugin_name: text("github"),
                    skill_id: None,
                    skill_name: None,
                    usage_count: Some(7),
                },
            ]),
            fast_mode_usage_percentage: Some(percent(1.09)),
            most_used_reasoning_effort: text("medium"),
            most_used_reasoning_effort_percentage: Some(percent(51.12)),
            unique_skills_used: Some(12),
            total_skills_used: Some(191),
            total_threads: Some(500),
        },
        metadata: ProfileUsageMetadata {
            stats_as_of: text("2026-06-26"),
            generated_at: text("2026-06-26T14:56:19.430889Z"),
            stats_error: None,
        },
    };

    let stats = map_profile_usage("account-1", payload);

    assert!(stats.available);
    assert_eq!(stats.account_id, "account-1");
    assert_eq!(stats.summary.lifetime_tokens, Some(1_549_926_883));
    assert_eq!(stats.summary.peak_daily_tokens, Some(135_100_741));
    assert_eq!(stats.summary.longest_task_seconds, Some(10_797));
    assert_eq!(stats.summary.current_streak_days, Some(3));
    assert_eq!(stats.daily.len(), 2);
    assert_eq!(stats.daily[1].tokens, 29);
    assert_eq!(
        stats.top_invocations[0].display_name,
        "dilekcebot-template-builder"
    );
    assert_eq!(stats.top_invocations[1].display_name, "github");
    assert_eq!(stats.activity.total_threads, Some(500));
}

#[test]
fn invocations_without_a_name_are_unknown() {
    let shown = map_top_invocation(&ProfileTopInvocation {
        kind: None,
        plugin_id: None,
        plugin_name: None,
        skill_id: None,
        skill_name: None,
        usage_count: None,
    });
    assert_eq!(shown.kind, "unknown");
    assert_eq!(shown.display_name, "Unknown");
    assert_eq!(shown.usage_count, 0);
}

fn credit(id: &str, status: &str, granted: &str, expires: &str, title: Option<&str>) -> ResetCredit {
    ResetCredit {
        id: id.to_string(),
        reset_type: "codex_rate_limits".to_string(),
        status: status.to_string(),
        granted_at: text(granted),
        expires_at: text(expires),
        redeem_started_at: None,
        redeemed_at: None,
        title: title.map(|t| t.to_string()),
        description: None,
    }
}

#[test]
fn reset_credits_response_maps_available_count_and_next_expiry() {
    let payload = ResetCreditsResponse {
        credits: vec![
            credit(
                "expired-available",
                "available",
                "2026-05-18T00:39:53Z",
                "2026-06-17T00:39:53Z",
                None,
            ),
            credit(
                "later",
                "available",
                "2026-06-18T00:39:53.731630Z",
                "2026-07-18T00:39:53.731630Z",
                None,
            ),
            credit(
                "earlier",
                "available",
                "2026-06-12T04:03:43.263391Z",
                "2026-07-12T04:03:43.263391Z",
                Some("One free rate limit reset"),
            ),
            credit(
                "redeemed",
                "redeemed",
                "2026-06-12T04:03:43Z",
                "2026-07-10T04:03:43Z",
                None,
            ),
        ],
        available_count: 2,
    };

    let now = chrono::DateTime::parse_from_rfc3339("2026-06-26T00:00:00Z")
        .unwrap()
        .with_timezone(&chrono::Utc);
    let now = Timestamp {
        seconds: now.timestamp(),
        nanos: now.timestamp_subsec_nanos(),
    };
    let stats = map_reset_credits(payload, now);

    assert_eq!(stats.available_count, 2);
    assert_eq!(stats.credits.len(), 4);
    assert_eq!(
        stats.next_expires_at.as_deref(),
        Some("2026-07-12T04:03:43.263391+00:00")
    );
    assert_eq!(
        stats.credits[2].title.as_deref(),
        Some("One free rate limit reset")
    );
}

#[test]
fn credits_without_a_readable_expiry_do_not_expire() {
    let payload = ResetCreditsResponse {
        credits: vec![credit("x", "available", "", "soon", None)],
        available_count: 1,
    };
    let stats = map_reset_credits(payload, Timestamp { seconds: 0, nanos: 0 });
    assert_eq!(stats.next_expires_at, None);
}

#[test]
fn the_earliest_expiry_is_shown() {
    let in_order = [
        ("0000-01-01T00:00:00+01:00", "-0001-12-31T23:00:00+00:00"),
        ("0000-01-01T00:00:00Z", "0000-01-01T00:00:00+00:00"),
        ("2016-12-31T23:59:59.999Z", "2016-12-31T23:59:59.999+00:00"),
        ("2016-12-31T23:59:60.5Z", "2016-12-31T23:59:60.500+00:00"),
        ("2017-01-01T00:00:00Z", "2017-01-01T00:00:00+00:00"),
        ("2026-01-02T00:30:00+02:00", "2026-01-01T22:30:00+00:00"),
        ("2026-01-01T23:00:00Z", "2026-01-01T23:00:00+00:00"),
        ("2026-01-01T23:00:00.000000001Z", "2026-01-01T23:00:00.000000001+00:00"),
        ("2026-01-01T23:00:00.12Z", "2026-01-01T23:00:00.120+00:00"),
        ("2026-01-01T23:00:00.1201Z", "2026-01-01T23:00:00.120100+00:00"),
        ("9999-12-31T23:59:59Z", "9999-12-31T23:59:59+00:00"),
    ];
    let now = Timestamp {
        seconds: i64::MIN,
        nanos: 0,
    };
    for (i, (earlier, shown)) in in_order.iter().enumerate() {
        for (later, _) in in_order.iter().skip(i) {
            let payload = ResetCreditsResponse {
                credits: vec![
                    credit("b", "available", "", later, None),
                    credit("a", "available", "", earlier, None),
                ],
                available_count: 2,
            };
            let stats = map_reset_credits(payload, now);
            assert_eq!(stats.next_expires_at.as_deref(), Some(*shown));
        }
    }
}

// ---------------------------------------------------------------------------
// The tray
// ---------------------------------------------------------------------------

fn cache(id: &str, session: Option<&str>, week: Option<&str>, has_error: bool) -> UsageCache {
    let mut cache = UsageCache::new();
    cache.ingest_usage(vec![(
        id.to_string(),
        TrayUsage {
            session_left: session.map(|s| s.to_string()),
            week_left: week.map(|w| w.to_string()),
            has_error,
        },
    )]);
    cache
}

#[test]
fn account_ids_are_namespaced_for_tray_events() {
    assert_eq!(account_menu_id("abc-123"), "account:abc-123");
}

#[test]
fn menu_labels_escape_mnemonic_markers() {
    assert_eq!(
        menu_label("Research & Development"),
        "Research && Development"
    );
}

#[test]
fn active_usage_title_falls_back_when_usage_is_missing() {
    let cache = UsageCache::new();
    assert_eq!(active_usage_title(&cache, Some("missing")), "H:-- W:--");
    assert_eq!(active_usage_title(&cache, None), "Codex");
}

#[test]
fn hidden_tray_mode_has_no_title() {
    assert_eq!(
        active_tray_title(&UsageCache::new(), Some("active"), TrayDisplayMode::Hidden),
        None
    );
}

#[test]
fn titles_show_what_is_left() {
    let known = cache("a", Some("66%"), Some("10%"), false);
    assert_eq!(active_usage_title(&known, Some("a")), "H:66% W:10%");
    assert_eq!(active_session_title(&known, Some("a")).as_deref(), Some("66%"));
    assert_eq!(active_session_title(&known, Some("b")), None);
    assert_eq!(
        active_tray_title(&known, Some("a"), TrayDisplayMode::IconAndSession).as_deref(),
        Some("66%")
    );
    assert_eq!(
        active_tray_title(&known, Some("a"), TrayDisplayMode::ActiveUsageText).as_deref(),
        Some("H:66% W:10%")
    );
    assert_eq!(usage_suffix(&known, "a"), "  \u{2014}  S:66% W:10%");
    assert_eq!(usage_suffix(&known, "b"), "");
    let failed = cache("a", Some("66%"), None, true);
    assert_eq!(session_remaining_title(failed.get("a").unwrap()), None);
    let week = cache("a", None, Some("10%"), false);
    assert_eq!(usage_suffix(&week, "a"), "  \u{2014}  W:10%");
}

#[test]
fn later_usage_replaces_earlier_usage() {
    let mut known = cache("a", Some("66%"), None, false);
    known.ingest_usage(vec![(
        "a".to_string(),
        TrayUsage {
            session_left: text("1%"),
            week_left: None,
            has_error: false,
        },
    )]);
    assert_eq!(active_session_title(&known, Some("a")).as_deref(), Some("1%"));
}

#[test]
fn menus_list_the_accounts() {
    let empty = build_menu(&AccountsStore::default(), &UsageCache::new());
    assert_eq!(empty.len(), 4);
    assert!(matches!(&empty[0], MenuEntry::Item { enabled: false, .. }));
    let account = StoredAccount::new_api_key("R & D".to_string(), "k".to_string());
    let id = account.id.clone();
    let store = AccountsStore {
        version: 1,
        accounts: vec![account],
        active_account_id: Some(id.clone()),
        masked_account_ids: Vec::new(),
    };
    let menu = build_menu(&store, &cache(&id, Some("66%"), None, false));
    match &menu[0] {
        MenuEntry::CheckItem {
            id: item,
            label,
            checked,
        } => {
            assert_eq!(*item, format!("account:{id}"));
            assert_eq!(label, "R && D  \u{2014}  S:66%");
            assert!(checked);
        }
        other => panic!("unexpected entry: {other:?}"),
    }
}

#[test]
fn menu_items_are_told_apart() {
    assert!(matches!(
        handle_menu_event("open", None),
        MenuAction::OpenMainWindow
    ));
    assert!(matches!(handle_menu_event("quit", None), MenuAction::Quit));
    assert!(matches!(
        handle_menu_event("account:a", Some("a")),
        MenuAction::RefreshMenu
    ));
    assert!(matches!(
        handle_menu_event("account:a", Some("b")),
        MenuAction::SwitchTo(id) if id == "a"
    ));
    assert!(matches!(
        handle_menu_event("empty", None),
        MenuAction::Nothing
    ));
}

#[test]
fn blocked_switches_are_shown() {
    assert!(matches!(after_switch("a", None), SwitchFollowUp::Announce));
    assert!(matches!(
        after_switch("a", text("Account not found: a")),
        SwitchFollowUp::RefreshMenu
    ));
    let error = "Cannot switch accounts while 1 Codex process is running";
    assert!(matches!(
        after_switch("a", text(error)),
        SwitchFollowUp::ShowBlocked { account_id, .. } if account_id == "a"
    ));
}

#[test]
fn hidden_trays_stay_hidden() {
    assert_eq!(
        refresh_tray_display(TrayDisplayMode::Hidden, TrayPlatform::MacOs).last(),
        Some(&TrayChange::Hide)
    );
    for platform in [TrayPlatform::MacOs, TrayPlatform::Windows, TrayPlatform::Linux] {
        let changes = refresh_tray_display(TrayDisplayMode::IconAndSession, platform);
        assert!(changes.contains(&TrayChange::Show));
        assert!(!changes.contains(&TrayChange::Hide));
    }
}
