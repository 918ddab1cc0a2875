use std::collections::HashMap;

use codex_switcher::antigravity::find_antigravity_processes;
use codex_switcher::closing::{
    admin_script, check_codex_processes, current_unix_uid, ensure_codex_not_running,
    is_codex_running_switch_block, kill_codex_processes, unix_process_exists,
    windows_process_exists, Platform,
};
use codex_switcher::codex_app::{
    entry_action, find_windows_codex_app, is_codex_package_directory,
    is_windows_codex_shortcut_name, is_windows_openai_codex_bin, open_codex_app,
    windows_app_places, AppCandidate, EntryAction, OpenDecision, OpenStep, SearchFor,
};
use codex_switcher::numerals::{decimal, parse_u32};
use codex_switcher::pids::sort_and_dedup;
use codex_switcher::process_list::{
    app_bundles, find_codex_processes, is_ide_plugin_process, is_macos_codex_desktop_process,
    macos_app_bundle, read_unix_process_names,
};
use codex_switcher::process_tree::{expand_process_targets, read_unix_process_snapshot};
use codex_switcher::windows_processes::{
    parse_windows_codex_processes, ProcessListError, WindowsCodexProcess,
};
use codex_switcher::windows_roots::{
    is_windows_codex_root_process, normalize_windows_path, windows_command_executable_path,
};
use codex_switcher::windows_tree::{
    classify_windows_codex_processes, find_windows_codex_processes,
    windows_has_descendant_matching, SignOfLife, WindowsQueryError,
};

fn windows_process(
    name: &str,
    process_id: u32,
    parent_process_id: u32,
    executable_path: &str,
    command_line: &str,
    main_window_title: &str,
) -> WindowsCodexProcess {
    WindowsCodexProcess {
        name: name.to_string(),
        process_id,
        parent_process_id,
        command_line: command_line.to_string(),
        executable_path: executable_path.to_string(),
        main_window_title: main_window_title.to_string(),
    }
}

#[test]
fn detects_only_the_legacy_macos_codex_desktop_root_process() {
    assert!(is_macos_codex_desktop_process(
        "/Applications/Codex.app/Contents/MacOS/Codex",
        Some("Codex"),
        None,
        false
    ));
    assert!(is_macos_codex_desktop_process(
        "/Users/test/Applications With Spaces/Codex.app/Contents/MacOS/Codex --flag",
        Some("Codex"),
        None,
        false
    ));
    assert!(!is_macos_codex_desktop_process(
        "/Applications/Codex.app/Contents/Frameworks/Codex Framework.framework/Helpers/Codex (Service).app/Contents/MacOS/Codex (Service) --type=gpu-process",
        Some("Codex (Service)"),
        None,
        false
    ));
    assert!(!is_macos_codex_desktop_process(
        "/Applications/Codex.app/Contents/Frameworks/Codex Framework.framework/Helpers/Codex (Renderer).app/Contents/MacOS/Codex (Renderer) --type=renderer",
        Some("Codex (Renderer)"),
        None,
        false
    ));
    assert!(!is_macos_codex_desktop_process(
        "/Applications/Codex.app/Contents/Resources/codex app-server",
        Some("codex"),
        None,
        false
    ));
    assert!(!is_macos_codex_desktop_process(
        "/Applications/Codex.app/Contents/Frameworks/Codex Framework.framework/Helpers/Codex (Renderer).app/Contents/MacOS/Codex (Renderer) --app-executable /Applications/Codex.app/Contents/MacOS/Codex --type=renderer",
        Some("Codex (Renderer)"),
        None,
        false
    ));
}

#[test]
fn detects_only_the_current_macos_codex_desktop_root_process() {
    assert!(is_macos_codex_desktop_process(
        "/Applications/ChatGPT.app/Contents/MacOS/ChatGPT",
        Some("ChatGPT"),
        Some("com.openai.codex"),
        true
    ));
    assert!(is_macos_codex_desktop_process(
        "/Users/test/Applications With Spaces/ChatGPT.app/Contents/MacOS/ChatGPT --flag",
        Some("ChatGPT"),
        Some("com.openai.codex"),
        true
    ));
    assert!(!is_macos_codex_desktop_process(
        "/Applications/ChatGPT.app/Contents/MacOS/ChatGPT",
        Some("ChatGPT"),
        Some("com.openai.chat"),
        true
    ));
    assert!(!is_macos_codex_desktop_process(
        "/Applications/ChatGPT.app/Contents/MacOS/ChatGPT",
        Some("ChatGPT"),
        None,
        true
    ));
    assert!(!is_macos_codex_desktop_process(
        "/Applications/ChatGPT.app/Contents/MacOS/ChatGPT",
        Some("Codex"),
        Some("com.openai.codex"),
        true
    ));
    assert!(!is_macos_codex_desktop_process(
        "/Applications/ChatGPT.app/Contents/Frameworks/Codex Framework.framework/Helpers/Codex (Renderer).app/Contents/MacOS/Codex (Renderer) --app-executable /Applications/ChatGPT.app/Contents/MacOS/ChatGPT --type=renderer",
        Some("Codex (Renderer)"),
        Some("com.openai.codex"),
        true
    ));
}

#[test]
fn current_desktop_app_is_known_on_macos_only() {
    assert!(!is_macos_codex_desktop_process(
        "/Applications/ChatGPT.app/Contents/MacOS/ChatGPT",
        Some("ChatGPT"),
        Some("com.openai.codex"),
        false
    ));
}

#[test]
fn parses_legacy_and_current_windows_process_snapshots() {
    let processes = parse_windows_codex_processes(
        r#"[
            {"Name":"Codex.exe","ProcessId":10,"ParentProcessId":1,"CommandLine":"Codex.exe","MainWindowTitle":"Codex"},
            {"Name":"ChatGPT.exe","ProcessId":20,"ParentProcessId":1,"CommandLine":"ChatGPT.exe","ExecutablePath":"C:\\Program Files\\WindowsApps\\OpenAI.Codex_26.707.3748.0_x64__2p2nqsd0c76g0\\app\\ChatGPT.exe","MainWindowTitle":"Codex"}
        ]"#,
    )
    .expect("legacy and current process snapshots should parse");

    assert_eq!(processes.len(), 2);
    assert_eq!(processes[0].name, "Codex.exe");
    assert!(processes[0].executable_path.is_empty());
    assert_eq!(processes[1].name, "ChatGPT.exe");
    assert!(processes[1].executable_path.ends_with(r"\app\ChatGPT.exe"));
}

#[test]
fn parses_single_windows_process_snapshot() {
    let processes = parse_windows_codex_processes(
        r#"{"Name":"Codex.exe","ProcessId":10,"ParentProcessId":1,"CommandLine":"Codex.exe","MainWindowTitle":"Codex"}"#,
    )
    .expect("single process snapshot should parse");

    assert_eq!(processes.len(), 1);
    assert_eq!(processes[0].process_id, 10);
}

#[test]
fn empty_windows_answer_lists_no_processes() {
    assert_eq!(parse_windows_codex_processes(" \r\n ").unwrap().len(), 0);
    assert_eq!(parse_windows_codex_processes("[]").unwrap().len(), 0);
}

#[test]
fn windows_answers_that_are_no_process_lists_are_rejected() {
    assert_eq!(
        parse_windows_codex_processes("{").unwrap_err(),
        ProcessListError::NotJson
    );
    assert_eq!(
        parse_windows_codex_processes(r#"{"Name":"Codex.exe","ProcessId":10}"#).unwrap_err(),
        ProcessListError::NotAProcess
    );
    assert_eq!(
        parse_windows_codex_processes(
            r#"{"Name":"Codex.exe","ProcessId":4294967296,"ParentProcessId":1}"#
        )
        .unwrap_err(),
        ProcessListError::NotAProcess
    );
    assert_eq!(
        parse_windows_codex_processes(
            r#"{"Name":"Codex.exe","ProcessId":10,"ParentProcessId":1,"CommandLine":null}"#
        )
        .unwrap_err(),
        ProcessListError::NotAProcess
    );
    assert_eq!(
        ProcessListError::NotJson.message(),
        "failed to parse Windows process JSON"
    );
    assert_eq!(
        ProcessListError::NotAProcess.message(),
        "failed to deserialize Windows Codex process entry"
    );
}

#[test]
fn windows_processes_may_be_lists_of_fields() {
    let processes =
        parse_windows_codex_processes(r#"[["Codex.exe",10,1,"Codex.exe --x"]]"#).unwrap();
    assert_eq!(processes.len(), 1);
    assert_eq!(processes[0].parent_process_id, 1);
    assert_eq!(processes[0].command_line, "Codex.exe --x");
    assert_eq!(processes[0].main_window_title, "");
    assert!(parse_windows_codex_processes(r#"[["Codex.exe",10,1,"","","","more"]]"#).is_err());
}

#[test]
fn windows_root_detection_supports_legacy_and_current_packages() {
    let legacy_root = windows_process(
        "Codex.exe",
        10,
        1,
        r"C:\Users\test\AppData\Local\Programs\Codex\Codex.exe",
        r#""C:\Users\test\AppData\Local\Programs\Codex\Codex.exe""#,
        "Codex",
    );
    let current_root = windows_process(
        "ChatGPT.exe",
        20,
        1,
        r"C:\Program Files\WindowsApps\OpenAI.Codex_26.707.3748.0_x64__2p2nqsd0c76g0\app\ChatGPT.exe",
        r#""C:\Program Files\WindowsApps\OpenAI.Codex_26.707.3748.0_x64__2p2nqsd0c76g0\app\ChatGPT.exe""#,
        "Codex",
    );
    let current_root_from_command = windows_process(
        "ChatGPT.exe",
        21,
        1,
        "",
        r#""D:\WindowsApps\OpenAI.Codex_26.707.9999.0_arm64__2p2nqsd0c76g0\app\ChatGPT.exe" --flag"#,
        "Codex",
    );

    assert!(is_windows_codex_root_process(&legacy_root));
    assert!(is_windows_codex_root_process(&current_root));
    assert!(is_windows_codex_root_process(&current_root_from_command));
}

#[test]
fn windows_root_detection_rejects_helpers_backends_and_unrelated_chatgpt() {
    let bundled_backend = windows_process(
        "Codex.exe",
        30,
        20,
        r"C:\Program Files\WindowsApps\OpenAI.Codex_26.707.3748.0_x64__2p2nqsd0c76g0\app\resources\codex.exe",
        "",
        "",
    );
    let packaged_renderer = windows_process(
        "ChatGPT.exe",
        31,
        20,
        r"C:\Program Files\WindowsApps\OpenAI.Codex_26.707.3748.0_x64__2p2nqsd0c76g0\app\ChatGPT.exe",
        r#""C:\Program Files\WindowsApps\OpenAI.Codex_26.707.3748.0_x64__2p2nqsd0c76g0\app\ChatGPT.exe" --type=renderer"#,
        "",
    );
    let unrelated_chatgpt = windows_process(
        "ChatGPT.exe",
        32,
        1,
        r"C:\Program Files\WindowsApps\OpenAI.ChatGPT_26.707.3748.0_x64__2p2nqsd0c76g0\app\ChatGPT.exe",
        r#""C:\Program Files\WindowsApps\OpenAI.ChatGPT_26.707.3748.0_x64__2p2nqsd0c76g0\app\ChatGPT.exe""#,
        "ChatGPT",
    );
    let wrong_publisher = windows_process(
        "ChatGPT.exe",
        33,
        1,
        r"C:\Program Files\WindowsApps\OpenAI.Codex_26.707.3748.0_x64__notcodex\app\ChatGPT.exe",
        "",
        "Codex",
    );
    let lookalike_outside_windows_apps = windows_process(
        "ChatGPT.exe",
        34,
        1,
        r"C:\Temp\OpenAI.Codex_26.707.3748.0_x64__2p2nqsd0c76g0\app\ChatGPT.exe",
        "",
        "Codex",
    );
    let spoofed_argument = windows_process(
        "ChatGPT.exe",
        35,
        1,
        "",
        r#""C:\Program Files\ChatGPT\ChatGPT.exe" --inspect "C:\Program Files\WindowsApps\OpenAI.Codex_26.707.3748.0_x64__2p2nqsd0c76g0\app\ChatGPT.exe""#,
        "ChatGPT",
    );

    assert!(!is_windows_codex_root_process(&bundled_backend));
    assert!(!is_windows_codex_root_process(&packaged_renderer));
    assert!(!is_windows_codex_root_process(&unrelated_chatgpt));
    assert!(!is_windows_codex_root_process(&wrong_publisher));
    assert!(!is_windows_codex_root_process(
        &lookalike_outside_windows_apps
    ));
    assert!(!is_windows_codex_root_process(&spoofed_argument));
}

#[test]
fn classifies_legacy_and_current_windows_trees_by_root_pid() {
    let processes = vec![
        windows_process(
            "Codex.exe",
            100,
            1,
            r"C:\Users\test\AppData\Local\Programs\Codex\Codex.exe",
            r#""C:\Users\test\AppData\Local\Programs\Codex\Codex.exe""#,
            "",
        ),
        windows_process(
            "Codex.exe",
            101,
            100,
            r"C:\Users\test\AppData\Local\Programs\Codex\Codex.exe",
            r#""C:\Users\test\AppData\Local\Programs\Codex\Codex.exe" --type=renderer"#,
            "",
        ),
        windows_process(
            "ChatGPT.exe",
            200,
            1,
            r"C:\Program Files\WindowsApps\OpenAI.Codex_26.707.3748.0_x64__2p2nqsd0c76g0\app\ChatGPT.exe",
            r#""C:\Program Files\WindowsApps\OpenAI.Codex_26.707.3748.0_x64__2p2nqsd0c76g0\app\ChatGPT.exe""#,
            "",
        ),
        windows_process(
            "Codex.exe",
            201,
            200,
            r"C:\Program Files\WindowsApps\OpenAI.Codex_26.707.3748.0_x64__2p2nqsd0c76g0\app\resources\codex.exe",
            r#""C:\Program Files\WindowsApps\OpenAI.Codex_26.707.3748.0_x64__2p2nqsd0c76g0\app\resources\codex.exe" app-server"#,
            "",
        ),
    ];

    assert_eq!(
        classify_windows_codex_processes(&processes),
        (vec![100, 200], 0)
    );
}

#[test]
fn ignores_stale_legacy_and_current_windows_roots() {
    let processes = vec![
        windows_process(
            "Codex.exe",
            100,
            1,
            r"C:\Users\test\AppData\Local\Programs\Codex\Codex.exe",
            r#""C:\Users\test\AppData\Local\Programs\Codex\Codex.exe""#,
            "",
        ),
        windows_process(
            "ChatGPT.exe",
            200,
            1,
            r"C:\Program Files\WindowsApps\OpenAI.Codex_26.707.3748.0_x64__2p2nqsd0c76g0\app\ChatGPT.exe",
            r#""C:\Program Files\WindowsApps\OpenAI.Codex_26.707.3748.0_x64__2p2nqsd0c76g0\app\ChatGPT.exe""#,
            "",
        ),
    ];

    assert_eq!(classify_windows_codex_processes(&processes), (vec![], 2));
}

#[test]
fn windows_signs_of_life_are_found_at_any_depth_and_in_rings() {
    let processes = vec![
        windows_process("Codex.exe", 1, 3, "", "Codex.exe", ""),
        windows_process("Codex.exe", 2, 1, "", "Codex.exe --type=gpu-process", ""),
        windows_process("Codex.exe", 3, 2, "", "Codex.exe --type=renderer", ""),
    ];
    assert!(windows_has_descendant_matching(
        1,
        &processes,
        SignOfLife::Renderer
    ));
    assert!(!windows_has_descendant_matching(
        1,
        &processes,
        SignOfLife::AppServer
    ));
    assert!(!windows_has_descendant_matching(
        9,
        &processes,
        SignOfLife::Renderer
    ));
}

#[test]
fn windows_query_answers_are_classified_or_explained() {
    let (pids, ignored) = find_windows_codex_processes(
        true,
        r#"{"Name":"Codex.exe","ProcessId":10,"ParentProcessId":1,"CommandLine":"Codex.exe","MainWindowTitle":"Codex"}"#,
        "",
    )
    .unwrap();
    assert_eq!((pids, ignored), (vec![10], 0));

    let failed = find_windows_codex_processes(false, "", " access denied\n").unwrap_err();
    assert_eq!(
        failed.message(),
        "PowerShell process query failed: access denied"
    );
    assert!(matches!(failed, WindowsQueryError::Failed(_)));
    let unreadable = find_windows_codex_processes(true, "x", "").unwrap_err();
    assert_eq!(unreadable.message(), "failed to parse Windows process JSON");
}

#[test]
fn windows_commands_start_with_their_executable() {
    assert_eq!(
        windows_command_executable_path("  \"C:\\a b\\x.exe\" --y").as_deref(),
        Some("C:\\a b\\x.exe")
    );
    assert_eq!(
        windows_command_executable_path("x.exe --y").as_deref(),
        Some("x.exe")
    );
    assert_eq!(windows_command_executable_path("\"\" x"), None);
    assert_eq!(windows_command_executable_path("\"unclosed"), None);
    assert_eq!(windows_command_executable_path("   "), None);
    assert_eq!(normalize_windows_path("C:/A/B"), "c:\\a\\b");
}

#[test]
fn windows_codex_shortcut_filter_excludes_switcher() {
    assert!(is_windows_codex_shortcut_name("Codex.lnk"));
    assert!(is_windows_codex_shortcut_name("OpenAI Codex.lnk"));
    assert!(!is_windows_codex_shortcut_name("Codex Switcher.lnk"));
    assert!(!is_windows_codex_shortcut_name("codex-switcher.lnk"));
    assert!(!is_windows_codex_shortcut_name("Codex.txt"));
}

#[test]
fn windows_apps_are_looked_for_in_known_places() {
    assert_eq!(windows_app_places().len(), 7);
    assert_eq!(windows_app_places()[4], "OpenAI\\Codex\\bin\\codex.exe");
    assert!(is_windows_openai_codex_bin(
        Some("Codex.exe"),
        "C:/Users/x/OpenAI/Codex/bin/Codex.exe"
    ));
    assert!(!is_windows_openai_codex_bin(
        Some("other.exe"),
        "C:/Users/x/OpenAI/Codex/bin/codex.exe"
    ));
    assert!(!is_windows_openai_codex_bin(None, "C:/OpenAI/Codex/bin/codex.exe"));
    assert!(is_codex_package_directory("OpenAI.Codex_2p2nqsd0c76g0"));
    assert!(!is_codex_package_directory("OpenAI.ChatGPT_x"));
    assert_eq!(
        entry_action(SearchFor::Apps, "x", true, 1),
        EntryAction::Descend
    );
    assert_eq!(
        entry_action(SearchFor::Apps, "x", true, 2),
        EntryAction::Skip
    );
    assert_eq!(
        entry_action(SearchFor::Shortcuts, "x", true, 2),
        EntryAction::Descend
    );
    assert_eq!(
        entry_action(SearchFor::Apps, "CODEX.EXE", false, 0),
        EntryAction::Take
    );
    assert_eq!(
        entry_action(SearchFor::Shortcuts, "Codex Switcher.lnk", false, 0),
        EntryAction::Skip
    );
}

#[test]
fn windows_app_is_the_first_candidate_that_is_there() {
    let candidate = |path: &str, is_file: bool, has_resources: bool| AppCandidate {
        path: path.to_string(),
        file_name: Some("Codex.exe".to_string()),
        is_file,
        has_parent: true,
        has_resources,
    };
    let candidates = vec![
        candidate("C:\\a\\Codex.exe", false, true),
        candidate("C:\\b\\Codex.exe", true, false),
        candidate("C:\\OpenAI\\Codex\\bin\\codex.exe", true, false),
        candidate("C:\\c\\Codex.exe", true, true),
    ];
    assert_eq!(find_windows_codex_app(&candidates), Some(2));
    assert_eq!(find_windows_codex_app(&vec![]), None);
}

#[test]
fn opening_the_app_tries_each_way_once() {
    assert!(matches!(
        open_codex_app(Platform::MacOs, 0, false),
        OpenDecision::Try(OpenStep::ByBundle)
    ));
    assert!(matches!(
        open_codex_app(Platform::MacOs, 1, false),
        OpenDecision::Try(OpenStep::ByName)
    ));
    assert!(matches!(
        open_codex_app(Platform::MacOs, 1, true),
        OpenDecision::Opened
    ));
    match open_codex_app(Platform::Windows, 3, false) {
        OpenDecision::Failed(message) => assert_eq!(
            message,
            "Codex app is not installed or could not be opened"
        ),
        other => panic!("expected a failure, got {other:?}"),
    }
    match open_codex_app(Platform::OtherUnix, 0, false) {
        OpenDecision::Failed(message) => assert_eq!(
            message,
            "Opening Codex app is only supported on macOS and Windows"
        ),
        other => panic!("expected a failure, got {other:?}"),
    }
}

#[test]
fn unix_processes_are_active_or_in_the_background() {
    let listing = "  10 ttys001 codex\n\
         11 ?? codex exec\n\
         12 ttys002 /usr/local/bin/codex app-server\n\
         13 ttys003 /opt/codex-switcher/codex\n\
         14 ?? /Applications/Codex.app/Contents/MacOS/Codex --flag\n\
         15 ttys004 vim codex\n\
         16 ttys005 /home/u/.vscode/extensions/bin/codex\n\
         bad line\n\
         9 ttys006 codex\n\
         9 ?? codex\n\
         77 ttys007 codex\n";
    let mut names: HashMap<u32, String> = HashMap::new();
    names.insert(14, "Codex".to_string());
    let (active, background) = find_codex_processes(listing, &names, &vec![], 77, false);
    assert_eq!(active, vec![9, 10, 14]);
    assert_eq!(background, 3);
}

#[test]
fn macos_desktop_app_is_told_by_its_bundle() {
    let command = "/Applications/ChatGPT.app/Contents/MacOS/ChatGPT";
    let listing = format!("  5 ?? {command}\n");
    let names = read_unix_process_names("  5 ChatGPT\n 6 a b \n x y\n 7\n");
    assert_eq!(names.len(), 2);
    assert_eq!(names[&6], "a b");
    assert_eq!(
        macos_app_bundle(command, Some("ChatGPT")).as_deref(),
        Some("/Applications/ChatGPT.app")
    );
    assert_eq!(macos_app_bundle(command, Some("Codex")), None);
    assert_eq!(
        app_bundles(&listing, &names),
        vec!["/Applications/ChatGPT.app".to_string()]
    );
    let codex = vec![(
        "/Applications/ChatGPT.app".to_string(),
        "com.openai.codex".to_string(),
    )];
    let chat = vec![(
        "/Applications/ChatGPT.app".to_string(),
        "com.openai.chat".to_string(),
    )];
    assert_eq!(
        find_codex_processes(&listing, &names, &codex, 1, true),
        (vec![5], 0)
    );
    assert_eq!(
        find_codex_processes(&listing, &names, &chat, 1, true),
        (vec![], 0)
    );
    assert_eq!(
        find_codex_processes(&listing, &names, &codex, 1, false),
        (vec![], 0)
    );
}

#[test]
fn editor_plugins_are_told_by_their_path() {
    assert!(is_ide_plugin_process("/home/u/.vscode/extensions/x"));
    assert!(is_ide_plugin_process("/home/u/.antigravity/x"));
    assert!(is_ide_plugin_process("x openai.chatgpt y"));
    assert!(!is_ide_plugin_process("/usr/bin/codex"));
}

#[test]
fn targets_are_the_roots_and_all_their_descendants() {
    let snapshot = read_unix_process_snapshot(
        " 10 1 501\n 11 10 501\n 12 10 0\n 13 11 501\n 20 2 501\nx y z\n 10 13 501\n",
    );
    assert_eq!(
        expand_process_targets(&vec![10, 20], Some(&snapshot)),
        vec![12, 11, 13, 10, 20]
    );
    assert_eq!(expand_process_targets(&vec![10, 10], None), vec![10]);
}

#[test]
fn pids_are_put_in_order() {
    assert_eq!(sort_and_dedup(&vec![5, 3, 5, 1, 3]), vec![1, 3, 5]);
    assert_eq!(sort_and_dedup(&vec![]), Vec::<u32>::new());
}

#[test]
fn numerals_read_back() {
    for n in [0u32, 7, 10, 4294967295] {
        assert_eq!(parse_u32(&decimal(u64::from(n))), Some(n));
    }
    assert_eq!(parse_u32("+7"), Some(7));
    assert_eq!(parse_u32("007"), Some(7));
    assert_eq!(parse_u32(""), None);
    assert_eq!(parse_u32("+"), None);
    assert_eq!(parse_u32("-1"), None);
    assert_eq!(parse_u32("4294967296"), None);
}

#[test]
fn foreign_processes_are_closed_by_an_administrator_on_macos() {
    let snapshot = read_unix_process_snapshot(" 10 1 501\n 11 10 0\n 12 10 501\n");
    let plan = kill_codex_processes(&vec![10], Some(&snapshot), Some(501), Platform::MacOs);
    assert_eq!(plan.targeted_count, 1);
    assert_eq!(plan.direct, vec![12, 10]);
    assert_eq!(plan.admin, vec![11]);

    let closed = vec![false, true];
    assert_eq!(plan.admin_targets(&vec![12]), vec![11, 12]);

    let granted = plan.finish_with_admin(&closed, true, &vec![false, true]);
    assert_eq!(granted.killed_pids, vec![10, 11]);
    assert_eq!(granted.failed_pids, vec![12]);

    let refused = plan.finish_with_admin(&closed, false, &vec![true, false]);
    assert_eq!(refused.killed_pids, vec![10]);
    assert_eq!(refused.failed_pids, vec![11]);
}

#[test]
fn other_systems_close_all_processes_directly() {
    let snapshot = read_unix_process_snapshot(" 10 1 501\n 11 10 0\n");
    let plan = kill_codex_processes(&vec![10], Some(&snapshot), Some(501), Platform::OtherUnix);
    assert_eq!(plan.direct, vec![11, 10]);
    let result = plan.finish(&vec![true, false]);
    assert_eq!(result.targeted_count, 1);
    assert_eq!(result.killed_pids, vec![11]);
    assert_eq!(result.failed_pids, vec![10]);

    let windows = kill_codex_processes(&vec![7, 7], None, None, Platform::Windows);
    assert_eq!(windows.direct, vec![7, 7]);
    assert_eq!(windows.admin, Vec::<u32>::new());
}

#[test]
fn administrators_are_asked_with_a_script() {
    assert_eq!(admin_script(&vec![]), None);
    assert_eq!(
        admin_script(&vec![7, 12]).unwrap(),
        r#"do shell script "for pid in 7 12; do /bin/kill -9 \"$pid\" 2>/dev/null || true; done" with administrator privileges with prompt "Codex Switcher needs permission to force close sudo/root Codex processes.""#
    );
}

#[test]
fn command_output_is_read() {
    assert_eq!(current_unix_uid(" 501\n"), Some(501));
    assert_eq!(current_unix_uid("root"), None);
    assert_eq!(current_unix_uid("4294967296"), None);
    assert!(unix_process_exists("  42\n", 42));
    assert!(!unix_process_exists("  421\n", 42));
    assert!(windows_process_exists("\"codex.exe\",\"42\"", 42));
    assert!(!windows_process_exists("INFO: No tasks", 42));
}

#[test]
fn active_processes_block_a_switch() {
    assert_eq!(ensure_codex_not_running(&vec![]), Ok(()));
    let one = ensure_codex_not_running(&vec![5]).unwrap_err();
    assert_eq!(
        one,
        "Cannot switch accounts while 1 Codex process is running"
    );
    let two = ensure_codex_not_running(&vec![5, 6]).unwrap_err();
    assert_eq!(
        two,
        "Cannot switch accounts while 2 Codex processes are running"
    );
    assert!(is_codex_running_switch_block(&one));
    assert!(is_codex_running_switch_block(&two));
    assert!(!is_codex_running_switch_block("Account not found: x"));

    let info = check_codex_processes((vec![5], 2));
    assert_eq!((info.count, info.background_count), (1, 2));
    assert!(!info.can_switch);
    assert!(check_codex_processes((vec![], 2)).can_switch);
}

#[test]
fn editor_plugin_servers_are_found() {
    let listing = "  PID COMMAND\n\
          5 /home/u/.antigravity/extensions/openai.chatgpt-1/bin/codex app-server\n\
          6 /home/u/.vscode/extensions/openai.chatgpt-1/bin/codex app-server --analytics-default-enabled\n\
          7 /usr/bin/codex app-server\n\
          8 /home/u/.vscode/extensions/openai.chatgpt-1/bin/node\n";
    assert_eq!(find_antigravity_processes(listing, false), vec![5, 6]);
    assert_eq!(
        find_antigravity_processes("\"Codex.EXE\",\"12\",\"Console\"\r\n\"x.exe\",\"13\"\r\n", true),
        vec![12]
    );
}
