//! Finding and opening the Codex desktop app.

use vstd::prelude::*;

use crate::closing::Platform;
use crate::text;
use crate::windows_roots;
use crate::words;

verus! {

// ---------------------------------------------------------------------------
// Names and paths on Windows
// ---------------------------------------------------------------------------

/// The file is a shortcut to Codex, and not to this application.
pub open spec fn is_shortcut(file_name: Seq<char>) -> bool {
    match words::rsplit_once_of(file_name, '.') {
        None => false,
        Some((stem, extension)) => {
            let name = text::lower_of(stem);
            &&& text::lower_of(extension) == "lnk"@
            &&& !text::has_part(name, "switcher"@)
            &&& name == "codex"@ || text::starts_with_of(name, "codex "@) || (text::has_part(
                name,
                "openai"@,
            ) && text::has_part(name, "codex"@))
        },
    }
}

/// Whether the file is a shortcut to Codex, and not to this application.
pub fn is_windows_codex_shortcut_name(file_name: &str) -> (r: bool)
    ensures
        r == is_shortcut(file_name@),
{
    match words::rsplit_once(file_name, '.') {
        None => false,
        Some((stem, extension)) => {
            let extension = text::to_lower(extension.as_str());
            if !text::same(extension.as_str(), "lnk") {
                return false;
            }
            let name = text::to_lower(stem.as_str());
            if text::contains_text(name.as_str(), "switcher") {
                return false;
            }
            text::same(name.as_str(), "codex") || text::starts_with_text(name.as_str(), "codex ")
                || (text::contains_text(name.as_str(), "openai") && text::contains_text(
                name.as_str(),
                "codex",
            ))
        },
    }
}

/// The path, which ends with `file_name`, is that of the command line tool that
/// the desktop app brings along.
pub open spec fn is_bundled_tool(file_name: Option<Seq<char>>, path: Seq<char>) -> bool {
    match file_name {
        Some(file_name) => text::lower_of(file_name) == "codex.exe"@ && text::has_part(
            windows_roots::normalized(path),
            "\\openai\\codex\\bin\\codex.exe"@,
        ),
        None => false,
    }
}

/// Whether the path, which ends with `file_name`, is that of the command line tool
/// that the desktop app brings along.
pub fn is_windows_openai_codex_bin(file_name: Option<&str>, path: &str) -> (r: bool)
    ensures
        r == is_bundled_tool(text::opt_str(file_name), path@),
{
    match file_name {
        Some(file_name) => {
            let lower = text::to_lower(file_name);
            if !text::same(lower.as_str(), "codex.exe") {
                return false;
            }
            let normalized = windows_roots::normalize_windows_path(path);
            text::contains_text(normalized.as_str(), "\\openai\\codex\\bin\\codex.exe")
        },
        None => false,
    }
}

/// Whether the executable belongs to a desktop app: it is the bundled tool, or a
/// directory `resources` lies beside it.
pub fn looks_like_windows_desktop_app(
    file_name: Option<&str>,
    path: &str,
    has_parent: bool,
    has_resources: bool,
) -> (r: bool)
    ensures
        r == (has_parent && (is_bundled_tool(text::opt_str(file_name), path@) || has_resources)),
{
    has_parent && (is_windows_openai_codex_bin(file_name, path) || has_resources)
}

/// Whether a directory of the package cache belongs to Codex.
pub fn is_codex_package_directory(name: &str) -> (r: bool)
    ensures
        r == text::starts_with_of(text::lower_of(name@), "openai.codex_"@),
{
    let lower = text::to_lower(name);
    text::starts_with_text(lower.as_str(), "openai.codex_")
}

/// What is looked for in a directory
#[derive(Debug, Clone, Copy, PartialEq, Eq, Structural)]
pub enum SearchFor {
    Apps,
    Shortcuts,
}

/// What to do with an entry of a directory
#[derive(Debug, Clone, Copy, PartialEq, Eq, Structural)]
pub enum EntryAction {
    /// Look into it.
    Descend,
    /// It is one of the things looked for.
    Take,
    /// Pass it over.
    Skip,
}

/// How many directories below the first one are looked into.
pub open spec fn depth_limit(search: SearchFor) -> nat {
    match search {
        SearchFor::Apps => 2,
        SearchFor::Shortcuts => 3,
    }
}

/// What to do with an entry of a directory that lies `depth` below the first one.
pub open spec fn action_for(
    search: SearchFor,
    name: Seq<char>,
    is_dir: bool,
    depth: nat,
) -> EntryAction {
    if is_dir {
        if depth < depth_limit(search) {
            EntryAction::Descend
        } else {
            EntryAction::Skip
        }
    } else if (match search {
        SearchFor::Apps => text::lower_of(name) == "codex.exe"@,
        SearchFor::Shortcuts => is_shortcut(name),
    }) {
        EntryAction::Take
    } else {
        EntryAction::Skip
    }
}

/// What to do with an entry of a directory that lies `depth` below the first one.
pub fn entry_action(search: SearchFor, name: &str, is_dir: bool, depth: usize) -> (r: EntryAction)
    ensures
        r == action_for(search, name@, is_dir, depth as nat),
{
    if is_dir {
        let limit: usize = match search {
            SearchFor::Apps => 2,
            SearchFor::Shortcuts => 3,
        };
        if depth < limit {
            return EntryAction::Descend;
        }
        return EntryAction::Skip;
    }
    let wanted = match search {
        SearchFor::Apps => {
            let lower = text::to_lower(name);
            text::same(lower.as_str(), "codex.exe")
        },
        SearchFor::Shortcuts => is_windows_codex_shortcut_name(name),
    };
    if wanted {
        EntryAction::Take
    } else {
        EntryAction::Skip
    }
}

/// The places below a directory for programs where the app can be, in the order
/// in which they are tried. Backslashes stand between the parts.
pub open spec fn app_places() -> Seq<Seq<char>> {
    seq![
        "Programs\\Codex\\Codex.exe"@,
        "Programs\\codex\\Codex.exe"@,
        "Codex\\Codex.exe"@,
        "OpenAI\\Codex\\Codex.exe"@,
        "OpenAI\\Codex\\bin\\codex.exe"@,
        "OpenAI Codex\\Codex.exe"@,
        "Codex Desktop\\Codex.exe"@,
    ]
}

/// The places below a directory for programs where the app can be.
pub fn windows_app_places() -> (r: Vec<String>)
    ensures
        text::texts(r@) == app_places(),
{
    let mut r: Vec<String> = Vec::new();
    r.push("Programs\\Codex\\Codex.exe".to_string());
    r.push("Programs\\codex\\Codex.exe".to_string());
    r.push("Codex\\Codex.exe".to_string());
    r.push("OpenAI\\Codex\\Codex.exe".to_string());
    r.push("OpenAI\\Codex\\bin\\codex.exe".to_string());
    r.push("OpenAI Codex\\Codex.exe".to_string());
    r.push("Codex Desktop\\Codex.exe".to_string());
    assert(text::texts(r@) =~= app_places());
    r
}

/// A file that may be the app, and what is known of it
#[derive(Debug)]
pub struct AppCandidate {
    pub path: String,
    pub file_name: Option<String>,
    pub is_file: bool,
    pub has_parent: bool,
    pub has_resources: bool,
}

/// The candidate is there and belongs to a desktop app.
pub open spec fn is_app(candidate: AppCandidate) -> bool {
    candidate.is_file && candidate.has_parent && (is_bundled_tool(
        text::opt_text(candidate.file_name),
        candidate.path@,
    ) || candidate.has_resources)
}

/// The first candidate that is the app.
pub open spec fn is_first_app(candidates: Seq<AppCandidate>, r: Option<usize>) -> bool {
    match r {
        Some(at) => {
            &&& at < candidates.len()
            &&& is_app(candidates[at as int])
            &&& forall|i: int| 0 <= i < at ==> !is_app(#[trigger] candidates[i])
        },
        None => forall|i: int|
            0 <= i < candidates.len() ==> !is_app(#[trigger] candidates[i]),
    }
}

/// The first candidate that is the app.
pub fn find_windows_codex_app(candidates: &Vec<AppCandidate>) -> (r: Option<usize>)
    ensures
        is_first_app(candidates@, r),
{
    let mut i: usize = 0;
    while i < candidates.len()
        invariant
            i <= candidates@.len(),
            forall|k: int| 0 <= k < i ==> !is_app(#[trigger] candidates@[k]),
        decreases candidates@.len() - i,
    {
        let candidate = &candidates[i];
        if candidate.is_file && looks_like_windows_desktop_app(
            text::as_opt_str(&candidate.file_name),
            candidate.path.as_str(),
            candidate.has_parent,
            candidate.has_resources,
        ) {
            return Some(i);
        }
        i = i + 1;
    }
    None
}

// ---------------------------------------------------------------------------
// Opening the app
// ---------------------------------------------------------------------------

/// A way to open the app
#[derive(Debug, Clone, Copy, PartialEq, Eq, Structural)]
pub enum OpenStep {
    /// By the identifier of its bundle
    ByBundle,
    /// By its name
    ByName,
    /// As the system has it registered
    Registered,
    /// By its executable
    Executable,
    /// By a shortcut
    Shortcut,
}

/// What to do next to open the app
#[derive(Debug)]
pub enum OpenDecision {
    Try(OpenStep),
    Opened,
    Failed(String),
}

/// The ways to open the app on a system, in the order in which they are tried.
pub open spec fn open_steps(platform: Platform) -> Seq<OpenStep> {
    match platform {
        Platform::MacOs => seq![OpenStep::ByBundle, OpenStep::ByName],
        Platform::Windows => seq![OpenStep::Registered, OpenStep::Executable, OpenStep::Shortcut],
        Platform::OtherUnix => Seq::empty(),
    }
}

/// What to do next to open the app, after `tried` ways were tried.
pub open spec fn is_open_decision(
    platform: Platform,
    tried: nat,
    success: bool,
    r: OpenDecision,
) -> bool {
    match r {
        OpenDecision::Opened => tried > 0 && success,
        OpenDecision::Try(step) => !(tried > 0 && success) && tried < open_steps(
            platform,
        ).len() && step == open_steps(platform)[tried as int],
        OpenDecision::Failed(message) => {
            &&& !(tried > 0 && success)
            &&& tried >= open_steps(platform).len()
            &&& message@ == (if platform == Platform::OtherUnix {
                "Opening Codex app is only supported on macOS and Windows"@
            } else {
                "Codex app is not installed or could not be opened"@
            })
        },
    }
}

/// What to do next to open the app, after `tried` ways were tried and the last of
/// them was a success or not.
pub fn open_codex_app(platform: Platform, tried: usize, success: bool) -> (r: OpenDecision)
    ensures
        is_open_decision(platform, tried as nat, success, r),
{
    if tried > 0 && success {
        return OpenDecision::Opened;
    }
    match platform {
        Platform::MacOs => {
            if tried == 0 {
                OpenDecision::Try(OpenStep::ByBundle)
            } else if tried == 1 {
                OpenDecision::Try(OpenStep::ByName)
            } else {
                OpenDecision::Failed(
                    "Codex app is not installed or could not be opened".to_string(),
                )
            }
        },
        Platform::Windows => {
            if tried == 0 {
                OpenDecision::Try(OpenStep::Registered)
            } else if tried == 1 {
                OpenDecision::Try(OpenStep::Executable)
            } else if tried == 2 {
                OpenDecision::Try(OpenStep::Shortcut)
            } else {
                OpenDecision::Failed(
                    "Codex app is not installed or could not be opened".to_string(),
                )
            }
        },
        Platform::OtherUnix => OpenDecision::Failed(
            "Opening Codex app is only supported on macOS and Windows".to_string(),
        ),
    }
}

// ---------------------------------------------------------------------------
// What holds of the search and of opening
// ---------------------------------------------------------------------------

/// A shortcut to Codex is a file with the extension `lnk` that is called `Codex`, starts
/// with `Codex` and a space, or names both OpenAI and Codex; case does not matter. One that
/// names a switcher is none.
pub proof fn law_shortcuts_are_told_by_their_name(stem: Seq<char>, extension: Seq<char>)
    requires
        !extension.contains('.'),
    ensures
        is_shortcut(stem + seq!['.'] + extension) <==> {
            let name = text::lower_of(stem);
            &&& text::lower_of(extension) == "lnk"@
            &&& !text::has_part(name, "switcher"@)
            &&& name == "codex"@ || text::starts_with_of(name, "codex "@) || (text::has_part(
                name,
                "openai"@,
            ) && text::has_part(name, "codex"@))
        },
        !is_shortcut(extension),
{
    words::law_text_is_cut_at_the_last(stem, '.', extension);
}

/// The tool that the app brings along is a `codex.exe` in its directory, and nothing
/// without a file name is it.
pub proof fn law_bundled_tool_is_told_by_its_path(file_name: Seq<char>, path: Seq<char>)
    ensures
        is_bundled_tool(Some(file_name), path) <==> text::lower_of(file_name) == "codex.exe"@
            && text::has_part(
            windows_roots::normalized(path),
            "\\openai\\codex\\bin\\codex.exe"@,
        ),
        !is_bundled_tool(None, path),
{
}

/// Apps are looked for two directories deep and shortcuts three; a directory is never taken
/// and a file never looked into. A file is taken exactly where it is what is looked for.
pub proof fn law_search_has_a_depth(name: Seq<char>, is_dir: bool, depth: nat)
    ensures
        action_for(SearchFor::Apps, name, is_dir, depth) == EntryAction::Descend <==> is_dir
            && depth < 2,
        action_for(SearchFor::Shortcuts, name, is_dir, depth) == EntryAction::Descend <==> is_dir
            && depth < 3,
        action_for(SearchFor::Apps, name, is_dir, depth) == EntryAction::Take <==> !is_dir
            && text::lower_of(name) == "codex.exe"@,
        action_for(SearchFor::Shortcuts, name, is_dir, depth) == EntryAction::Take <==> !is_dir
            && is_shortcut(name),
{
}

/// The app is the first file among the candidates that is the bundled tool or has
/// `resources` beside it, and one is found as soon as there is one.
pub proof fn law_first_app_is_found(candidates: Seq<AppCandidate>, found: Option<usize>, i: int)
    requires
        is_first_app(candidates, found),
        0 <= i < candidates.len(),
        candidates[i].is_file,
        candidates[i].has_parent,
        candidates[i].has_resources || is_bundled_tool(
            text::opt_text(candidates[i].file_name),
            candidates[i].path@,
        ),
    ensures
        found is Some,
        found->0 <= i,
        candidates[found->0 as int].is_file,
        candidates[found->0 as int].has_parent,
        candidates[found->0 as int].has_resources || is_bundled_tool(
            text::opt_text(candidates[found->0 as int].file_name),
            candidates[found->0 as int].path@,
        ),
{
    assert(is_app(candidates[i]));
}

/// A file that is missing, has no directory, or is neither the bundled tool nor has
/// `resources` beside it is never taken for the app.
pub proof fn law_other_files_are_not_the_app(candidates: Seq<AppCandidate>, found: Option<usize>)
    requires
        is_first_app(candidates, found),
        forall|i: int|
            0 <= i < candidates.len() ==> !(#[trigger] candidates[i]).is_file
                || !candidates[i].has_parent || (!candidates[i].has_resources && !is_bundled_tool(
                text::opt_text(candidates[i].file_name),
                candidates[i].path@,
            )),
    ensures
        found is None,
{
}

/// The app is opened as soon as one way is a success. Until then the ways of the system
/// are tried in turn: on macOS by the bundle and then by the name, on Windows as it is
/// registered, then by the executable, then by a shortcut. Elsewhere there is none.
pub proof fn law_ways_to_open_are_tried_in_turn(
    platform: Platform,
    tried: nat,
    success: bool,
    r: OpenDecision,
)
    requires
        is_open_decision(platform, tried, success, r),
    ensures
        r is Opened <==> tried > 0 && success,
        !success && platform == Platform::MacOs && tried == 0 ==> r == OpenDecision::Try(
            OpenStep::ByBundle,
        ),
        !success && platform == Platform::MacOs && tried == 1 ==> r == OpenDecision::Try(
            OpenStep::ByName,
        ),
        !success && platform == Platform::MacOs && tried >= 2 ==> r is Failed,
        !success && platform == Platform::Windows && tried == 0 ==> r == OpenDecision::Try(
            OpenStep::Registered,
        ),
        !success && platform == Platform::Windows && tried == 1 ==> r == OpenDecision::Try(
            OpenStep::Executable,
        ),
        !success && platform == Platform::Windows && tried == 2 ==> r == OpenDecision::Try(
            OpenStep::Shortcut,
        ),
        !success && platform == Platform::Windows && tried >= 3 ==> r is Failed,
        !success && platform == Platform::OtherUnix ==> r is Failed,
        r matches OpenDecision::Failed(message) ==> {
            &&& platform == Platform::OtherUnix ==> message@
                == "Opening Codex app is only supported on macOS and Windows"@
            &&& platform != Platform::OtherUnix ==> message@
                == "Codex app is not installed or could not be opened"@
        },
{
}

} // verus!
