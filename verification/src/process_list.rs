//! Codex processes in the process list of a Unix system.

use std::collections::HashMap;
use vstd::prelude::*;

use crate::numerals;
use crate::pids;
use crate::text;
use crate::words;

verus! {

broadcast use vstd::std_specs::hash::group_hash_axioms;

pub const LEGACY_EXECUTABLE_SUFFIX: &'static str = "/Codex.app/Contents/MacOS/Codex";

pub const CURRENT_EXECUTABLE_SUFFIX: &'static str = "/ChatGPT.app/Contents/MacOS/ChatGPT";

pub const APP_BUNDLE_SUFFIX: &'static str = "/ChatGPT.app";

// ---------------------------------------------------------------------------
// Names of processes
// ---------------------------------------------------------------------------

/// The part of `s` before its first white space character, and the part after
/// that character.
pub open spec fn cut_at_space_of(s: Seq<char>) -> Option<(Seq<char>, Seq<char>)>
    decreases s.len(),
{
    if s.len() == 0 {
        None
    } else if text::is_space(s[0]) {
        Some((Seq::empty(), s.drop_first()))
    } else {
        match cut_at_space_of(s.drop_first()) {
            Some((before, after)) => Some((seq![s[0]] + before, after)),
            None => None,
        }
    }
}

/// What a line with a process identifier and a name says.
pub open spec fn named_process(line: Seq<char>) -> Option<(u32, Seq<char>)> {
    match cut_at_space_of(text::trim_of(line)) {
        None => None,
        Some((pid, rest)) => {
            let name = text::trim_of(rest);
            match numerals::u32_of(pid) {
                Some(pid) if name.len() > 0 => Some((pid, name)),
                _ => None,
            }
        },
    }
}

/// The names that the lines give to process identifiers. A later line wins.
pub open spec fn process_names(lines: Seq<Seq<char>>) -> Map<u32, Seq<char>>
    decreases lines.len(),
{
    if lines.len() == 0 {
        Map::empty()
    } else {
        let before = process_names(lines.drop_last());
        match named_process(lines.last()) {
            Some((pid, name)) => before.insert(pid, name),
            None => before,
        }
    }
}

/// The names in a table of names.
pub open spec fn names_in(table: Map<u32, String>) -> Map<u32, Seq<char>> {
    table.map_values(|name: String| name@)
}

proof fn lemma_cut_at_space(s: Seq<char>, at: int)
    requires
        0 <= at <= s.len(),
        forall|i: int| 0 <= i < at ==> !text::is_space(#[trigger] s[i]),
        at < s.len() ==> text::is_space(s[at]),
    ensures
        at < s.len() ==> cut_at_space_of(s) == Some((s.take(at), s.skip(at + 1))),
        at == s.len() ==> cut_at_space_of(s) is None,
    decreases s.len(),
{
    if s.len() > 0 {
        if at == 0 {
            assert(s.take(0) =~= Seq::<char>::empty());
            assert(s.skip(1) =~= s.drop_first());
        } else {
            assert(!text::is_space(s[0]));
            let rest = s.drop_first();
            assert forall|i: int| 0 <= i < at - 1 implies !text::is_space(#[trigger] rest[i]) by {
                assert(rest[i] == s[i + 1]);
            }
            lemma_cut_at_space(rest, at - 1);
            if at < s.len() {
                assert(seq![s[0]] + rest.take(at - 1) =~= s.take(at));
                assert(rest.skip(at) =~= s.skip(at + 1));
            }
        }
    }
}

fn cut_at_space(s: &str) -> (r: Option<(String, String)>)
    ensures
        match r {
            Some((before, after)) => cut_at_space_of(s@) == Some((before@, after@)),
            None => cut_at_space_of(s@) is None,
        },
{
    let v = text::chars_of(s);
    let mut at: usize = 0;
    while at < v.len()
        invariant
            v@ == s@,
            at <= v@.len(),
            forall|i: int| 0 <= i < at ==> !text::is_space(#[trigger] s@[i]),
        decreases v@.len() - at,
    {
        if text::space(v[at]) {
            proof {
                lemma_cut_at_space(s@, at as int);
                assert(s@.subrange(0, at as int) =~= s@.take(at as int));
                assert(s@.subrange(at + 1, s@.len() as int) =~= s@.skip(at + 1));
            }
            let len: usize = v.len();
            return Some((text::text_between(&v, 0, at), text::text_between(&v, at + 1, len)));
        }
        at = at + 1;
    }
    proof {
        lemma_cut_at_space(s@, s@.len() as int);
    }
    None
}

/// The names of the processes in the output of `ps -axo pid=,ucomm=`.
pub fn read_unix_process_names(listing: &str) -> (r: HashMap<u32, String>)
    ensures
        names_in(r@) == process_names(words::lines_of(listing@)),
{
    let lines = words::lines(listing);
    let ghost all = words::lines_of(listing@);
    let mut names: HashMap<u32, String> = HashMap::new();
    let mut i: usize = 0;
    proof {
        assert(names_in(names@) =~= process_names(all.take(0)));
    }
    while i < lines.len()
        invariant
            text::texts(lines@) == all,
            i <= lines@.len(),
            names_in(names@) == process_names(all.take(i as int)),
        decreases lines@.len() - i,
    {
        proof {
            assert(lines@[i as int]@ == all[i as int]);
            assert(all.take(i + 1).drop_last() =~= all.take(i as int));
        }
        let ghost before = names_in(names@);
        let trimmed = text::trim(lines[i].as_str());
        match cut_at_space(trimmed.as_str()) {
            Some((pid, rest)) => {
                let name = text::trim(rest.as_str());
                match numerals::parse_u32(pid.as_str()) {
                    Some(pid) => {
                        if !name.as_str().is_empty() {
                            let ghost shown = name@;
                            names.insert(pid, name);
                            assert(names_in(names@) =~= before.insert(pid, shown));
                        }
                    },
                    None => {},
                }
            },
            None => {},
        }
        i = i + 1;
    }
    assert(all.take(all.len() as int) =~= all);
    names
}

// ---------------------------------------------------------------------------
// The desktop app on macOS
// ---------------------------------------------------------------------------

/// The command runs the executable whose path ends with `suffix`: nothing or a
/// white space character follows the first place where `suffix` stands.
pub open spec fn runs(command: Seq<char>, suffix: Seq<char>) -> bool {
    match text::find_of(command, suffix) {
        Some(at) => at + suffix.len() == command.len() || text::is_space(
            command[at + suffix.len()],
        ),
        None => false,
    }
}

/// The command is that of the desktop app.
pub open spec fn is_desktop(
    command: Seq<char>,
    name: Option<Seq<char>>,
    bundle: Option<Seq<char>>,
    macos: bool,
) -> bool {
    if name == Some("Codex"@) {
        runs(command, LEGACY_EXECUTABLE_SUFFIX@)
    } else if macos && name == Some("ChatGPT"@) && bundle == Some("com.openai.codex"@) {
        runs(command, CURRENT_EXECUTABLE_SUFFIX@)
    } else {
        false
    }
}

/// The path of the application bundle whose identifier tells whether the command
/// is that of the desktop app.
pub open spec fn bundle_of(command: Seq<char>, name: Option<Seq<char>>) -> Option<Seq<char>> {
    if name == Some("ChatGPT"@) && runs(command, CURRENT_EXECUTABLE_SUFFIX@) {
        let at = text::find_of(command, CURRENT_EXECUTABLE_SUFFIX@)->0;
        Some(command.take(at + APP_BUNDLE_SUFFIX@.len()))
    } else {
        None
    }
}

/// Where `suffix` stands, if the command runs the executable with that suffix.
fn executable_position(command: &Vec<char>, suffix: &Vec<char>) -> (r: Option<usize>)
    ensures
        match r {
            Some(at) => {
                &&& runs(command@, suffix@)
                &&& text::find_of(command@, suffix@) == Some(at as int)
                &&& at + suffix@.len() <= command@.len()
            },
            None => !runs(command@, suffix@),
        },
{
    proof {
        text::lemma_find_from(command@, suffix@, 0);
    }
    let len: usize = command.len();
    match text::position_from(command, suffix, 0) {
        Some(at) => {
            let end: usize = at + suffix.len();
            if end == len || text::space(command[end]) {
                Some(at)
            } else {
                None
            }
        },
        None => None,
    }
}

/// Whether the command is that of the Codex desktop app, which has been named
/// `Codex` and, on macOS, `ChatGPT`.
pub fn is_macos_codex_desktop_process(
    command: &str,
    process_name: Option<&str>,
    bundle_identifier: Option<&str>,
    macos: bool,
) -> (r: bool)
    ensures
        r == is_desktop(
            command@,
            text::opt_str(process_name),
            text::opt_str(bundle_identifier),
            macos,
        ),
{
    let command = text::chars_of(command);
    if text::same_opt(process_name, Some("Codex")) {
        executable_position(&command, &text::chars_of(LEGACY_EXECUTABLE_SUFFIX)).is_some()
    } else if macos && text::same_opt(process_name, Some("ChatGPT")) && text::same_opt(
        bundle_identifier,
        Some("com.openai.codex"),
    ) {
        executable_position(&command, &text::chars_of(CURRENT_EXECUTABLE_SUFFIX)).is_some()
    } else {
        false
    }
}

/// The path of the application bundle that the command runs from, for a process
/// that may be the desktop app.
pub fn macos_app_bundle(command: &str, process_name: Option<&str>) -> (r: Option<String>)
    ensures
        text::opt_text(r) == bundle_of(command@, text::opt_str(process_name)),
{
    if !text::same_opt(process_name, Some("ChatGPT")) {
        return None;
    }
    let command = text::chars_of(command);
    let len: usize = command.len();
    match executable_position(&command, &text::chars_of(CURRENT_EXECUTABLE_SUFFIX)) {
        Some(at) => {
            proof {
                reveal_strlit("/ChatGPT.app/Contents/MacOS/ChatGPT");
                reveal_strlit("/ChatGPT.app");
            }
            assert(at + APP_BUNDLE_SUFFIX@.len() <= len);
            let end: usize = at + text::chars_of(APP_BUNDLE_SUFFIX).len();
            assert(command@.subrange(0, end as int) =~= command@.take(end as int));
            Some(text::text_between(&command, 0, end))
        },
        None => None,
    }
}

// ---------------------------------------------------------------------------
// The process list
// ---------------------------------------------------------------------------

/// A process as the process list shows it.
pub struct ListedProcess {
    pub pid: u32,
    pub tty: Seq<char>,
    pub executable: Seq<char>,
    pub command: Seq<char>,
}

/// What a line with a process identifier, a terminal and a command says.
pub open spec fn listed_process(line: Seq<char>) -> Option<ListedProcess> {
    let fields = words::words_of(line);
    if fields.len() < 3 {
        None
    } else {
        match numerals::u32_of(fields[0]) {
            Some(pid) => Some(
                ListedProcess {
                    pid,
                    tty: fields[1],
                    executable: fields[2],
                    command: words::join_of(fields.skip(2), " "@),
                },
            ),
            None => None,
        }
    }
}

/// The command belongs to a plugin of an editor.
pub open spec fn is_ide_plugin(command: Seq<char>) -> bool {
    ||| text::has_part(command, ".antigravity"@)
    ||| text::has_part(command, "openai.chatgpt"@)
    ||| text::has_part(command, ".vscode"@)
}

/// What a process means for switching accounts.
pub enum Standing {
    /// It has nothing to do with it.
    Unrelated,
    /// It is a Codex process that does not stand in the way.
    Background,
    /// It is a Codex process that stands in the way.
    Active,
}

/// What a process in the list means for switching accounts, given its name and
/// the identifier of the application bundle it runs from.
pub open spec fn standing(
    process: ListedProcess,
    name: Option<Seq<char>>,
    bundle: Option<Seq<char>>,
    own_pid: u32,
    macos: bool,
) -> Standing {
    let command = text::lower_of(process.command);
    let cli = process.executable == "codex"@ || text::ends_with_of(
        process.executable,
        "/codex"@,
    );
    let desktop = is_desktop(process.command, name, bundle, macos);
    let terminal = process.tty != "??"@ && process.tty != "?"@;
    if text::has_part(command, "codex-switcher"@) || !(cli || desktop) || process.pid == own_pid {
        Standing::Unrelated
    } else if is_ide_plugin(command) || text::has_part(command, "codex app-server"@) {
        Standing::Background
    } else if desktop || terminal {
        Standing::Active
    } else {
        Standing::Background
    }
}

/// The first identifier that is recorded for an application bundle.
pub open spec fn recorded_identifier(
    bundles: Seq<(String, String)>,
    path: Seq<char>,
) -> Option<Seq<char>>
    decreases bundles.len(),
{
    if bundles.len() == 0 {
        None
    } else if bundles[0].0@ == path {
        Some(bundles[0].1@)
    } else {
        recorded_identifier(bundles.drop_first(), path)
    }
}

/// The identifier of the application bundle that the command runs from.
pub open spec fn identifier_of(
    command: Seq<char>,
    name: Option<Seq<char>>,
    bundles: Seq<(String, String)>,
    macos: bool,
) -> Option<Seq<char>> {
    match bundle_of(command, name) {
        Some(path) if macos => recorded_identifier(bundles, path),
        _ => None,
    }
}

pub open spec fn name_of(names: Map<u32, Seq<char>>, pid: u32) -> Option<Seq<char>> {
    if names.contains_key(pid) {
        Some(names[pid])
    } else {
        None
    }
}

/// The active processes of the list in the order of the list, each of them once,
/// and the number of lines that show a background process. A line for a process
/// that is already known to be active does not count.
pub open spec fn sightings(
    lines: Seq<Seq<char>>,
    names: Map<u32, Seq<char>>,
    bundles: Seq<(String, String)>,
    own_pid: u32,
    macos: bool,
) -> (Seq<u32>, nat)
    decreases lines.len(),
{
    if lines.len() == 0 {
        (Seq::empty(), 0)
    } else {
        let (active, background) = sightings(lines.drop_last(), names, bundles, own_pid, macos);
        match listed_process(lines.last()) {
            None => (active, background),
            Some(process) => {
                let name = name_of(names, process.pid);
                let bundle = identifier_of(process.command, name, bundles, macos);
                if active.contains(process.pid) {
                    (active, background)
                } else {
                    match standing(process, name, bundle, own_pid, macos) {
                        Standing::Unrelated => (active, background),
                        Standing::Background => (active, background + 1),
                        Standing::Active => (active.push(process.pid), background),
                    }
                }
            },
        }
    }
}

/// Whether the lower-case command belongs to a plugin of an editor.
pub fn is_ide_plugin_process(command: &str) -> (r: bool)
    ensures
        r == is_ide_plugin(command@),
{
    text::contains_text(command, ".antigravity") || text::contains_text(command, "openai.chatgpt")
        || text::contains_text(command, ".vscode")
}

fn find_identifier<'a>(bundles: &'a Vec<(String, String)>, path: &str) -> (r: Option<&'a str>)
    ensures
        text::opt_str(r) == recorded_identifier(bundles@, path@),
{
    let mut i: usize = 0;
    assert(bundles@.skip(0) =~= bundles@);
    while i < bundles.len()
        invariant
            i <= bundles@.len(),
            recorded_identifier(bundles@, path@) == recorded_identifier(
                bundles@.skip(i as int),
                path@,
            ),
        decreases bundles@.len() - i,
    {
        assert(bundles@.skip(i as int).drop_first() =~= bundles@.skip(i + 1));
        if text::same(bundles[i].0.as_str(), path) {
            return Some(bundles[i].1.as_str());
        }
        i = i + 1;
    }
    None
}

/// The active Codex processes in the output of `ps -axo pid=,tty=,command=`, in
/// ascending order, and the number of background processes. `bundles` holds the
/// identifiers of the application bundles on this machine by their path.
pub fn find_codex_processes(
    listing: &str,
    names: &HashMap<u32, String>,
    bundles: &Vec<(String, String)>,
    own_pid: u32,
    macos: bool,
) -> (r: (Vec<u32>, usize))
    ensures
        ({
            let (active, background) = sightings(
                words::lines_of(listing@),
                names_in(names@),
                bundles@,
                own_pid,
                macos,
            );
            r.0@ == pids::in_order(active) && r.1 == background
        }),
{
    let lines = words::lines(listing);
    let ghost all = words::lines_of(listing@);
    let ghost table = names_in(names@);
    let mut active: Vec<u32> = Vec::new();
    let mut background: usize = 0;
    let mut i: usize = 0;
    while i < lines.len()
        invariant
            text::texts(lines@) == all,
            table == names_in(names@),
            i <= lines@.len(),
            (active@, background as nat) == sightings(
                all.take(i as int),
                table,
                bundles@,
                own_pid,
                macos,
            ),
            background <= i,
        decreases lines@.len() - i,
    {
        proof {
            assert(lines@[i as int]@ == all[i as int]);
            assert(all.take(i + 1).drop_last() =~= all.take(i as int));
        }
        let fields = words::words(lines[i].as_str());
        let ghost parts = words::words_of(all[i as int]);
        i = i + 1;
        if fields.len() < 3 {
            continue;
        }
        proof {
            assert(fields@[0]@ == parts[0]);
            assert(fields@[1]@ == parts[1]);
            assert(fields@[2]@ == parts[2]);
        }
        let pid: u32 = match numerals::parse_u32(fields[0].as_str()) {
            Some(pid) => pid,
            None => {
                continue;
            },
        };
        let command = command_of(&fields);
        let name: Option<&str> = match names.get(&pid) {
            Some(name) => Some(name.as_str()),
            None => None,
        };
        assert(text::opt_str(name) == name_of(table, pid));
        let path = macos_app_bundle(command.as_str(), name);
        let bundle: Option<&str> = match &path {
            Some(path) if macos => find_identifier(bundles, path.as_str()),
            _ => None,
        };
        assert(text::opt_str(bundle) == identifier_of(command@, name_of(table, pid), bundles@, macos));
        if pids::holds(&active, pid) {
            continue;
        }
        match process_standing(
            pid,
            fields[1].as_str(),
            fields[2].as_str(),
            command.as_str(),
            name,
            bundle,
            own_pid,
            macos,
        ) {
            Standing::Unrelated => {},
            Standing::Background => {
                background = background + 1;
            },
            Standing::Active => {
                active.push(pid);
            },
        }
    }
    assert(all.take(all.len() as int) =~= all);
    (pids::sort_and_dedup(&active), background)
}

/// The command that follows the process identifier and the terminal.
fn command_of(fields: &Vec<String>) -> (r: String)
    requires
        fields@.len() >= 2,
    ensures
        r@ == words::join_of(text::texts(fields@).skip(2), " "@),
{
    let mut rest: Vec<String> = Vec::new();
    let mut i: usize = 2;
    let ghost all = text::texts(fields@);
    assert(text::texts(rest@) =~= all.subrange(2, 2));
    while i < fields.len()
        invariant
            2 <= i <= fields@.len(),
            all == text::texts(fields@),
            text::texts(rest@) == all.subrange(2, i as int),
        decreases fields@.len() - i,
    {
        let field = fields[i].clone();
        proof {
            words::lemma_texts_push(rest@, field);
            assert(all.subrange(2, i + 1) =~= all.subrange(2, i as int).push(all[i as int]));
        }
        rest.push(field);
        i = i + 1;
    }
    assert(all.subrange(2, all.len() as int) =~= all.skip(2));
    words::join(&rest, " ")
}

/// What a process in the list means for switching accounts.
fn process_standing(
    pid: u32,
    tty: &str,
    executable: &str,
    command: &str,
    name: Option<&str>,
    bundle: Option<&str>,
    own_pid: u32,
    macos: bool,
) -> (r: Standing)
    ensures
        r == standing(
            (ListedProcess { pid, tty: tty@, executable: executable@, command: command@ }),
            text::opt_str(name),
            text::opt_str(bundle),
            own_pid,
            macos,
        ),
{
    let lowercase_command = text::to_lower(command);
    let lowercase_command = lowercase_command.as_str();
    if text::contains_text(lowercase_command, "codex-switcher") {
        return Standing::Unrelated;
    }
    // An application bundle's path can hold spaces (`Codex Helper.app`), so the
    // desktop app is told by the shape of the whole command, not by its first word.
    let is_codex_cli = text::same(executable, "codex") || text::ends_with_text(
        executable,
        "/codex",
    );
    let is_codex_desktop = is_macos_codex_desktop_process(command, name, bundle, macos);
    if (!is_codex_cli && !is_codex_desktop) || pid == own_pid {
        return Standing::Unrelated;
    }
    let is_app_server = text::contains_text(lowercase_command, "codex app-server");
    if is_ide_plugin_process(lowercase_command) || is_app_server {
        return Standing::Background;
    }
    let has_tty = !text::same(tty, "??") && !text::same(tty, "?");
    if is_codex_desktop || has_tty {
        Standing::Active
    } else {
        // A headless or orphaned process does not stand in the way.
        Standing::Background
    }
}

/// The paths of the application bundles whose identifiers `find_codex_processes`
/// looks for, in the order of the list.
pub fn app_bundles(listing: &str, names: &HashMap<u32, String>) -> (r: Vec<String>)
    ensures
        text::texts(r@) == bundles_in(words::lines_of(listing@), names_in(names@)),
{
    let lines = words::lines(listing);
    let ghost all = words::lines_of(listing@);
    let ghost table = names_in(names@);
    let mut r: Vec<String> = Vec::new();
    let mut i: usize = 0;
    assert(text::texts(r@) =~= bundles_in(all.take(0), table));
    while i < lines.len()
        invariant
            text::texts(lines@) == all,
            table == names_in(names@),
            i <= lines@.len(),
            text::texts(r@) == bundles_in(all.take(i as int), table),
        decreases lines@.len() - i,
    {
        proof {
            assert(lines@[i as int]@ == all[i as int]);
            assert(all.take(i + 1).drop_last() =~= all.take(i as int));
        }
        let fields = words::words(lines[i].as_str());
        let ghost parts = words::words_of(all[i as int]);
        i = i + 1;
        if fields.len() < 3 {
            continue;
        }
        assert(fields@[0]@ == parts[0]);
        let pid: u32 = match numerals::parse_u32(fields[0].as_str()) {
            Some(pid) => pid,
            None => {
                continue;
            },
        };
        let command = command_of(&fields);
        let name: Option<&str> = match names.get(&pid) {
            Some(name) => Some(name.as_str()),
            None => None,
        };
        assert(text::opt_str(name) == name_of(table, pid));
        match macos_app_bundle(command.as_str(), name) {
            Some(path) => {
                proof {
                    words::lemma_texts_push(r@, path);
                }
                r.push(path);
            },
            None => {},
        }
    }
    assert(all.take(all.len() as int) =~= all);
    r
}

/// The application bundles that the listed processes run from.
pub open spec fn bundles_in(lines: Seq<Seq<char>>, names: Map<u32, Seq<char>>) -> Seq<Seq<char>>
    decreases lines.len(),
{
    if lines.len() == 0 {
        Seq::empty()
    } else {
        let before = bundles_in(lines.drop_last(), names);
        match listed_process(lines.last()) {
            None => before,
            Some(process) => match bundle_of(process.command, name_of(names, process.pid)) {
                Some(path) => before.push(path),
                None => before,
            },
        }
    }
}

/// The processes that stand in the way are listed once each, and this application is
/// not among them. No more processes are counted than there are lines.
pub proof fn law_sightings(
    lines: Seq<Seq<char>>,
    names: Map<u32, Seq<char>>,
    bundles: Seq<(String, String)>,
    own_pid: u32,
    macos: bool,
)
    ensures
        ({
            let (active, background) = sightings(lines, names, bundles, own_pid, macos);
            &&& active.no_duplicates()
            &&& !active.contains(own_pid)
            &&& active.len() + background <= lines.len()
        }),
    decreases lines.len(),
{
    if lines.len() > 0 {
        law_sightings(lines.drop_last(), names, bundles, own_pid, macos);
        let (active, background) = sightings(lines.drop_last(), names, bundles, own_pid, macos);
        match listed_process(lines.last()) {
            Some(process) => {
                let more = active.push(process.pid);
                if more.contains(own_pid) && process.pid != own_pid {
                    let i = choose|i: int| 0 <= i < more.len() && more[i] == own_pid;
                    assert(active[i] == own_pid);
                }
            },
            None => {},
        }
    }
}

proof fn lemma_sightings_grow(
    lines: Seq<Seq<char>>,
    names: Map<u32, Seq<char>>,
    bundles: Seq<(String, String)>,
    own_pid: u32,
    macos: bool,
    k: int,
    pid: u32,
)
    requires
        0 <= k <= lines.len(),
        sightings(lines.take(k), names, bundles, own_pid, macos).0.contains(pid),
    ensures
        sightings(lines, names, bundles, own_pid, macos).0.contains(pid),
    decreases lines.len(),
{
    if k == lines.len() {
        assert(lines.take(k) =~= lines);
    } else {
        let front = lines.drop_last();
        assert(front.take(k) =~= lines.take(k));
        lemma_sightings_grow(front, names, bundles, own_pid, macos, k, pid);
        let active = sightings(front, names, bundles, own_pid, macos).0;
        let i = choose|i: int| 0 <= i < active.len() && active[i] == pid;
        match listed_process(lines.last()) {
            Some(process) => {
                assert(active.push(process.pid)[i] == pid);
            },
            None => {},
        }
    }
}

/// A line that shows an active process brings that process in.
proof fn lemma_active_line(
    lines: Seq<Seq<char>>,
    names: Map<u32, Seq<char>>,
    bundles: Seq<(String, String)>,
    own_pid: u32,
    macos: bool,
    k: int,
)
    requires
        0 <= k < lines.len(),
        listed_process(lines[k]) is Some,
        ({
            let process = listed_process(lines[k])->0;
            let name = name_of(names, process.pid);
            standing(
                process,
                name,
                identifier_of(process.command, name, bundles, macos),
                own_pid,
                macos,
            ) is Active
        }),
    ensures
        pids::in_order(sightings(lines, names, bundles, own_pid, macos).0).contains(
            listed_process(lines[k])->0.pid,
        ),
{
    let pid = listed_process(lines[k])->0.pid;
    let front = lines.take(k + 1);
    assert(front.drop_last() =~= lines.take(k));
    assert(front.last() == lines[k]);
    let before = sightings(lines.take(k), names, bundles, own_pid, macos).0;
    if !before.contains(pid) {
        assert(before.push(pid).last() == pid);
    }
    lemma_sightings_grow(lines, names, bundles, own_pid, macos, k + 1, pid);
    pids::law_in_order(sightings(lines, names, bundles, own_pid, macos).0);
}

/// A Codex session in a terminal stands in the way: its line shows a process
/// identifier, a terminal, and a command whose first word is `codex` or a path to
/// it. Only this application, the switcher under another identifier, plugins of
/// editors and app servers are left out.
pub proof fn law_sessions_stand_in_the_way(
    lines: Seq<Seq<char>>,
    names: Map<u32, Seq<char>>,
    bundles: Seq<(String, String)>,
    own_pid: u32,
    macos: bool,
    k: int,
    pid: u32,
)
    requires
        0 <= k < lines.len(),
        words::words_of(lines[k]).len() >= 3,
        numerals::u32_of(words::words_of(lines[k])[0]) == Some(pid),
        words::words_of(lines[k])[1] != "?"@,
        words::words_of(lines[k])[1] != "??"@,
        words::words_of(lines[k])[2] == "codex"@ || text::ends_with_of(
            words::words_of(lines[k])[2],
            "/codex"@,
        ),
        pid != own_pid,
        ({
            let command = text::lower_of(words::join_of(words::words_of(lines[k]).skip(2), " "@));
            &&& !text::has_part(command, "codex-switcher"@)
            &&& !text::has_part(command, ".antigravity"@)
            &&& !text::has_part(command, "openai.chatgpt"@)
            &&& !text::has_part(command, ".vscode"@)
            &&& !text::has_part(command, "codex app-server"@)
        }),
    ensures
        pids::in_order(sightings(lines, names, bundles, own_pid, macos).0).contains(pid),
{
    lemma_active_line(lines, names, bundles, own_pid, macos, k);
}

/// The desktop app stands in the way, with a terminal or without, where it goes by
/// its old name: its command is the path of its executable, which arguments may
/// follow.
pub proof fn law_desktop_app_stands_in_the_way(
    lines: Seq<Seq<char>>,
    names: Map<u32, Seq<char>>,
    bundles: Seq<(String, String)>,
    own_pid: u32,
    macos: bool,
    k: int,
    pid: u32,
    at: int,
)
    requires
        0 <= k < lines.len(),
        words::words_of(lines[k]).len() >= 3,
        numerals::u32_of(words::words_of(lines[k])[0]) == Some(pid),
        pid != own_pid,
        names.contains_key(pid),
        names[pid] == "Codex"@,
        ({
            let command = words::join_of(words::words_of(lines[k]).skip(2), " "@);
            let lower = text::lower_of(command);
            let suffix = "/Codex.app/Contents/MacOS/Codex"@;
            &&& !text::has_part(lower, "codex-switcher"@)
            &&& !text::has_part(lower, ".antigravity"@)
            &&& !text::has_part(lower, "openai.chatgpt"@)
            &&& !text::has_part(lower, ".vscode"@)
            &&& !text::has_part(lower, "codex app-server"@)
            &&& text::occurs_at(command, suffix, at)
            &&& forall|i: int| 0 <= i < at ==> !text::occurs_at(command, suffix, i)
            &&& at + suffix.len() == command.len() || command[at + suffix.len()] == ' '
        }),
    ensures
        pids::in_order(sightings(lines, names, bundles, own_pid, macos).0).contains(pid),
{
    let command = words::join_of(words::words_of(lines[k]).skip(2), " "@);
    lemma_find_is(command, "/Codex.app/Contents/MacOS/Codex"@, at);
    assert(runs(command, LEGACY_EXECUTABLE_SUFFIX@));
    lemma_active_line(lines, names, bundles, own_pid, macos, k);
}

/// On macOS the desktop app stands in the way under its new name, where the bundle
/// that it runs from has the identifier of Codex.
pub proof fn law_renamed_desktop_app_stands_in_the_way(
    lines: Seq<Seq<char>>,
    names: Map<u32, Seq<char>>,
    bundles: Seq<(String, String)>,
    own_pid: u32,
    macos: bool,
    k: int,
    pid: u32,
    at: int,
    b: int,
)
    requires
        0 <= k < lines.len(),
        words::words_of(lines[k]).len() >= 3,
        numerals::u32_of(words::words_of(lines[k])[0]) == Some(pid),
        pid != own_pid,
        names.contains_key(pid),
        names[pid] == "ChatGPT"@,
        ({
            let command = words::join_of(words::words_of(lines[k]).skip(2), " "@);
            let lower = text::lower_of(command);
            let suffix = "/ChatGPT.app/Contents/MacOS/ChatGPT"@;
            &&& !text::has_part(lower, "codex-switcher"@)
            &&& !text::has_part(lower, ".antigravity"@)
            &&& !text::has_part(lower, "openai.chatgpt"@)
            &&& !text::has_part(lower, ".vscode"@)
            &&& !text::has_part(lower, "codex app-server"@)
            &&& text::occurs_at(command, suffix, at)
            &&& forall|i: int| 0 <= i < at ==> !text::occurs_at(command, suffix, i)
            &&& at + suffix.len() == command.len() || command[at + suffix.len()] == ' '
            &&& macos
            &&& 0 <= b < bundles.len()
            &&& bundles[b].0@ == command.take(at) + "/ChatGPT.app"@
            &&& bundles[b].1@ == "com.openai.codex"@
            &&& forall|i: int| 0 <= i < b ==> (#[trigger] bundles[i]).0@ != bundles[b].0@
        }),
    ensures
        pids::in_order(sightings(lines, names, bundles, own_pid, macos).0).contains(pid),
{
    let command = words::join_of(words::words_of(lines[k]).skip(2), " "@);
    let suffix = "/ChatGPT.app/Contents/MacOS/ChatGPT"@;
    reveal_strlit("/ChatGPT.app/Contents/MacOS/ChatGPT");
    reveal_strlit("/ChatGPT.app");
    reveal_strlit("ChatGPT");
    reveal_strlit("Codex");
    assert("Codex"@.len() != "ChatGPT"@.len());
    lemma_find_is(command, suffix, at);
    assert(runs(command, CURRENT_EXECUTABLE_SUFFIX@));
    let path = command.take(at + APP_BUNDLE_SUFFIX@.len());
    assert forall|i: int| 0 <= i < "/ChatGPT.app"@.len() implies command[at + i]
        == #[trigger] "/ChatGPT.app"@[i] by {
        assert(command.subrange(at, at + suffix.len())[i] == suffix[i]);
    }
    assert(path =~= command.take(at) + "/ChatGPT.app"@);
    lemma_recorded(bundles, path, b);
    lemma_active_line(lines, names, bundles, own_pid, macos, k);
}

proof fn lemma_find_is(s: Seq<char>, part: Seq<char>, at: int)
    requires
        text::occurs_at(s, part, at),
        forall|i: int| 0 <= i < at ==> !text::occurs_at(s, part, i),
    ensures
        text::find_of(s, part) == Some(at),
{
    text::lemma_find_from(s, part, 0);
    if text::find_of(s, part) is Some {
        let found = text::find_of(s, part)->0;
        assert(text::occurs_at(s, part, found));
    }
}

proof fn lemma_recorded(bundles: Seq<(String, String)>, path: Seq<char>, b: int)
    requires
        0 <= b < bundles.len(),
        bundles[b].0@ == path,
        forall|i: int| 0 <= i < b ==> (#[trigger] bundles[i]).0@ != path,
    ensures
        recorded_identifier(bundles, path) == Some(bundles[b].1@),
    decreases bundles.len(),
{
    if b > 0 {
        assert(bundles[0].0@ != path);
        let rest = bundles.drop_first();
        assert(rest[b - 1] == bundles[b]);
        assert forall|i: int| 0 <= i < b - 1 implies (#[trigger] rest[i]).0@ != path by {
            assert(rest[i] == bundles[i + 1]);
        }
        lemma_recorded(rest, path, b - 1);
    }
}

proof fn lemma_recorded_is_listed(bundles: Seq<(String, String)>, path: Seq<char>) -> (b: int)
    requires
        recorded_identifier(bundles, path) is Some,
    ensures
        0 <= b < bundles.len(),
        bundles[b].0@ == path,
        recorded_identifier(bundles, path) == Some(bundles[b].1@),
    decreases bundles.len(),
{
    if bundles[0].0@ == path {
        0
    } else {
        let rest = lemma_recorded_is_listed(bundles.drop_first(), path);
        assert(bundles.drop_first()[rest] == bundles[rest + 1]);
        rest + 1
    }
}

/// What stands in the way is in the list, and it is Codex: not this application, the
/// switcher, a plugin of an editor or an app server, but a session in a terminal or
/// the desktop app.
pub proof fn law_what_stands_in_the_way_is_codex(
    lines: Seq<Seq<char>>,
    names: Map<u32, Seq<char>>,
    bundles: Seq<(String, String)>,
    own_pid: u32,
    macos: bool,
    pid: u32,
) -> (k: int)
    requires
        sightings(lines, names, bundles, own_pid, macos).0.contains(pid),
    ensures
        0 <= k < lines.len(),
        words::words_of(lines[k]).len() >= 3,
        numerals::u32_of(words::words_of(lines[k])[0]) == Some(pid),
        pid != own_pid,
        ({
            let fields = words::words_of(lines[k]);
            let command = words::join_of(fields.skip(2), " "@);
            let lower = text::lower_of(command);
            &&& !text::has_part(lower, "codex-switcher"@)
            &&& !text::has_part(lower, ".antigravity"@)
            &&& !text::has_part(lower, "openai.chatgpt"@)
            &&& !text::has_part(lower, ".vscode"@)
            &&& !text::has_part(lower, "codex app-server"@)
            &&& {
                ||| {
                    &&& fields[2] == "codex"@ || text::ends_with_of(fields[2], "/codex"@)
                    &&& fields[1] != "?"@
                    &&& fields[1] != "??"@
                }
                ||| {
                    &&& names.contains_key(pid)
                    &&& names[pid] == "Codex"@
                    &&& text::has_part(command, "/Codex.app/Contents/MacOS/Codex"@)
                }
                ||| {
                    &&& macos
                    &&& names.contains_key(pid)
                    &&& names[pid] == "ChatGPT"@
                    &&& text::has_part(command, "/ChatGPT.app/Contents/MacOS/ChatGPT"@)
                    &&& exists|b: int|
                        0 <= b < bundles.len() && (#[trigger] bundles[b]).1@ == "com.openai.codex"@
                }
            }
        }),
    decreases lines.len(),
{
    let front = lines.drop_last();
    let (active, background) = sightings(front, names, bundles, own_pid, macos);
    if active.contains(pid) {
        let k = law_what_stands_in_the_way_is_codex(front, names, bundles, own_pid, macos, pid);
        assert(front[k] == lines[k]);
        k
    } else {
        let process = listed_process(lines.last())->0;
        let more = active.push(process.pid);
        assert(process.pid == pid) by {
            let i = choose|i: int| 0 <= i < more.len() && more[i] == pid;
            if i < active.len() {
                assert(active[i] == pid);
            }
        }
        let name = name_of(names, pid);
        let bundle = identifier_of(process.command, name, bundles, macos);
        assert(standing(process, name, bundle, own_pid, macos) is Active);
        text::lemma_has_part_iff_found(process.command, LEGACY_EXECUTABLE_SUFFIX@);
        text::lemma_has_part_iff_found(process.command, CURRENT_EXECUTABLE_SUFFIX@);
        if bundle is Some {
            let b = lemma_recorded_is_listed(bundles, bundle_of(process.command, name)->0);
            assert(bundles[b].1@ == bundle->0);
        }
        lines.len() - 1
    }
}

/// A Codex process without a terminal, of a plugin of an editor or of an app server,
/// is counted and does not stand in the way.
pub proof fn law_background_processes_are_counted(
    lines: Seq<Seq<char>>,
    line: Seq<char>,
    names: Map<u32, Seq<char>>,
    bundles: Seq<(String, String)>,
    own_pid: u32,
    macos: bool,
    pid: u32,
)
    requires
        words::words_of(line).len() >= 3,
        numerals::u32_of(words::words_of(line)[0]) == Some(pid),
        words::words_of(line)[2] == "codex"@ || text::ends_with_of(
            words::words_of(line)[2],
            "/codex"@,
        ),
        pid != own_pid,
        !sightings(lines, names, bundles, own_pid, macos).0.contains(pid),
        !names.contains_key(pid) || names[pid] != "Codex"@ && names[pid] != "ChatGPT"@,
        ({
            let fields = words::words_of(line);
            let command = text::lower_of(words::join_of(fields.skip(2), " "@));
            &&& !text::has_part(command, "codex-switcher"@)
            &&& fields[1] == "?"@ || fields[1] == "??"@ || text::has_part(
                command,
                ".antigravity"@,
            ) || text::has_part(command, "openai.chatgpt"@) || text::has_part(
                command,
                ".vscode"@,
            ) || text::has_part(command, "codex app-server"@)
        }),
    ensures
        sightings(lines.push(line), names, bundles, own_pid, macos).0 == sightings(
            lines,
            names,
            bundles,
            own_pid,
            macos,
        ).0,
        sightings(lines.push(line), names, bundles, own_pid, macos).1 == sightings(
            lines,
            names,
            bundles,
            own_pid,
            macos,
        ).1 + 1,
{
    assert(lines.push(line).drop_last() =~= lines);
}

/// A line that shows this application, the switcher, or a command that is neither
/// `codex` nor that of the desktop app, changes nothing.
pub proof fn law_other_processes_do_not_matter(
    lines: Seq<Seq<char>>,
    line: Seq<char>,
    names: Map<u32, Seq<char>>,
    bundles: Seq<(String, String)>,
    own_pid: u32,
    macos: bool,
)
    requires
        ({
            let fields = words::words_of(line);
            let pid = numerals::u32_of(fields[0]);
            ||| fields.len() < 3
            ||| pid is None
            ||| pid == Some(own_pid)
            ||| text::has_part(
                text::lower_of(words::join_of(fields.skip(2), " "@)),
                "codex-switcher"@,
            )
            ||| {
                &&& fields[2] != "codex"@
                &&& !text::ends_with_of(fields[2], "/codex"@)
                &&& !names.contains_key(pid->0) || names[pid->0] != "Codex"@ && names[pid->0]
                    != "ChatGPT"@
            }
        }),
    ensures
        sightings(lines.push(line), names, bundles, own_pid, macos) == sightings(
            lines,
            names,
            bundles,
            own_pid,
            macos,
        ),
{
    assert(lines.push(line).drop_last() =~= lines);
}

/// The names of processes are those of the lines: a line that starts with a process
/// identifier and goes on with a name gives it that name, if no later line does.
pub proof fn law_lines_name_processes(
    lines: Seq<Seq<char>>,
    k: int,
    digits: Seq<char>,
    gap: char,
    rest: Seq<char>,
    pid: u32,
)
    requires
        0 <= k < lines.len(),
        text::trim_of(lines[k]) == digits + seq![gap] + rest,
        text::is_space(gap),
        forall|i: int| 0 <= i < digits.len() ==> !text::is_space(#[trigger] digits[i]),
        numerals::u32_of(digits) == Some(pid),
        !text::blank(rest),
        forall|j: int|
            k < j < lines.len() ==> (#[trigger] named_process(lines[j]) matches Some((other, _))
                ==> other != pid),
    ensures
        process_names(lines).contains_key(pid),
        process_names(lines)[pid] == text::trim_of(rest),
    decreases lines.len(),
{
    let last = lines.len() - 1;
    if k == last {
        let line = text::trim_of(lines[k]);
        assert(line[digits.len() as int] == gap);
        assert forall|i: int| 0 <= i < digits.len() implies !text::is_space(#[trigger] line[i]) by {
            assert(line[i] == digits[i]);
        }
        lemma_cut_at_space(line, digits.len() as int);
        assert(line.take(digits.len() as int) =~= digits);
        assert(line.skip(digits.len() as int + 1) =~= rest);
        text::lemma_blank_iff_trim_empty(rest);
    } else {
        let before = lines.drop_last();
        assert forall|j: int| k < j < before.len() implies (#[trigger] named_process(
            before[j],
        ) matches Some((other, _)) ==> other != pid) by {
            assert(before[j] == lines[j]);
            assert(named_process(lines[j]) == named_process(before[j]));
        }
        law_lines_name_processes(before, k, digits, gap, rest, pid);
        assert(named_process(lines[last]) matches Some((other, _)) ==> other != pid);
    }
}

/// Every name stands in a line behind its process identifier.
pub proof fn law_names_stand_in_lines(lines: Seq<Seq<char>>, pid: u32) -> (k: int)
    requires
        process_names(lines).contains_key(pid),
    ensures
        0 <= k < lines.len(),
        text::has_part(lines[k], process_names(lines)[pid]),
        process_names(lines)[pid].len() > 0,
    decreases lines.len(),
{
    let last = lines.len() - 1;
    match named_process(lines.last()) {
        Some((other, name)) if other == pid => {
            lemma_cut_parts(text::trim_of(lines.last()));
            let (_, rest) = cut_at_space_of(text::trim_of(lines.last()))->0;
            text::lemma_trim_is_part(lines.last());
            text::lemma_trim_is_part(rest);
            text::lemma_part_of_part(text::trim_of(lines.last()), rest, name);
            text::lemma_part_of_part(lines.last(), text::trim_of(lines.last()), name);
            last
        },
        _ => {
            let k = law_names_stand_in_lines(lines.drop_last(), pid);
            assert(lines.drop_last()[k] == lines[k]);
            k
        },
    }
}

proof fn lemma_cut_parts(s: Seq<char>)
    requires
        cut_at_space_of(s) is Some,
    ensures
        cut_at_space_of(s) matches Some((_, after)) && text::has_part(s, after),
    decreases s.len(),
{
    let (_, after) = cut_at_space_of(s)->0;
    if text::is_space(s[0]) {
        assert(text::occurs_at(s, after, 1));
    } else {
        lemma_cut_parts(s.drop_first());
        let at = choose|at: int| text::occurs_at(s.drop_first(), after, at);
        assert(s.subrange(at + 1, at + 1 + after.len()) =~= s.drop_first().subrange(
            at,
            at + after.len(),
        ));
        assert(text::occurs_at(s, after, at + 1));
    }
}

/// A bundle is looked up exactly for the lines whose process runs from one, and none of
/// them is left out: every such line's bundle is there, and every one that is there has
/// such a line.
pub proof fn law_every_bundle_is_looked_up(
    lines: Seq<Seq<char>>,
    names: Map<u32, Seq<char>>,
    path: Seq<char>,
)
    ensures
        bundles_in(lines, names).contains(path) <==> exists|k: int|
            {
                &&& 0 <= k < lines.len()
                &&& listed_process(#[trigger] lines[k]) matches Some(process)
                &&& bundle_of(process.command, name_of(names, process.pid)) == Some(path)
            },
    decreases lines.len(),
{
    if lines.len() > 0 {
        let front = lines.drop_last();
        let before = bundles_in(front, names);
        let all = bundles_in(lines, names);
        law_every_bundle_is_looked_up(front, names, path);
        assert(lines[lines.len() - 1] == lines.last());
        assert forall|k: int| 0 <= k < front.len() implies #[trigger] lines[k] == front[k] by {}
        if before.contains(path) {
            let at = choose|at: int| 0 <= at < before.len() && before[at] == path;
            assert(all[at] == path);
            let k = choose|k: int|
                {
                    &&& 0 <= k < front.len()
                    &&& listed_process(#[trigger] front[k]) matches Some(process)
                    &&& bundle_of(process.command, name_of(names, process.pid)) == Some(path)
                };
            assert(listed_process(lines[k]) is Some);
        } else {
            if all.contains(path) {
                let at = choose|at: int| 0 <= at < all.len() && all[at] == path;
                if at < before.len() {
                    assert(before[at] == path);
                }
                assert(listed_process(lines[lines.len() - 1]) is Some);
            }
            if exists|k: int|
                {
                    &&& 0 <= k < lines.len()
                    &&& listed_process(#[trigger] lines[k]) matches Some(process)
                    &&& bundle_of(process.command, name_of(names, process.pid)) == Some(path)
                } {
                let k = choose|k: int|
                    {
                        &&& 0 <= k < lines.len()
                        &&& listed_process(#[trigger] lines[k]) matches Some(process)
                        &&& bundle_of(process.command, name_of(names, process.pid)) == Some(path)
                    };
                if k < front.len() {
                    assert(listed_process(front[k]) is Some);
                } else {
                    assert(all[all.len() - 1] == path);
                }
            }
        }
    }
}

} // verus!
