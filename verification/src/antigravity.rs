//! Editor plugins that have to be restarted after a switch.

use vstd::prelude::*;

use crate::numerals;
use crate::text;
use crate::windows_roots;
use crate::words;

verus! {

/// The command is that of the app server of an editor plugin.
pub open spec fn is_plugin_server(command: Seq<char>) -> bool {
    &&& text::has_part(command, ".antigravity/extensions/openai.chatgpt"@) || text::has_part(
        command,
        ".vscode/extensions/openai.chatgpt"@,
    )
    &&& text::ends_with_of(command, "codex app-server --analytics-default-enabled"@)
        || text::has_part(command, "/codex app-server"@)
}

/// The process that a line with a process identifier and a command shows, where it
/// is the app server of an editor plugin.
pub open spec fn unix_plugin(line: Seq<char>) -> Option<u32> {
    match words::split_once_of(text::trim_of(line), ' ') {
        Some((pid, command)) if is_plugin_server(text::trim_of(command)) => numerals::u32_of(
            text::trim_of(pid),
        ),
        _ => None,
    }
}

/// The process that a line of comma-separated values shows, where it is called
/// `codex.exe`.
pub open spec fn windows_plugin(line: Seq<char>) -> Option<u32> {
    let fields = words::split_of(line, ',');
    if fields.len() > 1 && text::lower_of(
        windows_roots::unquoted_end(windows_roots::unquoted_start(fields[0])),
    ) == "codex.exe"@ {
        numerals::u32_of(windows_roots::unquoted_end(windows_roots::unquoted_start(fields[1])))
    } else {
        None
    }
}

/// The process that a line shows.
pub open spec fn plugin_in(line: Seq<char>, windows: bool) -> Option<u32> {
    if windows {
        windows_plugin(line)
    } else {
        unix_plugin(line)
    }
}

/// The processes that the lines show, in their order.
pub open spec fn plugins_in(lines: Seq<Seq<char>>, windows: bool) -> Seq<u32>
    decreases lines.len(),
{
    if lines.len() == 0 {
        Seq::empty()
    } else {
        let before = plugins_in(lines.drop_last(), windows);
        match plugin_in(lines.last(), windows) {
            Some(pid) => before.push(pid),
            None => before,
        }
    }
}

/// The lines that show processes: on Unix the first line holds headings.
pub open spec fn listed_lines(listing: Seq<char>, windows: bool) -> Seq<Seq<char>> {
    let lines = words::lines_of(listing);
    if windows || lines.len() == 0 {
        lines
    } else {
        lines.drop_first()
    }
}

fn unix_plugin_pid(line: &str) -> (r: Option<u32>)
    ensures
        r == unix_plugin(line@),
{
    let trimmed = text::trim(line);
    match words::split_once(trimmed.as_str(), ' ') {
        Some((pid, command)) => {
            let command = text::trim(command.as_str());
            let command = command.as_str();
            let is_antigravity = (text::contains_text(
                command,
                ".antigravity/extensions/openai.chatgpt",
            ) || text::contains_text(command, ".vscode/extensions/openai.chatgpt")) && (
            text::ends_with_text(command, "codex app-server --analytics-default-enabled")
                || text::contains_text(command, "/codex app-server"));
            if is_antigravity {
                let pid = text::trim(pid.as_str());
                numerals::parse_u32(pid.as_str())
            } else {
                None
            }
        },
        None => None,
    }
}

fn windows_plugin_pid(line: &str) -> (r: Option<u32>)
    ensures
        r == windows_plugin(line@),
{
    let fields = words::split(line, ',');
    let ghost all = words::split_of(line@, ',');
    if fields.len() > 1 {
        assert(fields@[0]@ == all[0]);
        assert(fields@[1]@ == all[1]);
        let name = windows_roots::unquote(fields[0].as_str());
        let name = text::to_lower(name.as_str());
        if text::same(name.as_str(), "codex.exe") {
            let pid = windows_roots::unquote(fields[1].as_str());
            return numerals::parse_u32(pid.as_str());
        }
    }
    None
}

/// The app servers of editor plugins in the output of `ps -eo pid,command`, or the
/// processes called `codex.exe` in that of `tasklist` on Windows.
pub fn find_antigravity_processes(listing: &str, windows: bool) -> (r: Vec<u32>)
    ensures
        r@ == plugins_in(listed_lines(listing@, windows), windows),
{
    let lines = words::lines(listing);
    let ghost all = words::lines_of(listing@);
    let ghost shown = listed_lines(listing@, windows);
    let start: usize = if windows || lines.len() == 0 {
        0
    } else {
        1
    };
    let mut pids: Vec<u32> = Vec::new();
    let mut i: usize = start;
    assert(shown.take(0) =~= Seq::<Seq<char>>::empty());
    while i < lines.len()
        invariant
            text::texts(lines@) == all,
            start <= i <= lines@.len(),
            shown.len() == all.len() - start,
            forall|k: int| 0 <= k < shown.len() ==> #[trigger] shown[k] == all[k + start],
            pids@ == plugins_in(shown.take(i - start), windows),
        decreases lines@.len() - i,
    {
        proof {
            assert(lines@[i as int]@ == all[i as int]);
            assert(shown[i - start] == all[i as int]);
            assert(shown.take(i - start + 1).drop_last() =~= shown.take(i - start));
        }
        let found: Option<u32> = if windows {
            windows_plugin_pid(lines[i].as_str())
        } else {
            unix_plugin_pid(lines[i].as_str())
        };
        match found {
            Some(pid) => {
                pids.push(pid);
            },
            None => {},
        }
        i = i + 1;
    }
    assert(shown.take(shown.len() as int) =~= shown);
    pids
}

// ---------------------------------------------------------------------------
// What holds of the processes that are found
// ---------------------------------------------------------------------------

proof fn lemma_shown_processes(lines: Seq<Seq<char>>, windows: bool)
    ensures
        forall|pid: u32| #[trigger]
            plugins_in(lines, windows).contains(pid) <==> exists|k: int|
                0 <= k < lines.len() && plugin_in(#[trigger] lines[k], windows) == Some(pid),
        plugins_in(lines, windows).len() <= lines.len(),
    decreases lines.len(),
{
    if lines.len() > 0 {
        let front = lines.drop_last();
        lemma_shown_processes(front, windows);
        let before = plugins_in(front, windows);
        let all = plugins_in(lines, windows);
        assert forall|pid: u32| #[trigger] all.contains(pid) <==> exists|k: int|
            0 <= k < lines.len() && plugin_in(#[trigger] lines[k], windows) == Some(pid) by {
            if before.contains(pid) {
                let at = choose|at: int| 0 <= at < before.len() && before[at] == pid;
                assert(all[at] == pid);
                let k = choose|k: int|
                    0 <= k < front.len() && plugin_in(#[trigger] front[k], windows) == Some(pid);
                assert(lines[k] == front[k]);
            }
            if plugin_in(lines.last(), windows) == Some(pid) {
                assert(all[all.len() - 1] == pid);
                assert(lines[lines.len() - 1] == lines.last());
            }
            if all.contains(pid) && !before.contains(pid) {
                let at = choose|at: int| 0 <= at < all.len() && all[at] == pid;
                if at < before.len() {
                    assert(before[at] == pid);
                }
                assert(plugin_in(lines.last(), windows) == Some(pid));
            }
            if exists|k: int|
                0 <= k < lines.len() && plugin_in(#[trigger] lines[k], windows) == Some(pid) {
                let k = choose|k: int|
                    0 <= k < lines.len() && plugin_in(#[trigger] lines[k], windows) == Some(pid);
                if k < front.len() {
                    assert(front[k] == lines[k]);
                }
            }
        }
    }
}

/// Lines are looked at one by one: what is found in some lines and then in others is what
/// is found in all of them, in this order.
pub proof fn law_lines_are_looked_at_one_by_one(
    first: Seq<Seq<char>>,
    second: Seq<Seq<char>>,
    windows: bool,
)
    ensures
        plugins_in(first + second, windows) == plugins_in(first, windows) + plugins_in(
            second,
            windows,
        ),
    decreases second.len(),
{
    if second.len() == 0 {
        assert(first + second =~= first);
        assert(plugins_in(first, windows) + plugins_in(second, windows) =~= plugins_in(
            first,
            windows,
        ));
    } else {
        law_lines_are_looked_at_one_by_one(first, second.drop_last(), windows);
        assert((first + second).drop_last() =~= first + second.drop_last());
        assert((first + second).last() == second.last());
        assert(plugins_in(first + second, windows) =~= plugins_in(first, windows) + plugins_in(
            second,
            windows,
        ));
    }
}

/// Below the headings, every line that starts with a process identifier and goes on with
/// the command of an app server of an editor plugin is found, under that identifier.
pub proof fn law_editor_plugins_are_found(
    listing: Seq<char>,
    k: int,
    pid: Seq<char>,
    command: Seq<char>,
)
    requires
        0 < k < words::lines_of(listing).len(),
        text::trim_of(words::lines_of(listing)[k]) == pid + seq![' '] + command,
        !pid.contains(' '),
        numerals::u32_of(text::trim_of(pid)) is Some,
        text::has_part(text::trim_of(command), ".antigravity/extensions/openai.chatgpt"@)
            || text::has_part(text::trim_of(command), ".vscode/extensions/openai.chatgpt"@),
        text::has_part(text::trim_of(command), "/codex app-server"@) || text::ends_with_of(
            text::trim_of(command),
            "codex app-server --analytics-default-enabled"@,
        ),
    ensures
        plugins_in(listed_lines(listing, false), false).contains(
            numerals::u32_of(text::trim_of(pid))->0,
        ),
{
    let lines = listed_lines(listing, false);
    words::law_text_is_cut_once(pid, ' ', command);
    assert(lines[k - 1] == words::lines_of(listing)[k]);
    lemma_shown_processes(lines, false);
    assert(plugin_in(lines[k - 1], false) == numerals::u32_of(text::trim_of(pid)));
}

/// Nothing else is found on Unix: each process has a line below the headings, which shows
/// its identifier and the command of an editor plugin.
pub proof fn law_only_editor_plugins_are_found(listing: Seq<char>, found: u32) -> (shown: (
    int,
    Seq<char>,
    Seq<char>,
))
    requires
        plugins_in(listed_lines(listing, false), false).contains(found),
    ensures
        ({
            let (k, pid, command) = shown;
            &&& 0 < k < words::lines_of(listing).len()
            &&& text::trim_of(words::lines_of(listing)[k]) == pid + seq![' '] + command
            &&& !pid.contains(' ')
            &&& numerals::u32_of(text::trim_of(pid)) == Some(found)
            &&& text::has_part(command, ".antigravity/extensions/openai.chatgpt"@)
                || text::has_part(command, ".vscode/extensions/openai.chatgpt"@)
            &&& text::has_part(command, "/codex app-server"@) || text::has_part(
                command,
                "codex app-server --analytics-default-enabled"@,
            )
        }),
{
    let lines = listed_lines(listing, false);
    lemma_shown_processes(lines, false);
    let k = choose|k: int|
        0 <= k < lines.len() && plugin_in(#[trigger] lines[k], false) == Some(found);
    assert(lines[k] == words::lines_of(listing)[k + 1]);
    let line = text::trim_of(lines[k]);
    words::law_cut_text_joins_again(line, ' ');
    let (pid, command) = words::split_once_of(line, ' ')->0;
    let trimmed = text::trim_of(command);
    text::lemma_trim_is_part(command);
    if text::has_part(trimmed, ".antigravity/extensions/openai.chatgpt"@) {
        text::lemma_part_of_part(command, trimmed, ".antigravity/extensions/openai.chatgpt"@);
    }
    if text::has_part(trimmed, ".vscode/extensions/openai.chatgpt"@) {
        text::lemma_part_of_part(command, trimmed, ".vscode/extensions/openai.chatgpt"@);
    }
    if text::has_part(trimmed, "/codex app-server"@) {
        text::lemma_part_of_part(command, trimmed, "/codex app-server"@);
    }
    let flagged = "codex app-server --analytics-default-enabled"@;
    if text::ends_with_of(trimmed, flagged) {
        assert(text::occurs_at(trimmed, flagged, trimmed.len() - flagged.len()));
        assert(text::has_part(trimmed, flagged));
        text::lemma_part_of_part(command, trimmed, flagged);
    }
    (k + 1, pid, command)
}

/// On Windows, a line whose first value is `codex.exe`, in any case and in quotes or not,
/// is found under the identifier in its second value; no line is left out.
pub proof fn law_processes_called_codex_are_found(listing: Seq<char>, found: u32)
    ensures
        plugins_in(listed_lines(listing, true), true).contains(found) <==> exists|k: int|
            {
                let fields = words::split_of(#[trigger] words::lines_of(listing)[k], ',');
                &&& 0 <= k < words::lines_of(listing).len()
                &&& fields.len() > 1
                &&& text::lower_of(
                    windows_roots::unquoted_end(windows_roots::unquoted_start(fields[0])),
                ) == "codex.exe"@
                &&& numerals::u32_of(
                    windows_roots::unquoted_end(windows_roots::unquoted_start(fields[1])),
                ) == Some(found)
            },
{
    let lines = words::lines_of(listing);
    lemma_shown_processes(lines, true);
    if plugins_in(lines, true).contains(found) {
        let k = choose|k: int|
            0 <= k < lines.len() && plugin_in(#[trigger] lines[k], true) == Some(found);
        let fields = words::split_of(words::lines_of(listing)[k], ',');
        assert(fields.len() > 1);
    }
    if exists|k: int|
        {
            let fields = words::split_of(#[trigger] words::lines_of(listing)[k], ',');
            &&& 0 <= k < words::lines_of(listing).len()
            &&& fields.len() > 1
            &&& text::lower_of(
                windows_roots::unquoted_end(windows_roots::unquoted_start(fields[0])),
            ) == "codex.exe"@
            &&& numerals::u32_of(
                windows_roots::unquoted_end(windows_roots::unquoted_start(fields[1])),
            ) == Some(found)
        } {
        let k = choose|k: int|
            {
                let fields = words::split_of(#[trigger] words::lines_of(listing)[k], ',');
                &&& 0 <= k < words::lines_of(listing).len()
                &&& fields.len() > 1
                &&& text::lower_of(
                    windows_roots::unquoted_end(windows_roots::unquoted_start(fields[0])),
                ) == "codex.exe"@
                &&& numerals::u32_of(
                    windows_roots::unquoted_end(windows_roots::unquoted_start(fields[1])),
                ) == Some(found)
            };
        assert(plugin_in(lines[k], true) == Some(found));
    }
}

} // verus!
