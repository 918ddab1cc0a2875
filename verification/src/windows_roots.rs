//! Telling the root process of the Codex app on Windows, and the app itself.

use vstd::prelude::*;

use crate::text;
use crate::windows_processes::ProcessView;
use crate::windows_processes::WindowsCodexProcess;
use crate::words;

verus! {

/// A path with backslashes between its parts and in lower case.
pub open spec fn normalized(path: Seq<char>) -> Seq<char> {
    text::lower_of(words::replace_char_of(path, '/', "\\"@))
}

/// A path with backslashes between its parts and in lower case.
pub fn normalize_windows_path(value: &str) -> (r: String)
    ensures
        r@ == normalized(value@),
{
    let replaced = words::replace_char(value, '/', "\\");
    text::to_lower(replaced.as_str())
}

/// `s` without the quotes at its front.
pub open spec fn unquoted_start(s: Seq<char>) -> Seq<char>
    decreases s.len(),
{
    if s.len() > 0 && s[0] == '"' {
        unquoted_start(s.drop_first())
    } else {
        s
    }
}

/// `s` without the quotes at its end.
pub open spec fn unquoted_end(s: Seq<char>) -> Seq<char>
    decreases s.len(),
{
    if s.len() > 0 && s.last() == '"' {
        unquoted_end(s.drop_last())
    } else {
        s
    }
}

/// `s` without the quotes at either end.
pub fn unquote(s: &str) -> (r: String)
    ensures
        r@ == unquoted_end(unquoted_start(s@)),
{
    let v = text::chars_of(s);
    let len: usize = v.len();
    let mut from: usize = 0;
    assert(s@.skip(0) == s@);
    while from < len && v[from] == '"'
        invariant
            len == v@.len(),
            from <= len,
            v@ == s@,
            unquoted_start(s@) == unquoted_start(s@.skip(from as int)),
        decreases len - from,
    {
        proof {
            assert(s@.skip(from as int)[0] == s@[from as int]);
            assert(s@.skip(from as int).drop_first() == s@.skip(from + 1));
        }
        from = from + 1;
    }
    proof {
        if from < len {
            assert(s@.skip(from as int)[0] == s@[from as int]);
        }
        assert(unquoted_start(s@) == s@.skip(from as int));
        assert(s@.subrange(from as int, len as int) == s@.skip(from as int));
    }
    let mut to: usize = len;
    while to > from && v[to - 1] == '"'
        invariant
            from <= to <= v@.len(),
            v@ == s@,
            unquoted_end(s@.skip(from as int)) == unquoted_end(
                s@.subrange(from as int, to as int),
            ),
        decreases to - from,
    {
        proof {
            let t = s@.subrange(from as int, to as int);
            assert(t.last() == s@[to - 1]);
            assert(t.drop_last() == s@.subrange(from as int, to - 1));
        }
        to = to - 1;
    }
    proof {
        let t = s@.subrange(from as int, to as int);
        if to > from {
            assert(t.last() == s@[to - 1]);
        }
    }
    text::text_between(&v, from, to)
}

/// The path is that of the executable in a package of the Codex app: a directory
/// in `WindowsApps` that is named after the app and its publisher.
pub open spec fn is_package_path(path: Seq<char>) -> bool {
    let full = normalized(unquoted_end(unquoted_start(text::trim_of(path))));
    let tail = "\\app\\chatgpt.exe"@;
    text::ends_with_of(full, tail) && {
        let parts = words::split_of(full.take(full.len() - tail.len()), '\\');
        &&& parts.len() >= 2
        &&& parts[parts.len() - 2] == "windowsapps"@
        &&& text::starts_with_of(parts.last(), "openai.codex_"@)
        &&& text::ends_with_of(parts.last(), "__2p2nqsd0c76g0"@)
    }
}

/// Whether the path is that of the executable in a package of the Codex app.
pub fn is_windows_codex_package_chatgpt_path(path: &str) -> (r: bool)
    ensures
        r == is_package_path(path@),
{
    let trimmed = text::trim(path);
    let bare = unquote(trimmed.as_str());
    let full = normalize_windows_path(bare.as_str());
    match text::strip_suffix_text(full.as_str(), "\\app\\chatgpt.exe") {
        Some(package_path) => {
            let parts = words::split(package_path.as_str(), '\\');
            let ghost all = words::split_of(package_path@, '\\');
            let n: usize = parts.len();
            if n < 2 {
                return false;
            }
            assert(parts@[n - 1]@ == all[n - 1]);
            assert(parts@[n - 2]@ == all[n - 2]);
            text::same(parts[n - 2].as_str(), "windowsapps") && text::starts_with_text(
                parts[n - 1].as_str(),
                "openai.codex_",
            ) && text::ends_with_text(parts[n - 1].as_str(), "__2p2nqsd0c76g0")
        },
        None => false,
    }
}

/// The path of the executable that a command line starts with: what stands in
/// quotes at its start, or else its first word.
pub open spec fn command_executable(command: Seq<char>) -> Option<Seq<char>> {
    let start = text::trim_start_of(command);
    if start.len() > 0 && start[0] == '"' {
        match words::split_once_of(start.drop_first(), '"') {
            Some((path, rest)) if path.len() > 0 => Some(path),
            _ => None,
        }
    } else {
        let parts = words::words_of(start);
        if parts.len() > 0 {
            Some(parts[0])
        } else {
            None
        }
    }
}

/// The path of the executable that a command line starts with.
pub fn windows_command_executable_path(command: &str) -> (r: Option<String>)
    ensures
        text::opt_text(r) == command_executable(command@),
{
    let start = text::trim_start(command);
    proof {
        reveal_strlit("\"");
    }
    match text::strip_prefix_text(start.as_str(), "\"") {
        Some(quoted) => {
            assert(start@.take(1)[0] == '"');
            assert(start@.skip(1) =~= start@.drop_first());
            match words::split_once(quoted.as_str(), '"') {
                Some((path, _)) => {
                    if path.as_str().is_empty() {
                        None
                    } else {
                        Some(path)
                    }
                },
                None => None,
            }
        },
        None => {
            proof {
                if start@.len() > 0 && start@[0] == '"' {
                    assert(start@.take(1) =~= "\""@);
                }
            }
            let parts = words::words(start.as_str());
            let ghost all = words::words_of(start@);
            if parts.len() > 0 {
                assert(parts@[0]@ == all[0]);
                Some(parts[0].clone())
            } else {
                None
            }
        },
    }
}

/// The process runs the executable in a package of the Codex app.
pub open spec fn is_package_process(process: ProcessView) -> bool {
    let path = text::trim_of(process.executable_path);
    if path.len() > 0 {
        is_package_path(path)
    } else {
        match command_executable(process.command_line) {
            Some(path) => is_package_path(path),
            None => false,
        }
    }
}

/// Whether the process runs the executable in a package of the Codex app.
pub fn is_windows_codex_package_chatgpt_process(process: &WindowsCodexProcess) -> (r: bool)
    ensures
        r == is_package_process(process@),
{
    let path = text::trim(process.executable_path.as_str());
    if !path.as_str().is_empty() {
        return is_windows_codex_package_chatgpt_path(path.as_str());
    }
    match windows_command_executable_path(process.command_line.as_str()) {
        Some(path) => is_windows_codex_package_chatgpt_path(path.as_str()),
        None => false,
    }
}

/// The process is the root process of the Codex app, not a helper of it, its
/// backend, this application or another app.
pub open spec fn is_root(process: ProcessView) -> bool {
    let name = text::lower_of(process.name);
    let command = normalized(process.command_line);
    let backend = "resources\\codex.exe"@;
    &&& !text::has_part(command, "codex-switcher"@)
    &&& !text::has_part(command, "--type="@)
    &&& if name == "codex.exe"@ {
        !text::has_part(command, backend) && !text::has_part(
            normalized(process.executable_path),
            backend,
        )
    } else {
        name == "chatgpt.exe"@ && is_package_process(process)
    }
}

/// Whether the process is the root process of the Codex app.
pub fn is_windows_codex_root_process(process: &WindowsCodexProcess) -> (r: bool)
    ensures
        r == is_root(process@),
{
    let name = text::to_lower(process.name.as_str());
    let command = normalize_windows_path(process.command_line.as_str());
    if text::contains_text(command.as_str(), "codex-switcher") || text::contains_text(
        command.as_str(),
        "--type=",
    ) {
        return false;
    }
    if text::same(name.as_str(), "codex.exe") {
        let executable_path = normalize_windows_path(process.executable_path.as_str());
        return !text::contains_text(command.as_str(), "resources\\codex.exe")
            && !text::contains_text(executable_path.as_str(), "resources\\codex.exe");
    }
    text::same(name.as_str(), "chatgpt.exe") && is_windows_codex_package_chatgpt_process(process)
}

// ---------------------------------------------------------------------------
// Laws
// ---------------------------------------------------------------------------

/// A normalized path has a backslash for each slash, small letters for capital ones, and
/// every other character as it was, in its place.
pub proof fn law_paths_are_normalized(path: Seq<char>)
    ensures
        normalized(path).len() == path.len(),
        forall|i: int|
            0 <= i < path.len() ==> {
                let c = #[trigger] normalized(path)[i];
                &&& path[i] == '/' ==> c == '\\'
                &&& 'A' <= path[i] <= 'Z' ==> c as u32 == path[i] as u32 + 32
                &&& path[i] != '/' && !('A' <= path[i] <= 'Z') ==> c == path[i]
            },
{
    reveal_strlit("\\");
    assert("\\"@ =~= seq!['\\']);
    words::law_one_character_is_replaced(path, '/', '\\');
}

/// Quotes are taken off at both ends and nowhere else.
pub proof fn law_quotes_are_taken_off(s: Seq<char>)
    requires
        s.len() == 0 || s[0] != '"' && s.last() != '"',
    ensures
        unquoted_end(unquoted_start(s)) == s,
        unquoted_end(unquoted_start(seq!['"'] + s)) == s,
        unquoted_end(unquoted_start(s + seq!['"'])) == s,
        unquoted_end(unquoted_start(seq!['"'] + s + seq!['"'])) == s,
{
    let front = seq!['"'] + s;
    let back = s + seq!['"'];
    let both = seq!['"'] + s + seq!['"'];
    assert(front.drop_first() =~= s);
    assert(both.drop_first() =~= back);
    assert(back.drop_last() =~= s);
    if s.len() == 0 {
        assert(s =~= Seq::<char>::empty());
        assert(back.drop_first() =~= s);
        assert(unquoted_start(back) == unquoted_start(back.drop_first()));
        assert(unquoted_start(both) == unquoted_start(both.drop_first()));
    } else {
        assert(back[0] == s[0]);
    }
}

/// A command line in quotes starts with the path between them; without quotes, with its
/// first word. Only a blank command line, or one with nothing between its quotes, has no
/// executable.
pub proof fn law_command_lines_start_with_the_executable(path: Seq<char>, rest: Seq<char>)
    requires
        path.len() > 0,
        !path.contains('"'),
    ensures
        command_executable(seq!['"'] + path + seq!['"'] + rest) == Some(path),
        (forall|i: int| 0 <= i < path.len() ==> !text::is_space(#[trigger] path[i]))
            ==> command_executable(path) == Some(path) && command_executable(
            path + seq![' '] + rest,
        ) == Some(path),
{
    let quoted = seq!['"'] + path + seq!['"'] + rest;
    assert(quoted[0] == '"');
    assert(!text::is_space('"'));
    assert(text::trim_start_of(quoted) == quoted);
    let inner = quoted.drop_first();
    assert(inner =~= path + seq!['"'] + rest);
    words::lemma_split_once(inner, '"');
    assert(inner[path.len() as int] == '"');
    let (before, after) = words::split_once_of(inner, '"')->0;
    assert(inner[before.len() as int] == '"') by {
        assert((before + seq!['"'] + after)[before.len() as int] == '"');
    }
    if before.len() < path.len() {
        assert(path[before.len() as int] == '"');
        assert(path.contains('"'));
    }
    if path.len() < before.len() {
        assert(before[path.len() as int] == (before + seq!['"'] + after)[path.len() as int]);
    }
    assert(before.len() == path.len());
    assert forall|i: int| 0 <= i < path.len() implies before[i] == path[i] by {
        assert((before + seq!['"'] + after)[i] == before[i]);
    }
    assert(before =~= path);
    if forall|i: int| 0 <= i < path.len() ==> !text::is_space(#[trigger] path[i]) {
        assert(!text::is_space(path[0]));
        assert(path[0] != '"') by {
            if path[0] == '"' {
                assert(path.contains('"'));
            }
        }
        assert(text::is_space(' '));
        let longer = path + seq![' '] + rest;
        assert(longer[0] == path[0]);
        words::law_words_end_with_white_space(path, ' ', rest);
        assert(text::trim_start_of(path) == path);
        assert(text::trim_start_of(longer) == longer);
        assert(words::words_of(longer)[0] == path);
    }
}

/// The executable in a package of Codex is told by its path: a directory of `WindowsApps`
/// with the name of the app at its start and that of the publisher at its end.
pub proof fn law_packages_are_told_by_their_path(
    path: Seq<char>,
    above: Seq<char>,
    version: Seq<char>,
)
    requires
        normalized(unquoted_end(unquoted_start(text::trim_of(path)))) == above
            + "\\windowsapps\\openai.codex_"@ + version + "__2p2nqsd0c76g0\\app\\chatgpt.exe"@,
        !version.contains('\\'),
    ensures
        is_package_path(path),
{
    reveal_strlit("\\windowsapps\\openai.codex_");
    reveal_strlit("__2p2nqsd0c76g0\\app\\chatgpt.exe");
    reveal_strlit("\\app\\chatgpt.exe");
    reveal_strlit("windowsapps");
    reveal_strlit("openai.codex_");
    reveal_strlit("__2p2nqsd0c76g0");
    let full = normalized(unquoted_end(unquoted_start(text::trim_of(path))));
    let tail = "\\app\\chatgpt.exe"@;
    let parent = "windowsapps"@;
    let name = "openai.codex_"@ + version + "__2p2nqsd0c76g0"@;
    let cut = seq!['\\'];
    let directory = above + cut + parent + cut + name;
    assert("\\windowsapps\\openai.codex_"@ =~= cut + parent + cut + "openai.codex_"@);
    assert("__2p2nqsd0c76g0\\app\\chatgpt.exe"@ =~= "__2p2nqsd0c76g0"@ + tail);
    assert(full =~= directory + tail);
    assert(full.subrange(full.len() - tail.len(), full.len() as int) =~= tail);
    assert(full.take(full.len() - tail.len()) =~= directory);
    assert(!name.contains('\\')) by {
        if name.contains('\\') {
            let k = choose|k: int| 0 <= k < name.len() && name[k] == '\\';
            let a = "openai.codex_"@.len() as int;
            if a <= k < a + version.len() {
                assert(version[k - a] == '\\');
            }
        }
    }
    assert(!parent.contains('\\'));
    assert(directory =~= (above + cut + parent) + cut + name);
    words::lemma_split_at(above + cut + parent, '\\', name);
    words::lemma_split_at(above, '\\', parent);
    words::lemma_uncut(name, '\\');
    words::lemma_uncut(parent, '\\');
    words::lemma_split_nonempty(above, '\\');
    let parts = words::split_of(directory, '\\');
    assert(parts =~= words::split_of(above, '\\') + seq![parent] + seq![name]);
    assert(parts.last() == name);
    assert(parts[parts.len() - 2] == parent);
    assert(name.subrange(0, "openai.codex_"@.len() as int) =~= "openai.codex_"@);
    assert(name.subrange(name.len() - "__2p2nqsd0c76g0"@.len(), name.len() as int)
        =~= "__2p2nqsd0c76g0"@);
}

/// A path outside of such a directory, or to another file, is not that of the app.
pub proof fn law_other_paths_are_no_packages(path: Seq<char>)
    requires
        is_package_path(path),
    ensures
        ({
            let full = normalized(unquoted_end(unquoted_start(text::trim_of(path))));
            &&& text::ends_with_of(full, "\\app\\chatgpt.exe"@)
            &&& text::has_part(full, "windowsapps"@)
            &&& text::has_part(full, "openai.codex_"@)
            &&& text::has_part(full, "__2p2nqsd0c76g0"@)
        }),
{
    let full = normalized(unquoted_end(unquoted_start(text::trim_of(path))));
    let tail = "\\app\\chatgpt.exe"@;
    let directory = full.take(full.len() - tail.len());
    let parts = words::split_of(directory, '\\');
    let last = parts.last();
    words::law_split_text_joins_again(directory, '\\');
    words::lemma_pieces_are_parts(parts, seq!['\\'], parts.len() - 2);
    words::lemma_pieces_are_parts(parts, seq!['\\'], parts.len() - 1);
    assert(directory =~= full.subrange(0, directory.len() as int));
    assert(text::occurs_at(full, directory, 0));
    text::lemma_part_of_part(full, directory, parts[parts.len() - 2]);
    text::lemma_part_of_part(full, directory, last);
    assert(text::occurs_at(last, "openai.codex_"@, 0));
    text::lemma_part_of_part(full, last, "openai.codex_"@);
    assert(text::occurs_at(
        last,
        "__2p2nqsd0c76g0"@,
        last.len() - "__2p2nqsd0c76g0"@.len(),
    ));
    text::lemma_part_of_part(full, last, "__2p2nqsd0c76g0"@);
}

/// A process called `codex.exe` is the root process of the app, unless its command or its
/// path shows that it is something else: a helper, the backend, or this application.
pub proof fn law_codex_processes_are_roots(process: ProcessView)
    requires
        text::lower_of(process.name) == "codex.exe"@,
    ensures
        is_root(process) <==> {
            let command = normalized(process.command_line);
            &&& !text::has_part(command, "codex-switcher"@)
            &&& !text::has_part(command, "--type="@)
            &&& !text::has_part(command, "resources\\codex.exe"@)
            &&& !text::has_part(normalized(process.executable_path), "resources\\codex.exe"@)
        },
{
}

/// A process called `chatgpt.exe` is the root process where its executable is that of a
/// package of Codex: the one at its path, or where that is not known, the one that its
/// command line starts with. A process with another name never is.
pub proof fn law_packaged_processes_are_roots(process: ProcessView)
    requires
        text::lower_of(process.name) != "codex.exe"@,
    ensures
        ({
            let command = normalized(process.command_line);
            let harmless = text::has_part(command, "codex-switcher"@) || text::has_part(
                command,
                "--type="@,
            );
            &&& text::lower_of(process.name) != "chatgpt.exe"@ ==> !is_root(process)
            &&& harmless ==> !is_root(process)
            &&& text::lower_of(process.name) == "chatgpt.exe"@ && !harmless ==> {
                &&& !text::blank(process.executable_path) ==> (is_root(process)
                    <==> is_package_path(text::trim_of(process.executable_path)))
                &&& text::blank(process.executable_path) ==> match command_executable(
                    process.command_line,
                ) {
                    Some(path) => is_root(process) <==> is_package_path(path),
                    None => !is_root(process),
                }
            }
        }),
{
    text::lemma_blank_iff_trim_empty(process.executable_path);
}

} // verus!
