//! Which Codex apps on Windows are alive.

use std::collections::HashSet;
use vstd::prelude::*;

use crate::pids;
use crate::process_list;
use crate::process_list::Standing;
use crate::process_tree;
use crate::text;
use crate::windows_processes;
use crate::windows_processes::ProcessListError;
use crate::windows_processes::ProcessView;
use crate::windows_processes::WindowsCodexProcess;
use crate::windows_roots;

verus! {

broadcast use vstd::std_specs::hash::group_hash_axioms;

/// A descendant that shows that an app is alive
#[derive(Debug, Clone, Copy, PartialEq, Eq, Structural)]
pub enum SignOfLife {
    Renderer,
    AppServer,
}

/// The process is such a descendant.
pub open spec fn shows(sign: SignOfLife, process: ProcessView) -> bool {
    match sign {
        SignOfLife::Renderer => text::has_part(
            text::lower_of(process.command_line),
            "--type=renderer"@,
        ),
        SignOfLife::AppServer => {
            let command = windows_roots::normalized(process.command_line);
            text::has_part(command, "resources\\codex.exe"@) && text::has_part(
                command,
                "app-server"@,
            )
        },
    }
}

fn process_shows(sign: SignOfLife, process: &WindowsCodexProcess) -> (r: bool)
    ensures
        r == shows(sign, process@),
{
    match sign {
        SignOfLife::Renderer => {
            let command = text::to_lower(process.command_line.as_str());
            text::contains_text(command.as_str(), "--type=renderer")
        },
        SignOfLife::AppServer => {
            let command = windows_roots::normalize_windows_path(process.command_line.as_str());
            text::contains_text(command.as_str(), "resources\\codex.exe") && text::contains_text(
                command.as_str(),
                "app-server",
            )
        },
    }
}

/// What a look through the processes has come to: whether the sign was found, the
/// processes whose children are still to be looked at, and the processes seen.
pub struct Search {
    pub found: bool,
    pub queue: Seq<u32>,
    pub seen: Seq<u32>,
}

/// A look at the first `upto` processes for children of `parent`. A child that
/// was seen before is passed over.
pub open spec fn look(
    processes: Seq<ProcessView>,
    upto: int,
    parent: u32,
    sign: SignOfLife,
    queue: Seq<u32>,
    seen: Seq<u32>,
) -> Search
    decreases upto,
{
    if upto <= 0 {
        Search { found: false, queue, seen }
    } else {
        let before = look(processes, upto - 1, parent, sign, queue, seen);
        let process = processes[upto - 1];
        let pid = process.process_id;
        if before.found || process.parent_process_id != parent || before.seen.contains(pid) {
            before
        } else if shows(sign, process) {
            Search { found: true, queue: before.queue, seen: before.seen.push(pid) }
        } else {
            Search { found: false, queue: before.queue.push(pid), seen: before.seen.push(pid) }
        }
    }
}

pub proof fn lemma_look_progress(
    processes: Seq<ProcessView>,
    upto: int,
    parent: u32,
    sign: SignOfLife,
    queue: Seq<u32>,
    seen: Seq<u32>,
)
    ensures
        ({
            let after = look(processes, upto, parent, sign, queue, seen);
            ||| process_tree::unseen(after.seen).len() < process_tree::unseen(seen).len()
            ||| after.seen == seen && after.queue == queue && !after.found
        }),
    decreases upto,
{
    if upto > 0 {
        lemma_look_progress(processes, upto - 1, parent, sign, queue, seen);
        let before = look(processes, upto - 1, parent, sign, queue, seen);
        let pid = processes[upto - 1].process_id;
        if !before.seen.contains(pid) {
            process_tree::lemma_unseen(before.seen, pid);
        }
    }
}

/// The sign is found below the processes of the queue, the last of which comes
/// first.
pub open spec fn search(
    processes: Seq<ProcessView>,
    sign: SignOfLife,
    queue: Seq<u32>,
    seen: Seq<u32>,
) -> bool
    decreases process_tree::unseen(seen).len(), queue.len(),
{
    if queue.len() == 0 {
        false
    } else {
        let n = processes.len() as int;
        let after = look(processes, n, queue.last(), sign, queue.drop_last(), seen);
        proof {
            lemma_look_progress(processes, n, queue.last(), sign, queue.drop_last(), seen);
        }
        after.found || search(processes, sign, after.queue, after.seen)
    }
}

/// A process below `root` shows the sign.
pub open spec fn has_sign(processes: Seq<ProcessView>, root: u32, sign: SignOfLife) -> bool {
    search(processes, sign, seq![root], Seq::empty())
}

/// Whether a process below `root_pid` shows the sign.
pub fn windows_has_descendant_matching(
    root_pid: u32,
    processes: &Vec<WindowsCodexProcess>,
    sign: SignOfLife,
) -> (r: bool)
    ensures
        r == has_sign(windows_processes::views(processes@), root_pid, sign),
{
    let ghost all = windows_processes::views(processes@);
    let mut queue: Vec<u32> = Vec::new();
    queue.push(root_pid);
    let mut visited: HashSet<u32> = HashSet::new();
    let ghost mut seen: Seq<u32> = Seq::empty();
    assert(queue@ =~= seq![root_pid]);
    let ghost goal = has_sign(all, root_pid, sign);
    while queue.len() > 0
        invariant
            all == windows_processes::views(processes@),
            goal == has_sign(all, root_pid, sign),
            goal == search(all, sign, queue@, seen),
            forall|pid: u32| visited@.contains(pid) <==> seen.contains(pid),
        decreases process_tree::unseen(seen).len(), queue@.len(),
    {
        let ghost before = queue@;
        let ghost had = seen;
        let parent: u32 = match queue.pop() {
            Some(parent) => parent,
            None => {
                return false;
            },
        };
        let ghost rest = before.drop_last();
        assert(queue@ =~= rest);
        let mut i: usize = 0;
        while i < processes.len()
            invariant
                all == windows_processes::views(processes@),
                goal == has_sign(all, root_pid, sign),
                before.len() > 0,
                rest == before.drop_last(),
                parent == before.last(),
                goal == search(all, sign, before, had),
                i <= processes@.len(),
                look(all, i as int, parent, sign, rest, had) == (Search {
                    found: false,
                    queue: queue@,
                    seen,
                }),
                forall|pid: u32| visited@.contains(pid) <==> seen.contains(pid),
            decreases processes@.len() - i,
        {
            let process = &processes[i];
            assert(all[i as int] == process@);
            if process.parent_process_id == parent {
                if visited.insert(process.process_id) {
                    proof {
                        process_tree::lemma_push_contains(seen, process.process_id);
                    }
                    if process_shows(sign, process) {
                        proof {
                            lemma_look_found(all, i + 1, all.len() as int, parent, sign, rest, had);
                        }
                        return true;
                    }
                    proof {
                        seen = seen.push(process.process_id);
                    }
                    queue.push(process.process_id);
                }
            }
            i = i + 1;
        }
        proof {
            lemma_look_progress(all, all.len() as int, parent, sign, rest, had);
        }
    }
    false
}

proof fn lemma_look_found(
    processes: Seq<ProcessView>,
    upto: int,
    all: int,
    parent: u32,
    sign: SignOfLife,
    queue: Seq<u32>,
    seen: Seq<u32>,
)
    requires
        look(processes, upto, parent, sign, queue, seen).found,
        0 <= upto <= all,
    ensures
        look(processes, all, parent, sign, queue, seen).found,
    decreases all - upto,
{
    if upto < all {
        lemma_look_found(processes, upto + 1, all, parent, sign, queue, seen);
    }
}

// ---------------------------------------------------------------------------
// Classification
// ---------------------------------------------------------------------------

/// What a process means for switching accounts. A root process without a window
/// and without a sign of life below it is left over from a closed app.
pub open spec fn root_standing(processes: Seq<ProcessView>, process: ProcessView) -> Standing {
    if !windows_roots::is_root(process) {
        Standing::Unrelated
    } else if process_list::is_ide_plugin(text::lower_of(process.command_line)) {
        Standing::Background
    } else if text::trim_of(process.main_window_title).len() > 0 || has_sign(
        processes,
        process.process_id,
        SignOfLife::Renderer,
    ) || has_sign(processes, process.process_id, SignOfLife::AppServer) {
        Standing::Active
    } else {
        Standing::Background
    }
}

/// The active root processes among the first `upto` processes, and the number of
/// the others that are root processes.
pub open spec fn roots_among(processes: Seq<ProcessView>, upto: int) -> (Seq<u32>, nat)
    decreases upto,
{
    if upto <= 0 {
        (Seq::empty(), 0)
    } else {
        let (active, ignored) = roots_among(processes, upto - 1);
        let process = processes[upto - 1];
        match root_standing(processes, process) {
            Standing::Unrelated => (active, ignored),
            Standing::Background => (active, ignored + 1),
            Standing::Active => (active.push(process.process_id), ignored),
        }
    }
}

fn standing_of(processes: &Vec<WindowsCodexProcess>, process: &WindowsCodexProcess) -> (r: Standing)
    ensures
        r == root_standing(windows_processes::views(processes@), process@),
{
    if !windows_roots::is_windows_codex_root_process(process) {
        return Standing::Unrelated;
    }
    let command = text::to_lower(process.command_line.as_str());
    if process_list::is_ide_plugin_process(command.as_str()) {
        return Standing::Background;
    }
    let title = text::trim(process.main_window_title.as_str());
    let has_window = !title.as_str().is_empty();
    let pid: u32 = process.process_id;
    if has_window || windows_has_descendant_matching(pid, processes, SignOfLife::Renderer)
        || windows_has_descendant_matching(pid, processes, SignOfLife::AppServer) {
        Standing::Active
    } else {
        // What is left of an app whose window has been closed.
        Standing::Background
    }
}

/// The root processes of live Codex apps, in ascending order, and the number of
/// root processes that do not stand in the way.
pub fn classify_windows_codex_processes(processes: &Vec<WindowsCodexProcess>) -> (r: (
    Vec<u32>,
    usize,
))
    ensures
        ({
            let (active, ignored) = roots_among(
                windows_processes::views(processes@),
                processes@.len() as int,
            );
            r.0@ == pids::in_order(active) && r.1 == ignored
        }),
{
    let ghost all = windows_processes::views(processes@);
    let mut active: Vec<u32> = Vec::new();
    let mut ignored: usize = 0;
    let mut i: usize = 0;
    while i < processes.len()
        invariant
            all == windows_processes::views(processes@),
            i <= processes@.len(),
            (active@, ignored as nat) == roots_among(all, i as int),
            ignored <= i,
        decreases processes@.len() - i,
    {
        assert(all[i as int] == processes@[i as int]@);
        match standing_of(processes, &processes[i]) {
            Standing::Unrelated => {},
            Standing::Background => {
                ignored = ignored + 1;
            },
            Standing::Active => {
                active.push(processes[i].process_id);
            },
        }
        i = i + 1;
    }
    (pids::sort_and_dedup(&active), ignored)
}

/// Why the processes are not known
#[derive(Debug)]
pub enum WindowsQueryError {
    /// The query failed and printed this error.
    Failed(String),
    List(ProcessListError),
}

impl WindowsQueryError {
    pub fn message(&self) -> (r: String)
        ensures
            r@ == (match *self {
                WindowsQueryError::Failed(stderr) => "PowerShell process query failed: "@
                    + stderr@,
                WindowsQueryError::List(error) => error.text(),
            }),
    {
        match self {
            WindowsQueryError::Failed(stderr) => {
                text::joined("PowerShell process query failed: ", stderr.as_str())
            },
            WindowsQueryError::List(error) => error.message(),
        }
    }
}

/// What the query for processes comes to.
pub open spec fn is_query_result(
    success: bool,
    stdout: Seq<char>,
    stderr: Seq<char>,
    r: Result<(Vec<u32>, usize), WindowsQueryError>,
) -> bool {
    match r {
        Ok(found) => {
            &&& success
            &&& windows_processes::listed(stdout) matches Ok(processes)
            &&& found.0@ == pids::in_order(
                roots_among(processes, processes.len() as int).0,
            )
            &&& found.1 == roots_among(processes, processes.len() as int).1
        },
        Err(WindowsQueryError::Failed(shown)) => !success && shown@ == text::trim_of(stderr),
        Err(WindowsQueryError::List(error)) => success && windows_processes::listed(stdout)
            == Err::<Seq<ProcessView>, ProcessListError>(error),
    }
}

/// The root processes of live Codex apps, in ascending order, and the number of
/// those that do not stand in the way, given what the query for processes came to.
pub fn find_windows_codex_processes(success: bool, stdout: &str, stderr: &str) -> (r: Result<
    (Vec<u32>, usize),
    WindowsQueryError,
>)
    ensures
        is_query_result(success, stdout@, stderr@, r),
{
    if !success {
        return Err(WindowsQueryError::Failed(text::trim(stderr)));
    }
    match windows_processes::parse_windows_codex_processes(stdout) {
        Ok(processes) => Ok(classify_windows_codex_processes(&processes)),
        Err(error) => Err(WindowsQueryError::List(error)),
    }
}

// ---------------------------------------------------------------------------
// The search is complete
// ---------------------------------------------------------------------------

/// The processes whose parent is `parent`.
pub open spec fn pids_below(processes: Seq<ProcessView>, parent: u32) -> Seq<u32>
    decreases processes.len(),
{
    if processes.len() == 0 {
        Seq::empty()
    } else {
        let before = pids_below(processes.drop_last(), parent);
        if processes.last().parent_process_id == parent {
            before.push(processes.last().process_id)
        } else {
            before
        }
    }
}

/// The children of each process.
pub open spec fn children_in(processes: Seq<ProcessView>) -> Map<u32, Seq<u32>> {
    Map::new(|parent: u32| true, |parent: u32| pids_below(processes, parent))
}

/// No two processes have the same identifier.
pub open spec fn distinct(processes: Seq<ProcessView>) -> bool {
    forall|i: int, j: int|
        0 <= i < j < processes.len() ==> processes[i].process_id != processes[j].process_id
}

/// A process below `root` shows the sign: it is a child of it, or a child of a
/// process below it.
pub open spec fn sign_below(processes: Seq<ProcessView>, root: u32, sign: SignOfLife) -> bool {
    exists|i: int|
        0 <= i < processes.len() && #[trigger] shows(sign, processes[i])
            && process_tree::is_descendant(
            children_in(processes),
            root,
            processes[i].process_id,
        )
}

proof fn lemma_pids_below(processes: Seq<ProcessView>, parent: u32, i: int)
    requires
        0 <= i < processes.len(),
        processes[i].parent_process_id == parent,
    ensures
        pids_below(processes, parent).contains(processes[i].process_id),
    decreases processes.len(),
{
    let front = processes.drop_last();
    let last = processes.last();
    process_tree::lemma_push_contains(pids_below(front, parent), last.process_id);
    if i < front.len() {
        lemma_pids_below(front, parent, i);
        assert(front[i] == processes[i]);
    }
}

proof fn lemma_below_has_entry(processes: Seq<ProcessView>, parent: u32, pid: u32) -> (i: int)
    requires
        pids_below(processes, parent).contains(pid),
    ensures
        0 <= i < processes.len(),
        processes[i].parent_process_id == parent,
        processes[i].process_id == pid,
    decreases processes.len(),
{
    let front = processes.drop_last();
    let last = processes.last();
    process_tree::lemma_push_contains(pids_below(front, parent), last.process_id);
    if last.parent_process_id == parent && last.process_id == pid {
        processes.len() - 1
    } else {
        let i = lemma_below_has_entry(front, parent, pid);
        assert(front[i] == processes[i]);
        i
    }
}

/// None of the processes with these identifiers shows the sign.
spec fn none_shows(processes: Seq<ProcessView>, sign: SignOfLife, seen: Seq<u32>) -> bool {
    forall|i: int|
        0 <= i < processes.len() && seen.contains(processes[i].process_id) ==> !#[trigger] shows(
            sign,
            processes[i],
        )
}

proof fn lemma_look_fails(
    processes: Seq<ProcessView>,
    upto: int,
    parent: u32,
    sign: SignOfLife,
    queue: Seq<u32>,
    seen: Seq<u32>,
)
    requires
        0 <= upto <= processes.len(),
        distinct(processes),
        none_shows(processes, sign, seen),
        !look(processes, upto, parent, sign, queue, seen).found,
    ensures
        ({
            let after = look(processes, upto, parent, sign, queue, seen);
            &&& none_shows(processes, sign, after.seen)
            &&& forall|x: u32| #[trigger] seen.contains(x) ==> after.seen.contains(x)
            &&& forall|x: u32| #[trigger] queue.contains(x) ==> after.queue.contains(x)
            &&& forall|x: u32|
                #[trigger] after.seen.contains(x) ==> seen.contains(x) || after.queue.contains(x)
            &&& forall|i: int|
                0 <= i < upto && (#[trigger] processes[i]).parent_process_id == parent
                    ==> after.seen.contains(processes[i].process_id)
        }),
    decreases upto,
{
    if upto > 0 {
        let before = look(processes, upto - 1, parent, sign, queue, seen);
        let after = look(processes, upto, parent, sign, queue, seen);
        let process = processes[upto - 1];
        lemma_look_fails(processes, upto - 1, parent, sign, queue, seen);
        process_tree::lemma_push_contains(before.seen, process.process_id);
        process_tree::lemma_push_contains(before.queue, process.process_id);
        assert forall|x: u32| #[trigger] after.seen.contains(x) implies seen.contains(x)
            || after.queue.contains(x) by {
            if before.seen.contains(x) {
            }
        }
        assert forall|i: int|
            0 <= i < processes.len() && after.seen.contains(
                processes[i].process_id,
            ) implies !#[trigger] shows(sign, processes[i]) by {
            if !before.seen.contains(processes[i].process_id) {
                assert(i == upto - 1);
            }
        }
    }
}

/// Where the search fails, the processes it has seen hold everything below the
/// queue, and none of them shows the sign.
proof fn lemma_search_fails(
    processes: Seq<ProcessView>,
    sign: SignOfLife,
    queue: Seq<u32>,
    seen: Seq<u32>,
) -> (all: Seq<u32>)
    requires
        distinct(processes),
        none_shows(processes, sign, seen),
        !search(processes, sign, queue, seen),
        forall|x: u32, y: u32|
            seen.contains(x) && pids_below(processes, x).contains(y) ==> queue.contains(x)
                || seen.contains(y),
    ensures
        none_shows(processes, sign, all),
        forall|x: u32| #[trigger] seen.contains(x) ==> all.contains(x),
        forall|x: u32, y: u32|
            (all.contains(x) || queue.contains(x)) && pids_below(processes, x).contains(y)
                ==> all.contains(y),
    decreases process_tree::unseen(seen).len(), queue.len(),
{
    if queue.len() == 0 {
        seen
    } else {
        let n = processes.len() as int;
        let parent = queue.last();
        let rest = queue.drop_last();
        assert(rest.push(parent) =~= queue);
        process_tree::lemma_push_contains(rest, parent);
        lemma_look_progress(processes, n, parent, sign, rest, seen);
        lemma_look_fails(processes, n, parent, sign, rest, seen);
        let after = look(processes, n, parent, sign, rest, seen);
        assert forall|x: u32, y: u32|
            after.seen.contains(x) && pids_below(processes, x).contains(
                y,
            ) implies after.queue.contains(x) || after.seen.contains(y) by {
            if x == parent {
                let i = lemma_below_has_entry(processes, parent, y);
                assert(processes[i].parent_process_id == parent);
            } else if seen.contains(x) {
                if queue.contains(x) {
                    assert(rest.contains(x));
                }
            }
        }
        let all = lemma_search_fails(processes, sign, after.queue, after.seen);
        assert forall|x: u32, y: u32|
            (all.contains(x) || queue.contains(x)) && pids_below(processes, x).contains(
                y,
            ) implies all.contains(y) by {
            if x == parent {
                let i = lemma_below_has_entry(processes, parent, y);
                assert(processes[i].parent_process_id == parent);
                assert(after.seen.contains(y));
            } else if queue.contains(x) {
                assert(rest.contains(x));
                assert(after.queue.contains(x));
            }
        }
        all
    }
}

proof fn lemma_look_finds(
    processes: Seq<ProcessView>,
    upto: int,
    parent: u32,
    sign: SignOfLife,
    queue: Seq<u32>,
    seen: Seq<u32>,
) -> (i: int)
    requires
        0 <= upto <= processes.len(),
        look(processes, upto, parent, sign, queue, seen).found,
    ensures
        0 <= i < processes.len(),
        processes[i].parent_process_id == parent,
        shows(sign, processes[i]),
    decreases upto,
{
    if look(processes, upto - 1, parent, sign, queue, seen).found {
        lemma_look_finds(processes, upto - 1, parent, sign, queue, seen)
    } else {
        upto - 1
    }
}

/// What a look adds to the queue are children of `parent`.
proof fn lemma_look_queue(
    processes: Seq<ProcessView>,
    upto: int,
    parent: u32,
    sign: SignOfLife,
    queue: Seq<u32>,
    seen: Seq<u32>,
    x: u32,
)
    requires
        0 <= upto <= processes.len(),
        look(processes, upto, parent, sign, queue, seen).queue.contains(x),
    ensures
        queue.contains(x) || pids_below(processes, parent).contains(x),
    decreases upto,
{
    if upto > 0 {
        let before = look(processes, upto - 1, parent, sign, queue, seen);
        let pid = processes[upto - 1].process_id;
        process_tree::lemma_push_contains(before.queue, pid);
        if before.queue.contains(x) {
            lemma_look_queue(processes, upto - 1, parent, sign, queue, seen, x);
        } else {
            lemma_pids_below(processes, parent, upto - 1);
        }
    }
}

proof fn lemma_search_succeeds(
    processes: Seq<ProcessView>,
    sign: SignOfLife,
    queue: Seq<u32>,
    seen: Seq<u32>,
    root: u32,
)
    requires
        search(processes, sign, queue, seen),
        forall|x: u32| #[trigger]
            queue.contains(x) ==> x == root || process_tree::is_descendant(
                children_in(processes),
                root,
                x,
            ),
    ensures
        sign_below(processes, root, sign),
    decreases process_tree::unseen(seen).len(), queue.len(),
{
    let n = processes.len() as int;
    let parent = queue.last();
    let rest = queue.drop_last();
    let children = children_in(processes);
    assert(rest.push(parent) =~= queue);
    process_tree::lemma_push_contains(rest, parent);
    assert(queue.contains(parent));
    lemma_look_progress(processes, n, parent, sign, rest, seen);
    let after = look(processes, n, parent, sign, rest, seen);
    assert forall|y: u32| pids_below(processes, parent).contains(
        y,
    ) implies process_tree::is_descendant(children, root, y) by {
        assert(process_tree::children_of(children, parent).contains(y));
        if parent == root {
            process_tree::lemma_child_is_descendant(children, root, y);
        } else {
            process_tree::lemma_child_of_descendant(children, root, parent, y);
        }
    }
    if after.found {
        let i = lemma_look_finds(processes, n, parent, sign, rest, seen);
        lemma_pids_below(processes, parent, i);
        assert(shows(sign, processes[i]));
    } else {
        assert forall|x: u32| #[trigger] after.queue.contains(x) implies x == root
            || process_tree::is_descendant(children, root, x) by {
            lemma_look_queue(processes, n, parent, sign, rest, seen, x);
            if rest.contains(x) {
                assert(queue.contains(x));
            }
        }
        lemma_search_succeeds(processes, sign, after.queue, after.seen, root);
    }
}

/// The search finds a sign of life below a process exactly where there is one,
/// however deep, as long as no two processes have the same identifier. It always
/// ends, also where the processes form a ring.
pub proof fn law_search_is_exact(processes: Seq<ProcessView>, root: u32, sign: SignOfLife)
    requires
        distinct(processes),
    ensures
        has_sign(processes, root, sign) <==> sign_below(processes, root, sign),
{
    let children = children_in(processes);
    let queue = seq![root];
    assert(queue[0] == root);
    assert(queue.contains(root));
    if has_sign(processes, root, sign) {
        lemma_search_succeeds(processes, sign, queue, Seq::empty(), root);
    } else {
        let all = lemma_search_fails(processes, sign, queue, Seq::empty());
        assert forall|i: int|
            0 <= i < processes.len() && #[trigger] shows(
                sign,
                processes[i],
            ) implies !process_tree::is_descendant(
            children,
            root,
            processes[i].process_id,
        ) by {
            if process_tree::is_descendant(children, root, processes[i].process_id) {
                let path = choose|path: Seq<u32>|
                    process_tree::leads_down(children, path, root, processes[i].process_id);
                lemma_path_is_seen(processes, root, all, path, path.len() - 1);
            }
        }
    }
}

proof fn lemma_path_is_seen(
    processes: Seq<ProcessView>,
    root: u32,
    all: Seq<u32>,
    path: Seq<u32>,
    at: int,
)
    requires
        forall|x: u32, y: u32|
            (all.contains(x) || seq![root].contains(x)) && pids_below(processes, x).contains(y)
                ==> all.contains(y),
        process_tree::is_line(children_in(processes), path),
        path.len() > 0,
        path[0] == root,
        1 <= at < path.len(),
    ensures
        all.contains(path[at]),
    decreases at,
{
    let children = children_in(processes);
    assert(process_tree::children_of(children, path[at - 1]).contains(path[at - 1 + 1]));
    assert(pids_below(processes, path[at - 1]).contains(path[at]));
    assert(seq![root][0] == root);
    assert(seq![root].contains(root));
    if at > 1 {
        lemma_path_is_seen(processes, root, all, path, at - 1);
    }
}

// ---------------------------------------------------------------------------
// Laws
// ---------------------------------------------------------------------------

proof fn lemma_roots_among(processes: Seq<ProcessView>, upto: int, pid: u32)
    requires
        0 <= upto <= processes.len(),
    ensures
        roots_among(processes, upto).0.contains(pid) <==> exists|i: int|
            {
                &&& 0 <= i < upto
                &&& (#[trigger] processes[i]).process_id == pid
                &&& root_standing(processes, processes[i]) is Active
            },
    decreases upto,
{
    if upto > 0 {
        lemma_roots_among(processes, upto - 1, pid);
        let active = roots_among(processes, upto - 1).0;
        process_tree::lemma_push_contains(active, processes[upto - 1].process_id);
        if roots_among(processes, upto).0.contains(pid) && !active.contains(pid) {
            assert(processes[upto - 1].process_id == pid);
        }
    }
}

/// The root processes that stand in the way are those of live apps: with a window that has
/// a title, or with a renderer or an app server below them. Plugins of editors do not
/// count.
pub proof fn law_live_apps_stand_in_the_way(processes: Seq<ProcessView>, pid: u32)
    requires
        distinct(processes),
    ensures
        pids::in_order(roots_among(processes, processes.len() as int).0).contains(pid)
            <==> exists|i: int|
            {
                let process = #[trigger] processes[i];
                let command = text::lower_of(process.command_line);
                &&& 0 <= i < processes.len()
                &&& process.process_id == pid
                &&& windows_roots::is_root(process)
                &&& !text::has_part(command, ".antigravity"@)
                &&& !text::has_part(command, "openai.chatgpt"@)
                &&& !text::has_part(command, ".vscode"@)
                &&& !text::blank(process.main_window_title) || sign_below(
                    processes,
                    pid,
                    SignOfLife::Renderer,
                ) || sign_below(processes, pid, SignOfLife::AppServer)
            },
{
    let n = processes.len() as int;
    pids::law_in_order(roots_among(processes, n).0);
    lemma_roots_among(processes, n, pid);
    law_search_is_exact(processes, pid, SignOfLife::Renderer);
    law_search_is_exact(processes, pid, SignOfLife::AppServer);
    assert forall|i: int| 0 <= i < n && (#[trigger] processes[i]).process_id == pid implies (
    root_standing(processes, processes[i]) is Active <==> {
        let process = processes[i];
        let command = text::lower_of(process.command_line);
        &&& windows_roots::is_root(process)
        &&& !text::has_part(command, ".antigravity"@)
        &&& !text::has_part(command, "openai.chatgpt"@)
        &&& !text::has_part(command, ".vscode"@)
        &&& !text::blank(process.main_window_title) || sign_below(
            processes,
            pid,
            SignOfLife::Renderer,
        ) || sign_below(processes, pid, SignOfLife::AppServer)
    }) by {
        text::lemma_blank_iff_trim_empty(processes[i].main_window_title);
    }
    if pids::in_order(roots_among(processes, n).0).contains(pid) {
        let i = choose|i: int|
            {
                &&& 0 <= i < n
                &&& (#[trigger] processes[i]).process_id == pid
                &&& root_standing(processes, processes[i]) is Active
            };
        assert(processes[i].process_id == pid);
    }
}

/// Every root process stands in the way or is counted as one that does not; other processes
/// are not counted.
pub proof fn law_every_root_is_counted(processes: Seq<ProcessView>, upto: int)
    requires
        0 <= upto <= processes.len(),
    ensures
        roots_among(processes, upto).0.len() + roots_among(processes, upto).1 == processes.take(
            upto,
        ).filter(|process: ProcessView| windows_roots::is_root(process)).len(),
    decreases upto,
{
    reveal(Seq::filter);
    let front = processes.take(upto);
    if upto > 0 {
        law_every_root_is_counted(processes, upto - 1);
        assert(front.drop_last() =~= processes.take(upto - 1));
        assert(front.last() == processes[upto - 1]);
    } else {
        assert(front.len() == 0);
    }
}

/// A renderer shows itself in its command line, and so does the app server of the backend,
/// whichever slashes and capitals stand there.
pub proof fn law_signs_of_life(process: ProcessView)
    ensures
        shows(SignOfLife::Renderer, process) <==> text::has_part(
            text::lower_of(process.command_line),
            "--type=renderer"@,
        ),
        shows(SignOfLife::AppServer, process) <==> text::has_part(
            windows_roots::normalized(process.command_line),
            "resources\\codex.exe"@,
        ) && text::has_part(windows_roots::normalized(process.command_line), "app-server"@),
{
}

/// Processes are told exactly where the query was a success and its output can be read;
/// otherwise the error says what failed. They come in ascending order, and none is missing
/// or told twice.
pub proof fn law_query_tells_the_active_roots(
    success: bool,
    stdout: Seq<char>,
    stderr: Seq<char>,
    r: Result<(Vec<u32>, usize), WindowsQueryError>,
)
    requires
        is_query_result(success, stdout, stderr, r),
    ensures
        r is Ok <==> success && windows_processes::listed(stdout) is Ok,
        r matches Err(error) ==> (error is Failed <==> !success),
        r matches Ok(found) ==> {
            let processes = windows_processes::listed(stdout)->Ok_0;
            let (told, ignored) = found;
            &&& forall|i: int, j: int| 0 <= i < j < told@.len() ==> told@[i] < told@[j]
            &&& forall|pid: u32| #[trigger]
                told@.contains(pid) <==> roots_among(processes, processes.len() as int).0.contains(
                    pid,
                )
            &&& ignored == roots_among(processes, processes.len() as int).1
        },
{
    if r is Ok {
        let processes = windows_processes::listed(stdout)->Ok_0;
        pids::law_in_order(roots_among(processes, processes.len() as int).0);
    }
}

} // verus!
