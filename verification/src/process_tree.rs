//! The processes that go down with the ones that are closed.

use std::collections::HashMap;
use std::collections::HashSet;
use vstd::prelude::*;

use crate::numerals;
use crate::text;
use crate::words;

verus! {

broadcast use vstd::std_specs::hash::group_hash_axioms;

/// The processes of a Unix system: the children of each process, and its owner.
pub struct UnixProcessSnapshot {
    pub children_by_parent: HashMap<u32, Vec<u32>>,
    pub uid_by_pid: HashMap<u32, u32>,
}

/// The lists in a table of lists.
pub open spec fn lists_in(table: Map<u32, Vec<u32>>) -> Map<u32, Seq<u32>> {
    table.map_values(|children: Vec<u32>| children@)
}

impl UnixProcessSnapshot {
    /// The children of each process that has any.
    pub open spec fn children(self) -> Map<u32, Seq<u32>> {
        lists_in(self.children_by_parent@)
    }

    /// The owner of each process.
    pub open spec fn owners(self) -> Map<u32, u32> {
        self.uid_by_pid@
    }
}

/// What a line with a process identifier, that of the parent and the owner says.
pub open spec fn owned_process(line: Seq<char>) -> Option<(u32, u32, u32)> {
    let fields = words::words_of(line);
    if fields.len() < 3 {
        None
    } else {
        match (
            numerals::u32_of(fields[0]),
            numerals::u32_of(fields[1]),
            numerals::u32_of(fields[2]),
        ) {
            (Some(pid), Some(parent), Some(owner)) => Some((pid, parent, owner)),
            _ => None,
        }
    }
}

/// The children in the table of children.
pub open spec fn children_of(children: Map<u32, Seq<u32>>, pid: u32) -> Seq<u32> {
    if children.contains_key(pid) {
        children[pid]
    } else {
        Seq::empty()
    }
}

/// The children of each process, in the order of the lines.
pub open spec fn listed_children(lines: Seq<Seq<char>>) -> Map<u32, Seq<u32>>
    decreases lines.len(),
{
    if lines.len() == 0 {
        Map::empty()
    } else {
        let before = listed_children(lines.drop_last());
        match owned_process(lines.last()) {
            Some((pid, parent, owner)) => before.insert(
                parent,
                children_of(before, parent).push(pid),
            ),
            None => before,
        }
    }
}

/// The owner of each process. A later line wins.
pub open spec fn listed_owners(lines: Seq<Seq<char>>) -> Map<u32, u32>
    decreases lines.len(),
{
    if lines.len() == 0 {
        Map::empty()
    } else {
        let before = listed_owners(lines.drop_last());
        match owned_process(lines.last()) {
            Some((pid, parent, owner)) => before.insert(pid, owner),
            None => before,
        }
    }
}

fn parse_owned_process(line: &str) -> (r: Option<(u32, u32, u32)>)
    ensures
        r == owned_process(line@),
{
    let fields = words::words(line);
    let ghost parts = words::words_of(line@);
    if fields.len() < 3 {
        return None;
    }
    proof {
        assert(fields@[0]@ == parts[0]);
        assert(fields@[1]@ == parts[1]);
        assert(fields@[2]@ == parts[2]);
    }
    match (
        numerals::parse_u32(fields[0].as_str()),
        numerals::parse_u32(fields[1].as_str()),
        numerals::parse_u32(fields[2].as_str()),
    ) {
        (Some(pid), Some(parent), Some(owner)) => Some((pid, parent, owner)),
        _ => None,
    }
}

/// The processes in the output of `ps -axo pid=,ppid=,uid=`.
pub fn read_unix_process_snapshot(listing: &str) -> (r: UnixProcessSnapshot)
    ensures
        r.children() == listed_children(words::lines_of(listing@)),
        r.owners() == listed_owners(words::lines_of(listing@)),
{
    let lines = words::lines(listing);
    let ghost all = words::lines_of(listing@);
    let mut children: HashMap<u32, Vec<u32>> = HashMap::new();
    let mut owners: HashMap<u32, u32> = HashMap::new();
    let mut i: usize = 0;
    proof {
        assert(lists_in(children@) =~= listed_children(all.take(0)));
        assert(owners@ =~= listed_owners(all.take(0)));
    }
    while i < lines.len()
        invariant
            text::texts(lines@) == all,
            i <= lines@.len(),
            lists_in(children@) == listed_children(all.take(i as int)),
            owners@ == listed_owners(all.take(i as int)),
        decreases lines@.len() - i,
    {
        proof {
            assert(lines@[i as int]@ == all[i as int]);
            assert(all.take(i + 1).drop_last() =~= all.take(i as int));
        }
        match parse_owned_process(lines[i].as_str()) {
            Some((pid, parent, owner)) => {
                let ghost before = lists_in(children@);
                let ghost table = children@;
                let mut list: Vec<u32> = match children.remove(&parent) {
                    Some(list) => list,
                    None => Vec::new(),
                };
                assert(list@ == children_of(before, parent));
                list.push(pid);
                children.insert(parent, list);
                owners.insert(pid, owner);
                assert(lists_in(children@) =~= before.insert(
                    parent,
                    children_of(before, parent).push(pid),
                ));
            },
            None => {},
        }
        i = i + 1;
    }
    assert(all.take(all.len() as int) =~= all);
    UnixProcessSnapshot { children_by_parent: children, uid_by_pid: owners }
}

// ---------------------------------------------------------------------------
// Descendants
// ---------------------------------------------------------------------------

/// The process identifiers that are not among `seen`.
pub open spec fn unseen(seen: Seq<u32>) -> Set<int> {
    vstd::set_lib::set_int_range(0, 0x1_0000_0000).filter(|i: int| !seen.contains(i as u32))
}

pub proof fn lemma_unseen(seen: Seq<u32>, pid: u32)
    requires
        !seen.contains(pid),
    ensures
        unseen(seen.push(pid)).len() < unseen(seen).len(),
        unseen(seen.push(pid)).finite(),
        unseen(seen).finite(),
{
    vstd::set_lib::lemma_int_range(0, 0x1_0000_0000);
    let all = vstd::set_lib::set_int_range(0, 0x1_0000_0000);
    all.lemma_len_filter(|i: int| !seen.contains(i as u32));
    let more = seen.push(pid);
    assert(unseen(more) =~= unseen(seen).remove(pid as int)) by {
        assert forall|i: int| unseen(more).contains(i) <==> unseen(seen).remove(pid as int).contains(
            i,
        ) by {
            if 0 <= i < 0x1_0000_0000 {
                if seen.contains(i as u32) {
                    let k = choose|k: int| 0 <= k < seen.len() && seen[k] == i as u32;
                    assert(more[k] == i as u32);
                }
                if more.contains(i as u32) {
                    let k = choose|k: int| 0 <= k < more.len() && more[k] == i as u32;
                    if k < seen.len() {
                        assert(seen[k] == i as u32);
                    }
                }
                assert(more[seen.len() as int] == pid);
            }
        }
    }
    assert(unseen(seen).contains(pid as int));
}

/// `seen`, followed by the processes on the stack and their descendants that are
/// not among it, in the order in which they come off the stack: a process is
/// followed by what was pushed last.
pub open spec fn drained(
    children: Map<u32, Seq<u32>>,
    stack: Seq<u32>,
    seen: Seq<u32>,
) -> Seq<u32>
    decreases unseen(seen).len(), stack.len(),
{
    if stack.len() == 0 {
        seen
    } else {
        let pid = stack.last();
        let rest = stack.drop_last();
        if seen.contains(pid) {
            drained(children, rest, seen)
        } else {
            proof {
                lemma_unseen(seen, pid);
            }
            drained(children, rest + children_of(children, pid), seen.push(pid))
        }
    }
}

/// The descendants of the roots, in the order of the roots.
pub open spec fn descendants(children: Map<u32, Seq<u32>>, roots: Seq<u32>) -> Seq<u32>
    decreases roots.len(),
{
    if roots.len() == 0 {
        Seq::empty()
    } else {
        drained(
            children,
            children_of(children, roots.last()),
            descendants(children, roots.drop_last()),
        )
    }
}

/// `seen`, followed by those of `more` that are not among it, each of them once.
pub open spec fn adjoined(seen: Seq<u32>, more: Seq<u32>) -> Seq<u32>
    decreases more.len(),
{
    if more.len() == 0 {
        seen
    } else {
        let before = adjoined(seen, more.drop_last());
        if before.contains(more.last()) {
            before
        } else {
            before.push(more.last())
        }
    }
}

/// The processes to close: the descendants of the roots, then the roots.
pub open spec fn targets(children: Map<u32, Seq<u32>>, roots: Seq<u32>) -> Seq<u32> {
    adjoined(descendants(children, roots), roots)
}

/// The table of children for a snapshot that may be missing.
pub open spec fn known_children(snapshot: Option<&UnixProcessSnapshot>) -> Map<u32, Seq<u32>> {
    match snapshot {
        Some(snapshot) => snapshot.children(),
        None => Map::empty(),
    }
}

proof fn lemma_no_descendants(roots: Seq<u32>)
    ensures
        descendants(Map::empty(), roots) == Seq::<u32>::empty(),
    decreases roots.len(),
{
    if roots.len() > 0 {
        lemma_no_descendants(roots.drop_last());
    }
}

/// Follows the processes on the stack.
fn drain(
    children: &HashMap<u32, Vec<u32>>,
    stack: Vec<u32>,
    visited: &mut HashSet<u32>,
    seen: &mut Vec<u32>,
)
    requires
        forall|pid: u32| old(visited)@.contains(pid) <==> old(seen)@.contains(pid),
    ensures
        final(seen)@ == drained(lists_in(children@), stack@, old(seen)@),
        forall|pid: u32| final(visited)@.contains(pid) <==> final(seen)@.contains(pid),
{
    let mut stack: Vec<u32> = stack;
    let ghost goal = drained(lists_in(children@), stack@, seen@);
    let ghost table = lists_in(children@);
    while stack.len() > 0
        invariant
            table == lists_in(children@),
            goal == drained(table, stack@, seen@),
            forall|pid: u32| visited@.contains(pid) <==> seen@.contains(pid),
        decreases unseen(seen@).len(), stack@.len(),
    {
        let ghost before = stack@;
        let ghost had = seen@;
        let pid: u32 = match stack.pop() {
            Some(pid) => pid,
            None => {
                return ;
            },
        };
        assert(stack@ =~= before.drop_last());
        assert(pid == before.last());
        if !visited.insert(pid) {
            continue;
        }
        seen.push(pid);
        proof {
            lemma_unseen(had, pid);
            assert forall|x: u32| visited@.contains(x) <==> seen@.contains(x) by {
                if had.contains(x) {
                    let k = choose|k: int| 0 <= k < had.len() && had[k] == x;
                    assert(seen@[k] == x);
                }
                assert(seen@[had.len() as int] == pid);
                if seen@.contains(x) && x != pid {
                    let k = choose|k: int| 0 <= k < seen@.len() && seen@[k] == x;
                    assert(had[k] == x);
                }
            }
        }
        match children.get(&pid) {
            Some(list) => {
                assert(list@ == children_of(table, pid));
                push_all(&mut stack, list);
            },
            None => {
                assert(stack@ + children_of(table, pid) =~= stack@);
            },
        }
    }
}

fn push_all(stack: &mut Vec<u32>, list: &Vec<u32>)
    ensures
        final(stack)@ == old(stack)@ + list@,
{
    let mut i: usize = 0;
    assert(stack@ =~= old(stack)@ + list@.take(0));
    while i < list.len()
        invariant
            i <= list@.len(),
            stack@ == old(stack)@ + list@.take(i as int),
        decreases list@.len() - i,
    {
        stack.push(list[i]);
        assert(list@.take(i + 1) =~= list@.take(i as int).push(list@[i as int]));
        i = i + 1;
        assert(stack@ =~= old(stack)@ + list@.take(i as int));
    }
    assert(list@.take(list@.len() as int) =~= list@);
}

/// The processes to close: the descendants of the roots, as far as they are
/// known, then the roots.
pub fn expand_process_targets(
    root_pids: &Vec<u32>,
    snapshot: Option<&UnixProcessSnapshot>,
) -> (r: Vec<u32>)
    ensures
        r@ == targets(known_children(snapshot), root_pids@),
{
    let mut seen: Vec<u32> = Vec::new();
    let mut visited: HashSet<u32> = HashSet::new();
    let ghost table = known_children(snapshot);
    match snapshot {
        Some(snapshot) => {
            let mut i: usize = 0;
            while i < root_pids.len()
                invariant
                    table == lists_in(snapshot.children_by_parent@),
                    i <= root_pids@.len(),
                    seen@ == descendants(table, root_pids@.take(i as int)),
                    forall|pid: u32| visited@.contains(pid) <==> seen@.contains(pid),
                decreases root_pids@.len() - i,
            {
                proof {
                    assert(root_pids@.take(i + 1).drop_last() =~= root_pids@.take(i as int));
                }
                let root: u32 = root_pids[i];
                let mut stack: Vec<u32> = Vec::new();
                match snapshot.children_by_parent.get(&root) {
                    Some(list) => {
                        push_all(&mut stack, list);
                        assert(stack@ =~= children_of(table, root));
                    },
                    None => {},
                }
                assert(stack@ == children_of(table, root));
                drain(&snapshot.children_by_parent, stack, &mut visited, &mut seen);
                i = i + 1;
            }
            assert(root_pids@.take(root_pids@.len() as int) =~= root_pids@);
        },
        None => {
            proof {
                lemma_no_descendants(root_pids@);
            }
        },
    }
    let ghost inner = seen@;
    let mut i: usize = 0;
    assert(root_pids@.take(0) =~= Seq::<u32>::empty());
    while i < root_pids.len()
        invariant
            i <= root_pids@.len(),
            seen@ == adjoined(inner, root_pids@.take(i as int)),
            forall|pid: u32| visited@.contains(pid) <==> seen@.contains(pid),
        decreases root_pids@.len() - i,
    {
        let ghost had = seen@;
        proof {
            assert(root_pids@.take(i + 1).drop_last() =~= root_pids@.take(i as int));
        }
        let root: u32 = root_pids[i];
        if visited.insert(root) {
            seen.push(root);
            proof {
                assert forall|x: u32| visited@.contains(x) <==> seen@.contains(x) by {
                    if had.contains(x) {
                        let k = choose|k: int| 0 <= k < had.len() && had[k] == x;
                        assert(seen@[k] == x);
                    }
                    assert(seen@[had.len() as int] == root);
                    if seen@.contains(x) && x != root {
                        let k = choose|k: int| 0 <= k < seen@.len() && seen@[k] == x;
                        assert(had[k] == x);
                    }
                }
            }
        }
        i = i + 1;
    }
    assert(root_pids@.take(root_pids@.len() as int) =~= root_pids@);
    seen
}

// ---------------------------------------------------------------------------
// What is closed
// ---------------------------------------------------------------------------

/// Each process of the path but the first is a child of the one before it.
pub open spec fn is_line(children: Map<u32, Seq<u32>>, path: Seq<u32>) -> bool {
    forall|i: int|
        0 <= i < path.len() - 1 ==> children_of(children, #[trigger] path[i]).contains(
            path[i + 1],
        )
}

/// A path from `root` down to `pid`.
pub open spec fn leads_down(
    children: Map<u32, Seq<u32>>,
    path: Seq<u32>,
    root: u32,
    pid: u32,
) -> bool {
    path.len() >= 2 && path[0] == root && path.last() == pid && is_line(children, path)
}

/// `pid` is a child of `root`, or a child of a descendant of it.
pub open spec fn is_descendant(children: Map<u32, Seq<u32>>, root: u32, pid: u32) -> bool {
    exists|path: Seq<u32>| leads_down(children, path, root, pid)
}

/// `pid` is a descendant of one of the roots.
pub open spec fn is_below(children: Map<u32, Seq<u32>>, roots: Seq<u32>, pid: u32) -> bool {
    exists|root: u32| roots.contains(root) && is_descendant(children, root, pid)
}

/// Each child of a process of `seen` is among `seen` or on the stack.
spec fn closed_under(children: Map<u32, Seq<u32>>, stack: Seq<u32>, seen: Seq<u32>) -> bool {
    forall|pid: u32, child: u32|
        seen.contains(pid) && children_of(children, pid).contains(child) ==> seen.contains(child)
            || stack.contains(child)
}

pub proof fn lemma_push_contains(s: Seq<u32>, x: u32)
    ensures
        forall|y: u32| #[trigger] s.push(x).contains(y) <==> (s.contains(y) || y == x),
{
    assert forall|y: u32| #[trigger] s.push(x).contains(y) <==> (s.contains(y) || y == x) by {
        if s.contains(y) {
            let k = choose|k: int| 0 <= k < s.len() && s[k] == y;
            assert(s.push(x)[k] == y);
        }
        assert(s.push(x)[s.len() as int] == x);
        if s.push(x).contains(y) {
            let k = choose|k: int| 0 <= k < s.push(x).len() && s.push(x)[k] == y;
            if k < s.len() {
                assert(s[k] == y);
            }
        }
    }
}

pub proof fn lemma_add_contains(s: Seq<u32>, t: Seq<u32>)
    ensures
        forall|y: u32| #[trigger] (s + t).contains(y) <==> (s.contains(y) || t.contains(y)),
{
    assert forall|y: u32| #[trigger] (s + t).contains(y) <==> (s.contains(y) || t.contains(y)) by {
        if s.contains(y) {
            let k = choose|k: int| 0 <= k < s.len() && s[k] == y;
            assert((s + t)[k] == y);
        }
        if t.contains(y) {
            let k = choose|k: int| 0 <= k < t.len() && t[k] == y;
            assert((s + t)[s.len() + k] == y);
        }
        if (s + t).contains(y) {
            let k = choose|k: int| 0 <= k < (s + t).len() && (s + t)[k] == y;
            if k < s.len() {
                assert(s[k] == y);
            } else {
                assert(t[k - s.len()] == y);
            }
        }
    }
}

proof fn lemma_drained(children: Map<u32, Seq<u32>>, stack: Seq<u32>, seen: Seq<u32>)
    requires
        seen.no_duplicates(),
        closed_under(children, stack, seen),
    ensures
        drained(children, stack, seen).no_duplicates(),
        closed_under(children, Seq::empty(), drained(children, stack, seen)),
        forall|x: u32|
            seen.contains(x) || stack.contains(x) ==> #[trigger] drained(
                children,
                stack,
                seen,
            ).contains(x),
    decreases unseen(seen).len(), stack.len(),
{
    if stack.len() > 0 {
        let pid = stack.last();
        let rest = stack.drop_last();
        assert(rest.push(pid) =~= stack);
        lemma_push_contains(rest, pid);
        if seen.contains(pid) {
            lemma_drained(children, rest, seen);
        } else {
            let kids = children_of(children, pid);
            lemma_unseen(seen, pid);
            lemma_push_contains(seen, pid);
            lemma_add_contains(rest, kids);
            assert(seen.push(pid).no_duplicates());
            assert(closed_under(children, rest + kids, seen.push(pid)));
            lemma_drained(children, rest + kids, seen.push(pid));
        }
    }
}

/// What comes off the stack beyond `seen` was on it or descends from it.
proof fn lemma_drained_sound(
    children: Map<u32, Seq<u32>>,
    stack: Seq<u32>,
    seen: Seq<u32>,
    root: u32,
    x: u32,
)
    requires
        forall|y: u32| #[trigger] stack.contains(y) ==> is_descendant(children, root, y),
        drained(children, stack, seen).contains(x),
    ensures
        seen.contains(x) || is_descendant(children, root, x),
    decreases unseen(seen).len(), stack.len(),
{
    if stack.len() > 0 {
        let pid = stack.last();
        let rest = stack.drop_last();
        assert(rest.push(pid) =~= stack);
        lemma_push_contains(rest, pid);
        assert(stack.contains(pid));
        assert forall|y: u32| #[trigger] rest.contains(y) implies is_descendant(
            children,
            root,
            y,
        ) by {
            assert(stack.contains(y));
        }
        if seen.contains(pid) {
            lemma_drained_sound(children, rest, seen, root, x);
        } else {
            let kids = children_of(children, pid);
            lemma_unseen(seen, pid);
            lemma_push_contains(seen, pid);
            lemma_add_contains(rest, kids);
            assert forall|y: u32| #[trigger] (rest + kids).contains(y) implies is_descendant(
                children,
                root,
                y,
            ) by {
                if kids.contains(y) {
                    lemma_child_of_descendant(children, root, pid, y);
                }
            }
            lemma_drained_sound(children, rest + kids, seen.push(pid), root, x);
        }
    }
}

pub proof fn lemma_child_of_descendant(
    children: Map<u32, Seq<u32>>,
    root: u32,
    pid: u32,
    child: u32,
)
    requires
        is_descendant(children, root, pid),
        children_of(children, pid).contains(child),
    ensures
        is_descendant(children, root, child),
{
    let path = choose|path: Seq<u32>| leads_down(children, path, root, pid);
    let longer = path.push(child);
    assert forall|i: int| 0 <= i < longer.len() - 1 implies children_of(
        children,
        #[trigger] longer[i],
    ).contains(longer[i + 1]) by {
        if i < path.len() - 1 {
            assert(longer[i] == path[i]);
            assert(longer[i + 1] == path[i + 1]);
        }
    }
    assert(leads_down(children, longer, root, child));
}

pub proof fn lemma_child_is_descendant(children: Map<u32, Seq<u32>>, root: u32, child: u32)
    requires
        children_of(children, root).contains(child),
    ensures
        is_descendant(children, root, child),
{
    let path = seq![root, child];
    assert(leads_down(children, path, root, child));
}

proof fn lemma_descendants(children: Map<u32, Seq<u32>>, roots: Seq<u32>)
    ensures
        descendants(children, roots).no_duplicates(),
        closed_under(children, Seq::empty(), descendants(children, roots)),
        forall|root: u32, child: u32|
            roots.contains(root) && children_of(children, root).contains(child) ==> descendants(
                children,
                roots,
            ).contains(child),
        forall|x: u32| #[trigger]
            descendants(children, roots).contains(x) ==> is_below(children, roots, x),
    decreases roots.len(),
{
    if roots.len() > 0 {
        let front = roots.drop_last();
        let root = roots.last();
        let before = descendants(children, front);
        let kids = children_of(children, root);
        let all = descendants(children, roots);
        assert(front.push(root) =~= roots);
        lemma_push_contains(front, root);
        lemma_descendants(children, front);
        assert(closed_under(children, kids, before));
        lemma_drained(children, kids, before);
        assert forall|r: u32, child: u32|
            roots.contains(r) && children_of(children, r).contains(child) implies all.contains(
            child,
        ) by {
            if r == root {
                assert(kids.contains(child));
            } else {
                assert(before.contains(child));
            }
        }
        assert forall|x: u32| #[trigger] all.contains(x) implies is_below(
            children,
            roots,
            x,
        ) by {
            assert forall|y: u32| #[trigger] kids.contains(y) implies is_descendant(
                children,
                root,
                y,
            ) by {
                lemma_child_is_descendant(children, root, y);
            }
            lemma_drained_sound(children, kids, before, root, x);
            if before.contains(x) {
                let r = choose|r: u32| front.contains(r) && is_descendant(children, r, x);
                assert(roots.contains(r));
            } else {
                assert(roots.contains(root));
            }
        }
    }
}

pub proof fn lemma_adjoined(seen: Seq<u32>, more: Seq<u32>)
    requires
        seen.no_duplicates(),
    ensures
        adjoined(seen, more).no_duplicates(),
        forall|x: u32| #[trigger]
            adjoined(seen, more).contains(x) <==> (seen.contains(x) || more.contains(x)),
    decreases more.len(),
{
    if more.len() > 0 {
        let front = more.drop_last();
        assert(front.push(more.last()) =~= more);
        lemma_push_contains(front, more.last());
        lemma_adjoined(seen, front);
        lemma_push_contains(adjoined(seen, front), more.last());
    }
}

proof fn lemma_path_stays_inside(
    children: Map<u32, Seq<u32>>,
    roots: Seq<u32>,
    path: Seq<u32>,
    at: int,
)
    requires
        is_line(children, path),
        path.len() > 0,
        roots.contains(path[0]),
        1 <= at < path.len(),
    ensures
        descendants(children, roots).contains(path[at]),
    decreases at,
{
    lemma_descendants(children, roots);
    assert(children_of(children, path[at - 1]).contains(path[at - 1 + 1]));
    if at > 1 {
        lemma_path_stays_inside(children, roots, path, at - 1);
    }
}

/// The processes to close are the roots and everything that descends from one of
/// them, and nothing else; none of them is listed twice.
pub proof fn law_targets(children: Map<u32, Seq<u32>>, roots: Seq<u32>)
    ensures
        targets(children, roots).no_duplicates(),
        forall|pid: u32| #[trigger]
            targets(children, roots).contains(pid) <==> (roots.contains(pid) || is_below(
                children,
                roots,
                pid,
            )),
{
    lemma_descendants(children, roots);
    lemma_adjoined(descendants(children, roots), roots);
    assert forall|pid: u32| is_below(children, roots, pid) implies descendants(
        children,
        roots,
    ).contains(pid) by {
        let root = choose|root: u32| roots.contains(root) && is_descendant(children, root, pid);
        let path = choose|path: Seq<u32>| leads_down(children, path, root, pid);
        lemma_path_stays_inside(children, roots, path, path.len() - 1);
    }
}

/// Everything that descends from a process to close is closed before the processes that
/// do not: what comes behind a process that descends from none of the roots descends from
/// none either.
pub proof fn law_descendants_come_first(
    children: Map<u32, Seq<u32>>,
    roots: Seq<u32>,
    i: int,
    j: int,
)
    requires
        0 <= i < j < targets(children, roots).len(),
        !is_below(children, roots, targets(children, roots)[i]),
    ensures
        !is_below(children, roots, targets(children, roots)[j]),
{
    let below = descendants(children, roots);
    let all = targets(children, roots);
    lemma_descendants(children, roots);
    lemma_adjoined_front(below, roots);
    law_targets(children, roots);
    if i < below.len() {
        assert(below.contains(below[i]));
        assert(all[i] == below[i]);
    } else {
        if is_below(children, roots, all[j]) {
            lemma_below_is_found(children, roots, all[j]);
            let k = choose|k: int| 0 <= k < below.len() && below[k] == all[j];
            assert(all[k] == all[j]);
        }
    }
}

proof fn lemma_below_is_found(children: Map<u32, Seq<u32>>, roots: Seq<u32>, pid: u32)
    requires
        is_below(children, roots, pid),
    ensures
        descendants(children, roots).contains(pid),
{
    lemma_descendants(children, roots);
    let below = descendants(children, roots);
    let root = choose|root: u32| roots.contains(root) && is_descendant(children, root, pid);
    let path = choose|path: Seq<u32>| leads_down(children, path, root, pid);
    lemma_path_is_found(children, roots, root, path, path.len() - 1);
}

proof fn lemma_path_is_found(
    children: Map<u32, Seq<u32>>,
    roots: Seq<u32>,
    root: u32,
    path: Seq<u32>,
    k: int,
)
    requires
        roots.contains(root),
        path.len() >= 2,
        path[0] == root,
        is_line(children, path),
        1 <= k < path.len(),
    ensures
        descendants(children, roots).contains(path[k]),
    decreases k,
{
    lemma_descendants(children, roots);
    let below = descendants(children, roots);
    assert(children_of(children, path[k - 1]).contains(path[k]));
    if k > 1 {
        lemma_path_is_found(children, roots, root, path, k - 1);
        assert(closed_under(children, Seq::empty(), below));
        assert(below.contains(path[k]) || Seq::<u32>::empty().contains(path[k]));
    }
}

proof fn lemma_adjoined_front(seen: Seq<u32>, more: Seq<u32>)
    ensures
        adjoined(seen, more).len() >= seen.len(),
        forall|i: int| 0 <= i < seen.len() ==> #[trigger] adjoined(seen, more)[i] == seen[i],
    decreases more.len(),
{
    if more.len() > 0 {
        lemma_adjoined_front(seen, more.drop_last());
    }
}

/// What is adjoined holds both lists and nothing else.
pub proof fn lemma_adjoined_contains(seen: Seq<u32>, more: Seq<u32>)
    ensures
        forall|x: u32| #[trigger]
            adjoined(seen, more).contains(x) <==> (seen.contains(x) || more.contains(x)),
    decreases more.len(),
{
    if more.len() > 0 {
        let front = more.drop_last();
        lemma_adjoined_contains(seen, front);
        lemma_push_contains(adjoined(seen, front), more.last());
        lemma_push_contains(front, more.last());
        assert(front.push(more.last()) =~= more);
    }
}

/// The children of a process are those whose lines name it as their parent, in the order
/// of the lines.
pub proof fn law_children_are_listed(lines: Seq<Seq<char>>, parent: u32)
    ensures
        children_of(listed_children(lines), parent) == lines.filter(
            |line: Seq<char>|
                words::words_of(line).len() >= 3 && numerals::u32_of(words::words_of(line)[0]) is Some
                    && numerals::u32_of(words::words_of(line)[1]) == Some(parent)
                    && numerals::u32_of(words::words_of(line)[2]) is Some,
        ).map_values(|line: Seq<char>| numerals::u32_of(words::words_of(line)[0])->0),
    decreases lines.len(),
{
    reveal(Seq::filter);
    let keep = |line: Seq<char>|
        words::words_of(line).len() >= 3 && numerals::u32_of(words::words_of(line)[0]) is Some
            && numerals::u32_of(words::words_of(line)[1]) == Some(parent) && numerals::u32_of(
            words::words_of(line)[2],
        ) is Some;
    let pid = |line: Seq<char>| numerals::u32_of(words::words_of(line)[0])->0;
    if lines.len() == 0 {
        assert(lines.filter(keep).map_values(pid) =~= Seq::<u32>::empty());
    } else {
        let front = lines.drop_last();
        law_children_are_listed(front, parent);
        let before = front.filter(keep);
        assert(before.push(lines.last()).map_values(pid) =~= before.map_values(pid).push(
            pid(lines.last()),
        ));
    }
}

/// The owner of a process is the one that its last line names.
pub proof fn law_owners_are_listed(lines: Seq<Seq<char>>, k: int, pid: u32, owner: u32)
    requires
        0 <= k < lines.len(),
        words::words_of(lines[k]).len() >= 3,
        numerals::u32_of(words::words_of(lines[k])[0]) == Some(pid),
        numerals::u32_of(words::words_of(lines[k])[1]) is Some,
        numerals::u32_of(words::words_of(lines[k])[2]) == Some(owner),
        forall|j: int|
            k < j < lines.len() ==> numerals::u32_of(words::words_of(#[trigger] lines[j])[0])
                != Some(pid),
    ensures
        listed_owners(lines).contains_key(pid),
        listed_owners(lines)[pid] == owner,
    decreases lines.len(),
{
    let front = lines.drop_last();
    if k < front.len() {
        assert(numerals::u32_of(words::words_of(lines[lines.len() - 1])[0]) != Some(pid));
        assert forall|j: int| k < j < front.len() implies numerals::u32_of(
            words::words_of(#[trigger] front[j])[0],
        ) != Some(pid) by {
            assert(front[j] == lines[j]);
        }
        law_owners_are_listed(front, k, pid, owner);
    }
}

/// Only processes with a line have an owner.
pub proof fn law_owners_have_lines(lines: Seq<Seq<char>>, pid: u32) -> (k: int)
    requires
        listed_owners(lines).contains_key(pid),
    ensures
        0 <= k < lines.len(),
        words::words_of(lines[k]).len() >= 3,
        numerals::u32_of(words::words_of(lines[k])[0]) == Some(pid),
        numerals::u32_of(words::words_of(lines[k])[2]) == Some(listed_owners(lines)[pid]),
    decreases lines.len(),
{
    let last = lines.len() - 1;
    match owned_process(lines.last()) {
        Some((shown, parent, owner)) if shown == pid => last,
        _ => {
            let k = law_owners_have_lines(lines.drop_last(), pid);
            assert(lines.drop_last()[k] == lines[k]);
            k
        },
    }
}

} // verus!
