//! Closing Codex processes, and telling whether they stand in the way.

use vstd::prelude::*;

use crate::numerals;
use crate::pids;
use crate::process_tree;
use crate::process_tree::UnixProcessSnapshot;
use crate::text;
use crate::words;

verus! {

broadcast use vstd::std_specs::hash::group_hash_axioms;

/// How an error begins that says that Codex processes keep accounts from being
/// switched.
pub const CODEX_RUNNING_SWITCH_BLOCKED_PREFIX: &'static str = "Cannot switch accounts while ";

/// The Codex processes that run
#[derive(Debug)]
pub struct CodexProcessInfo {
    /// Number of active Codex app instances
    pub count: usize,
    /// Number of background processes, which are ignored
    pub background_count: usize,
    /// Whether accounts can be switched: no instance is active
    pub can_switch: bool,
    /// Process IDs of the active instances
    pub pids: Vec<u32>,
}

/// What came of closing the active Codex processes
#[derive(Debug)]
pub struct KillCodexProcessesResult {
    /// Number of active processes, without their descendants
    pub targeted_count: usize,
    /// Process IDs that were closed
    pub killed_pids: Vec<u32>,
    /// Process IDs that could not be closed
    pub failed_pids: Vec<u32>,
}

/// The kind of system that processes are closed on
#[derive(Debug, Clone, Copy, PartialEq, Eq, Structural)]
pub enum Platform {
    MacOs,
    OtherUnix,
    Windows,
}

/// What is told of the active processes `pids` and of the number of background processes.
pub open spec fn is_info(info: CodexProcessInfo, pids: Seq<u32>, background: usize) -> bool {
    &&& info.count == pids.len()
    &&& info.background_count == background
    &&& info.can_switch == (pids.len() == 0)
    &&& info.pids@ == pids
}

/// What the search for Codex processes has found.
pub fn check_codex_processes(found: (Vec<u32>, usize)) -> (r: CodexProcessInfo)
    ensures
        is_info(r, found.0@, found.1),
{
    let (pids, background_count) = found;
    let count: usize = pids.len();
    CodexProcessInfo { count, background_count, can_switch: count == 0, pids }
}

/// The error that names the number of active Codex processes.
pub open spec fn switch_block(count: nat) -> Seq<char> {
    CODEX_RUNNING_SWITCH_BLOCKED_PREFIX@ + numerals::decimal_of(count) + " Codex process"@ + (
    if count == 1 {
        " is"@
    } else {
        "es are"@
    }) + " running"@
}

/// Fails if Codex processes are active.
pub fn ensure_codex_not_running(pids: &Vec<u32>) -> (r: Result<(), String>)
    ensures
        r is Ok <==> pids@.len() == 0,
        r matches Err(message) ==> message@ == switch_block(pids@.len()),
{
    if pids.len() == 0 {
        return Ok(());
    }
    let number = numerals::decimal(pids.len() as u64);
    let mut message = text::joined(CODEX_RUNNING_SWITCH_BLOCKED_PREFIX, number.as_str());
    message.append(" Codex process");
    if pids.len() == 1 {
        message.append(" is");
    } else {
        message.append("es are");
    }
    message.append(" running");
    Err(message)
}

/// Whether the error says that Codex processes keep accounts from being switched.
pub fn is_codex_running_switch_block(error: &str) -> (r: bool)
    ensures
        r == text::starts_with_of(error@, CODEX_RUNNING_SWITCH_BLOCKED_PREFIX@),
{
    text::starts_with_text(error, CODEX_RUNNING_SWITCH_BLOCKED_PREFIX)
}

/// The error for active processes is known for what it is, whatever their number.
pub proof fn law_switch_block_is_recognised(count: nat)
    ensures
        text::starts_with_of(switch_block(count), CODEX_RUNNING_SWITCH_BLOCKED_PREFIX@),
{
    let prefix = CODEX_RUNNING_SWITCH_BLOCKED_PREFIX@;
    assert(switch_block(count).take(prefix.len() as int) =~= prefix);
}

// ---------------------------------------------------------------------------
// Closing processes
// ---------------------------------------------------------------------------

/// The processes to close: by this user, and with the rights of an administrator.
#[derive(Debug)]
pub struct KillPlan {
    pub targeted_count: usize,
    pub direct: Vec<u32>,
    pub admin: Vec<u32>,
}

/// The process is known to belong to another user.
pub open spec fn is_foreign(
    owners: Map<u32, u32>,
    current_uid: Option<u32>,
    pid: u32,
) -> bool {
    match current_uid {
        Some(uid) => owners.contains_key(pid) && owners[pid] != uid,
        None => false,
    }
}

/// Those of `targets` that are foreign, or those that are not.
pub open spec fn by_owner(
    targets: Seq<u32>,
    owners: Map<u32, u32>,
    current_uid: Option<u32>,
    foreign: bool,
) -> Seq<u32>
    decreases targets.len(),
{
    if targets.len() == 0 {
        Seq::empty()
    } else {
        let before = by_owner(targets.drop_last(), owners, current_uid, foreign);
        if is_foreign(owners, current_uid, targets.last()) == foreign {
            before.push(targets.last())
        } else {
            before
        }
    }
}

/// The table of owners for a snapshot that may be missing.
pub open spec fn known_owners(snapshot: Option<&UnixProcessSnapshot>) -> Map<u32, u32> {
    match snapshot {
        Some(snapshot) => snapshot.owners(),
        None => Map::empty(),
    }
}

/// All the processes to close.
pub open spec fn all_targets(
    pids: Seq<u32>,
    snapshot: Option<&UnixProcessSnapshot>,
    platform: Platform,
) -> Seq<u32> {
    if platform == Platform::Windows {
        pids
    } else {
        process_tree::targets(process_tree::known_children(snapshot), pids)
    }
}

/// The plan closes the active processes `pids`.
pub open spec fn is_kill_plan(
    plan: KillPlan,
    pids: Seq<u32>,
    snapshot: Option<&UnixProcessSnapshot>,
    current_uid: Option<u32>,
    platform: Platform,
) -> bool {
    let targets = all_targets(pids, snapshot, platform);
    &&& plan.targeted_count == pids.len()
    &&& if platform == Platform::MacOs {
        &&& plan.direct@ == by_owner(targets, known_owners(snapshot), current_uid, false)
        &&& plan.admin@ == by_owner(targets, known_owners(snapshot), current_uid, true)
    } else {
        plan.direct@ == targets && plan.admin@ == Seq::<u32>::empty()
    }
}

/// The processes to close for the active processes `pids`. On macOS those of
/// another user need the rights of an administrator; on Windows the descendants
/// are closed by the command that closes a process.
pub fn kill_codex_processes(
    pids: &Vec<u32>,
    snapshot: Option<&UnixProcessSnapshot>,
    current_uid: Option<u32>,
    platform: Platform,
) -> (r: KillPlan)
    ensures
        is_kill_plan(r, pids@, snapshot, current_uid, platform),
{
    let targeted_count: usize = pids.len();
    if platform == Platform::Windows {
        let mut direct: Vec<u32> = Vec::new();
        let mut i: usize = 0;
        while i < pids.len()
            invariant
                i <= pids@.len(),
                direct@ == pids@.take(i as int),
            decreases pids@.len() - i,
        {
            direct.push(pids[i]);
            assert(pids@.take(i + 1) =~= pids@.take(i as int).push(pids@[i as int]));
            i = i + 1;
        }
        assert(pids@.take(pids@.len() as int) =~= pids@);
        return KillPlan { targeted_count, direct, admin: Vec::new() };
    }
    let targets = process_tree::expand_process_targets(pids, snapshot);
    if platform != Platform::MacOs {
        return KillPlan { targeted_count, direct: targets, admin: Vec::new() };
    }
    let mut direct: Vec<u32> = Vec::new();
    let mut admin: Vec<u32> = Vec::new();
    let ghost owners = known_owners(snapshot);
    let mut i: usize = 0;
    while i < targets.len()
        invariant
            owners == known_owners(snapshot),
            i <= targets@.len(),
            direct@ == by_owner(targets@.take(i as int), owners, current_uid, false),
            admin@ == by_owner(targets@.take(i as int), owners, current_uid, true),
        decreases targets@.len() - i,
    {
        let pid: u32 = targets[i];
        assert(targets@.take(i + 1).drop_last() =~= targets@.take(i as int));
        let owner: Option<u32> = match snapshot {
            Some(snapshot) => match snapshot.uid_by_pid.get(&pid) {
                Some(owner) => Some(*owner),
                None => None,
            },
            None => None,
        };
        let foreign = match (owner, current_uid) {
            (Some(owner), Some(current_uid)) => owner != current_uid,
            _ => false,
        };
        assert(foreign == is_foreign(owners, current_uid, pid));
        if foreign {
            admin.push(pid);
        } else {
            direct.push(pid);
        }
        i = i + 1;
    }
    assert(targets@.take(targets@.len() as int) =~= targets@);
    KillPlan { targeted_count, direct, admin }
}

/// Those of `pids` whose flag is `wanted`.
pub open spec fn flagged(pids: Seq<u32>, flags: Seq<bool>, wanted: bool) -> Seq<u32>
    decreases pids.len(),
{
    if pids.len() == 0 {
        Seq::empty()
    } else {
        let before = flagged(pids.drop_last(), flags, wanted);
        if flags[pids.len() - 1] == wanted {
            before.push(pids.last())
        } else {
            before
        }
    }
}

fn pick(pids: &Vec<u32>, flags: &Vec<bool>, wanted: bool) -> (r: Vec<u32>)
    requires
        flags@.len() == pids@.len(),
    ensures
        r@ == flagged(pids@, flags@, wanted),
{
    let mut r: Vec<u32> = Vec::new();
    let mut i: usize = 0;
    while i < pids.len()
        invariant
            flags@.len() == pids@.len(),
            i <= pids@.len(),
            r@ == flagged(pids@.take(i as int), flags@, wanted),
        decreases pids@.len() - i,
    {
        assert(pids@.take(i + 1).drop_last() =~= pids@.take(i as int));
        if flags[i] == wanted {
            r.push(pids[i]);
        }
        i = i + 1;
    }
    assert(pids@.take(pids@.len() as int) =~= pids@);
    r
}

/// The processes that an administrator is asked to close.
pub open spec fn asked_for(direct: Seq<u32>, admin: Seq<u32>, closed: Seq<bool>) -> Seq<u32> {
    pids::in_order(admin + flagged(direct, closed, false))
}

/// The processes that are closed in the end.
pub open spec fn closed_at_last(
    direct: Seq<u32>,
    admin: Seq<u32>,
    closed: Seq<bool>,
    granted: bool,
    alive: Seq<bool>,
) -> Seq<u32> {
    let killed = flagged(direct, closed, true);
    if granted {
        process_tree::adjoined(killed, flagged(asked_for(direct, admin, closed), alive, false))
    } else {
        killed
    }
}

/// The processes that are left in the end.
pub open spec fn left_at_last(
    direct: Seq<u32>,
    admin: Seq<u32>,
    closed: Seq<bool>,
    alive: Seq<bool>,
) -> Seq<u32> {
    flagged(asked_for(direct, admin, closed), alive, true)
}

impl KillPlan {
    /// The processes that this user has closed, and those that are left, given
    /// what came of closing each of `direct`.
    pub fn record(&self, closed: &Vec<bool>) -> (r: (Vec<u32>, Vec<u32>))
        requires
            closed@.len() == self.direct@.len(),
        ensures
            r.0@ == flagged(self.direct@, closed@, true),
            r.1@ == flagged(self.direct@, closed@, false),
    {
        (pick(&self.direct, closed, true), pick(&self.direct, closed, false))
    }

    /// The processes to close with the rights of an administrator, in ascending
    /// order: those of another user and those that this user could not close.
    pub fn admin_targets(&self, failed: &Vec<u32>) -> (r: Vec<u32>)
        ensures
            r@ == pids::in_order(self.admin@ + failed@),
    {
        let mut all: Vec<u32> = Vec::new();
        let mut i: usize = 0;
        while i < self.admin.len()
            invariant
                i <= self.admin@.len(),
                all@ == self.admin@.take(i as int),
            decreases self.admin@.len() - i,
        {
            all.push(self.admin[i]);
            assert(self.admin@.take(i + 1) =~= self.admin@.take(i as int).push(
                self.admin@[i as int],
            ));
            i = i + 1;
        }
        assert(self.admin@.take(self.admin@.len() as int) =~= self.admin@);
        let mut j: usize = 0;
        assert(self.admin@ + failed@.take(0) =~= self.admin@);
        while j < failed.len()
            invariant
                j <= failed@.len(),
                all@ == self.admin@ + failed@.take(j as int),
            decreases failed@.len() - j,
        {
            all.push(failed[j]);
            assert(failed@.take(j + 1) =~= failed@.take(j as int).push(failed@[j as int]));
            j = j + 1;
            assert(all@ =~= self.admin@ + failed@.take(j as int));
        }
        assert(failed@.take(failed@.len() as int) =~= failed@);
        pids::sort_and_dedup(&all)
    }

    /// What came of it where no administrator is asked.
    pub fn finish(&self, closed: &Vec<bool>) -> (r: KillCodexProcessesResult)
        requires
            closed@.len() == self.direct@.len(),
        ensures
            r.targeted_count == self.targeted_count,
            r.killed_pids@ == flagged(self.direct@, closed@, true),
            r.failed_pids@ == flagged(self.direct@, closed@, false),
    {
        let (killed_pids, failed_pids) = self.record(closed);
        KillCodexProcessesResult { targeted_count: self.targeted_count, killed_pids, failed_pids }
    }

    /// What came of it after an administrator was asked: `granted` tells whether
    /// the request went through, `alive` which of the processes it was for still
    /// run. A process that is gone counts as closed where it went through.
    pub fn finish_with_admin(
        &self,
        closed: &Vec<bool>,
        granted: bool,
        alive: &Vec<bool>,
    ) -> (r: KillCodexProcessesResult)
        requires
            closed@.len() == self.direct@.len(),
            alive@.len() == asked_for(self.direct@, self.admin@, closed@).len(),
        ensures
            r.targeted_count == self.targeted_count,
            r.killed_pids@ == closed_at_last(self.direct@, self.admin@, closed@, granted, alive@),
            r.failed_pids@ == left_at_last(self.direct@, self.admin@, closed@, alive@),
    {
        let (mut killed_pids, failed) = self.record(closed);
        let asked = self.admin_targets(&failed);
        let failed_pids = pick(&asked, alive, true);
        if granted {
            let gone = pick(&asked, alive, false);
            let ghost killed = killed_pids@;
            let mut i: usize = 0;
            assert(gone@.take(0) =~= Seq::<u32>::empty());
            while i < gone.len()
                invariant
                    i <= gone@.len(),
                    killed_pids@ == process_tree::adjoined(killed, gone@.take(i as int)),
                decreases gone@.len() - i,
            {
                assert(gone@.take(i + 1).drop_last() =~= gone@.take(i as int));
                if !pids::holds(&killed_pids, gone[i]) {
                    killed_pids.push(gone[i]);
                }
                i = i + 1;
            }
            assert(gone@.take(gone@.len() as int) =~= gone@);
        }
        KillCodexProcessesResult { targeted_count: self.targeted_count, killed_pids, failed_pids }
    }
}

proof fn lemma_flagged(pids: Seq<u32>, flags: Seq<bool>)
    requires
        pids.no_duplicates(),
    ensures
        forall|x: u32| #[trigger]
            pids.contains(x) <==> (flagged(pids, flags, true).contains(x) || flagged(
                pids,
                flags,
                false,
            ).contains(x)),
        forall|x: u32|
            !(#[trigger] flagged(pids, flags, true).contains(x) && flagged(
                pids,
                flags,
                false,
            ).contains(x)),
        flagged(pids, flags, true).no_duplicates(),
        flagged(pids, flags, false).no_duplicates(),
    decreases pids.len(),
{
    if pids.len() > 0 {
        let front = pids.drop_last();
        assert(front.push(pids.last()) =~= pids);
        assert(front.no_duplicates());
        assert(!front.contains(pids.last())) by {
            if front.contains(pids.last()) {
                let k = choose|k: int| 0 <= k < front.len() && front[k] == pids.last();
                assert(pids[k] == pids[pids.len() - 1]);
            }
        }
        lemma_flagged(front, flags);
        process_tree::lemma_push_contains(front, pids.last());
        process_tree::lemma_push_contains(flagged(front, flags, true), pids.last());
        process_tree::lemma_push_contains(flagged(front, flags, false), pids.last());
    }
}

proof fn lemma_by_owner(targets: Seq<u32>, owners: Map<u32, u32>, current_uid: Option<u32>)
    ensures
        ({
            let own = by_owner(targets, owners, current_uid, false);
            let foreign = by_owner(targets, owners, current_uid, true);
            &&& forall|x: u32| #[trigger]
                targets.contains(x) <==> (own.contains(x) || foreign.contains(x))
            &&& forall|x: u32| #[trigger] own.contains(x) ==> !is_foreign(owners, current_uid, x)
            &&& forall|x: u32| #[trigger] foreign.contains(x) ==> is_foreign(owners, current_uid, x)
        }),
    decreases targets.len(),
{
    if targets.len() > 0 {
        let front = targets.drop_last();
        let last = targets.last();
        assert(front.push(last) =~= targets);
        lemma_by_owner(front, owners, current_uid);
        process_tree::lemma_push_contains(front, last);
        process_tree::lemma_push_contains(by_owner(front, owners, current_uid, false), last);
        process_tree::lemma_push_contains(by_owner(front, owners, current_uid, true), last);
    }
}

/// The plan splits the processes to close: each of them is closed by this user or
/// with the rights of an administrator, none in both ways, and no other process
/// is closed.
pub proof fn law_plan_splits_targets(
    targets: Seq<u32>,
    owners: Map<u32, u32>,
    current_uid: Option<u32>,
)
    ensures
        forall|x: u32| #[trigger]
            targets.contains(x) <==> (by_owner(targets, owners, current_uid, false).contains(x)
                || by_owner(targets, owners, current_uid, true).contains(x)),
        forall|x: u32|
            !(#[trigger] by_owner(targets, owners, current_uid, false).contains(x) && by_owner(
                targets,
                owners,
                current_uid,
                true,
            ).contains(x)),
{
    lemma_by_owner(targets, owners, current_uid);
}

/// No process is reported both as closed and as left, and only processes of the
/// plan are reported at all. Where the administrator agreed, every process of the
/// plan is reported.
pub proof fn law_kill_report(
    direct: Seq<u32>,
    admin: Seq<u32>,
    closed: Seq<bool>,
    granted: bool,
    alive: Seq<bool>,
)
    requires
        direct.no_duplicates(),
        forall|x: u32| !(#[trigger] direct.contains(x) && admin.contains(x)),
    ensures
        forall|x: u32|
            !(#[trigger] closed_at_last(direct, admin, closed, granted, alive).contains(x)
                && left_at_last(direct, admin, closed, alive).contains(x)),
        forall|x: u32| #[trigger]
            closed_at_last(direct, admin, closed, granted, alive).contains(x)
                ==> direct.contains(x) || admin.contains(x),
        forall|x: u32| #[trigger]
            left_at_last(direct, admin, closed, alive).contains(x) ==> direct.contains(x)
                || admin.contains(x),
        granted ==> forall|x: u32|
            #![trigger direct.contains(x)]
            #![trigger admin.contains(x)]
            direct.contains(x) || admin.contains(x) ==> closed_at_last(
                direct,
                admin,
                closed,
                granted,
                alive,
            ).contains(x) || left_at_last(direct, admin, closed, alive).contains(x),
{
    let killed = flagged(direct, closed, true);
    let failed = flagged(direct, closed, false);
    let asked = pids::in_order(admin + failed);
    lemma_flagged(direct, closed);
    pids::law_in_order(admin + failed);
    process_tree::lemma_add_contains(admin, failed);
    lemma_flagged(asked, alive);
    process_tree::lemma_adjoined(killed, flagged(asked, alive, false));
    let left = flagged(asked, alive, true);
    let gone = flagged(asked, alive, false);
    let done = closed_at_last(direct, admin, closed, granted, alive);
    assert forall|x: u32| true implies {
        &&& left.contains(x) || gone.contains(x) <==> admin.contains(x) || failed.contains(x)
        &&& done.contains(x) <==> killed.contains(x) || (granted && gone.contains(x))
        &&& killed.contains(x) || failed.contains(x) <==> direct.contains(x)
    } by {
        assert(asked.contains(x) <==> (admin + failed).contains(x));
        assert(process_tree::adjoined(killed, gone).contains(x) <==> (killed.contains(x)
            || gone.contains(x)));
    }
}

// ---------------------------------------------------------------------------
// Commands and their output
// ---------------------------------------------------------------------------

/// The AppleScript that closes processes with the rights of an administrator, or
/// `None` where there are none to close.
pub open spec fn admin_script_of(pids: Seq<u32>) -> Option<Seq<char>> {
    if pids.len() == 0 {
        None
    } else {
        Some(
            "do shell script \"for pid in "@ + words::join_of(
                pids.map_values(|pid: u32| numerals::decimal_of(pid as nat)),
                " "@,
            )
                + "; do /bin/kill -9 \\\"$pid\\\" 2>/dev/null || true; done\" with administrator privileges with prompt \"Codex Switcher needs permission to force close sudo/root Codex processes.\""@,
        )
    }
}

/// The AppleScript that closes processes with the rights of an administrator.
pub fn admin_script(pids: &Vec<u32>) -> (r: Option<String>)
    ensures
        text::opt_text(r) == admin_script_of(pids@),
{
    if pids.len() == 0 {
        return None;
    }
    let ghost all = pids@.map_values(|pid: u32| numerals::decimal_of(pid as nat));
    let mut numbers: Vec<String> = Vec::new();
    let mut i: usize = 0;
    assert(text::texts(numbers@) =~= all.take(0));
    while i < pids.len()
        invariant
            all == pids@.map_values(|pid: u32| numerals::decimal_of(pid as nat)),
            i <= pids@.len(),
            text::texts(numbers@) == all.take(i as int),
        decreases pids@.len() - i,
    {
        let number = numerals::decimal(pids[i] as u64);
        proof {
            words::lemma_texts_push(numbers@, number);
            assert(all.take(i + 1) =~= all.take(i as int).push(all[i as int]));
        }
        numbers.push(number);
        i = i + 1;
    }
    assert(all.take(all.len() as int) =~= all);
    let list = words::join(&numbers, " ");
    let mut script = text::joined("do shell script \"for pid in ", list.as_str());
    script.append(
        "; do /bin/kill -9 \\\"$pid\\\" 2>/dev/null || true; done\" with administrator privileges with prompt \"Codex Switcher needs permission to force close sudo/root Codex processes.\"",
    );
    Some(script)
}

/// The user identifier in the output of `id -u`.
pub fn current_unix_uid(output: &str) -> (r: Option<u32>)
    ensures
        r == numerals::u32_of(text::trim_of(output@)),
{
    let trimmed = text::trim(output);
    numerals::parse_u32(trimmed.as_str())
}

/// Whether the output of `ps -p <pid> -o pid=` shows the process.
pub fn unix_process_exists(output: &str, pid: u32) -> (r: bool)
    ensures
        r == words::words_of(output@).contains(numerals::decimal_of(pid as nat)),
{
    let number = numerals::decimal(pid as u64);
    let shown = words::words(output);
    let ghost all = words::words_of(output@);
    let mut i: usize = 0;
    while i < shown.len()
        invariant
            all == words::words_of(output@),
            text::texts(shown@) == all,
            i <= shown@.len(),
            number@ == numerals::decimal_of(pid as nat),
            forall|k: int| 0 <= k < i ==> all[k] != number@,
        decreases shown@.len() - i,
    {
        assert(shown@[i as int]@ == all[i as int]);
        if text::same(shown[i].as_str(), number.as_str()) {
            assert(all[i as int] == number@);
            return true;
        }
        i = i + 1;
    }
    false
}

/// Whether the output of `tasklist` shows the process.
pub fn windows_process_exists(output: &str, pid: u32) -> (r: bool)
    ensures
        r == text::has_part(output@, numerals::decimal_of(pid as nat)),
{
    let number = numerals::decimal(pid as u64);
    text::contains_text(output, number.as_str())
}

// ---------------------------------------------------------------------------
// Laws
// ---------------------------------------------------------------------------

/// Accounts can be switched exactly while no Codex process is active, however many run in
/// the background.
pub proof fn law_only_active_processes_block(
    info: CodexProcessInfo,
    pids: Seq<u32>,
    background: usize,
)
    requires
        is_info(info, pids, background),
    ensures
        info.can_switch <==> forall|pid: u32| !pids.contains(pid),
        info.pids@ == pids,
        info.count == info.pids@.len(),
        info.background_count == background,
{
    if pids.len() > 0 {
        assert(pids.contains(pids[0]));
    }
}

/// The error that blocks a switch says how many processes are active.
pub proof fn law_switch_block_says_how_many(count: nat)
    ensures
        text::starts_with_of(
            switch_block(count),
            "Cannot switch accounts while "@ + numerals::decimal_of(count) + " Codex process"@,
        ),
        count == 1 ==> text::ends_with_of(switch_block(count), " Codex process is running"@),
        count != 1 ==> text::ends_with_of(switch_block(count), " Codex processes are running"@),
{
    let whole = switch_block(count);
    let front = "Cannot switch accounts while "@ + numerals::decimal_of(count) + " Codex process"@;
    assert(whole.subrange(0, front.len() as int) =~= front);
    reveal_strlit(" Codex process");
    reveal_strlit(" is");
    reveal_strlit("es are");
    reveal_strlit(" running");
    reveal_strlit(" Codex process is running");
    reveal_strlit(" Codex processes are running");
    if count == 1 {
        let end = " Codex process is running"@;
        assert(" Codex process"@ + " is"@ + " running"@ =~= end);
        assert(whole.subrange(whole.len() - end.len(), whole.len() as int) =~= end);
    } else {
        let end = " Codex processes are running"@;
        assert(" Codex process"@ + "es are"@ + " running"@ =~= end);
        assert(whole.subrange(whole.len() - end.len(), whole.len() as int) =~= end);
    }
}

proof fn lemma_by_owner_filters(
    targets: Seq<u32>,
    owners: Map<u32, u32>,
    current_uid: Option<u32>,
    foreign: bool,
)
    ensures
        by_owner(targets, owners, current_uid, foreign) == targets.filter(
            |pid: u32|
                foreign == (current_uid is Some && owners.contains_key(pid) && owners[pid]
                    != current_uid->0),
        ),
    decreases targets.len(),
{
    reveal(Seq::filter);
    if targets.len() > 0 {
        lemma_by_owner_filters(targets.drop_last(), owners, current_uid, foreign);
    }
}

/// On macOS, processes that are known to belong to another user are closed with the rights
/// of an administrator, and all others directly, in the order of the processes to close.
/// Elsewhere all are closed directly.
pub proof fn law_foreign_processes_need_an_administrator(
    plan: KillPlan,
    pids: Seq<u32>,
    snapshot: Option<&UnixProcessSnapshot>,
    current_uid: Option<u32>,
    platform: Platform,
)
    requires
        is_kill_plan(plan, pids, snapshot, current_uid, platform),
    ensures
        plan.targeted_count == pids.len(),
        platform == Platform::Windows ==> plan.direct@ == pids && plan.admin@.len() == 0,
        platform == Platform::OtherUnix ==> plan.direct@ == process_tree::targets(
            process_tree::known_children(snapshot),
            pids,
        ) && plan.admin@.len() == 0,
        platform == Platform::MacOs ==> {
            let targets = process_tree::targets(process_tree::known_children(snapshot), pids);
            let owners = match snapshot {
                Some(snapshot) => snapshot.uid_by_pid@,
                None => Map::empty(),
            };
            &&& plan.admin@ == targets.filter(
                |pid: u32|
                    true == (current_uid is Some && owners.contains_key(pid) && owners[pid]
                        != current_uid->0),
            )
            &&& plan.direct@ == targets.filter(
                |pid: u32|
                    false == (current_uid is Some && owners.contains_key(pid) && owners[pid]
                        != current_uid->0),
            )
        },
{
    let targets = process_tree::targets(process_tree::known_children(snapshot), pids);
    lemma_by_owner_filters(targets, known_owners(snapshot), current_uid, true);
    lemma_by_owner_filters(targets, known_owners(snapshot), current_uid, false);
}

/// Every active process is in the plan, on every system.
pub proof fn law_every_active_process_is_closed(
    plan: KillPlan,
    pids: Seq<u32>,
    snapshot: Option<&UnixProcessSnapshot>,
    current_uid: Option<u32>,
    platform: Platform,
    pid: u32,
)
    requires
        is_kill_plan(plan, pids, snapshot, current_uid, platform),
        pids.contains(pid),
    ensures
        plan.direct@.contains(pid) || plan.admin@.contains(pid),
{
    let targets = process_tree::targets(process_tree::known_children(snapshot), pids);
    process_tree::law_targets(process_tree::known_children(snapshot), pids);
    law_plan_splits_targets(targets, known_owners(snapshot), current_uid);
    assert(targets.contains(pid));
}

/// Those of the processes whose flag is as wanted are picked, in their order.
pub proof fn law_processes_are_picked_by_flag(pids: Seq<u32>, flags: Seq<bool>, wanted: bool)
    ensures
        flagged(pids, flags, wanted) == Seq::new(
            pids.len(),
            |i: int| (pids[i], flags[i]),
        ).filter(|pair: (u32, bool)| pair.1 == wanted).map_values(|pair: (u32, bool)| pair.0),
    decreases pids.len(),
{
    reveal(Seq::filter);
    let pairs = Seq::new(pids.len(), |i: int| (pids[i], flags[i]));
    let keep = |pair: (u32, bool)| pair.1 == wanted;
    let first = |pair: (u32, bool)| pair.0;
    if pids.len() == 0 {
        assert(pairs.filter(keep).map_values(first) =~= Seq::<u32>::empty());
    } else {
        let front = pids.drop_last();
        law_processes_are_picked_by_flag(front, flags, wanted);
        let front_pairs = Seq::new(front.len(), |i: int| (front[i], flags[i]));
        assert(pairs.drop_last() =~= front_pairs);
        assert(pairs.last() == (pids.last(), flags[pids.len() - 1]));
        let before = front_pairs.filter(keep);
        assert(before.push(pairs.last()).map_values(first) =~= before.map_values(first).push(
            pids.last(),
        ));
    }
}

proof fn lemma_flagged_at(pids: Seq<u32>, flags: Seq<bool>, wanted: bool, i: int)
    requires
        0 <= i < pids.len(),
        flags[i] == wanted,
    ensures
        flagged(pids, flags, wanted).contains(pids[i]),
    decreases pids.len(),
{
    let front = pids.drop_last();
    let before = flagged(front, flags, wanted);
    if i < front.len() {
        lemma_flagged_at(front, flags, wanted, i);
        let k = choose|k: int| 0 <= k < before.len() && before[k] == pids[i];
        assert(before.push(pids.last())[k] == pids[i]);
    } else {
        assert(before.push(pids.last()).last() == pids[i]);
    }
}

/// A process that this user has closed is reported as closed. One that an administrator
/// was to close is reported as left where it still runs, and as closed where it is gone
/// and the administrator had agreed; without that, nothing more is reported as closed.
pub proof fn law_report_follows_the_outcome(
    direct: Seq<u32>,
    admin: Seq<u32>,
    closed: Seq<bool>,
    granted: bool,
    alive: Seq<bool>,
)
    ensures
        forall|i: int|
            0 <= i < direct.len() && closed[i] ==> closed_at_last(
                direct,
                admin,
                closed,
                granted,
                alive,
            ).contains(#[trigger] direct[i]),
        forall|i: int|
            0 <= i < direct.len() && !closed[i] ==> asked_for(direct, admin, closed).contains(
                #[trigger] direct[i],
            ),
        forall|i: int|
            0 <= i < admin.len() ==> asked_for(direct, admin, closed).contains(
                #[trigger] admin[i],
            ),
        forall|i: int|
            0 <= i < asked_for(direct, admin, closed).len() && alive[i] ==> left_at_last(
                direct,
                admin,
                closed,
                alive,
            ).contains(#[trigger] asked_for(direct, admin, closed)[i]),
        granted ==> forall|i: int|
            0 <= i < asked_for(direct, admin, closed).len() && !alive[i] ==> closed_at_last(
                direct,
                admin,
                closed,
                granted,
                alive,
            ).contains(#[trigger] asked_for(direct, admin, closed)[i]),
        !granted ==> closed_at_last(direct, admin, closed, granted, alive) == flagged(
            direct,
            closed,
            true,
        ),
{
    let asked = asked_for(direct, admin, closed);
    let killed = flagged(direct, closed, true);
    let failed = flagged(direct, closed, false);
    let gone = flagged(asked, alive, false);
    pids::law_in_order(admin + failed);
    process_tree::lemma_add_contains(admin, failed);
    process_tree::lemma_adjoined_contains(killed, gone);
    assert forall|i: int| 0 <= i < direct.len() && closed[i] implies closed_at_last(
        direct,
        admin,
        closed,
        granted,
        alive,
    ).contains(#[trigger] direct[i]) by {
        lemma_flagged_at(direct, closed, true, i);
    }
    assert forall|i: int| 0 <= i < direct.len() && !closed[i] implies asked.contains(
        #[trigger] direct[i],
    ) by {
        lemma_flagged_at(direct, closed, false, i);
        assert((admin + failed).contains(direct[i]));
    }
    assert forall|i: int| 0 <= i < admin.len() implies asked.contains(#[trigger] admin[i]) by {
        assert(admin.contains(admin[i]));
        assert((admin + failed).contains(admin[i]));
    }
    assert forall|i: int| 0 <= i < asked.len() && alive[i] implies left_at_last(
        direct,
        admin,
        closed,
        alive,
    ).contains(#[trigger] asked[i]) by {
        lemma_flagged_at(asked, alive, true, i);
    }
    if granted {
        assert forall|i: int| 0 <= i < asked.len() && !alive[i] implies closed_at_last(
            direct,
            admin,
            closed,
            granted,
            alive,
        ).contains(#[trigger] asked[i]) by {
            lemma_flagged_at(asked, alive, false, i);
        }
    }
}

/// The script for an administrator names every process that it is to close; there is none
/// where there is nothing to close.
pub proof fn law_script_names_every_process(pids: Seq<u32>, i: int)
    ensures
        admin_script_of(pids) is None <==> pids.len() == 0,
        0 <= i < pids.len() ==> (admin_script_of(pids) matches Some(script) && text::has_part(
            script,
            numerals::decimal_of(pids[i] as nat),
        )),
{
    if 0 <= i < pids.len() {
        let numbers = pids.map_values(|pid: u32| numerals::decimal_of(pid as nat));
        let list = words::join_of(numbers, " "@);
        words::lemma_pieces_are_parts(numbers, " "@, i);
        let script = admin_script_of(pids)->0;
        let n = "do shell script \"for pid in "@.len() as int;
        assert(script.subrange(n, n + list.len()) =~= list);
        assert(text::occurs_at(script, list, n));
        text::lemma_part_of_part(script, list, numbers[i]);
    }
}

} // verus!
