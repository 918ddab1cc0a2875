//! Process identifiers in ascending order.

use vstd::prelude::*;

verus! {

/// Each process identifier is greater than those before it.
pub open spec fn ascending(pids: Seq<u32>) -> bool {
    forall|i: int, j: int| 0 <= i < j < pids.len() ==> pids[i] < pids[j]
}

/// `pids`, which is ascending, with `pid` in its place.
pub open spec fn placed(pids: Seq<u32>, pid: u32) -> Seq<u32>
    decreases pids.len(),
{
    if pids.len() == 0 || pids.last() < pid {
        pids.push(pid)
    } else if pids.last() == pid {
        pids
    } else {
        placed(pids.drop_last(), pid).push(pids.last())
    }
}

/// The process identifiers of `pids` in ascending order, each of them once.
pub open spec fn in_order(pids: Seq<u32>) -> Seq<u32>
    decreases pids.len(),
{
    if pids.len() == 0 {
        Seq::empty()
    } else {
        placed(in_order(pids.drop_last()), pids.last())
    }
}

proof fn lemma_placed(pids: Seq<u32>, pid: u32)
    requires
        ascending(pids),
    ensures
        ascending(placed(pids, pid)),
        forall|x: u32| #[trigger] placed(pids, pid).contains(x) <==> (pids.contains(x) || x == pid),
        placed(pids, pid).len() > 0,
    decreases pids.len(),
{
    let r = placed(pids, pid);
    if pids.len() == 0 || pids.last() < pid {
        assert(r.last() == pid);
        assert forall|x: u32| pids.contains(x) implies r.contains(x) by {
            let i = choose|i: int| 0 <= i < pids.len() && pids[i] == x;
            assert(r[i] == x);
        }
        assert(r[pids.len() as int] == pid);
    } else if pids.last() == pid {
        assert(pids[pids.len() - 1] == pid);
    } else {
        let front = pids.drop_last();
        lemma_placed(front, pid);
        let p = placed(front, pid);
        assert forall|i: int| 0 <= i < p.len() implies p[i] < pids.last() by {
            assert(p.contains(p[i]));
            if front.contains(p[i]) {
                let k = choose|k: int| 0 <= k < front.len() && front[k] == p[i];
                assert(pids[k] == p[i]);
            }
        }
        assert forall|x: u32| r.contains(x) <==> (pids.contains(x) || x == pid) by {
            if r.contains(x) {
                let i = choose|i: int| 0 <= i < r.len() && r[i] == x;
                if i < p.len() {
                    assert(p.contains(x));
                    if front.contains(x) {
                        let k = choose|k: int| 0 <= k < front.len() && front[k] == x;
                        assert(pids[k] == x);
                    }
                } else {
                    assert(pids[pids.len() - 1] == x);
                }
            }
            if pids.contains(x) {
                let i = choose|i: int| 0 <= i < pids.len() && pids[i] == x;
                if i < front.len() {
                    assert(front[i] == x);
                    assert(p.contains(x));
                    let k = choose|k: int| 0 <= k < p.len() && p[k] == x;
                    assert(r[k] == x);
                } else {
                    assert(r.last() == x);
                    assert(r[r.len() - 1] == x);
                }
            }
            if x == pid {
                assert(p.contains(x));
                let k = choose|k: int| 0 <= k < p.len() && p[k] == x;
                assert(r[k] == x);
            }
        }
    }
}

/// Putting process identifiers in order keeps all of them and adds none, and the
/// result is ascending, so that none occurs twice.
pub proof fn law_in_order(pids: Seq<u32>)
    ensures
        ascending(in_order(pids)),
        in_order(pids).no_duplicates(),
        forall|x: u32| #[trigger] in_order(pids).contains(x) <==> pids.contains(x),
    decreases pids.len(),
{
    if pids.len() > 0 {
        law_in_order(pids.drop_last());
        lemma_placed(in_order(pids.drop_last()), pids.last());
        assert forall|x: u32| in_order(pids).contains(x) <==> pids.contains(x) by {
            if pids.contains(x) {
                let i = choose|i: int| 0 <= i < pids.len() && pids[i] == x;
                if i < pids.len() - 1 {
                    assert(pids.drop_last()[i] == x);
                }
            }
            if pids.drop_last().contains(x) {
                let i = choose|i: int|
                    0 <= i < pids.drop_last().len() && pids.drop_last()[i] == x;
                assert(pids[i] == x);
            }
            if x == pids.last() {
                assert(pids[pids.len() - 1] == x);
            }
        }
    }
}

/// Where a new process identifier goes in an ascending list.
proof fn lemma_placed_at(pids: Seq<u32>, pid: u32, at: int)
    requires
        ascending(pids),
        0 <= at <= pids.len(),
        forall|i: int| at <= i < pids.len() ==> pid < pids[i],
        at > 0 ==> pids[at - 1] <= pid,
    ensures
        at > 0 && pids[at - 1] == pid ==> placed(pids, pid) == pids,
        at == 0 || pids[at - 1] < pid ==> placed(pids, pid) == pids.insert(at, pid),
    decreases pids.len(),
{
    if at == pids.len() {
        if at == 0 || pids[at - 1] < pid {
            assert(pids.insert(at, pid) =~= pids.push(pid));
        }
    } else {
        let front = pids.drop_last();
        lemma_placed_at(front, pid, at);
        assert(front.push(pids.last()) =~= pids);
        if at == 0 || pids[at - 1] < pid {
            assert(front.insert(at, pid).push(pids.last()) =~= pids.insert(at, pid));
        }
    }
}

/// The process identifiers of `pids` in ascending order, each of them once.
pub fn sort_and_dedup(pids: &Vec<u32>) -> (r: Vec<u32>)
    ensures
        r@ == in_order(pids@),
{
    let mut r: Vec<u32> = Vec::new();
    let mut i: usize = 0;
    assert(pids@.take(0) =~= Seq::<u32>::empty());
    while i < pids.len()
        invariant
            i <= pids@.len(),
            r@ == in_order(pids@.take(i as int)),
        decreases pids@.len() - i,
    {
        let pid: u32 = pids[i];
        let ghost before = r@;
        proof {
            law_in_order(pids@.take(i as int));
            assert(pids@.take(i + 1).drop_last() =~= pids@.take(i as int));
        }
        let mut at: usize = r.len();
        while at > 0 && r[at - 1] > pid
            invariant
                at <= r@.len(),
                r@ == before,
                ascending(before),
                forall|k: int| at <= k < before.len() ==> pid < before[k],
            decreases at,
        {
            at = at - 1;
        }
        proof {
            lemma_placed_at(before, pid, at as int);
        }
        if at == 0 || r[at - 1] < pid {
            r.insert(at, pid);
        }
        i = i + 1;
    }
    assert(pids@.take(pids@.len() as int) =~= pids@);
    r
}

/// Whether `pid` is one of `pids`.
pub fn holds(pids: &Vec<u32>, pid: u32) -> (r: bool)
    ensures
        r == pids@.contains(pid),
{
    let mut i: usize = 0;
    while i < pids.len()
        invariant
            i <= pids@.len(),
            forall|k: int| 0 <= k < i ==> pids@[k] != pid,
        decreases pids@.len() - i,
    {
        if pids[i] == pid {
            assert(pids@[i as int] == pid);
            return true;
        }
        i = i + 1;
    }
    false
}

} // verus!
