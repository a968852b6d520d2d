use vstd::prelude::*;
use crate::access::MemoryAccess;

verus! {

/// The three eviction policies.
#[derive(Clone, Copy, Debug, PartialEq, Eq, Structural)]
pub enum AllocationType {
    FIFO,
    LRU,
    OPT,
}

/// The outcome of touching `page` while `frames` are resident.
pub open spec fn outcome(frames: Seq<i32>, page: i32) -> MemoryAccess {
    if frames.contains(page) {
        MemoryAccess::Hit(page)
    } else {
        MemoryAccess::Miss(page)
    }
}

/// Index of the first smallest key (0 when there is none).
pub open spec fn first_min(keys: Seq<int>) -> int
    decreases keys.len(),
{
    if keys.len() <= 1 {
        0
    } else {
        let m = first_min(keys.drop_last());
        if keys.last() < keys[m] { keys.len() - 1 } else { m }
    }
}

/// Index of the first largest key (0 when there is none).
pub open spec fn first_max(keys: Seq<int>) -> int
    decreases keys.len(),
{
    if keys.len() <= 1 {
        0
    } else {
        let m = first_max(keys.drop_last());
        if keys.last() > keys[m] { keys.len() - 1 } else { m }
    }
}

/// The slot that holds `page`: the first one, should several hold it.
pub open spec fn slot_of(frames: Seq<i32>, page: i32) -> int {
    choose|s: int|
        0 <= s < frames.len() && frames[s] == page && forall|k: int| 0 <= k < s ==> frames[k] != page
}

/// Whether `page` is accessed at some position `from` or later.
pub open spec fn used_from(trace: Seq<i32>, from: int, page: i32) -> bool {
    exists|j: int| from <= j < trace.len() && trace[j] == page
}

/// The first position at or after `from` where `page` is accessed, or the
/// trace's length when it is not accessed again.
pub open spec fn next_use(trace: Seq<i32>, from: int, page: i32) -> int {
    if used_from(trace, from, page) {
        choose|j: int|
            from <= j < trace.len() && trace[j] == page && forall|k: int|
                from <= k < j ==> trace[k] != page
    } else {
        trace.len() as int
    }
}

/// Keys of a list of step numbers, as integers.
pub open spec fn keys_of(steps: Seq<usize>) -> Seq<int> {
    steps.map_values(|x: usize| x as int)
}

/// Resident pages by slot, with the step at which each slot was filled
/// (FIFO) or last touched (LRU), after the first `n` accesses.
pub open spec fn stamped_state(kind: AllocationType, trace: Seq<i32>, cap: nat, n: nat) -> (
    Seq<i32>,
    Seq<int>,
)
    decreases n,
{
    if n == 0 {
        (Seq::empty(), Seq::empty())
    } else {
        let prev = stamped_state(kind, trace, cap, (n - 1) as nat);
        let frames = prev.0;
        let stamps = prev.1;
        let page = trace[n - 1];
        let now = n - 1;
        if frames.contains(page) {
            if kind is LRU {
                (frames, stamps.update(slot_of(frames, page), now))
            } else {
                prev
            }
        } else if frames.len() < cap {
            (frames.push(page), stamps.push(now))
        } else if cap == 0 {
            prev
        } else {
            let v = first_min(stamps);
            (frames.update(v, page), stamps.update(v, now))
        }
    }
}

/// The slot that the optimal policy frees when the access at `pos` misses:
/// the one whose page is next used furthest ahead, never-used pages counting
/// as furthest, the lowest slot winning a tie.
pub open spec fn opt_victim(frames: Seq<i32>, trace: Seq<i32>, pos: int) -> int {
    first_max(frames.map_values(|p: i32| next_use(trace, pos + 1, p)))
}

/// Resident pages by slot under the optimal policy after the first `n`
/// accesses.
pub open spec fn opt_state(trace: Seq<i32>, cap: nat, n: nat) -> Seq<i32>
    decreases n,
{
    if n == 0 {
        Seq::empty()
    } else {
        let frames = opt_state(trace, cap, (n - 1) as nat);
        let page = trace[n - 1];
        if frames.contains(page) || cap == 0 {
            frames
        } else if frames.len() < cap {
            frames.push(page)
        } else {
            frames.update(opt_victim(frames, trace, n - 1), page)
        }
    }
}

/// Resident pages by slot after the first `n` accesses under `kind`.
pub open spec fn frames_after(kind: AllocationType, trace: Seq<i32>, cap: nat, n: nat) -> Seq<
    i32,
> {
    if kind is OPT {
        opt_state(trace, cap, n)
    } else {
        stamped_state(kind, trace, cap, n).0
    }
}

/// The frame history of a run: the resident pages after each access.
pub open spec fn history_of(kind: AllocationType, trace: Seq<i32>, cap: nat) -> Seq<Seq<i32>> {
    Seq::new(trace.len(), |i: int| frames_after(kind, trace, cap, (i + 1) as nat))
}

/// The outcomes of a run, one per access.
pub open spec fn outcomes_of(kind: AllocationType, trace: Seq<i32>, cap: nat) -> Seq<
    MemoryAccess,
> {
    Seq::new(trace.len(), |i: int| outcome(frames_after(kind, trace, cap, i as nat), trace[i]))
}

/// A frame history laid out as a grid: row `j` is slot `j`, column `i` is
/// step `i`, and a cell is empty where the slot was not yet filled.
pub open spec fn grid_of(cap: nat, history: Seq<Seq<i32>>) -> Seq<Seq<Option<i32>>> {
    Seq::new(
        cap,
        |j: int|
            Seq::new(
                history.len(),
                |i: int|
                    if j < history[i].len() {
                        Some(history[i][j])
                    } else {
                        None
                    },
            ),
    )
}

} // verus!
