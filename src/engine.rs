use vstd::prelude::*;
use crate::access::MemoryAccess;
use crate::model::{
    first_max, first_min, frames_after, grid_of, keys_of, next_use, opt_state, opt_victim, outcome, slot_of,
    stamped_state,
    used_from, AllocationType,
};

verus! {

/// The first slot holding `page`, or `None` when it is not resident.
pub fn find_slot(frames: &Vec<i32>, page: i32) -> (r: Option<usize>)
    ensures
        match r {
            Some(s) => frames@.contains(page) && s == slot_of(frames@, page) && s
                < frames@.len(),
            None => !frames@.contains(page),
        },
{
    let mut s: usize = 0;
    while s < frames.len()
        invariant
            s <= frames@.len(),
            forall|k: int| 0 <= k < s ==> frames@[k] != page,
        decreases frames@.len() - s,
    {
        if frames[s] == page {
            proof {
                let c = slot_of(frames@, page);
                assert(0 <= s < frames@.len() && frames@[s as int] == page && forall|k: int|
                    0 <= k < s ==> frames@[k] != page);
                assert(c == s);
            }
            return Some(s);
        }
        s = s + 1;
    }
    None
}

/// The slot whose step is smallest, the first one on a tie.
pub fn first_min_slot(keys: &Vec<usize>) -> (r: usize)
    requires
        keys@.len() > 0,
    ensures
        r == first_min(keys_of(keys@)),
        r < keys@.len(),
{
    let mut best: usize = 0;
    let mut j: usize = 1;
    proof {
        assert(keys_of(keys@.take(1)).len() == 1);
    }
    while j < keys.len()
        invariant
            1 <= j <= keys@.len(),
            best < j,
            best == first_min(keys_of(keys@.take(j as int))),
        decreases keys@.len() - j,
    {
        proof {
            assert(keys_of(keys@.take(j + 1)).drop_last() =~= keys_of(keys@.take(j as int)));
        }
        if keys[j] < keys[best] {
            best = j;
        }
        j = j + 1;
    }
    assert(keys@.take(j as int) =~= keys@);
    best
}

/// The slot whose key is largest, the first one on a tie.
pub fn first_max_slot(keys: &Vec<usize>) -> (r: usize)
    requires
        keys@.len() > 0,
    ensures
        r == first_max(keys_of(keys@)),
        r < keys@.len(),
{
    let mut best: usize = 0;
    let mut j: usize = 1;
    proof {
        assert(keys_of(keys@.take(1)).len() == 1);
    }
    while j < keys.len()
        invariant
            1 <= j <= keys@.len(),
            best < j,
            best == first_max(keys_of(keys@.take(j as int))),
        decreases keys@.len() - j,
    {
        proof {
            assert(keys_of(keys@.take(j + 1)).drop_last() =~= keys_of(keys@.take(j as int)));
        }
        if keys[j] > keys[best] {
            best = j;
        }
        j = j + 1;
    }
    assert(keys@.take(j as int) =~= keys@);
    best
}

/// The first position at or after `from` where `page` is accessed, or the
/// trace's length.
pub fn next_use_from(trace: &Vec<i32>, from: usize, page: i32) -> (r: usize)
    requires
        from <= trace@.len(),
    ensures
        r == next_use(trace@, from as int, page),
{
    let mut j: usize = from;
    while j < trace.len()
        invariant
            from <= j <= trace@.len(),
            forall|k: int| from <= k < j ==> trace@[k] != page,
        decreases trace@.len() - j,
    {
        if trace[j] == page {
            proof {
                assert(used_from(trace@, from as int, page));
                let c = next_use(trace@, from as int, page);
                assert(from <= j < trace@.len() && trace@[j as int] == page && forall|k: int|
                    from <= k < j ==> trace@[k] != page);
                assert(c == j);
            }
            return j;
        }
        j = j + 1;
    }
    assert(!used_from(trace@, from as int, page));
    j
}

/// Runs a FIFO or LRU simulation: the outcome of each access, and the
/// resident pages after each access.
pub fn run_stamped(kind: AllocationType, cap: usize, trace: &Vec<i32>) -> (r: (
    Vec<MemoryAccess>,
    Vec<Vec<i32>>,
))
    requires
        !(kind is OPT),
    ensures
        r.0@.len() == trace@.len(),
        r.1@.len() == trace@.len(),
        forall|k: int|
            0 <= k < trace@.len() ==> r.0@[k] == outcome(
                frames_after(kind, trace@, cap as nat, k as nat),
                trace@[k],
            ),
        forall|k: int|
            0 <= k < trace@.len() ==> (#[trigger] r.1@[k])@ == frames_after(
                kind,
                trace@,
                cap as nat,
                (k + 1) as nat,
            ),
{
    let mut out: Vec<MemoryAccess> = Vec::new();
    let mut history: Vec<Vec<i32>> = Vec::new();
    let mut frames: Vec<i32> = Vec::new();
    let mut stamps: Vec<usize> = Vec::new();
    let mut i: usize = 0;
    proof {
        assert(keys_of(stamps@) =~= Seq::<int>::empty());
    }
    while i < trace.len()
        invariant
            i <= trace@.len(),
            !(kind is OPT),
            frames@ == stamped_state(kind, trace@, cap as nat, i as nat).0,
            keys_of(stamps@) == stamped_state(kind, trace@, cap as nat, i as nat).1,
            stamps@.len() == frames@.len(),
            out@.len() == i,
            history@.len() == i,
            forall|k: int|
                0 <= k < i ==> out@[k] == outcome(
                    frames_after(kind, trace@, cap as nat, k as nat),
                    trace@[k],
                ),
            forall|k: int|
                0 <= k < i ==> (#[trigger] history@[k])@ == frames_after(
                    kind,
                    trace@,
                    cap as nat,
                    (k + 1) as nat,
                ),
        decreases trace@.len() - i,
    {
        let page = trace[i];
        let ghost before = stamps@;
        match find_slot(&frames, page) {
            Some(s) => {
                if kind == AllocationType::LRU {
                    stamps.set(s, i);
                    proof {
                        assert(keys_of(stamps@) =~= keys_of(before).update(s as int, i as int));
                    }
                }
                out.push(MemoryAccess::Hit(page));
            },
            None => {
                if frames.len() < cap {
                    frames.push(page);
                    stamps.push(i);
                    proof {
                        assert(keys_of(stamps@) =~= keys_of(before).push(i as int));
                    }
                } else if cap > 0 {
                    let v = first_min_slot(&stamps);
                    frames.set(v, page);
                    stamps.set(v, i);
                    proof {
                        assert(keys_of(stamps@) =~= keys_of(before).update(v as int, i as int));
                    }
                }
                out.push(MemoryAccess::Miss(page));
            },
        }
        history.push(frames.clone());
        i = i + 1;
    }
    (out, history)
}

} // verus!

verus! {

/// The slot that the optimal policy frees when the access at `pos` misses.
pub fn opt_victim_slot(frames: &Vec<i32>, trace: &Vec<i32>, pos: usize) -> (r: usize)
    requires
        frames@.len() > 0,
        pos < trace@.len(),
    ensures
        r == opt_victim(frames@, trace@, pos as int),
        r < frames@.len(),
{
    assert(pos + 1 <= trace.len());
    let from: usize = pos + 1;
    let mut keys: Vec<usize> = Vec::new();
    let mut s: usize = 0;
    while s < frames.len()
        invariant
            s <= frames@.len(),
            from == pos + 1 <= trace@.len(),
            keys@.len() == s,
            forall|k: int|
                0 <= k < s ==> keys@[k] as int == next_use(trace@, pos + 1, frames@[k]),
        decreases frames@.len() - s,
    {
        let u = next_use_from(trace, from, frames[s]);
        keys.push(u);
        s = s + 1;
    }
    assert(keys_of(keys@) =~= frames@.map_values(|p: i32| next_use(trace@, pos + 1, p)));
    first_max_slot(&keys)
}

/// Runs the optimal policy: the outcome of each access, and the resident
/// pages after each access.
pub fn run_opt(cap: usize, trace: &Vec<i32>) -> (r: (Vec<MemoryAccess>, Vec<Vec<i32>>))
    ensures
        r.0@.len() == trace@.len(),
        r.1@.len() == trace@.len(),
        forall|k: int|
            0 <= k < trace@.len() ==> r.0@[k] == outcome(
                frames_after(AllocationType::OPT, trace@, cap as nat, k as nat),
                trace@[k],
            ),
        forall|k: int|
            0 <= k < trace@.len() ==> (#[trigger] r.1@[k])@ == frames_after(
                AllocationType::OPT,
                trace@,
                cap as nat,
                (k + 1) as nat,
            ),
{
    let mut out: Vec<MemoryAccess> = Vec::new();
    let mut history: Vec<Vec<i32>> = Vec::new();
    let mut frames: Vec<i32> = Vec::new();
    let mut i: usize = 0;
    while i < trace.len()
        invariant
            i <= trace@.len(),
            frames@ == opt_state(trace@, cap as nat, i as nat),
            out@.len() == i,
            history@.len() == i,
            forall|k: int|
                0 <= k < i ==> out@[k] == outcome(
                    frames_after(AllocationType::OPT, trace@, cap as nat, k as nat),
                    trace@[k],
                ),
            forall|k: int|
                0 <= k < i ==> (#[trigger] history@[k])@ == frames_after(
                    AllocationType::OPT,
                    trace@,
                    cap as nat,
                    (k + 1) as nat,
                ),
        decreases trace@.len() - i,
    {
        let page = trace[i];
        match find_slot(&frames, page) {
            Some(_) => {
                out.push(MemoryAccess::Hit(page));
            },
            None => {
                if frames.len() < cap {
                    frames.push(page);
                } else if cap > 0 {
                    let v = opt_victim_slot(&frames, trace, i);
                    frames.set(v, page);
                }
                out.push(MemoryAccess::Miss(page));
            },
        }
        history.push(frames.clone());
        i = i + 1;
    }
    (out, history)
}

/// The frame history as a grid: one row per slot, one cell per step, empty
/// where the slot was not yet filled.
pub fn frame_grid(cap: usize, history: &Vec<Vec<i32>>) -> (r: Vec<Vec<Option<i32>>>)
    ensures
        r@.map_values(|row: Vec<Option<i32>>| row@) == grid_of(
            cap as nat,
            history@.map_values(|f: Vec<i32>| f@),
        ),
{
    let mut grid: Vec<Vec<Option<i32>>> = Vec::new();
    let mut j: usize = 0;
    while j < cap
        invariant
            j <= cap,
            grid@.len() == j,
            forall|a: int|
                0 <= a < j ==> (#[trigger] grid@[a])@.len() == history@.len() && forall|i: int|
                    0 <= i < history@.len() ==> grid@[a]@[i] == if a < history@[i]@.len() {
                        Some(history@[i]@[a])
                    } else {
                        None
                    },
        decreases cap - j,
    {
        let mut row: Vec<Option<i32>> = Vec::new();
        let mut i: usize = 0;
        while i < history.len()
            invariant
                i <= history@.len(),
                row@.len() == i,
                forall|b: int|
                    0 <= b < i ==> row@[b] == if j < history@[b]@.len() {
                        Some(history@[b]@[j as int])
                    } else {
                        None
                    },
            decreases history@.len() - i,
        {
            if j < history[i].len() {
                row.push(Some(history[i][j]));
            } else {
                row.push(None);
            }
            i = i + 1;
        }
        grid.push(row);
        j = j + 1;
    }
    assert(grid@.map_values(|row: Vec<Option<i32>>| row@) =~~= grid_of(
        cap as nat,
        history@.map_values(|f: Vec<i32>| f@),
    ));
    grid
}

} // verus!
