use vstd::prelude::*;
use crate::access::{hit_count, lemma_tally, miss_count, MemoryAccess};
use crate::model::{
    first_max, first_min, frames_after, history_of, opt_state, opt_victim, outcome, outcomes_of,
    stamped_state, AllocationType,
};

verus! {

/// `cur` follows from `prev` by an access to `page` that touched at most one
/// slot: nothing changed, `page` filled a new slot, or `page` replaced the
/// page of one slot.
pub open spec fn single_slot_step(prev: Seq<i32>, cur: Seq<i32>, page: i32) -> bool {
    ||| cur == prev
    ||| cur == prev.push(page)
    ||| exists|s: int| 0 <= s < prev.len() && cur == prev.update(s, page)
}

proof fn lemma_first_min_in_range(keys: Seq<int>)
    requires
        keys.len() > 0,
    ensures
        0 <= first_min(keys) < keys.len(),
    decreases keys.len(),
{
    if keys.len() > 1 {
        lemma_first_min_in_range(keys.drop_last());
    }
}

proof fn lemma_first_max_in_range(keys: Seq<int>)
    requires
        keys.len() > 0,
    ensures
        0 <= first_max(keys) < keys.len(),
    decreases keys.len(),
{
    if keys.len() > 1 {
        lemma_first_max_in_range(keys.drop_last());
    }
}

/// Replacing a page by one that is not resident keeps the pages distinct.
proof fn lemma_update_distinct(prev: Seq<i32>, s: int, page: i32)
    requires
        prev.no_duplicates(),
        !prev.contains(page),
        0 <= s < prev.len(),
    ensures
        prev.update(s, page).no_duplicates(),
        prev.update(s, page).contains(page),
{
    let cur = prev.update(s, page);
    assert(cur[s] == page);
    assert forall|i: int, j: int| 0 <= i < cur.len() && 0 <= j < cur.len() && i != j implies cur[i]
        != cur[j] by {
        if i != s && j != s {
            assert(cur[i] == prev[i] && cur[j] == prev[j]);
        } else if i == s {
            assert(prev.contains(prev[j]));
        } else {
            assert(prev.contains(prev[i]));
        }
    }
}

/// One step of any policy: the frames stay within `cap`, hold distinct
/// pages, and change in at most one slot.
proof fn lemma_step(kind: AllocationType, trace: Seq<i32>, cap: nat, n: nat)
    requires
        n <= trace.len(),
    ensures
        frames_after(kind, trace, cap, n).len() <= cap,
        frames_after(kind, trace, cap, n).no_duplicates(),
        !(kind is OPT) ==> stamped_state(kind, trace, cap, n).1.len() == stamped_state(
            kind,
            trace,
            cap,
            n,
        ).0.len(),
        n > 0 ==> ({
            let prev = frames_after(kind, trace, cap, (n - 1) as nat);
            let cur = frames_after(kind, trace, cap, n);
            let page = trace[n - 1];
            &&& single_slot_step(prev, cur, page)
            &&& prev.contains(page) ==> cur == prev
            &&& cap > 0 ==> cur.contains(page)
            &&& prev.len() <= cur.len()
            &&& prev.len() == cap ==> cur.len() == cap
        }),
    decreases n,
{
    if n > 0 {
        lemma_step(kind, trace, cap, (n - 1) as nat);
        let page = trace[n - 1];
        if kind is OPT {
            let prev = opt_state(trace, cap, (n - 1) as nat);
            if !prev.contains(page) && cap > 0 && prev.len() >= cap {
                let v = opt_victim(prev, trace, n - 1);
                lemma_first_max_in_range(
                    prev.map_values(|p: i32| crate::model::next_use(trace, n as int, p)),
                );
                lemma_update_distinct(prev, v, page);
            } else if !prev.contains(page) && cap > 0 {
                assert(prev.push(page)[prev.len() as int] == page);
            }
        } else {
            let st = stamped_state(kind, trace, cap, (n - 1) as nat);
            let prev = st.0;
            if !prev.contains(page) && cap > 0 && prev.len() >= cap {
                let v = first_min(st.1);
                lemma_first_min_in_range(st.1);
                lemma_update_distinct(prev, v, page);
            } else if !prev.contains(page) && cap > 0 {
                assert(prev.push(page)[prev.len() as int] == page);
            }
        }
    }
}

/// Every access is counted once, as a hit or as a miss.
pub proof fn law_hits_plus_misses(kind: AllocationType, trace: Seq<i32>, cap: nat)
    ensures
        hit_count(outcomes_of(kind, trace, cap)) + miss_count(outcomes_of(kind, trace, cap))
            == trace.len(),
{
    lemma_tally(outcomes_of(kind, trace, cap));
}

proof fn lemma_sizes_monotone(kind: AllocationType, trace: Seq<i32>, cap: nat, i: nat, j: nat)
    requires
        i <= j <= trace.len(),
    ensures
        frames_after(kind, trace, cap, i).len() <= frames_after(kind, trace, cap, j).len(),
        frames_after(kind, trace, cap, i).len() == cap ==> frames_after(kind, trace, cap, j).len()
            == cap,
    decreases j - i,
{
    if i < j {
        lemma_sizes_monotone(kind, trace, cap, i, (j - 1) as nat);
        lemma_step(kind, trace, cap, j);
    }
}

/// At every step the resident pages are distinct and at most `cap` in
/// number; their number never shrinks, and once it reaches `cap` it stays
/// there.
pub proof fn law_frame_sizes(kind: AllocationType, trace: Seq<i32>, cap: nat)
    ensures
        forall|i: int|
            0 <= i < trace.len() ==> (#[trigger] history_of(kind, trace, cap)[i]).len() <= cap
                && history_of(kind, trace, cap)[i].no_duplicates(),
        forall|i: int, j: int|
            0 <= i <= j < trace.len() ==> (#[trigger] history_of(kind, trace, cap)[i]).len()
                <= (#[trigger] history_of(kind, trace, cap)[j]).len(),
        forall|i: int, j: int|
            0 <= i <= j < trace.len() && (#[trigger] history_of(kind, trace, cap)[i]).len() == cap
                ==> (#[trigger] history_of(kind, trace, cap)[j]).len() == cap,
{
    let h = history_of(kind, trace, cap);
    assert forall|i: int| 0 <= i < trace.len() implies (#[trigger] h[i]).len() <= cap
        && h[i].no_duplicates() by {
        lemma_step(kind, trace, cap, (i + 1) as nat);
    }
    assert forall|i: int, j: int| 0 <= i <= j < trace.len() implies (#[trigger] h[i]).len() <= (
    #[trigger] h[j]).len() && (h[i].len() == cap ==> h[j].len() == cap) by {
        lemma_sizes_monotone(kind, trace, cap, (i + 1) as nat, (j + 1) as nat);
    }
}

/// Each access changes the frames of the step before it (no frames before
/// the first access) in at most one slot, is a hit exactly when its page
/// was resident there, leaves the frames alone on a hit, and leaves its
/// page resident when there is any frame.
pub proof fn law_single_slot_steps(kind: AllocationType, trace: Seq<i32>, cap: nat)
    ensures
        forall|i: int|
            0 <= i < trace.len() ==> {
                let prev = if i == 0 {
                    Seq::<i32>::empty()
                } else {
                    history_of(kind, trace, cap)[i - 1]
                };
                let cur = #[trigger] history_of(kind, trace, cap)[i];
                &&& single_slot_step(prev, cur, trace[i])
                &&& outcomes_of(kind, trace, cap)[i] == outcome(prev, trace[i])
                &&& prev.contains(trace[i]) ==> cur == prev
                &&& cap > 0 ==> cur.contains(trace[i])
            },
{
    let h = history_of(kind, trace, cap);
    assert forall|i: int| 0 <= i < trace.len() implies {
        let prev = if i == 0 {
            Seq::<i32>::empty()
        } else {
            h[i - 1]
        };
        let cur = #[trigger] h[i];
        &&& single_slot_step(prev, cur, trace[i])
        &&& outcomes_of(kind, trace, cap)[i] == outcome(prev, trace[i])
        &&& prev.contains(trace[i]) ==> cur == prev
        &&& cap > 0 ==> cur.contains(trace[i])
    } by {
        lemma_step(kind, trace, cap, (i + 1) as nat);
        if i == 0 {
            assert(frames_after(kind, trace, cap, 0) == Seq::<i32>::empty());
        }
    }
}

proof fn lemma_stamped_prefix(kind: AllocationType, a: Seq<i32>, b: Seq<i32>, cap: nat, n: nat)
    requires
        n <= a.len(),
        n <= b.len(),
        forall|k: int| 0 <= k < n ==> a[k] == b[k],
    ensures
        stamped_state(kind, a, cap, n) == stamped_state(kind, b, cap, n),
    decreases n,
{
    if n > 0 {
        lemma_stamped_prefix(kind, a, b, cap, (n - 1) as nat);
    }
}

/// FIFO and LRU look only backwards: the frames after the first `n`
/// accesses are the same whatever the trace holds after them.
pub proof fn law_no_lookahead(kind: AllocationType, trace: Seq<i32>, cap: nat, n: nat)
    requires
        !(kind is OPT),
        n <= trace.len(),
    ensures
        frames_after(kind, trace, cap, n) == frames_after(kind, trace.take(n as int), cap, n),
{
    lemma_stamped_prefix(kind, trace, trace.take(n as int), cap, n);
}

/// An empty trace has no outcomes and no history.
pub proof fn law_empty_trace(kind: AllocationType, cap: nat)
    ensures
        outcomes_of(kind, Seq::empty(), cap) == Seq::<MemoryAccess>::empty(),
        history_of(kind, Seq::empty(), cap) == Seq::<Seq<i32>>::empty(),
{
    assert(outcomes_of(kind, Seq::empty(), cap) =~= Seq::<MemoryAccess>::empty());
    assert(history_of(kind, Seq::empty(), cap) =~= Seq::<Seq<i32>>::empty());
}

/// With no frames every access misses and nothing is ever resident.
pub proof fn law_zero_frames(kind: AllocationType, trace: Seq<i32>)
    ensures
        forall|i: int|
            0 <= i < trace.len() ==> #[trigger] outcomes_of(kind, trace, 0)[i]
                == MemoryAccess::Miss(trace[i]) && history_of(kind, trace, 0)[i].len() == 0,
{
    assert forall|i: int| 0 <= i < trace.len() implies #[trigger] outcomes_of(kind, trace, 0)[i]
        == MemoryAccess::Miss(trace[i]) && history_of(kind, trace, 0)[i].len() == 0 by {
        lemma_step(kind, trace, 0, i as nat);
        lemma_step(kind, trace, 0, (i + 1) as nat);
    }
}

} // verus!
