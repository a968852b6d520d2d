use vstd::prelude::*;
use crate::access::{MemoryAccess, MemoryAccesses};
use crate::engine::{frame_grid, run_opt, run_stamped};
use crate::model::{frames_after, grid_of, history_of, outcome, outcomes_of, AllocationType};

verus! {

/// A page-replacement policy: built for a number of frames, run once over a
/// trace, then read for its frame history.
pub trait MemoryAllocator: Sized {
    /// Number of frames.
    spec fn frame_count(&self) -> nat;

    /// Which policy this is.
    spec fn kind(&self) -> AllocationType;

    /// Resident pages, by slot, after each access of the last run.
    spec fn history(&self) -> Seq<Seq<i32>>;

    /// An allocator with `frames` frames, for a trace of about `accesses`
    /// accesses (a size hint, which may be ignored).
    fn new(frames: usize, accesses: usize) -> (r: Self)
        ensures
            r.frame_count() == frames,
            r.history().len() == 0,
    ;

    /// Simulates the trace: one outcome per access, and the frame history.
    fn run(&mut self, accesses: &Vec<i32>) -> (r: MemoryAccesses)
        ensures
            final(self).frame_count() == old(self).frame_count(),
            final(self).kind() == old(self).kind(),
            r.accesses@ == outcomes_of(old(self).kind(), accesses@, old(self).frame_count()),
            final(self).history() == history_of(
                old(self).kind(),
                accesses@,
                old(self).frame_count(),
            ),
    ;

    /// The frame history as a grid: one row per frame, one column per step.
    fn gen_table(&self) -> (r: Vec<Vec<Option<i32>>>)
        ensures
            r@.map_values(|row: Vec<Option<i32>>| row@) == grid_of(
                self.frame_count(),
                self.history(),
            ),
    ;
}

/// Evicts the least recently used page.
pub struct LRU {
    frame_size: usize,
    frames: Vec<Vec<i32>>,
}

/// Evicts the page that arrived first.
pub struct FIFO {
    frame_size: usize,
    frames: Vec<Vec<i32>>,
}

/// Evicts the page that is next used furthest ahead in the trace.
pub struct OPT {
    frame_size: usize,
    frames: Vec<Vec<i32>>,
}

/// Packs the result of a run, and checks it against the model.
fn finish(
    kind: AllocationType,
    cap: usize,
    trace: &Vec<i32>,
    out: Vec<MemoryAccess>,
    history: &Vec<Vec<i32>>,
) -> (r: MemoryAccesses)
    requires
        out@.len() == trace@.len(),
        history@.len() == trace@.len(),
        forall|k: int|
            0 <= k < trace@.len() ==> out@[k] == outcome(
                frames_after(kind, trace@, cap as nat, k as nat),
                trace@[k],
            ),
        forall|k: int|
            0 <= k < trace@.len() ==> (#[trigger] history@[k])@ == frames_after(
                kind,
                trace@,
                cap as nat,
                (k + 1) as nat,
            ),
    ensures
        r.accesses@ == outcomes_of(kind, trace@, cap as nat),
        history@.map_values(|f: Vec<i32>| f@) == history_of(kind, trace@, cap as nat),
{
    assert(out@ =~= outcomes_of(kind, trace@, cap as nat));
    assert(history@.map_values(|f: Vec<i32>| f@) =~= history_of(kind, trace@, cap as nat));
    MemoryAccesses { accesses: out }
}

impl MemoryAllocator for LRU {
    closed spec fn frame_count(&self) -> nat {
        self.frame_size as nat
    }

    open spec fn kind(&self) -> AllocationType {
        AllocationType::LRU
    }

    closed spec fn history(&self) -> Seq<Seq<i32>> {
        self.frames@.map_values(|f: Vec<i32>| f@)
    }

    fn new(frames: usize, _accesses: usize) -> (r: Self) {
        LRU { frame_size: frames, frames: Vec::new() }
    }

    fn run(&mut self, accesses: &Vec<i32>) -> (r: MemoryAccesses) {
        let (out, history) = run_stamped(AllocationType::LRU, self.frame_size, accesses);
        let r = finish(AllocationType::LRU, self.frame_size, accesses, out, &history);
        self.frames = history;
        r
    }

    fn gen_table(&self) -> (r: Vec<Vec<Option<i32>>>) {
        frame_grid(self.frame_size, &self.frames)
    }
}

impl MemoryAllocator for FIFO {
    closed spec fn frame_count(&self) -> nat {
        self.frame_size as nat
    }

    open spec fn kind(&self) -> AllocationType {
        AllocationType::FIFO
    }

    closed spec fn history(&self) -> Seq<Seq<i32>> {
        self.frames@.map_values(|f: Vec<i32>| f@)
    }

    fn new(frames: usize, _accesses: usize) -> (r: Self) {
        FIFO { frame_size: frames, frames: Vec::new() }
    }

    fn run(&mut self, accesses: &Vec<i32>) -> (r: MemoryAccesses) {
        let (out, history) = run_stamped(AllocationType::FIFO, self.frame_size, accesses);
        let r = finish(AllocationType::FIFO, self.frame_size, accesses, out, &history);
        self.frames = history;
        r
    }

    fn gen_table(&self) -> (r: Vec<Vec<Option<i32>>>) {
        frame_grid(self.frame_size, &self.frames)
    }
}

impl MemoryAllocator for OPT {
    closed spec fn frame_count(&self) -> nat {
        self.frame_size as nat
    }

    open spec fn kind(&self) -> AllocationType {
        AllocationType::OPT
    }

    closed spec fn history(&self) -> Seq<Seq<i32>> {
        self.frames@.map_values(|f: Vec<i32>| f@)
    }

    fn new(frames: usize, _accesses: usize) -> (r: Self) {
        OPT { frame_size: frames, frames: Vec::new() }
    }

    fn run(&mut self, accesses: &Vec<i32>) -> (r: MemoryAccesses) {
        let (out, history) = run_opt(self.frame_size, accesses);
        let r = finish(AllocationType::OPT, self.frame_size, accesses, out, &history);
        self.frames = history;
        r
    }

    fn gen_table(&self) -> (r: Vec<Vec<Option<i32>>>) {
        frame_grid(self.frame_size, &self.frames)
    }
}

} // verus!
