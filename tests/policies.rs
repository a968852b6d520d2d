use memory_replacement::{AllocationType, MemoryAccess, MemoryAllocator, FIFO, LRU, OPT};

const BELADY: [i32; 12] = [1, 2, 3, 4, 1, 2, 5, 1, 2, 3, 4, 5];

fn hit_pattern(accesses: &[MemoryAccess]) -> String {
    accesses
        .iter()
        .map(|a| match a {
            MemoryAccess::Hit(_) => 'H',
            MemoryAccess::Miss(_) => 'M',
        })
        .collect()
}

/// The resident pages of every step, read back from the grid.
fn columns(grid: &[Vec<Option<i32>>], steps: usize) -> Vec<Vec<i32>> {
    (0..steps)
        .map(|i| grid.iter().filter_map(|row| row[i]).collect())
        .collect()
}

#[test]
fn prints_valid_lru() {
    let trace = BELADY.to_vec();
    let mut lru = LRU::new(3, trace.len());
    let out = lru.run(&trace);
    assert_eq!(hit_pattern(&out.accesses), "MMMMMMMHHMMM");
    assert_eq!(out.hits(), 2);
    assert_eq!(out.misses(), 10);
    let cols = columns(&lru.gen_table(), trace.len());
    assert_eq!(cols[11], vec![3, 4, 5]);
}

#[test]
fn prints_valid_fifo() {
    let trace = BELADY.to_vec();
    let mut fifo = FIFO::new(3, trace.len());
    let out = fifo.run(&trace);
    assert_eq!(hit_pattern(&out.accesses), "MMMMMMMHHMMH");
    assert_eq!((out.hits(), out.misses()), (3, 9));

    let mut fifo = FIFO::new(4, trace.len());
    let out = fifo.run(&trace);
    assert_eq!(hit_pattern(&out.accesses), "MMMMHHMMMMMM");
    assert_eq!((out.hits(), out.misses()), (2, 10));
    let cols = columns(&fifo.gen_table(), trace.len());
    assert_eq!(cols[11], vec![4, 5, 2, 3]);
}

#[test]
fn prints_valid_opt() {
    let trace = BELADY.to_vec();
    let mut opt = OPT::new(3, trace.len());
    let out = opt.run(&trace);
    assert_eq!(hit_pattern(&out.accesses), "MMMMHHMHHMMH");
    assert_eq!((out.hits(), out.misses()), (5, 7));
    let cols = columns(&opt.gen_table(), trace.len());
    assert_eq!(cols[3], vec![1, 2, 4]);
    assert_eq!(cols[6], vec![1, 2, 5]);
    assert_eq!(cols[9], vec![3, 2, 5]);
    assert_eq!(cols[10], vec![4, 2, 5]);
}

#[test]
fn prints_valid_opt_2() {
    let trace = BELADY.to_vec();
    let mut opt = OPT::new(4, trace.len());
    let out = opt.run(&trace);
    assert_eq!(hit_pattern(&out.accesses), "MMMMHHMHHHMH");
    assert_eq!((out.hits(), out.misses()), (6, 6));
    let cols = columns(&opt.gen_table(), trace.len());
    assert_eq!(cols[6], vec![1, 2, 3, 5]);
    assert_eq!(cols[10], vec![4, 2, 3, 5]);
}

#[test]
fn fifo_evicts_oldest_arrival() {
    let trace = vec![1, 2, 3, 4];
    let mut fifo = FIFO::new(3, trace.len());
    let out = fifo.run(&trace);
    assert_eq!(out.accesses[3], MemoryAccess::Miss(4));
    let cols = columns(&fifo.gen_table(), trace.len());
    assert_eq!(cols[2], vec![1, 2, 3]);
    assert_eq!(cols[3], vec![4, 2, 3]);
}

#[test]
fn lru_evicts_least_recent_not_oldest() {
    let trace = vec![1, 2, 3, 1, 4];
    let mut lru = LRU::new(3, trace.len());
    let out = lru.run(&trace);
    assert_eq!(out.accesses[3], MemoryAccess::Hit(1));
    assert_eq!(out.accesses[4], MemoryAccess::Miss(4));
    let cols = columns(&lru.gen_table(), trace.len());
    assert_eq!(cols[4], vec![1, 4, 3]);

    let mut fifo = FIFO::new(3, trace.len());
    fifo.run(&trace);
    let cols = columns(&fifo.gen_table(), trace.len());
    assert_eq!(cols[4], vec![4, 2, 3]);
}

#[test]
fn opt_misses_no_more_than_others() {
    let trace = BELADY.to_vec();
    for frames in 1..6 {
        let opt = OPT::new(frames, trace.len()).run(&trace).misses();
        let lru = LRU::new(frames, trace.len()).run(&trace).misses();
        let fifo = FIFO::new(frames, trace.len()).run(&trace).misses();
        assert!(opt <= lru, "frames {}", frames);
        assert!(opt <= fifo, "frames {}", frames);
    }
}

#[test]
fn opt_evicts_never_used_lowest_slot() {
    // At the access to 4, pages 1 and 2 are never used again: slot 0 goes.
    let trace = vec![1, 2, 3, 3, 4, 3];
    let mut opt = OPT::new(3, trace.len());
    opt.run(&trace);
    let cols = columns(&opt.gen_table(), trace.len());
    assert_eq!(cols[4], vec![4, 2, 3]);
}

#[test]
fn opt_evicts_a_page_that_is_not_used_again() {
    // At the access to 4, pages 1 and 2 recur but 3 does not.
    let trace = vec![1, 2, 3, 4, 1, 2];
    let mut opt = OPT::new(3, trace.len());
    let out = opt.run(&trace);
    let cols = columns(&opt.gen_table(), trace.len());
    assert_eq!(cols[3], vec![1, 2, 4]);
    assert_eq!(out.hits(), 2);
}

#[test]
fn hits_and_misses_add_up() {
    let traces: Vec<Vec<i32>> = vec![vec![], vec![7], BELADY.to_vec(), vec![1, 1, 1, 2, 2, 1]];
    for trace in &traces {
        for frames in 0..5 {
            let a = LRU::new(frames, trace.len()).run(trace);
            let b = FIFO::new(frames, trace.len()).run(trace);
            let c = OPT::new(frames, trace.len()).run(trace);
            assert_eq!(a.hits() + a.misses(), trace.len());
            assert_eq!(b.hits() + b.misses(), trace.len());
            assert_eq!(c.hits() + c.misses(), trace.len());
        }
    }
}

#[test]
fn frame_sizes_grow_then_stay_at_capacity() {
    let trace = vec![5, 5, 6, 5, 7, 8, 9, 6];
    let mut lru = LRU::new(3, trace.len());
    lru.run(&trace);
    let sizes: Vec<usize> = columns(&lru.gen_table(), trace.len())
        .iter()
        .map(|c| c.len())
        .collect();
    assert_eq!(sizes, vec![1, 1, 2, 2, 3, 3, 3, 3]);
}

#[test]
fn empty_trace_gives_nothing() {
    let trace: Vec<i32> = vec![];
    for frames in [0, 1, 3] {
        let mut lru = LRU::new(frames, 0);
        assert!(lru.run(&trace).accesses.is_empty());
        let grid = lru.gen_table();
        assert_eq!(grid.len(), frames);
        assert!(grid.iter().all(|row| row.is_empty()));
        assert!(FIFO::new(frames, 0).run(&trace).accesses.is_empty());
        assert!(OPT::new(frames, 0).run(&trace).accesses.is_empty());
    }
}

#[test]
fn zero_frames_always_miss() {
    let trace = vec![1, 1, 2, 1];
    let expected: Vec<MemoryAccess> = trace.iter().map(|&p| MemoryAccess::Miss(p)).collect();
    let mut lru = LRU::new(0, trace.len());
    assert_eq!(lru.run(&trace).accesses, expected);
    assert!(lru.gen_table().is_empty());
    assert_eq!(FIFO::new(0, trace.len()).run(&trace).accesses, expected);
    assert_eq!(OPT::new(0, trace.len()).run(&trace).accesses, expected);
}

#[test]
fn single_frame() {
    let trace = vec![1, 1, 2, 2, 1];
    let out = LRU::new(1, trace.len()).run(&trace);
    assert_eq!(hit_pattern(&out.accesses), "MHMHM");
}

#[test]
fn grid_leaves_unfilled_slots_empty() {
    let trace = vec![9, -3];
    let mut fifo = FIFO::new(3, trace.len());
    fifo.run(&trace);
    let grid = fifo.gen_table();
    assert_eq!(grid.len(), 3);
    assert_eq!(grid[0], vec![Some(9), Some(9)]);
    assert_eq!(grid[1], vec![None, Some(-3)]);
    assert_eq!(grid[2], vec![None, None]);
}

#[test]
fn policy_names_any_case() {
    assert_eq!(AllocationType::from_name("fifo"), Some(AllocationType::FIFO));
    assert_eq!(AllocationType::from_name("LRU"), Some(AllocationType::LRU));
    assert_eq!(AllocationType::from_name("oPt"), Some(AllocationType::OPT));
    assert_eq!(AllocationType::from_name("lfu"), None);
    assert_eq!(AllocationType::from_name("fifo "), None);
    assert_eq!(AllocationType::from_name(""), None);
}
