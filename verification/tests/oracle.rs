use heap_oracle::ipc::{plan_batch, HeapEvent, RingStats};
use heap_oracle::runtime::{reader_step, ReaderStep};
use heap_oracle::state::{
    glibc_chunk_size, ApplyResult, BinType, ChunkState, HeapOracle, OracleSummary, StackTrace,
    UafReason, ALERT_LIMIT, FASTBIN_BINS, TCACHE_BINS, TCACHE_FILL_COUNT,
};

fn event(kind: u16, addr: u64, aux_addr: u64, size: u64, timestamp_ns: u64) -> HeapEvent {
    HeapEvent { kind, addr, aux_addr, size, timestamp_ns, ..HeapEvent::default() }
}

fn malloc(addr: u64, size: u64) -> HeapEvent {
    event(1, addr, 0, size, 1)
}

fn free(addr: u64) -> HeapEvent {
    event(2, addr, 0, 0, 2)
}

fn realloc(new: u64, old: u64, size: u64) -> HeapEvent {
    event(3, new, old, size, 3)
}

fn totals(oracle: &HeapOracle) -> (usize, usize, usize, usize, usize) {
    let OracleSummary { total_chunks, allocated, freed, uaf, alerts } = oracle.summary();
    (total_chunks, allocated, freed, uaf, alerts)
}

fn is_empty_result(result: &ApplyResult) -> bool {
    result.alert.is_none()
        && result.bin.is_none()
        && result.chunk_index.is_none()
        && result.chunk_size.is_none()
}

fn reason_of(result: &ApplyResult) -> Option<UafReason> {
    result.alert.map(|alert| alert.reason)
}

#[test]
fn chunk_sizes() {
    assert_eq!(glibc_chunk_size(0), 0x20);
    assert_eq!(glibc_chunk_size(1), 0x20);
    assert_eq!(glibc_chunk_size(24), 0x20);
    assert_eq!(glibc_chunk_size(25), 0x30);
    assert_eq!(glibc_chunk_size(0x18 + 0x10), 0x30);
    assert_eq!(glibc_chunk_size(0x408), 0x410);
    assert_eq!(glibc_chunk_size(0x409), 0x420);
    assert_eq!(glibc_chunk_size(usize::MAX), usize::MAX - 15);
    assert_eq!(glibc_chunk_size(usize::MAX - 23), usize::MAX - 15);
}

#[test]
fn chunk_sizes_never_shrink() {
    for request in 0..2000usize {
        let here = glibc_chunk_size(request);
        assert!(here >= request + 8 && here >= 0x20 && here % 16 == 0);
        assert!(here < request + 24 || here == 0x20);
        assert!(here <= glibc_chunk_size(request + 1));
    }
}

#[test]
fn stacks_come_from_events() {
    let full = HeapEvent { stack_len: 3, callstack: [11, 12, 13, 0, 0, 0, 0, 0], ..HeapEvent::default() };
    let stack = StackTrace::from_event(full);
    assert_eq!(stack.len, 3);
    assert_eq!(stack.frames, [11, 12, 13, 0, 0, 0, 0, 0]);
    assert_eq!(stack.first_frame(), Some(11));
    let long = HeapEvent { stack_len: 99, ..full };
    assert_eq!(StackTrace::from_event(long).len, 8);
    let none = HeapEvent { stack_len: 0, ..full };
    assert_eq!(StackTrace::from_event(none).first_frame(), None);
    assert_eq!(StackTrace::default().len, 0);
    assert_eq!(StackTrace::default().first_frame(), None);
}

#[test]
fn bins_and_reasons_have_names() {
    assert_eq!(BinType::Tcache(3).to_string(), "tcache[3]");
    assert_eq!(BinType::Fastbin(0).to_string(), "fastbin[0]");
    assert_eq!(BinType::Smallbin(61).to_string(), "smallbin[61]");
    assert_eq!(BinType::Largebin.to_string(), "largebin");
    assert_eq!(BinType::Reallocated.to_string(), "reallocated");
    assert_eq!(UafReason::DoubleFree.to_string(), "double-free");
    assert_eq!(UafReason::InvalidFree.to_string(), "invalid-free");
    assert_eq!(UafReason::ReallocOfFreed.to_string(), "realloc-after-free");
}

#[test]
fn a_new_oracle_is_empty() {
    let oracle = HeapOracle::default();
    assert!(oracle.chunks.is_empty());
    assert_eq!(oracle.tcache.len(), TCACHE_BINS);
    assert_eq!(oracle.fastbins.len(), FASTBIN_BINS);
    assert!(oracle.tcache.iter().all(|bin| bin.is_empty()));
    assert!(oracle.fastbins.iter().all(|bin| bin.is_empty()));
    assert_eq!((oracle.total_events, oracle.next_index), (0, 0));
    assert_eq!(totals(&oracle), (0, 0, 0, 0, 0));
    assert_eq!(totals(&HeapOracle::new()), (0, 0, 0, 0, 0));
}

#[test]
fn an_allocation_is_recorded() {
    let mut oracle = HeapOracle::new();
    let mut call = malloc(0x1000, 100);
    call.stack_len = 2;
    call.callstack[0] = 0xabc;
    let result = oracle.apply_event(call);
    assert!(result.alert.is_none() && result.bin.is_none());
    assert_eq!(result.chunk_index, Some(0));
    assert_eq!(result.chunk_size, Some(0x70));
    let record = &oracle.chunks[&0x1000];
    assert_eq!((record.index, record.addr, record.size), (0, 0x1000, 100));
    assert_eq!(record.state, ChunkState::Allocated);
    assert_eq!(record.alloc_stack.first_frame(), Some(0xabc));
    assert!(record.free_stack.is_none());
    assert_eq!((record.last_event_ns, record.generation), (1, 0));
    assert_eq!(totals(&oracle), (1, 1, 0, 0, 0));
    assert_eq!((oracle.total_events, oracle.next_index), (1, 1));
}

#[test]
fn calloc_and_memalign_allocate_too() {
    let mut oracle = HeapOracle::new();
    assert_eq!(oracle.apply_event(event(5, 0x10, 0, 8, 0)).chunk_index, Some(0));
    assert_eq!(oracle.apply_event(event(4, 0x20, 0, 8, 0)).chunk_index, Some(1));
    assert_eq!(totals(&oracle), (2, 2, 0, 0, 0));
}

#[test]
fn the_calls_that_allocate_are_alike() {
    let mut seen = Vec::new();
    for kind in [1, 4, 5] {
        let mut oracle = HeapOracle::new();
        oracle.apply_event(malloc(0x10, 24));
        oracle.apply_event(free(0x10));
        let mut call = event(kind, 0x10, u64::from(kind), 100, 9);
        call.flags = kind;
        call.pid = u32::from(kind);
        call.aux_size = 3 * u64::from(kind);
        let result = oracle.apply_event(call);
        seen.push(format!("{:?} {:?} {:?}", result, oracle.chunks, oracle.tcache));
    }
    assert_eq!(seen[0], seen[1]);
    assert_eq!(seen[0], seen[2]);
}

#[test]
fn allocated_chunks_have_no_free_stack() {
    let mut oracle = HeapOracle::new();
    for call in [
        malloc(0x10, 24),
        malloc(0x20, 24),
        free(0x20),
        free(0x30),
        realloc(0x40, 0x10, 8),
        malloc(0x20, 24),
        free(0x30),
    ] {
        oracle.apply_event(call);
        for record in oracle.chunks.values() {
            assert_eq!(record.free_stack.is_none(), record.state == ChunkState::Allocated);
        }
    }
}

#[test]
fn a_good_free_goes_to_the_thread_cache() {
    let mut oracle = HeapOracle::new();
    oracle.apply_event(malloc(0x1000, 24));
    let mut call = free(0x1000);
    call.stack_len = 1;
    call.callstack[0] = 0xdef;
    let result = oracle.apply_event(call);
    assert!(result.alert.is_none());
    assert_eq!(result.bin, Some(BinType::Tcache(0)));
    assert_eq!(result.chunk_index, Some(0));
    assert_eq!(result.chunk_size, Some(0x20));
    let record = &oracle.chunks[&0x1000];
    assert_eq!(record.state, ChunkState::Freed { bin: BinType::Tcache(0) });
    assert_eq!(record.free_stack.and_then(|stack| stack.first_frame()), Some(0xdef));
    assert_eq!(record.last_event_ns, 2);
    assert_eq!(oracle.tcache[0], vec![0x1000]);
    assert_eq!(totals(&oracle), (1, 0, 1, 0, 0));
}

#[test]
fn a_full_thread_cache_bin_overflows_by_size() {
    let mut oracle = HeapOracle::new();
    for (size, overflow) in [
        (24, BinType::Fastbin(0)),
        (0xa8, BinType::Fastbin(9)),
        (0xb8, BinType::Smallbin(10)),
        (0x3f8, BinType::Smallbin(62)),
        (0x408, BinType::Largebin),
    ] {
        let base = size * 0x1000;
        let class = (glibc_chunk_size(size as usize) - 0x20) / 0x10;
        for i in 0..TCACHE_FILL_COUNT as u64 + 1 {
            oracle.apply_event(malloc(base + i * 0x10, size));
        }
        for i in 0..TCACHE_FILL_COUNT as u64 {
            let result = oracle.apply_event(free(base + i * 0x10));
            assert_eq!(result.bin, Some(BinType::Tcache(class)));
        }
        let last = base + TCACHE_FILL_COUNT as u64 * 0x10;
        assert_eq!(oracle.apply_event(free(last)).bin, Some(overflow));
        assert_eq!(oracle.tcache[class].len(), TCACHE_FILL_COUNT);
    }
    assert_eq!(oracle.fastbins[0], vec![24 * 0x1000 + 0x70]);
    assert_eq!(oracle.fastbins[9], vec![0xa8 * 0x1000 + 0x70]);
}

#[test]
fn a_huge_chunk_goes_to_the_large_bin() {
    let mut oracle = HeapOracle::new();
    oracle.apply_event(malloc(0x9000, 0x409));
    let result = oracle.apply_event(free(0x9000));
    assert_eq!(result.bin, Some(BinType::Largebin));
    assert_eq!(result.chunk_size, Some(0x420));
    assert!(oracle.tcache.iter().all(|bin| bin.is_empty()));
}

#[test]
fn a_double_free_is_flagged() {
    let mut oracle = HeapOracle::new();
    oracle.apply_event(malloc(0x1000, 24));
    oracle.apply_event(free(0x1000));
    let result = oracle.apply_event(event(2, 0x1000, 0, 0, 77));
    let alert = result.alert.unwrap();
    assert_eq!((alert.addr, alert.reason, alert.timestamp_ns), (0x1000, UafReason::DoubleFree, 77));
    assert_eq!(result.bin, None);
    assert_eq!(result.chunk_index, Some(0));
    assert_eq!(result.chunk_size, Some(0x20));
    assert_eq!(oracle.chunks[&0x1000].state, ChunkState::Uaf { reason: UafReason::DoubleFree });
    assert!(oracle.tcache[0].is_empty());
    assert_eq!(totals(&oracle), (1, 0, 0, 1, 1));
    assert_eq!(reason_of(&oracle.apply_event(free(0x1000))), Some(UafReason::DoubleFree));
    assert_eq!(totals(&oracle), (1, 0, 0, 1, 2));
}

#[test]
fn a_free_of_unknown_memory_is_flagged() {
    let mut oracle = HeapOracle::new();
    let result = oracle.apply_event(free(0x4000));
    assert_eq!(reason_of(&result), Some(UafReason::InvalidFree));
    assert_eq!(result.chunk_index, Some(0));
    assert_eq!(result.chunk_size, None);
    let record = &oracle.chunks[&0x4000];
    assert_eq!((record.index, record.size, record.generation), (0, 0, 0));
    assert_eq!(record.state, ChunkState::Uaf { reason: UafReason::InvalidFree });
    assert!(record.free_stack.is_some());
    assert_eq!(totals(&oracle), (1, 0, 0, 1, 1));
    let again = oracle.apply_event(free(0x4000));
    assert_eq!(reason_of(&again), Some(UafReason::DoubleFree));
    assert_eq!((again.chunk_index, again.chunk_size), (Some(0), None));
}

#[test]
fn reuse_of_an_address_starts_a_new_generation() {
    let mut oracle = HeapOracle::new();
    oracle.apply_event(malloc(0x1000, 24));
    oracle.apply_event(free(0x1000));
    assert_eq!(oracle.chunks[&0x1000].generation, 0);
    let result = oracle.apply_event(malloc(0x1000, 40));
    assert_eq!(result.chunk_index, Some(1));
    let record = &oracle.chunks[&0x1000];
    assert_eq!((record.index, record.size, record.generation), (1, 40, 1));
    assert!(record.free_stack.is_none());
    assert!(oracle.tcache[0].is_empty());
    assert_eq!(totals(&oracle), (1, 1, 0, 0, 0));
}

#[test]
fn leaving_the_middle_of_a_bin_keeps_the_others_in_order() {
    let mut oracle = HeapOracle::new();
    for addr in [0x10, 0x20, 0x30] {
        oracle.apply_event(malloc(addr, 24));
    }
    for addr in [0x10, 0x20, 0x30] {
        oracle.apply_event(free(addr));
    }
    assert_eq!(oracle.tcache[0], vec![0x10, 0x20, 0x30]);
    oracle.apply_event(malloc(0x20, 24));
    assert_eq!(oracle.tcache[0], vec![0x10, 0x30]);
}

#[test]
fn leaving_a_fast_bin_keeps_the_others_in_order() {
    let mut oracle = HeapOracle::new();
    for i in 1..=10u64 {
        oracle.apply_event(malloc(i * 0x20, 24));
    }
    for i in 1..=10u64 {
        oracle.apply_event(free(i * 0x20));
    }
    assert_eq!(oracle.fastbins[0], vec![0x100, 0x120, 0x140]);
    oracle.apply_event(free(0x120));
    assert_eq!(oracle.fastbins[0], vec![0x100, 0x140]);
}

#[test]
fn null_events_are_only_counted() {
    let mut oracle = HeapOracle::new();
    for call in [
        malloc(0, 8),
        free(0),
        event(0, 0x10, 0, 8, 0),
        event(9, 0x10, 0, 8, 0),
        realloc(0, 0, 8),
        realloc(0, 0x10, 8),
    ] {
        assert!(is_empty_result(&oracle.apply_event(call)));
    }
    assert_eq!((oracle.total_events, oracle.next_index), (6, 0));
    assert_eq!(totals(&oracle), (0, 0, 0, 0, 0));
}

#[test]
fn a_realloc_of_nothing_allocates() {
    let mut oracle = HeapOracle::new();
    let result = oracle.apply_event(realloc(0x1000, 0, 50));
    assert_eq!((result.chunk_index, result.chunk_size), (Some(0), Some(0x40)));
    assert_eq!(oracle.chunks[&0x1000].state, ChunkState::Allocated);
}

#[test]
fn a_realloc_to_nothing_frees() {
    let mut oracle = HeapOracle::new();
    oracle.apply_event(malloc(0x1000, 24));
    let result = oracle.apply_event(realloc(0, 0x1000, 0));
    assert_eq!(result.bin, Some(BinType::Tcache(0)));
    let again = oracle.apply_event(realloc(0x2000, 0x1000, 0));
    assert_eq!(reason_of(&again), Some(UafReason::DoubleFree));
    assert!(!oracle.chunks.contains_key(&0x2000));
}

#[test]
fn a_realloc_moves_a_block() {
    let mut oracle = HeapOracle::new();
    oracle.apply_event(malloc(0x1000, 24));
    let result = oracle.apply_event(realloc(0x2000, 0x1000, 100));
    assert!(result.alert.is_none() && result.bin.is_none());
    assert_eq!((result.chunk_index, result.chunk_size), (Some(1), Some(0x70)));
    assert_eq!(oracle.chunks[&0x1000].state, ChunkState::Freed { bin: BinType::Reallocated });
    assert_eq!(oracle.chunks[&0x2000].state, ChunkState::Allocated);
    assert!(oracle.tcache.iter().all(|bin| bin.is_empty()));
    assert_eq!(totals(&oracle), (2, 1, 1, 0, 0));
}

#[test]
fn a_realloc_in_place_renews_the_block() {
    let mut oracle = HeapOracle::new();
    oracle.apply_event(malloc(0x1000, 24));
    let result = oracle.apply_event(realloc(0x1000, 0x1000, 30));
    assert!(result.alert.is_none());
    assert_eq!(result.chunk_index, Some(1));
    let record = &oracle.chunks[&0x1000];
    assert_eq!((record.size, record.generation, record.state), (30, 1, ChunkState::Allocated));
    assert_eq!(totals(&oracle), (1, 1, 0, 0, 0));
}

#[test]
fn a_realloc_of_freed_memory_is_flagged() {
    let mut oracle = HeapOracle::new();
    oracle.apply_event(malloc(0x1000, 24));
    oracle.apply_event(free(0x1000));
    let result = oracle.apply_event(realloc(0x2000, 0x1000, 24));
    let alert = result.alert.unwrap();
    assert_eq!((alert.addr, alert.reason), (0x1000, UafReason::ReallocOfFreed));
    assert_eq!(result.chunk_index, Some(1));
    assert_eq!(oracle.chunks[&0x1000].state, ChunkState::Uaf { reason: UafReason::ReallocOfFreed });
    assert_eq!(oracle.chunks[&0x2000].state, ChunkState::Allocated);
    assert!(oracle.tcache[0].is_empty());
    assert_eq!(totals(&oracle), (2, 1, 0, 1, 1));
}

#[test]
fn a_realloc_of_unknown_memory_is_not_flagged() {
    let mut oracle = HeapOracle::new();
    let result = oracle.apply_event(realloc(0x2000, 0x1000, 24));
    assert!(result.alert.is_none());
    assert!(!oracle.chunks.contains_key(&0x1000));
    assert_eq!(totals(&oracle), (1, 1, 0, 0, 0));
}

#[test]
fn only_the_latest_alerts_are_kept() {
    let mut oracle = HeapOracle::new();
    for addr in 1..=130u64 {
        oracle.apply_event(event(2, addr * 0x10, 0, 0, addr));
    }
    assert_eq!(oracle.alerts.len(), ALERT_LIMIT);
    assert_eq!(oracle.alerts[0].timestamp_ns, 3);
    assert_eq!(oracle.alerts[127].timestamp_ns, 130);
    assert_eq!(totals(&oracle), (130, 0, 0, 130, 128));
}

#[test]
fn the_event_count_stops_at_its_largest() {
    let mut oracle = HeapOracle::new();
    oracle.total_events = u64::MAX - 1;
    oracle.apply_event(free(0));
    oracle.apply_event(free(0));
    assert_eq!(oracle.total_events, u64::MAX);
}

#[test]
fn other_records_are_left_alone() {
    let mut oracle = HeapOracle::new();
    oracle.apply_event(malloc(0x10, 24));
    oracle.apply_event(malloc(0x20, 25));
    oracle.apply_event(free(0x20));
    let before = format!("{:?}", oracle.chunks[&0x10]);
    oracle.apply_event(free(0x20));
    oracle.apply_event(realloc(0x30, 0x20, 9));
    assert_eq!(format!("{:?}", oracle.chunks[&0x10]), before);
    assert_eq!(format!("{:?}", oracle.chunks[&0x10].clone()), before);
    assert_eq!(oracle.chunks.len(), 3);
}

#[test]
fn a_batch_is_its_events_in_order() {
    let events = vec![malloc(0x10, 24), free(0x10), free(0x10), malloc(0x10, 8), free(0x99)];
    let mut one = HeapOracle::new();
    let mut many = HeapOracle::new();
    let mut split = HeapOracle::new();
    let results = one.apply_batch(&events, true);
    assert_eq!(results.len(), 5);
    for (call, (seen, result)) in events.iter().zip(results.iter()) {
        let single = many.apply_event(*call);
        assert_eq!(seen.debug_text(), call.debug_text());
        assert_eq!(format!("{single:?}"), format!("{result:?}"));
    }
    assert!(split.apply_batch(&events[..2].to_vec(), false).is_empty());
    assert!(split.apply_batch(&events[2..].to_vec(), false).is_empty());
    for other in [&many, &split] {
        assert_eq!(format!("{:?}", one.chunks), format!("{:?}", other.chunks));
        assert_eq!(format!("{:?}", one.alerts), format!("{:?}", other.alerts));
        assert_eq!(totals(&one), totals(other));
        assert_eq!(one.total_events, 5);
        assert_eq!(other.total_events, 5);
    }
}

#[test]
fn a_session_applies_every_event_once() {
    let written: Vec<HeapEvent> = (0..4100u64)
        .map(|i| if i % 3 == 2 { free((i / 3 + 1) * 0x10) } else { malloc((i / 3 + 1) * 0x10, i % 99) })
        .collect();
    let mut whole = HeapOracle::new();
    whole.apply_batch(&written, false);
    let mut ring = vec![HeapEvent::default(); 4096];
    let mut oracle = HeapOracle::new();
    let (mut head, mut tail) = (0u64, 0u64);
    loop {
        for _ in 0..100 {
            if (head as usize) < written.len() {
                ring[head as usize % 4096] = written[head as usize];
                head += 1;
            }
        }
        let plan = plan_batch(head, tail, 128);
        let batch: Vec<HeapEvent> = plan.slots.iter().map(|slot| ring[*slot]).collect();
        tail = plan.tail;
        let pending = RingStats { head, tail, dropped: 0 }.pending();
        match reader_step(batch.len(), pending, true) {
            ReaderStep::Stop => break,
            ReaderStep::Idle => unreachable!(),
            ReaderStep::Apply => assert!(oracle.apply_batch(&batch, false).is_empty()),
        }
    }
    assert_eq!((head, tail), (4100, 4100));
    assert_eq!(format!("{:?}", oracle.chunks), format!("{:?}", whole.chunks));
    assert_eq!(format!("{:?}", oracle.tcache), format!("{:?}", whole.tcache));
    assert_eq!(format!("{:?}", oracle.alerts), format!("{:?}", whole.alerts));
    assert_eq!(oracle.total_events, 4100);
}
