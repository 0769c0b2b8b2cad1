use heap_oracle::ipc::{
    next_setup_step, normalize_shm_name, nul_name_error, os_failure, plan_batch, ring_len,
    shm_path, EventKind, HeapEvent, RingHeader, RingStats, SetupCall, SetupStep, EVENT_SIZE,
    HEADER_SIZE, MAGIC, RING_CAPACITY, STACK_DEPTH, VERSION,
};

#[test]
fn kinds_are_read_from_their_numbers() {
    assert_eq!(EventKind::from_raw(0), EventKind::Invalid);
    assert_eq!(EventKind::from_raw(1), EventKind::Alloc);
    assert_eq!(EventKind::from_raw(2), EventKind::Free);
    assert_eq!(EventKind::from_raw(3), EventKind::Realloc);
    assert_eq!(EventKind::from_raw(4), EventKind::Memalign);
    assert_eq!(EventKind::from_raw(5), EventKind::Calloc);
    assert_eq!(EventKind::from_raw(6), EventKind::Invalid);
    assert_eq!(EventKind::from_raw(u16::MAX), EventKind::Invalid);
}

#[test]
fn kinds_have_names() {
    assert_eq!(EventKind::Invalid.as_str(), "invalid");
    assert_eq!(EventKind::Alloc.as_str(), "malloc");
    assert_eq!(EventKind::Free.as_str(), "free");
    assert_eq!(EventKind::Realloc.as_str(), "realloc");
    assert_eq!(EventKind::Memalign.as_str(), "memalign");
    assert_eq!(EventKind::Calloc.as_str(), "calloc");
}

#[test]
fn events_give_their_kind_and_stack() {
    let event = HeapEvent { kind: 4, callstack: [9, 8, 7, 6, 5, 4, 3, 2], ..HeapEvent::default() };
    assert_eq!(event.kind(), EventKind::Memalign);
    assert_eq!(event.stack(), [9, 8, 7, 6, 5, 4, 3, 2]);
    assert_eq!(HeapEvent::default().kind(), EventKind::Invalid);
    assert_eq!(HeapEvent::default().stack(), [0; STACK_DEPTH]);
}

#[test]
fn events_have_a_debug_line() {
    let event = HeapEvent {
        kind: 3,
        flags: 1,
        pid: 42,
        tid: 43,
        stack_len: 1,
        timestamp_ns: 1_000_000_007,
        addr: 0x5555_0010,
        aux_addr: 0,
        size: 24,
        aux_size: 7,
        callstack: [1; STACK_DEPTH],
    };
    assert_eq!(
        event.debug_text(),
        "HeapEvent { kind: Realloc, pid: 42, tid: 43, timestamp_ns: 1000000007, \
         addr: 0x55550010, aux_addr: 0x0, size: 24, aux_size: 7 }",
    );
}

#[test]
fn a_fresh_header_is_valid() {
    let header = RingHeader::fresh();
    assert_eq!(header.magic, 0x484f5243);
    assert_eq!(header.version, 1);
    assert_eq!(header.capacity, 4096);
    assert_eq!(header.event_size, 120);
    assert_eq!((header.head, header.tail, header.dropped), (0, 0, 0));
    assert!(header.validate().is_ok());
    assert_eq!((MAGIC, VERSION, RING_CAPACITY), (0x484f5243, 1, 4096));
}

#[test]
fn positions_do_not_matter_to_validation() {
    let header = RingHeader { head: 7, tail: 900, dropped: 3, ..RingHeader::fresh() };
    assert!(header.validate().is_ok());
}

#[test]
fn a_foreign_magic_is_refused() {
    let header = RingHeader { magic: 0xdead, version: 9, ..RingHeader::fresh() };
    assert_eq!(
        header.validate().unwrap_err(),
        "shared memory magic mismatch: expected 0x484f5243, got 0xdead",
    );
}

#[test]
fn another_version_is_refused() {
    let header = RingHeader { version: 2, capacity: 1, ..RingHeader::fresh() };
    assert_eq!(
        header.validate().unwrap_err(),
        "shared memory version mismatch: expected 1, got 2",
    );
}

#[test]
fn another_capacity_is_refused() {
    let header = RingHeader { capacity: 8192, event_size: 1, ..RingHeader::fresh() };
    assert_eq!(
        header.validate().unwrap_err(),
        "shared memory capacity mismatch: expected 4096, got 8192",
    );
}

#[test]
fn another_event_size_is_refused() {
    let header = RingHeader { event_size: 128, ..RingHeader::fresh() };
    assert_eq!(
        header.validate().unwrap_err(),
        "shared memory event size mismatch: expected 120, got 128",
    );
}

#[test]
fn pending_never_goes_below_zero() {
    assert_eq!(RingStats { head: 10, tail: 4, dropped: 0 }.pending(), 6);
    assert_eq!(RingStats { head: 4, tail: 4, dropped: 2 }.pending(), 0);
    assert_eq!(RingStats { head: 3, tail: 4, dropped: 0 }.pending(), 0);
    assert_eq!(RingStats::default().pending(), 0);
    let header = RingHeader { head: 5, tail: 1, dropped: 2, ..RingHeader::fresh() };
    let stats = header.stats();
    assert_eq!((stats.head, stats.tail, stats.dropped), (5, 1, 2));
}

#[test]
fn a_read_takes_what_is_there() {
    let plan = plan_batch(7, 4, 128);
    assert_eq!(plan.slots, vec![4, 5, 6]);
    assert_eq!(plan.tail, 7);
    let empty = plan_batch(7, 7, 128);
    assert!(empty.slots.is_empty());
    assert_eq!(empty.tail, 7);
}

#[test]
fn a_read_stops_at_its_limit() {
    let plan = plan_batch(100, 10, 2);
    assert_eq!(plan.slots, vec![10, 11]);
    assert_eq!(plan.tail, 12);
    let none = plan_batch(100, 10, 0);
    assert!(none.slots.is_empty());
    assert_eq!(none.tail, 10);
}

#[test]
fn slots_wrap_around_the_ring() {
    let plan = plan_batch(4098, 4094, 128);
    assert_eq!(plan.slots, vec![4094, 4095, 0, 1]);
    assert_eq!(plan.tail, 4098);
    let last = plan_batch(u64::MAX, u64::MAX - 1, 128);
    assert_eq!(last.slots, vec![4094]);
    assert_eq!(last.tail, u64::MAX);
}

#[test]
fn a_tail_beyond_the_head_is_read_to_the_limit() {
    let plan = plan_batch(3, 5, 4);
    assert_eq!(plan.slots, vec![5, 6, 7, 8]);
    assert_eq!(plan.tail, 9);
}

#[test]
fn two_reads_make_one() {
    let first = plan_batch(20, 3, 6);
    let second = plan_batch(20, first.tail, 100);
    let whole = plan_batch(20, 3, 106);
    let mut both = first.slots.clone();
    both.extend(second.slots.iter());
    assert_eq!(both, whole.slots);
    assert_eq!(second.tail, whole.tail);
}

#[test]
fn a_full_read_of_the_ring_takes_every_slot_once() {
    let mut slots = plan_batch(9000, 4500, RING_CAPACITY).slots;
    slots.sort_unstable();
    assert_eq!(slots, (0..RING_CAPACITY).collect::<Vec<usize>>());
}

#[test]
fn a_short_read_leaves_nothing_pending() {
    let plan = plan_batch(50, 40, 128);
    assert_eq!(RingStats { head: 50, tail: plan.tail, dropped: 0 }.pending(), 0);
    let full = plan_batch(50, 40, 3);
    assert_eq!(RingStats { head: 50, tail: full.tail, dropped: 0 }.pending(), 7);
}

#[test]
fn the_ring_has_a_length() {
    assert_eq!((HEADER_SIZE, EVENT_SIZE), (40, 120));
    assert_eq!(ring_len(0), 40);
    assert_eq!(ring_len(1), 160);
    assert_eq!(ring_len(RING_CAPACITY), 491_560);
}

#[test]
fn names_get_one_slash() {
    assert_eq!(normalize_shm_name("demo"), "/demo");
    assert_eq!(normalize_shm_name("/demo"), "/demo");
    assert_eq!(normalize_shm_name("//demo"), "//demo");
    assert_eq!(normalize_shm_name(""), "/");
    assert_eq!(normalize_shm_name("é/x"), "/é/x");
    let once = normalize_shm_name("a/b");
    assert_eq!(normalize_shm_name(&once), once);
}

#[test]
fn names_with_a_nul_have_no_path() {
    assert_eq!(shm_path("demo"), Some("/demo".to_string()));
    assert_eq!(shm_path("/demo"), Some("/demo".to_string()));
    assert_eq!(shm_path(""), Some("/".to_string()));
    assert_eq!(shm_path("de\0mo"), None);
    assert_eq!(shm_path("\0"), None);
    assert_eq!(
        nul_name_error(&format!("{:?}", "de\0mo")),
        "shared memory name contains NUL byte: \"de\\0mo\"",
    );
}

#[test]
fn failed_calls_are_named() {
    assert_eq!(os_failure("shm_open", "denied"), "shm_open failed: denied");
    assert_eq!(SetupCall::OpenName.as_str(), "shm_open");
    assert_eq!(SetupCall::Resize.as_str(), "ftruncate");
    assert_eq!(SetupCall::MapMemory.as_str(), "mmap");
}

#[test]
fn a_creating_setup_opens_resizes_and_maps() {
    let step = next_setup_step(SetupCall::OpenName, true, true);
    assert_eq!(step, SetupStep::Call(SetupCall::Resize));
    let step = next_setup_step(SetupCall::Resize, true, true);
    assert_eq!(step, SetupStep::Call(SetupCall::MapMemory));
    let step = next_setup_step(SetupCall::MapMemory, true, true);
    assert_eq!(step, SetupStep::Ready { format: true });
}

#[test]
fn an_attaching_setup_only_opens_and_maps() {
    let step = next_setup_step(SetupCall::OpenName, true, false);
    assert_eq!(step, SetupStep::Call(SetupCall::MapMemory));
    let step = next_setup_step(SetupCall::MapMemory, true, false);
    assert_eq!(step, SetupStep::Ready { format: false });
}

#[test]
fn a_failed_setup_releases_what_it_holds() {
    let call = SetupCall::OpenName;
    assert_eq!(
        next_setup_step(call, false, true),
        SetupStep::Fail { call, close: false, unlink: false },
    );
    let call = SetupCall::Resize;
    assert_eq!(
        next_setup_step(call, false, true),
        SetupStep::Fail { call, close: true, unlink: true },
    );
    let call = SetupCall::MapMemory;
    assert_eq!(
        next_setup_step(call, false, true),
        SetupStep::Fail { call, close: true, unlink: true },
    );
    assert_eq!(
        next_setup_step(call, false, false),
        SetupStep::Fail { call, close: true, unlink: false },
    );
}
