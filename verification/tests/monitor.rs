use heap_oracle::runtime::{
    exit_code, exit_report, format_exit_status, reader_step, Drain, DrainStep, ReaderStep, RuntimeSnapshot,
    RuntimeStats, DRAIN_ROUNDS, DRAIN_SLEEP_MS, READER_BATCH_SIZE, READER_IDLE_MS,
};

fn seen(consumed: u64, pending: u64) -> RuntimeSnapshot {
    RuntimeSnapshot { consumed, pending, ..RuntimeSnapshot::default() }
}

#[test]
fn the_pace_of_the_monitor() {
    assert_eq!((READER_BATCH_SIZE, READER_IDLE_MS), (128, 8));
    assert_eq!((DRAIN_ROUNDS, DRAIN_SLEEP_MS), (50, 20));
}

#[test]
fn counters_are_kept() {
    let mut stats = RuntimeStats::default();
    let snap = stats.snapshot();
    assert_eq!((snap.consumed, snap.pending, snap.dropped), (0, 0, 0));
    assert_eq!((snap.target_exited, snap.target_status), (false, 0));
    stats.update_ring(4, 2);
    stats.add_consumed(7);
    stats.add_consumed(1);
    stats.mark_target_exit(3);
    let snap = stats.snapshot();
    assert_eq!((snap.consumed, snap.pending, snap.dropped), (8, 4, 2));
    assert_eq!((snap.target_exited, snap.target_status), (true, 3));
}

#[test]
fn the_event_counter_starts_again() {
    let mut stats = RuntimeStats { consumed: u64::MAX - 1, ..RuntimeStats::default() };
    stats.add_consumed(1);
    assert_eq!(stats.snapshot().consumed, u64::MAX);
    stats.add_consumed(3);
    assert_eq!(stats.snapshot().consumed, 2);
}

#[test]
fn the_reader_ends_only_when_all_is_read() {
    assert_eq!(reader_step(5, 0, true), ReaderStep::Apply);
    assert_eq!(reader_step(1, 9, false), ReaderStep::Apply);
    assert_eq!(reader_step(0, 0, true), ReaderStep::Stop);
    assert_eq!(reader_step(0, 1, true), ReaderStep::Idle);
    assert_eq!(reader_step(0, 0, false), ReaderStep::Idle);
}

#[test]
fn three_quiet_looks_end_the_wait() {
    let mut drain = Drain::start(seen(10, 5));
    assert_eq!(drain.step(seen(10, 0)), DrainStep::Sleep);
    assert_eq!(drain.step(seen(10, 0)), DrainStep::Sleep);
    assert_eq!(drain.step(seen(10, 0)), DrainStep::Done);
}

#[test]
fn a_busy_look_starts_the_count_again() {
    let mut drain = Drain::start(seen(10, 0));
    assert_eq!(drain.step(seen(10, 0)), DrainStep::Sleep);
    assert_eq!(drain.step(seen(10, 0)), DrainStep::Sleep);
    assert_eq!(drain.step(seen(11, 0)), DrainStep::Sleep);
    assert_eq!(drain.step(seen(11, 1)), DrainStep::Sleep);
    assert_eq!(drain.step(seen(11, 0)), DrainStep::Sleep);
    assert_eq!(drain.step(seen(11, 0)), DrainStep::Sleep);
    assert_eq!(drain.step(seen(11, 0)), DrainStep::Done);
}

#[test]
fn the_wait_ends_after_fifty_sleeps() {
    let mut drain = Drain::start(seen(0, 1));
    let mut sleeps = 0usize;
    while drain.step(seen(sleeps as u64, 1)) == DrainStep::Sleep {
        sleeps += 1;
    }
    assert_eq!(sleeps, 50);
    assert_eq!(drain.step(seen(0, 1)), DrainStep::Done);
}

#[test]
fn a_signalled_target_has_no_exit_code() {
    assert_eq!(exit_code(Some(0)), 0);
    assert_eq!(exit_code(Some(139)), 139);
    assert_eq!(exit_code(None), -1);
}

#[test]
fn exits_in_words() {
    assert_eq!(format_exit_status(Some(0), None), "exited with status 0");
    assert_eq!(format_exit_status(Some(-5), Some(9)), "exited with status -5");
    assert_eq!(format_exit_status(Some(i32::MIN), None), "exited with status -2147483648");
    assert_eq!(format_exit_status(None, Some(6)), "killed by SIGABRT (signal 6)");
    assert_eq!(format_exit_status(None, Some(11)), "killed by SIGSEGV (signal 11)");
    assert_eq!(format_exit_status(None, Some(4)), "killed by SIGILL (signal 4)");
    assert_eq!(format_exit_status(None, Some(8)), "killed by SIGFPE (signal 8)");
    assert_eq!(format_exit_status(None, Some(9)), "killed by SIGKILL (signal 9)");
    assert_eq!(format_exit_status(None, Some(15)), "killed by SIGTERM (signal 15)");
    assert_eq!(format_exit_status(None, Some(2)), "killed by signal 2");
    assert_eq!(format_exit_status(None, None), "exited (unknown status)");
}

#[test]
fn only_a_bad_exit_is_reported() {
    assert_eq!(exit_report(Some(0), None), None);
    assert_eq!(
        exit_report(Some(2), None),
        Some("heap-oracle: target exited with status 2".to_string()),
    );
    assert_eq!(
        exit_report(None, Some(11)),
        Some("heap-oracle: target killed by SIGSEGV (signal 11)".to_string()),
    );
    assert_eq!(
        exit_report(None, None),
        Some("heap-oracle: target exited (unknown status)".to_string()),
    );
}
