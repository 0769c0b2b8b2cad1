use std::collections::HashMap;

use heap_oracle::ipc::HeapEvent;
use heap_oracle::report::{
    ansi, format_bin_chain, format_event_line, format_heap_state, format_summary, trace_lines,
};
use heap_oracle::runtime::RuntimeSnapshot;
use heap_oracle::state::{
    ApplyResult, BinType, HeapOracle, OracleAlert, OracleSummary, UafReason,
};

fn call(kind: u16, addr: u64, aux_addr: u64, size: u64) -> HeapEvent {
    HeapEvent { kind, addr, aux_addr, size, ..HeapEvent::default() }
}

fn done(index: usize, size: usize) -> ApplyResult {
    ApplyResult { chunk_index: Some(index), chunk_size: Some(size), ..ApplyResult::default() }
}

fn flagged(result: ApplyResult, reason: UafReason) -> ApplyResult {
    ApplyResult { alert: Some(OracleAlert { addr: 1, reason, timestamp_ns: 1 }), ..result }
}

fn stripped(line: &str) -> String {
    let mut out = String::new();
    let mut inside = false;
    for c in line.chars() {
        if inside {
            inside = c != 'm';
        } else if c == '\x1b' {
            inside = true;
        } else {
            out.push(c);
        }
    }
    out
}

fn rule() -> String {
    "─".repeat(55)
}

#[test]
fn colours_are_ansi_or_nothing() {
    let on = ansi(true);
    assert_eq!(
        [on.green, on.red, on.yellow, on.cyan, on.magenta, on.bright_red, on.dim, on.reset],
        [
            "\x1b[32m", "\x1b[31m", "\x1b[33m", "\x1b[36m", "\x1b[35m", "\x1b[1;91m", "\x1b[2m",
            "\x1b[0m",
        ],
    );
    let off = ansi(false);
    assert_eq!(
        [off.green, off.red, off.yellow, off.cyan, off.magenta, off.bright_red, off.dim, off.reset],
        [""; 8],
    );
}

#[test]
fn an_allocation_line() {
    let line = format_event_line(call(1, 0x5555_0010, 0, 24), done(3, 0x20), false);
    assert_eq!(line.unwrap(), "[+] #3    malloc   0x18 (0x20)  0x55550010");
    let line = format_event_line(call(4, 0xf0, 0, 0x100), done(12345, 0x110), false);
    assert_eq!(line.unwrap(), "[+] #12345 memalign 0x100 (0x110)  0xf0");
    let line = format_event_line(call(5, 0xf0, 0, 0), ApplyResult::default(), false);
    assert_eq!(line.unwrap(), "[+] ??    calloc   0x0  0xf0");
}

#[test]
fn an_allocation_line_in_colour() {
    let line = format_event_line(call(1, 0x10, 0, 24), done(0, 0x20), true);
    assert_eq!(
        line.unwrap(),
        "\x1b[32m[+]\x1b[0m \x1b[36m#0   \x1b[0m malloc   \x1b[33m0x18\x1b[0m \
         \x1b[2m(0x20)\x1b[0m  \x1b[36m0x10\x1b[0m",
    );
}

#[test]
fn a_free_line() {
    let result = ApplyResult { bin: Some(BinType::Tcache(0)), ..done(0, 0x20) };
    let line = format_event_line(call(2, 0x10, 0, 0), result, false);
    assert_eq!(line.unwrap(), "[-] #0    free     (0x20)  0x10  -> tcache[0]");
    let line = format_event_line(call(2, 0x10, 0, 0), result, true);
    assert_eq!(
        line.unwrap(),
        "\x1b[31m[-]\x1b[0m \x1b[36m#0   \x1b[0m free     \x1b[2m(0x20)\x1b[0m  \
         \x1b[36m0x10\x1b[0m  \x1b[35m-> tcache[0]\x1b[0m",
    );
}

#[test]
fn a_flagged_free_line() {
    let result = flagged(done(0, 0x20), UafReason::DoubleFree);
    let line = format_event_line(call(2, 0x10, 0, 0), result, false);
    assert_eq!(line.unwrap(), "[!] #0    free     (0x20)  0x10  << double-free");
    let unknown = ApplyResult { chunk_size: None, ..flagged(done(1, 0), UafReason::InvalidFree) };
    let line = format_event_line(call(2, 0x10, 0, 0), unknown, true);
    assert_eq!(
        line.unwrap(),
        "\x1b[1;91m[!]\x1b[0m \x1b[36m#1   \x1b[0m free      \x1b[36m0x10\x1b[0m  \
         \x1b[1;91m<< invalid-free\x1b[0m",
    );
}

#[test]
fn a_realloc_line() {
    let line = format_event_line(call(3, 0x20, 0x10, 100), done(1, 0x70), false);
    assert_eq!(line.unwrap(), "[*] #1    realloc  0x64 (0x70)  0x20 <- 0x10");
    let line = format_event_line(
        call(3, 0x20, 0x10, 100),
        flagged(done(1, 0x70), UafReason::ReallocOfFreed),
        true,
    );
    assert_eq!(
        line.unwrap(),
        "\x1b[1;91m[!]\x1b[0m \x1b[36m#1   \x1b[0m realloc  \x1b[33m0x64\x1b[0m \
         \x1b[2m(0x70)\x1b[0m  \x1b[36m0x20\x1b[0m \x1b[2m<-\x1b[0m \x1b[36m0x10\x1b[0m  \
         \x1b[1;91m<< realloc-after-free\x1b[0m",
    );
}

#[test]
fn events_of_nothing_have_no_line() {
    assert!(format_event_line(call(2, 0, 0, 0), ApplyResult::default(), false).is_none());
    assert!(format_event_line(call(0, 1, 0, 0), ApplyResult::default(), true).is_none());
    assert!(format_event_line(call(77, 1, 0, 0), ApplyResult::default(), true).is_none());
    assert!(format_event_line(call(1, 0, 0, 0), ApplyResult::default(), false).is_some());
}

#[test]
fn a_trace_leaves_out_what_has_no_line() {
    let mut oracle = HeapOracle::new();
    let calls = vec![call(1, 0x10, 0, 8), call(2, 0, 0, 0), call(0, 0, 0, 0), call(2, 0x10, 0, 0)];
    let results = oracle.apply_batch(&calls, true);
    assert_eq!(
        trace_lines(&results, false),
        vec![
            "[+] #0    malloc   0x8 (0x20)  0x10",
            "[-] #0    free     (0x20)  0x10  -> tcache[0]",
        ],
    );
    assert!(trace_lines(&Vec::new(), true).is_empty());
}

#[test]
fn an_empty_oracle_has_no_table() {
    assert!(format_heap_state(&HeapOracle::new(), true).is_empty());
}

#[test]
fn a_table_of_allocations_has_no_other_parts() {
    let mut oracle = HeapOracle::new();
    oracle.apply_event(call(1, 0x2000, 0, 0x12345));
    oracle.apply_event(call(1, 0x1000, 0, 24));
    assert_eq!(
        format_heap_state(&oracle, false),
        vec![
            format!("\n{}", rule()),
            " #     Address          Req     Chunk   State".to_string(),
            rule(),
            " #0    0x000000002000   0x12345   0x12350  ALLOC".to_string(),
            " #1    0x000000001000   0x0018   0x0020  ALLOC".to_string(),
            rule(),
        ],
    );
}

#[test]
fn a_table_lists_bins_and_alerts() {
    let mut oracle = HeapOracle::new();
    for i in 1..=8u64 {
        oracle.apply_event(call(1, i * 0x20, 0, 24));
    }
    for i in 1..=8u64 {
        oracle.apply_event(call(2, i * 0x20, 0, 0));
    }
    oracle.apply_event(call(2, 0x20, 0, 0));
    let lines = format_heap_state(&oracle, false);
    assert_eq!(lines.len(), 3 + 8 + 3 + 2 + 3 + 1 + 1);
    assert_eq!(lines[3], " #0    0x000000000020   0x0018   0x0020  UAF    double-free");
    assert_eq!(lines[4], " #1    0x000000000040   0x0018   0x0020  FREE   tcache[0]");
    assert_eq!(lines[10], " #7    0x000000000100   0x0018   0x0020  FREE   fastbin[0]");
    assert_eq!(lines[11], format!("\n{}", rule()));
    assert_eq!(lines[12], " Bin Chains");
    assert_eq!(lines[14], " tcache[00] (0x20): #6 → #5 → #4 → #3 → #2 → #1");
    assert_eq!(lines[15], " fastbin[00] (0x20): #7");
    assert_eq!(lines[16], format!("\n{}", rule()));
    assert_eq!(lines[17], " Alerts");
    assert_eq!(lines[19], " 0x000000000020  double-free");
    assert_eq!(lines[20], rule());
    assert!(lines.iter().all(|line| !line.contains('\x1b')));
}

#[test]
fn a_table_in_colour() {
    let mut oracle = HeapOracle::new();
    oracle.apply_event(call(1, 0x10, 0, 24));
    oracle.apply_event(call(1, 0x20, 0, 24));
    oracle.apply_event(call(2, 0x20, 0, 0));
    oracle.apply_event(call(2, 0x30, 0, 0));
    let lines = format_heap_state(&oracle, true);
    let line = format!("\x1b[2m{}\x1b[0m", rule());
    assert_eq!(lines[0], format!("\n{line}"));
    assert_eq!(lines[1], "\x1b[36m #     Address          Req     Chunk   State\x1b[0m");
    assert_eq!(lines[2], line);
    assert_eq!(
        lines[3],
        " \x1b[36m#0   \x1b[0m 0x000000000010   0x0018   0x0020  \x1b[32mALLOC\x1b[0m",
    );
    assert_eq!(
        lines[4],
        " \x1b[36m#1   \x1b[0m 0x000000000020   0x0018   0x0020  \x1b[2mFREE \x1b[0m  \
         \x1b[35mtcache[0]\x1b[0m",
    );
    assert_eq!(
        lines[5],
        " \x1b[36m#2   \x1b[0m 0x000000000030   0x0000   0x0020  \x1b[1;91mUAF  \x1b[0m  \
         \x1b[1;91minvalid-free\x1b[0m",
    );
    assert_eq!(lines[7], "\x1b[35m Bin Chains\x1b[0m");
    assert_eq!(lines[9], " \x1b[35mtcache[00]\x1b[0m (0x20): #1");
    assert_eq!(lines[11], "\x1b[1;91m Alerts\x1b[0m");
    assert_eq!(lines[13], " \x1b[1;91m0x000000000030  invalid-free\x1b[0m");
    assert_eq!(lines[14], line);
    assert_eq!(lines.len(), 15);
}

#[test]
fn chains_run_from_the_latest() {
    let mut indices: HashMap<u64, usize> = HashMap::new();
    indices.insert(0x10, 4);
    indices.insert(0x30, 17);
    assert_eq!(format_bin_chain(&[0x10, 0x20, 0x30], &indices), "#17 → 0x20 → #4");
    assert_eq!(format_bin_chain(&[0x10], &indices), "#4");
    assert_eq!(format_bin_chain(&[], &indices), "");
}

#[test]
fn the_closing_line() {
    let snap = RuntimeSnapshot { consumed: 9, pending: 2, dropped: 1, ..RuntimeSnapshot::default() };
    let summary = OracleSummary { total_chunks: 5, allocated: 3, freed: 1, uaf: 1, alerts: 4 };
    assert_eq!(
        format_summary(Some(summary), snap),
        "heap-oracle: events=9 chunks=5 allocated=3 freed=1 uaf=1 alerts=4 dropped=1",
    );
    assert_eq!(format_summary(None, snap), "heap-oracle: events=9 pending=2 dropped=1");
}

#[test]
fn colours_only_add_control_sequences() {
    let mut oracle = HeapOracle::new();
    let calls = vec![
        call(1, 0x10, 0, 8),
        call(2, 0x10, 0, 0),
        call(2, 0x10, 0, 0),
        call(2, 0x30, 0, 0),
        call(3, 0x20, 0x10, 9),
        call(5, 0x40, 0, 9),
        call(2, 0x40, 0, 9),
    ];
    let results = oracle.apply_batch(&calls, true);
    let coloured = trace_lines(&results, true);
    let plain = trace_lines(&results, false);
    assert_ne!(coloured, plain);
    assert_eq!(coloured.iter().map(|line| stripped(line)).collect::<Vec<_>>(), plain);
    let coloured = format_heap_state(&oracle, true);
    let plain = format_heap_state(&oracle, false);
    assert_ne!(coloured, plain);
    assert_eq!(coloured.iter().map(|line| stripped(line)).collect::<Vec<_>>(), plain);
}
