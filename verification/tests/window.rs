use heap_oracle::ipc::HeapEvent;
use heap_oracle::panel::{
    alert_panel_lines, bin_label, bin_panel_lines, block_for_state, chunk_line, format_chain,
    no_alerts_note, overview_labels, tone_for_state, total_labels, Label, Tone,
};
use heap_oracle::runtime::RuntimeSnapshot;
use heap_oracle::state::{
    BinType, ChunkState, HeapOracle, OracleAlert, OracleSummary, UafReason,
};

fn call(kind: u16, addr: u64, size: u64) -> HeapEvent {
    HeapEvent { kind, addr, size, ..HeapEvent::default() }
}

fn pairs(labels: Vec<Label>) -> Vec<(Tone, String)> {
    labels.into_iter().map(|label| (label.tone, label.text)).collect()
}

fn label(tone: Tone, text: &str) -> (Tone, String) {
    (tone, text.to_string())
}

#[test]
fn the_overview_shows_the_counters() {
    let snap = RuntimeSnapshot { consumed: 10, pending: 0, dropped: 3, ..RuntimeSnapshot::default() };
    let counters = vec![
        label(Tone::Plain, "events 10"),
        label(Tone::Plain, "pending 0"),
        label(Tone::Plain, "dropped 3"),
    ];
    assert_eq!(pairs(overview_labels(snap)), counters);
    let exited = RuntimeSnapshot { target_exited: true, target_status: -1, ..snap };
    let mut with_status = counters;
    with_status.push(label(Tone::Alarm, "target exited (-1)"));
    assert_eq!(pairs(overview_labels(exited)), with_status);
}

#[test]
fn the_totals_have_tones() {
    let summary = OracleSummary { total_chunks: 5, allocated: 2, freed: 1, uaf: 2, alerts: 128 };
    assert_eq!(
        pairs(total_labels(summary)),
        vec![
            label(Tone::Plain, "chunks 5"),
            label(Tone::Live, "allocated 2"),
            label(Tone::Idle, "freed 1"),
            label(Tone::Alarm, "uaf 2"),
            label(Tone::Plain, "alerts 128"),
        ],
    );
}

#[test]
fn chains_are_cut_at_ten() {
    assert_eq!(format_chain(&[]), "");
    assert_eq!(format_chain(&[0xab]), "0xab");
    assert_eq!(format_chain(&[1, 2]), "0x1 -> 0x2");
    let ten = "0x1 -> 0x2 -> 0x3 -> 0x4 -> 0x5 -> 0x6 -> 0x7 -> 0x8 -> 0x9 -> 0xa";
    assert_eq!(format_chain(&[1, 2, 3, 4, 5, 6, 7, 8, 9, 10]), ten);
    assert_eq!(format_chain(&[1, 2, 3, 4, 5, 6, 7, 8, 9, 10, 11]), format!("{ten} -> ..."));
    assert_eq!(format_chain(&[1, 2, 3, 4, 5, 6, 7, 8, 9, 10, 11, 12]), format!("{ten} -> ..."));
}

#[test]
fn only_bins_in_use_are_shown() {
    let mut oracle = HeapOracle::new();
    assert!(bin_panel_lines(&oracle).is_empty());
    for i in 1..=8u64 {
        oracle.apply_event(call(1, i * 0x20, 24));
    }
    oracle.apply_event(call(1, 0x900, 0xc0));
    for i in 1..=8u64 {
        oracle.apply_event(call(2, i * 0x20, 0));
    }
    oracle.apply_event(call(2, 0x900, 0));
    assert_eq!(
        bin_panel_lines(&oracle),
        vec![
            "tcache[00]: 0x20 -> 0x40 -> 0x60 -> 0x80 -> 0xa0 -> 0xc0 -> 0xe0",
            "tcache[11]: 0x900",
            "fastbin[00]: 0x100",
        ],
    );
    assert_eq!(bin_label(BinType::Smallbin(7)), "smallbin[7]");
}

#[test]
fn the_latest_alerts_come_first() {
    let alert = |n: u64| OracleAlert {
        addr: n * 0x10,
        reason: UafReason::InvalidFree,
        timestamp_ns: n,
    };
    assert!(alert_panel_lines(&Vec::new()).is_empty());
    assert_eq!(no_alerts_note(&Vec::new()), Some("No anomalies yet"));
    assert_eq!(no_alerts_note(&vec![alert(1)]), None);
    let few: Vec<OracleAlert> = (1..=2).map(alert).collect();
    assert_eq!(
        alert_panel_lines(&few),
        vec![
            "0x000000000020  invalid-free  @ 2 ns",
            "0x000000000010  invalid-free  @ 1 ns",
        ],
    );
    let many: Vec<OracleAlert> = (1..=20).map(alert).collect();
    let lines = alert_panel_lines(&many);
    assert_eq!(lines.len(), 16);
    assert_eq!(lines[0], "0x000000000140  invalid-free  @ 20 ns");
    assert_eq!(lines[15], "0x000000000050  invalid-free  @ 5 ns");
}

#[test]
fn states_have_blocks_and_tones() {
    let freed = ChunkState::Freed { bin: BinType::Largebin };
    let flagged = ChunkState::Uaf { reason: UafReason::DoubleFree };
    assert_eq!(block_for_state(ChunkState::Allocated), "██");
    assert_eq!(block_for_state(freed), "░░");
    assert_eq!(block_for_state(flagged), "!!");
    assert_eq!(tone_for_state(ChunkState::Allocated), Tone::Live);
    assert_eq!(tone_for_state(freed), Tone::Idle);
    assert_eq!(tone_for_state(flagged), Tone::Alarm);
}

#[test]
fn chunk_lines_name_the_state() {
    let mut oracle = HeapOracle::new();
    let mut traced = call(1, 0x10, 24);
    traced.stack_len = 1;
    traced.callstack[0] = 0x401136;
    oracle.apply_event(traced);
    assert_eq!(
        chunk_line(&oracle.chunks[&0x10]),
        "#0    0x000000000010 [0x0018] ALLOC @ 0x401136",
    );
    oracle.apply_event(call(2, 0x10, 0));
    assert_eq!(
        chunk_line(&oracle.chunks[&0x10]),
        "#0    0x000000000010 [0x0018] FREE  -> tcache[0] @ 0x401136",
    );
    oracle.apply_event(call(2, 0x7fff_ffff_ffff, 0));
    assert_eq!(
        chunk_line(&oracle.chunks[&0x7fff_ffff_ffff]),
        "#1    0x7fffffffffff [0x0000] UAF   (invalid-free)",
    );
}
