//! The text of the graphical monitor: what each label of its window says, and in
//! what tone.

use vstd::prelude::*;

use crate::model::OracleView;
use crate::runtime::RuntimeSnapshot;
use crate::state;
use crate::state::{BinType, ChunkRecord, ChunkState, HeapOracle, OracleAlert, OracleSummary};
use crate::text;

verus! {

/// How many addresses of a bin are shown.
pub const CHAIN_LIMIT: usize = 10;

/// How many alerts are shown.
pub const ALERTS_SHOWN: usize = 16;

/// What a label says about its subject, for the choice of a colour.
#[derive(Clone, Copy, Debug, PartialEq, Eq, Structural)]
pub enum Tone {
    Plain,
    Live,
    Idle,
    Alarm,
}

/// One label of the window.
pub struct Label {
    pub tone: Tone,
    pub text: String,
}

/// The tone and the text of each label.
pub open spec fn label_texts(labels: Seq<Label>) -> Seq<(Tone, Seq<char>)> {
    labels.map_values(|label: Label| (label.tone, label.text@))
}

/// Adds a label to a list of labels.
fn push_label(labels: &mut Vec<Label>, tone: Tone, text: String)
    ensures
        label_texts(final(labels)@) == label_texts(old(labels)@).push((tone, text@)),
{
    labels.push(Label { tone, text });
    assert(label_texts(labels@) =~= label_texts(old(labels)@).push((tone, text@)));
}

/// A name with a count behind it.
pub open spec fn counted(name: Seq<char>, count: nat) -> Seq<char> {
    name + text::dec(count)
}

fn counted_text(name: &str, count: u64) -> (s: String)
    ensures
        s@ == counted(name@, count as nat),
{
    let mut out = name.to_owned();
    text::push_dec(&mut out, count);
    out
}

/// The labels of the top row: the counters, and the target's status once it has
/// exited.
pub open spec fn overview(snap: RuntimeSnapshot) -> Seq<(Tone, Seq<char>)> {
    let counters = seq![
        (Tone::Plain, counted("events "@, snap.consumed as nat)),
        (Tone::Plain, counted("pending "@, snap.pending as nat)),
        (Tone::Plain, counted("dropped "@, snap.dropped as nat)),
    ];
    if snap.target_exited {
        counters.push(
            (
                Tone::Alarm,
                "target exited ("@ + text::dec_int(snap.target_status as int) + ")"@,
            ),
        )
    } else {
        counters
    }
}

pub fn overview_labels(snap: RuntimeSnapshot) -> (labels: Vec<Label>)
    ensures
        label_texts(labels@) == overview(snap),
{
    let mut labels: Vec<Label> = Vec::new();
    push_label(&mut labels, Tone::Plain, counted_text("events ", snap.consumed));
    push_label(&mut labels, Tone::Plain, counted_text("pending ", snap.pending));
    push_label(&mut labels, Tone::Plain, counted_text("dropped ", snap.dropped));
    if snap.target_exited {
        let mut out = "target exited (".to_owned();
        text::push_dec_int(&mut out, snap.target_status);
        out.append(")");
        push_label(&mut labels, Tone::Alarm, out);
    }
    assert(label_texts(labels@) =~= overview(snap));
    labels
}

/// The labels of the totals.
pub open spec fn totals(summary: OracleSummary) -> Seq<(Tone, Seq<char>)> {
    seq![
        (Tone::Plain, counted("chunks "@, summary.total_chunks as nat)),
        (Tone::Live, counted("allocated "@, summary.allocated as nat)),
        (Tone::Idle, counted("freed "@, summary.freed as nat)),
        (Tone::Alarm, counted("uaf "@, summary.uaf as nat)),
        (Tone::Plain, counted("alerts "@, summary.alerts as nat)),
    ]
}

pub fn total_labels(summary: OracleSummary) -> (labels: Vec<Label>)
    ensures
        label_texts(labels@) == totals(summary),
{
    let mut labels: Vec<Label> = Vec::new();
    push_label(&mut labels, Tone::Plain, counted_text("chunks ", summary.total_chunks as u64));
    push_label(&mut labels, Tone::Live, counted_text("allocated ", summary.allocated as u64));
    push_label(&mut labels, Tone::Idle, counted_text("freed ", summary.freed as u64));
    push_label(&mut labels, Tone::Alarm, counted_text("uaf ", summary.uaf as u64));
    push_label(&mut labels, Tone::Plain, counted_text("alerts ", summary.alerts as u64));
    assert(label_texts(labels@) =~= totals(summary));
    labels
}

////////////////////////////////////////////////////////////////////////////////
// Bins
////////////////////////////////////////////////////////////////////////////////
/// The addresses of a list as they are shown.
pub open spec fn hex_parts(list: Seq<u64>) -> Seq<Seq<char>> {
    list.map_values(|addr: u64| text::hex0x(addr as nat))
}

/// The addresses of a bin, the one freed first first, and dots for those beyond the
/// limit.
pub open spec fn chain(list: Seq<u64>) -> Seq<char> {
    if list.len() > CHAIN_LIMIT {
        text::joined(hex_parts(list.take(CHAIN_LIMIT as int)), " -> "@) + " -> ..."@
    } else {
        text::joined(hex_parts(list), " -> "@)
    }
}

pub fn format_chain(bin: &[u64]) -> (s: String)
    ensures
        s@ == chain(bin@),
{
    let mut line = String::new();
    let mut idx: usize = 0;
    assert(hex_parts(bin@.take(0)) =~= Seq::empty());
    while idx < bin.len() && idx < CHAIN_LIMIT
        invariant
            idx <= bin@.len(),
            idx <= CHAIN_LIMIT,
            line@ == text::joined(hex_parts(bin@.take(idx as int)), " -> "@),
        decreases bin@.len() - idx,
    {
        proof {
            let parts = hex_parts(bin@.take(idx + 1));
            assert(parts.drop_last() =~= hex_parts(bin@.take(idx as int)));
            assert(parts.last() == text::hex0x(bin@[idx as int] as nat));
        }
        if idx > 0 {
            line.append(" -> ");
        }
        text::push_hex0x(&mut line, bin[idx]);
        idx += 1;
        assert(line@ =~= text::joined(hex_parts(bin@.take(idx as int)), " -> "@));
    }
    if bin.len() > CHAIN_LIMIT {
        line.append(" -> ...");
    } else {
        assert(bin@.take(idx as int) =~= bin@);
    }
    line
}

/// The line of a bin.
pub open spec fn bin_entry(name: Seq<char>, idx: nat, list: Seq<u64>) -> Seq<char> {
    name + "["@ + text::zero_fill(text::dec(idx), 2) + "]: "@ + chain(list)
}

/// The lines of those of the bins that hold something.
pub open spec fn bin_entries(name: Seq<char>, lists: Seq<Seq<u64>>) -> Seq<Seq<char>>
    decreases lists.len(),
{
    if lists.len() == 0 {
        Seq::empty()
    } else {
        let before = bin_entries(name, lists.drop_last());
        if lists.last().len() == 0 {
            before
        } else {
            before.push(bin_entry(name, (lists.len() - 1) as nat, lists.last()))
        }
    }
}

fn bin_entry_lines(name: &str, lists: &[Vec<u64>]) -> (lines: Vec<String>)
    ensures
        text::texts(lines@) == bin_entries(
            name@,
            lists@.map_values(|list: Vec<u64>| list@),
        ),
{
    let ghost all = lists@.map_values(|list: Vec<u64>| list@);
    let mut lines: Vec<String> = Vec::new();
    let mut idx: usize = 0;
    assert(all.take(0) =~= Seq::empty());
    assert(text::texts(lines@) =~= Seq::empty());
    while idx < lists.len()
        invariant
            idx <= lists@.len(),
            all == lists@.map_values(|list: Vec<u64>| list@),
            text::texts(lines@) == bin_entries(name@, all.take(idx as int)),
        decreases lists@.len() - idx,
    {
        proof {
            assert(all.take(idx + 1).drop_last() =~= all.take(idx as int));
        }
        let list = &lists[idx];
        if list.len() > 0 {
            let mut out = name.to_owned();
            out.append("[");
            text::push_dec_fill(&mut out, idx as u64, 2);
            out.append("]: ");
            out.append(format_chain(list.as_slice()).as_str());
            text::push_line(&mut lines, out);
        }
        idx += 1;
    }
    assert(all.take(idx as int) =~= all);
    lines
}

/// The lines of the bin panel: the thread cache, then the fast bins.
pub open spec fn bin_panel(view: OracleView) -> Seq<Seq<char>> {
    bin_entries("tcache"@, view.tcache) + bin_entries("fastbin"@, view.fastbins)
}

pub fn bin_panel_lines(oracle: &HeapOracle) -> (lines: Vec<String>)
    ensures
        text::texts(lines@) == bin_panel(oracle@),
{
    let mut lines = bin_entry_lines("tcache", oracle.tcache.as_slice());
    text::push_lines(&mut lines, bin_entry_lines("fastbin", oracle.fastbins.as_slice()));
    lines
}

/// The name of a bin on a label.
pub fn bin_label(bin: BinType) -> (s: String)
    ensures
        s@ == state::bin_text(bin),
{
    bin.to_string()
}

////////////////////////////////////////////////////////////////////////////////
// Alerts
////////////////////////////////////////////////////////////////////////////////
/// The line of an alert.
pub open spec fn alert_entry(alert: OracleAlert) -> Seq<char> {
    text::hex0x_fill(alert.addr as nat, 14) + "  "@ + state::reason_text(alert.reason) + "  @ "@
        + text::dec(alert.timestamp_ns as nat) + " ns"@
}

/// How many of `total` alerts are shown.
pub open spec fn alerts_shown(total: nat) -> nat {
    if total < ALERTS_SHOWN {
        total
    } else {
        ALERTS_SHOWN as nat
    }
}

/// The lines of the alert panel: the latest alerts, newest first.
pub open spec fn alert_panel(alerts: Seq<OracleAlert>) -> Seq<Seq<char>> {
    Seq::new(alerts_shown(alerts.len()), |i: int| alert_entry(alerts[alerts.len() - 1 - i]))
}

fn alert_entry_text(alert: OracleAlert) -> (s: String)
    ensures
        s@ == alert_entry(alert),
{
    let mut out = String::new();
    text::push_hex0x_fill(&mut out, alert.addr, 14);
    assert(out@ =~= text::hex0x_fill(alert.addr as nat, 14));
    out.append("  ");
    out.append(alert.reason.to_string().as_str());
    out.append("  @ ");
    text::push_dec(&mut out, alert.timestamp_ns);
    out.append(" ns");
    out
}

pub fn alert_panel_lines(alerts: &Vec<OracleAlert>) -> (lines: Vec<String>)
    ensures
        text::texts(lines@) == alert_panel(alerts@),
{
    let mut lines: Vec<String> = Vec::new();
    let mut shown: usize = 0;
    while shown < alerts.len() && shown < ALERTS_SHOWN
        invariant
            shown <= alerts_shown(alerts@.len()),
            text::texts(lines@) =~= alert_panel(alerts@).take(shown as int),
        decreases alerts@.len() - shown,
    {
        text::push_line(&mut lines, alert_entry_text(alerts[alerts.len() - 1 - shown]));
        shown += 1;
    }
    lines
}

/// What the alert panel says in place of alerts where there are none.
pub fn no_alerts_note(alerts: &Vec<OracleAlert>) -> (note: Option<&'static str>)
    ensures
        note is Some <==> alerts@.len() == 0,
        note matches Some(s) ==> s@ == "No anomalies yet"@,
{
    if alerts.len() == 0 {
        Some("No anomalies yet")
    } else {
        None
    }
}

////////////////////////////////////////////////////////////////////////////////
// Chunks
////////////////////////////////////////////////////////////////////////////////
/// The block that stands for a state.
pub open spec fn state_block(chunk_state: ChunkState) -> Seq<char> {
    match chunk_state {
        ChunkState::Allocated => "\u{2588}\u{2588}"@,
        ChunkState::Freed { .. } => "\u{2591}\u{2591}"@,
        ChunkState::Uaf { .. } => "!!"@,
    }
}

pub fn block_for_state(chunk_state: ChunkState) -> (s: &'static str)
    ensures
        s@ == state_block(chunk_state),
{
    match chunk_state {
        ChunkState::Allocated => "\u{2588}\u{2588}",
        ChunkState::Freed { .. } => "\u{2591}\u{2591}",
        ChunkState::Uaf { .. } => "!!",
    }
}

/// The tone of a state.
pub open spec fn state_tone(chunk_state: ChunkState) -> Tone {
    match chunk_state {
        ChunkState::Allocated => Tone::Live,
        ChunkState::Freed { .. } => Tone::Idle,
        ChunkState::Uaf { .. } => Tone::Alarm,
    }
}

pub fn tone_for_state(chunk_state: ChunkState) -> (tone: Tone)
    ensures
        tone == state_tone(chunk_state),
{
    match chunk_state {
        ChunkState::Allocated => Tone::Live,
        ChunkState::Freed { .. } => Tone::Idle,
        ChunkState::Uaf { .. } => Tone::Alarm,
    }
}

/// A state in words.
pub open spec fn state_words(chunk_state: ChunkState) -> Seq<char> {
    match chunk_state {
        ChunkState::Allocated => "ALLOC"@,
        ChunkState::Freed { bin } => "FREE "@ + " -> "@ + state::bin_text(bin),
        ChunkState::Uaf { reason } => "UAF  "@ + " ("@ + state::reason_text(reason) + ")"@,
    }
}

/// The innermost frame of an allocation, if it has one.
pub open spec fn frame_note(record: ChunkRecord) -> Seq<char> {
    if record.alloc_stack.len > 0 {
        " @ "@ + text::hex0x(record.alloc_stack.frames@[0] as nat)
    } else {
        Seq::empty()
    }
}

/// The line of a record.
pub open spec fn chunk_entry(record: ChunkRecord) -> Seq<char> {
    "#"@ + text::pad_right(text::dec(record.index as nat), 4) + " "@ + text::hex0x_fill(
        record.addr as nat,
        14,
    ) + " ["@ + text::hex0x_fill(record.size as nat, 6) + "] "@ + state_words(record.state)
        + frame_note(record)
}

fn state_words_text(chunk_state: ChunkState) -> (s: String)
    ensures
        s@ == state_words(chunk_state),
{
    match chunk_state {
        ChunkState::Allocated => "ALLOC".to_owned(),
        ChunkState::Freed { bin } => {
            let mut out = "FREE ".to_owned();
            out.append(" -> ");
            out.append(bin_label(bin).as_str());
            out
        },
        ChunkState::Uaf { reason } => {
            let mut out = "UAF  ".to_owned();
            out.append(" (");
            out.append(reason.to_string().as_str());
            out.append(")");
            out
        },
    }
}

/// The line of a record.
pub fn chunk_line(record: &ChunkRecord) -> (s: String)
    ensures
        s@ == chunk_entry(*record),
{
    let mut out = "#".to_owned();
    text::push_padded(&mut out, text::dec_string(record.index as u64).as_str(), 4);
    out.append(" ");
    text::push_hex0x_fill(&mut out, record.addr, 14);
    out.append(" [");
    text::push_hex0x_fill(&mut out, record.size as u64, 6);
    out.append("] ");
    out.append(state_words_text(record.state).as_str());
    let ghost before = out@;
    match record.alloc_stack.first_frame() {
        Some(frame) => {
            let mut note = " @ ".to_owned();
            text::push_hex0x(&mut note, frame);
            out.append(note.as_str());
        },
        None => {
            assert(out@ =~= before + frame_note(*record));
        },
    }
    out
}

} // verus!
