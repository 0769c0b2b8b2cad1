//! The text of the command line monitor: one line per event, the table of the heap
//! at the end, and the closing summary.

use std::collections::HashMap;

use vstd::prelude::*;

use crate::ipc;
use crate::ipc::{EventKind, HeapEvent};
use crate::listing;
use crate::model::OracleView;
use crate::runtime::RuntimeSnapshot;
use crate::state;
use crate::state::{
    ApplyResult, ChunkRecord, ChunkState, HeapOracle, OracleAlert, OracleSummary,
};
use crate::text;

verus! {

/// The control sequences of the colours in use.
pub struct Palette {
    pub green: &'static str,
    pub red: &'static str,
    pub yellow: &'static str,
    pub cyan: &'static str,
    pub magenta: &'static str,
    pub bright_red: &'static str,
    pub dim: &'static str,
    pub reset: &'static str,
}

/// The texts of a palette.
pub struct Colors {
    pub green: Seq<char>,
    pub red: Seq<char>,
    pub yellow: Seq<char>,
    pub cyan: Seq<char>,
    pub magenta: Seq<char>,
    pub bright_red: Seq<char>,
    pub dim: Seq<char>,
    pub reset: Seq<char>,
}

impl View for Palette {
    type V = Colors;

    open spec fn view(&self) -> Colors {
        Colors {
            green: self.green@,
            red: self.red@,
            yellow: self.yellow@,
            cyan: self.cyan@,
            magenta: self.magenta@,
            bright_red: self.bright_red@,
            dim: self.dim@,
            reset: self.reset@,
        }
    }
}

/// The colours of the output: ANSI sequences, or nothing at all.
pub open spec fn colors(enabled: bool) -> Colors {
    if enabled {
        Colors {
            green: "\x1b[32m"@,
            red: "\x1b[31m"@,
            yellow: "\x1b[33m"@,
            cyan: "\x1b[36m"@,
            magenta: "\x1b[35m"@,
            bright_red: "\x1b[1;91m"@,
            dim: "\x1b[2m"@,
            reset: "\x1b[0m"@,
        }
    } else {
        Colors {
            green: ""@,
            red: ""@,
            yellow: ""@,
            cyan: ""@,
            magenta: ""@,
            bright_red: ""@,
            dim: ""@,
            reset: ""@,
        }
    }
}

pub fn ansi(enabled: bool) -> (palette: Palette)
    ensures
        palette@ == colors(enabled),
{
    if enabled {
        Palette {
            green: "\x1b[32m",
            red: "\x1b[31m",
            yellow: "\x1b[33m",
            cyan: "\x1b[36m",
            magenta: "\x1b[35m",
            bright_red: "\x1b[1;91m",
            dim: "\x1b[2m",
            reset: "\x1b[0m",
        }
    } else {
        Palette {
            green: "",
            red: "",
            yellow: "",
            cyan: "",
            magenta: "",
            bright_red: "",
            dim: "",
            reset: "",
        }
    }
}

////////////////////////////////////////////////////////////////////////////////
// Event lines
////////////////////////////////////////////////////////////////////////////////
/// The chunk number of an event line.
pub open spec fn index_column(index: Option<usize>) -> Seq<char> {
    match index {
        Some(i) => "#"@ + text::pad_right(text::dec(i as nat), 4),
        None => "??   "@,
    }
}

/// The chunk size of an event line.
pub open spec fn size_note(size: Option<usize>, c: Colors) -> Seq<char> {
    match size {
        Some(s) => " "@ + c.dim + "(0x"@ + text::hex(s as nat) + ")"@ + c.reset,
        None => Seq::empty(),
    }
}

/// The mark at the start of an event line.
pub open spec fn event_mark(kind: EventKind, flagged: bool, c: Colors) -> Seq<char> {
    if flagged {
        c.bright_red + "[!]"@ + c.reset
    } else {
        match kind {
            EventKind::Free => c.red + "[-]"@ + c.reset,
            EventKind::Realloc => c.yellow + "[*]"@ + c.reset,
            _ => c.green + "[+]"@ + c.reset,
        }
    }
}

/// The call of an event line.
pub open spec fn event_call(e: HeapEvent, size: Option<usize>, c: Colors) -> Seq<char> {
    match ipc::kind_of(e.kind) {
        EventKind::Free => " free    "@ + size_note(size, c) + "  "@ + c.cyan + text::hex0x(
            e.addr as nat,
        ) + c.reset,
        EventKind::Realloc => " realloc  "@ + c.yellow + "0x"@ + text::hex(e.size as nat) + c.reset
            + size_note(size, c) + "  "@ + c.cyan + text::hex0x(e.addr as nat) + c.reset + " "@
            + c.dim + "<-"@ + c.reset + " "@ + c.cyan + text::hex0x(e.aux_addr as nat) + c.reset,
        kind => " "@ + text::pad_right(ipc::kind_text(kind), 8) + " "@ + c.yellow + "0x"@
            + text::hex(e.size as nat) + c.reset + size_note(size, c) + "  "@ + c.cyan
            + text::hex0x(e.addr as nat) + c.reset,
    }
}

/// The bin and the alert at the end of an event line.
pub open spec fn event_outcome(result: ApplyResult, c: Colors) -> Seq<char> {
    let bin = match result.bin {
        Some(bin) => "  "@ + c.magenta + "-> "@ + state::bin_text(bin) + c.reset,
        None => Seq::empty(),
    };
    let alert = match result.alert {
        Some(alert) => "  "@ + c.bright_red + "<< "@ + state::reason_text(alert.reason) + c.reset,
        None => Seq::empty(),
    };
    bin + alert
}

/// The line for one event, or `None` for a free of nothing and an event of an
/// unknown kind, which are passed over.
pub open spec fn event_line(e: HeapEvent, result: ApplyResult, color: bool) -> Option<Seq<char>> {
    let kind = ipc::kind_of(e.kind);
    let c = colors(color);
    if kind == EventKind::Invalid || kind == EventKind::Free && e.addr == 0 {
        None
    } else {
        Some(
            event_mark(kind, result.alert is Some, c) + " "@ + c.cyan + index_column(
                result.chunk_index,
            ) + c.reset + event_call(e, result.chunk_size, c) + event_outcome(result, c),
        )
    }
}

fn push_size_note(out: &mut String, size: Option<usize>, p: &Palette)
    ensures
        final(out)@ == old(out)@ + size_note(size, p@),
{
    if let Some(s) = size {
        out.append(" ");
        out.append(p.dim);
        out.append("(0x");
        text::push_hex(out, s as u64);
        out.append(")");
        out.append(p.reset);
    }
    assert(out@ =~= old(out)@ + size_note(size, p@));
}

fn event_call_text(event: HeapEvent, size: Option<usize>, p: &Palette) -> (s: String)
    ensures
        s@ == event_call(event, size, p@),
{
    let kind = event.kind();
    match kind {
        EventKind::Free => {
            let mut out = " free    ".to_owned();
            push_size_note(&mut out, size, p);
            out.append("  ");
            out.append(p.cyan);
            text::push_hex0x(&mut out, event.addr);
            out.append(p.reset);
            out
        },
        EventKind::Realloc => {
            let mut out = " realloc  ".to_owned();
            out.append(p.yellow);
            out.append("0x");
            text::push_hex(&mut out, event.size);
            out.append(p.reset);
            push_size_note(&mut out, size, p);
            out.append("  ");
            out.append(p.cyan);
            text::push_hex0x(&mut out, event.addr);
            out.append(p.reset);
            out.append(" ");
            out.append(p.dim);
            out.append("<-");
            out.append(p.reset);
            out.append(" ");
            out.append(p.cyan);
            text::push_hex0x(&mut out, event.aux_addr);
            out.append(p.reset);
            out
        },
        _ => {
            let mut out = " ".to_owned();
            text::push_padded(&mut out, kind.as_str(), 8);
            out.append(" ");
            out.append(p.yellow);
            out.append("0x");
            text::push_hex(&mut out, event.size);
            out.append(p.reset);
            push_size_note(&mut out, size, p);
            out.append("  ");
            out.append(p.cyan);
            text::push_hex0x(&mut out, event.addr);
            out.append(p.reset);
            out
        },
    }
}

fn push_event_outcome(out: &mut String, result: ApplyResult, p: &Palette)
    ensures
        final(out)@ == old(out)@ + event_outcome(result, p@),
{
    if let Some(bin) = result.bin {
        out.append("  ");
        out.append(p.magenta);
        out.append("-> ");
        out.append(bin.to_string().as_str());
        out.append(p.reset);
    }
    if let Some(alert) = result.alert {
        out.append("  ");
        out.append(p.bright_red);
        out.append("<< ");
        out.append(alert.reason.to_string().as_str());
        out.append(p.reset);
    }
    assert(out@ =~= old(out)@ + event_outcome(result, p@));
}

pub fn format_event_line(event: HeapEvent, result: ApplyResult, color: bool) -> (line: Option<
    String,
>)
    ensures
        line is Some <==> event_line(event, result, color) is Some,
        line matches Some(s) ==> event_line(event, result, color) == Some(s@),
{
    let kind = event.kind();
    if kind == EventKind::Free && event.addr == 0 {
        return None;
    }
    if kind == EventKind::Invalid {
        return None;
    }
    let p = ansi(color);
    let (mark_color, mark): (&str, &str) = if result.alert.is_some() {
        (p.bright_red, "[!]")
    } else {
        match kind {
            EventKind::Free => (p.red, "[-]"),
            EventKind::Realloc => (p.yellow, "[*]"),
            _ => (p.green, "[+]"),
        }
    };
    let mut out = mark_color.to_owned();
    out.append(mark);
    out.append(p.reset);
    out.append(" ");
    out.append(p.cyan);
    match result.chunk_index {
        Some(i) => {
            let mut column = "#".to_owned();
            text::push_padded(&mut column, text::dec_string(i as u64).as_str(), 4);
            out.append(column.as_str());
        },
        None => {
            out.append("??   ");
        },
    }
    out.append(p.reset);
    out.append(event_call_text(event, result.chunk_size, &p).as_str());
    push_event_outcome(&mut out, result, &p);
    Some(out)
}

/// The lines for a sequence of events and their results.
pub open spec fn trace(results: Seq<(HeapEvent, ApplyResult)>, color: bool) -> Seq<Seq<char>>
    decreases results.len(),
{
    if results.len() == 0 {
        Seq::empty()
    } else {
        let before = trace(results.drop_last(), color);
        match event_line(results.last().0, results.last().1, color) {
            Some(line) => before.push(line),
            None => before,
        }
    }
}

pub fn trace_lines(results: &Vec<(HeapEvent, ApplyResult)>, color: bool) -> (lines: Vec<String>)
    ensures
        text::texts(lines@) == trace(results@, color),
{
    let mut lines: Vec<String> = Vec::new();
    let mut i: usize = 0;
    assert(results@.take(0) =~= Seq::empty());
    assert(text::texts(lines@) =~= Seq::empty());
    while i < results.len()
        invariant
            i <= results@.len(),
            text::texts(lines@) == trace(results@.take(i as int), color),
        decreases results@.len() - i,
    {
        let (event, result) = results[i];
        proof {
            assert(results@.take(i + 1).drop_last() =~= results@.take(i as int));
        }
        if let Some(line) = format_event_line(event, result, color) {
            text::push_line(&mut lines, line);
        }
        i += 1;
    }
    assert(results@.take(i as int) =~= results@);
    lines
}

////////////////////////////////////////////////////////////////////////////////
// The table of the heap
////////////////////////////////////////////////////////////////////////////////
/// How wide the rules of the table are.
pub const RULE_WIDTH: usize = 55;

/// A rule across the table.
pub open spec fn rule(c: Colors) -> Seq<char> {
    c.dim + text::run_of('\u{2500}', RULE_WIDTH as nat) + c.reset
}

/// A title between two rules, below an empty line.
pub open spec fn heading(title: Seq<char>, c: Colors) -> Seq<Seq<char>> {
    seq!["\n"@ + rule(c), title, rule(c)]
}

/// The state of a record in the table.
pub open spec fn state_column(chunk_state: ChunkState, c: Colors) -> Seq<char> {
    match chunk_state {
        ChunkState::Allocated => c.green + "ALLOC"@ + c.reset,
        ChunkState::Freed { bin } => c.dim + "FREE "@ + c.reset + "  "@ + c.magenta
            + state::bin_text(bin) + c.reset,
        ChunkState::Uaf { reason } => c.bright_red + "UAF  "@ + c.reset + "  "@ + c.bright_red
            + state::reason_text(reason) + c.reset,
    }
}

/// The row of a record.
pub open spec fn chunk_row(record: ChunkRecord, c: Colors) -> Seq<char> {
    " "@ + c.cyan + text::pad_right("#"@ + text::dec(record.index as nat), 5) + c.reset + " "@
        + text::hex0x_fill(record.addr as nat, 14) + "   "@ + text::hex0x_fill(
        record.size as nat,
        6,
    ) + "   "@ + text::hex0x_fill(state::chunk_size_of(record.size) as nat, 6) + "  "@
        + state_column(record.state, c)
}

/// One chunk of a bin chain: its number, or its address where it has none.
pub open spec fn chain_part(addr: u64, indices: Map<u64, usize>) -> Seq<char> {
    if indices.contains_key(addr) {
        "#"@ + text::dec(indices[addr] as nat)
    } else {
        text::hex0x(addr as nat)
    }
}

/// The chunks of a bin chain, the one freed last first.
pub open spec fn chain_parts(list: Seq<u64>, indices: Map<u64, usize>) -> Seq<Seq<char>> {
    Seq::new(list.len(), |i: int| chain_part(list[list.len() - 1 - i], indices))
}

/// A bin chain.
pub open spec fn bin_chain(list: Seq<u64>, indices: Map<u64, usize>) -> Seq<char> {
    text::joined(chain_parts(list, indices), " \u{2192} "@)
}

/// The indices of the records, by address.
pub open spec fn indices_of(chunks: Map<u64, ChunkRecord>) -> Map<u64, usize> {
    Map::new(|addr: u64| chunks.contains_key(addr), |addr: u64| chunks[addr].index)
}

/// The row of a bin.
pub open spec fn bin_row(
    name: Seq<char>,
    idx: nat,
    list: Seq<u64>,
    indices: Map<u64, usize>,
    c: Colors,
) -> Seq<char> {
    " "@ + c.magenta + name + "["@ + text::zero_fill(text::dec(idx), 2) + "]"@ + c.reset + " (0x"@
        + text::hex((idx + 2) * 0x10) + "): "@ + bin_chain(list, indices)
}

/// The rows of those of the bins that hold something.
pub open spec fn bin_rows(
    name: Seq<char>,
    lists: Seq<Seq<u64>>,
    indices: Map<u64, usize>,
    c: Colors,
) -> Seq<Seq<char>>
    decreases lists.len(),
{
    if lists.len() == 0 {
        Seq::empty()
    } else {
        let before = bin_rows(name, lists.drop_last(), indices, c);
        if lists.last().len() == 0 {
            before
        } else {
            before.push(bin_row(name, (lists.len() - 1) as nat, lists.last(), indices, c))
        }
    }
}

/// The row of an alert.
pub open spec fn alert_row(alert: OracleAlert, c: Colors) -> Seq<char> {
    " "@ + c.bright_red + text::hex0x_fill(alert.addr as nat, 14) + "  "@ + state::reason_text(
        alert.reason,
    ) + c.reset
}

/// A titled part of the table, which is left out when it has no rows.
pub open spec fn section(title: Seq<char>, rows: Seq<Seq<char>>, c: Colors) -> Seq<Seq<char>> {
    if rows.len() == 0 {
        Seq::empty()
    } else {
        heading(title, c) + rows
    }
}

/// The table of the heap, line by line: all records in the order of their indices,
/// the bins that hold something, and the alerts. An oracle without records has none.
pub open spec fn heap_table(view: OracleView, color: bool) -> Seq<Seq<char>> {
    let c = colors(color);
    let indices = indices_of(view.chunks);
    let records = listing::by_index(view.chunks).map_values(|r: ChunkRecord| chunk_row(r, c));
    let bins = bin_rows("tcache"@, view.tcache, indices, c) + bin_rows(
        "fastbin"@,
        view.fastbins,
        indices,
        c,
    );
    let alerts = view.alerts.map_values(|a: OracleAlert| alert_row(a, c));
    if records.len() == 0 {
        Seq::empty()
    } else {
        section(
            c.cyan + " #     Address          Req     Chunk   State"@ + c.reset,
            records,
            c,
        ) + section(c.magenta + " Bin Chains"@ + c.reset, bins, c) + section(
            c.bright_red + " Alerts"@ + c.reset,
            alerts,
            c,
        ) + seq![rule(c)]
    }
}

fn rule_line(p: &Palette) -> (s: String)
    ensures
        s@ == rule(p@),
{
    let mut out = p.dim.to_owned();
    proof {
        reveal_strlit("\u{2500}");
    }
    text::push_run(&mut out, "\u{2500}", RULE_WIDTH);
    out.append(p.reset);
    out
}

/// Adds a titled part of the table.
fn push_section(lines: &mut Vec<String>, color: &str, title: &str, rows: Vec<String>, p: &Palette)
    ensures
        text::texts(final(lines)@) == text::texts(old(lines)@) + section(
            color@ + title@ + p@.reset,
            text::texts(rows@),
            p@,
        ),
{
    let ghost before = text::texts(lines@);
    let ghost added = text::texts(rows@);
    if rows.len() > 0 {
        let mut top = "\n".to_owned();
        top.append(rule_line(p).as_str());
        text::push_line(lines, top);
        let mut caption = color.to_owned();
        caption.append(title);
        caption.append(p.reset);
        text::push_line(lines, caption);
        text::push_line(lines, rule_line(p));
        text::push_lines(lines, rows);
    }
    assert(text::texts(lines@) =~= before + section(color@ + title@ + p@.reset, added, p@));
}

fn state_text(chunk_state: ChunkState, p: &Palette) -> (s: String)
    ensures
        s@ == state_column(chunk_state, p@),
{
    match chunk_state {
        ChunkState::Allocated => {
            let mut out = p.green.to_owned();
            out.append("ALLOC");
            out.append(p.reset);
            out
        },
        ChunkState::Freed { bin } => {
            let mut out = p.dim.to_owned();
            out.append("FREE ");
            out.append(p.reset);
            out.append("  ");
            out.append(p.magenta);
            out.append(bin.to_string().as_str());
            out.append(p.reset);
            out
        },
        ChunkState::Uaf { reason } => {
            let mut out = p.bright_red.to_owned();
            out.append("UAF  ");
            out.append(p.reset);
            out.append("  ");
            out.append(p.bright_red);
            out.append(reason.to_string().as_str());
            out.append(p.reset);
            out
        },
    }
}

fn chunk_line(record: &ChunkRecord, p: &Palette) -> (s: String)
    ensures
        s@ == chunk_row(*record, p@),
{
    let chunk_size: usize = state::glibc_chunk_size(record.size);
    let mut number = "#".to_owned();
    text::push_dec(&mut number, record.index as u64);
    let mut out = " ".to_owned();
    out.append(p.cyan);
    text::push_padded(&mut out, number.as_str(), 5);
    out.append(p.reset);
    out.append(" ");
    text::push_hex0x_fill(&mut out, record.addr, 14);
    out.append("   ");
    text::push_hex0x_fill(&mut out, record.size as u64, 6);
    out.append("   ");
    text::push_hex0x_fill(&mut out, chunk_size as u64, 6);
    out.append("  ");
    out.append(state_text(record.state, p).as_str());
    out
}

fn chain_part_text(addr: u64, indices: &HashMap<u64, usize>) -> (s: String)
    ensures
        s@ == chain_part(addr, indices@),
{
    match indices.get(&addr) {
        Some(index) => {
            let mut out = "#".to_owned();
            text::push_dec(&mut out, *index as u64);
            out
        },
        None => {
            let mut out = "0x".to_owned();
            text::push_hex(&mut out, addr);
            out
        },
    }
}

pub fn format_bin_chain(bin: &[u64], addr_to_index: &HashMap<u64, usize>) -> (s: String)
    ensures
        s@ == bin_chain(bin@, addr_to_index@),
{
    let ghost parts = chain_parts(bin@, addr_to_index@);
    let mut out = String::new();
    let mut done: usize = 0;
    assert(parts.take(0) =~= Seq::empty());
    while done < bin.len()
        invariant
            done <= bin@.len(),
            parts == chain_parts(bin@, addr_to_index@),
            out@ == text::joined(parts.take(done as int), " \u{2192} "@),
        decreases bin@.len() - done,
    {
        let part = chain_part_text(bin[bin.len() - 1 - done], addr_to_index);
        proof {
            assert(parts.take(done + 1).drop_last() =~= parts.take(done as int));
            assert(parts.take(done + 1).last() == part@);
        }
        if done > 0 {
            out.append(" \u{2192} ");
        }
        out.append(part.as_str());
        done += 1;
        assert(out@ =~= text::joined(parts.take(done as int), " \u{2192} "@));
    }
    assert(parts.take(done as int) =~= parts);
    out
}

/// The row of a bin.
fn bin_line(name: &str, idx: usize, list: &Vec<u64>, indices: &HashMap<u64, usize>, p: &Palette) -> (s:
    String)
    requires
        idx < 1000,
    ensures
        s@ == bin_row(name@, idx as nat, list@, indices@, p@),
{
    let mut out = " ".to_owned();
    out.append(p.magenta);
    out.append(name);
    out.append("[");
    text::push_dec_fill(&mut out, idx as u64, 2);
    out.append("]");
    out.append(p.reset);
    out.append(" (0x");
    text::push_hex(&mut out, (idx as u64 + 2) * 0x10);
    out.append("): ");
    out.append(format_bin_chain(list.as_slice(), indices).as_str());
    out
}

/// The contents of a row of lists.
pub open spec fn lists_of(lists: Seq<Vec<u64>>) -> Seq<Seq<u64>> {
    lists.map_values(|list: Vec<u64>| list@)
}

/// The rows of those of the bins that hold something.
fn bin_lines(name: &str, lists: &[Vec<u64>], indices: &HashMap<u64, usize>, p: &Palette) -> (rows:
    Vec<String>)
    requires
        lists@.len() <= 1000,
    ensures
        text::texts(rows@) == bin_rows(name@, lists_of(lists@), indices@, p@),
{
    let ghost all = lists_of(lists@);
    let mut rows: Vec<String> = Vec::new();
    let mut idx: usize = 0;
    assert(all.take(0) =~= Seq::empty());
    assert(text::texts(rows@) =~= Seq::empty());
    while idx < lists.len()
        invariant
            idx <= lists@.len() <= 1000,
            all == lists_of(lists@),
            text::texts(rows@) == bin_rows(name@, all.take(idx as int), indices@, p@),
        decreases lists@.len() - idx,
    {
        proof {
            assert(all.take(idx + 1).drop_last() =~= all.take(idx as int));
        }
        if lists[idx].len() > 0 {
            text::push_line(&mut rows, bin_line(name, idx, &lists[idx], indices, p));
        }
        idx += 1;
    }
    assert(all.take(idx as int) =~= all);
    rows
}

/// The indices of the records, by address.
fn index_map(records: &Vec<&ChunkRecord>, Ghost(chunks): Ghost<Map<u64, ChunkRecord>>) -> (indices:
    HashMap<u64, usize>)
    requires
        listing::keyed(chunks),
        listing::is_listing(records@.unref(), chunks),
    ensures
        indices@ == indices_of(chunks),
{
    let ghost listed = records@.unref();
    let mut indices: HashMap<u64, usize> = HashMap::new();
    let mut i: usize = 0;
    while i < records.len()
        invariant
            i <= records@.len(),
            listed == records@.unref(),
            listing::keyed(chunks),
            listing::is_listing(listed, chunks),
            forall|addr: u64| #[trigger]
                indices@.contains_key(addr) ==> chunks.contains_key(addr) && indices@[addr]
                    == chunks[addr].index,
            forall|k: int| 0 <= k < i ==> indices@.contains_key((#[trigger] listed[k]).addr),
        decreases records@.len() - i,
    {
        let record: &ChunkRecord = records[i];
        assert(*record == listed[i as int]);
        indices.insert(record.addr, record.index);
        i += 1;
    }
    proof {
        assert forall|addr: u64| #[trigger] chunks.contains_key(addr) implies indices@.contains_key(
            addr,
        ) by {
            let k = choose|k: int| 0 <= k < listed.len() && listed[k] == chunks[addr];
            assert(listed[k].addr == addr);
        }
        assert(indices@ =~= indices_of(chunks));
    }
    indices
}

fn chunk_lines(records: &Vec<&ChunkRecord>, p: &Palette) -> (rows: Vec<String>)
    ensures
        text::texts(rows@) == records@.unref().map_values(|r: ChunkRecord| chunk_row(r, p@)),
{
    let ghost listed = records@.unref();
    let mut rows: Vec<String> = Vec::new();
    let mut i: usize = 0;
    while i < records.len()
        invariant
            i <= records@.len(),
            listed == records@.unref(),
            text::texts(rows@) =~= listed.take(i as int).map_values(
                |r: ChunkRecord| chunk_row(r, p@),
            ),
        decreases records@.len() - i,
    {
        text::push_line(&mut rows, chunk_line(records[i], p));
        i += 1;
    }
    assert(listed.take(i as int) =~= listed);
    rows
}

fn alert_lines(alerts: &Vec<OracleAlert>, p: &Palette) -> (rows: Vec<String>)
    ensures
        text::texts(rows@) == alerts@.map_values(|a: OracleAlert| alert_row(a, p@)),
{
    let mut rows: Vec<String> = Vec::new();
    let mut i: usize = 0;
    while i < alerts.len()
        invariant
            i <= alerts@.len(),
            text::texts(rows@) =~= alerts@.take(i as int).map_values(
                |a: OracleAlert| alert_row(a, p@),
            ),
        decreases alerts@.len() - i,
    {
        let alert = alerts[i];
        let mut out = " ".to_owned();
        out.append(p.bright_red);
        text::push_hex0x_fill(&mut out, alert.addr, 14);
        out.append("  ");
        out.append(alert.reason.to_string().as_str());
        out.append(p.reset);
        text::push_line(&mut rows, out);
        i += 1;
    }
    assert(alerts@.take(i as int) =~= alerts@);
    rows
}

/// The table of the heap, line by line.
pub fn format_heap_state(oracle: &HeapOracle, color: bool) -> (lines: Vec<String>)
    requires
        oracle.wf(),
    ensures
        text::texts(lines@) == heap_table(oracle@, color),
{
    let p = ansi(color);
    let records = listing::records_by_index(&oracle.chunks);
    let mut lines: Vec<String> = Vec::new();
    assert(text::texts(lines@) =~= Seq::empty());
    if records.len() == 0 {
        return lines;
    }
    let indices = index_map(&records, Ghost(oracle.chunks@));
    let rows = chunk_lines(&records, &p);
    let mut bins = bin_lines("tcache", oracle.tcache.as_slice(), &indices, &p);
    text::push_lines(&mut bins, bin_lines("fastbin", oracle.fastbins.as_slice(), &indices, &p));
    let alerts = alert_lines(&oracle.alerts, &p);
    push_section(
        &mut lines,
        p.cyan,
        " #     Address          Req     Chunk   State",
        rows,
        &p,
    );
    push_section(&mut lines, p.magenta, " Bin Chains", bins, &p);
    push_section(&mut lines, p.bright_red, " Alerts", alerts, &p);
    text::push_line(&mut lines, rule_line(&p));
    lines
}

////////////////////////////////////////////////////////////////////////////////
// The closing summary
////////////////////////////////////////////////////////////////////////////////
/// The closing line, from the totals of the records and the counters.
pub open spec fn summary_text(summary: OracleSummary, snap: RuntimeSnapshot) -> Seq<char> {
    "heap-oracle: events="@ + text::dec(snap.consumed as nat) + " chunks="@ + text::dec(
        summary.total_chunks as nat,
    ) + " allocated="@ + text::dec(summary.allocated as nat) + " freed="@ + text::dec(
        summary.freed as nat,
    ) + " uaf="@ + text::dec(summary.uaf as nat) + " alerts="@ + text::dec(summary.alerts as nat)
        + " dropped="@ + text::dec(snap.dropped as nat)
}

/// The closing line where the records cannot be had, from the counters alone.
pub open spec fn counters_text(snap: RuntimeSnapshot) -> Seq<char> {
    "heap-oracle: events="@ + text::dec(snap.consumed as nat) + " pending="@ + text::dec(
        snap.pending as nat,
    ) + " dropped="@ + text::dec(snap.dropped as nat)
}

pub fn format_summary(summary: Option<OracleSummary>, snap: RuntimeSnapshot) -> (s: String)
    ensures
        s@ == match summary {
            Some(totals) => summary_text(totals, snap),
            None => counters_text(snap),
        },
{
    let mut out = "heap-oracle: events=".to_owned();
    text::push_dec(&mut out, snap.consumed);
    match summary {
        Some(totals) => {
            out.append(" chunks=");
            text::push_dec(&mut out, totals.total_chunks as u64);
            out.append(" allocated=");
            text::push_dec(&mut out, totals.allocated as u64);
            out.append(" freed=");
            text::push_dec(&mut out, totals.freed as u64);
            out.append(" uaf=");
            text::push_dec(&mut out, totals.uaf as u64);
            out.append(" alerts=");
            text::push_dec(&mut out, totals.alerts as u64);
        },
        None => {
            out.append(" pending=");
            text::push_dec(&mut out, snap.pending);
        },
    }
    out.append(" dropped=");
    text::push_dec(&mut out, snap.dropped);
    out
}

} // verus!
