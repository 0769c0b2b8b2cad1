//! What the lines of the terminal say of an event, a chunk, a bin and an alert.

use vstd::prelude::*;

use crate::ipc;
use crate::ipc::{EventKind, HeapEvent, RingHeader};
use crate::laws;
use crate::listing;
use crate::model::OracleView;
use crate::report;
use crate::report::Colors;
use crate::runtime;
use crate::runtime::RuntimeSnapshot;
use crate::state;
use crate::state::{
    ApplyResult, BinType, ChunkRecord, ChunkState, OracleAlert, OracleSummary, UafReason,
};
use crate::text;
use crate::words;

verus! {

broadcast use words::group_words;

/// The literals of the event lines.
pub proof fn lemma_event_literals()
    ensures
        ""@.len() == 0,
        words::blank(" "@) && words::spaced(" "@),
        words::blank("  "@) && words::spaced("  "@),
        words::solid("#"@),
        words::solid("(0x"@),
        words::solid(")"@),
        words::solid("0x"@),
        words::solid("[!]"@),
        words::solid("[-]"@),
        words::solid("[*]"@),
        words::solid("[+]"@),
        words::solid("<-"@),
        words::ended("??   "@, "??"@),
        words::ended("-> "@, "->"@),
        words::ended("<< "@, "<<"@),
        words::solid("malloc"@),
        words::solid("calloc"@),
        words::solid("memalign"@),
        words::spaced(" free    "@),
        words::closed_words(" free    "@) == seq!["free"@],
        words::open_word(" free    "@).len() == 0,
        words::spaced(" realloc  "@),
        words::closed_words(" realloc  "@) == seq!["realloc"@],
        words::open_word(" realloc  "@).len() == 0,
{
    reveal(words::solid);
    reveal(words::blank);
    reveal(words::spaced);
    reveal(words::ended);
    reveal_strlit("");
    reveal_strlit(" ");
    reveal_strlit("  ");
    reveal_strlit("#");
    reveal_strlit("(0x");
    reveal_strlit(")");
    reveal_strlit("0x");
    reveal_strlit("[!]");
    reveal_strlit("[-]");
    reveal_strlit("[*]");
    reveal_strlit("[+]");
    reveal_strlit("<-");
    reveal_strlit("??   ");
    reveal_strlit("??");
    reveal_strlit("-> ");
    reveal_strlit("->");
    reveal_strlit("<< ");
    reveal_strlit("<<");
    reveal_strlit("malloc");
    reveal_strlit("calloc");
    reveal_strlit("memalign");
    reveal_strlit(" free    ");
    reveal_strlit("free");
    reveal_strlit(" realloc  ");
    reveal_strlit("realloc");
    assert("??   "@ =~= "??"@ + "??   "@.skip(2));
    assert("-> "@ =~= "->"@ + "-> "@.skip(2));
    assert("<< "@ =~= "<<"@ + "<< "@.skip(2));
    let four = seq![' ', ' ', ' ', ' '];
    let two = seq![' ', ' '];
    assert(" free    "@ =~= (" "@ + "free"@) + four);
    assert(" realloc  "@ =~= (" "@ + "realloc"@) + two);
    assert(words::closed_words((" "@ + "free"@) + four) =~= seq!["free"@]);
    assert(words::closed_words((" "@ + "realloc"@) + two) =~= seq!["realloc"@]);
}

pub proof fn lemma_solid_bin(bin: BinType)
    ensures
        words::solid(state::bin_text(bin)),
{
    assert(words::solid("tcache["@) && words::solid("fastbin["@) && words::solid("smallbin["@)
        && words::solid("]"@) && words::solid("largebin"@) && words::solid("reallocated"@)) by {
        reveal(words::solid);
        reveal_strlit("tcache[");
        reveal_strlit("fastbin[");
        reveal_strlit("smallbin[");
        reveal_strlit("]");
        reveal_strlit("largebin");
        reveal_strlit("reallocated");
    }
}

pub proof fn lemma_solid_reason(reason: UafReason)
    ensures
        words::solid(state::reason_text(reason)),
{
    reveal(words::solid);
    reveal_strlit("double-free");
    reveal_strlit("invalid-free");
    reveal_strlit("realloc-after-free");
}

/// The chunk size of an event in brackets, if there is one.
pub open spec fn size_words(size: Option<usize>) -> Seq<Seq<char>> {
    match size {
        Some(s) => seq!["(0x"@ + text::hex(s as nat) + ")"@],
        None => Seq::empty(),
    }
}

/// The bin that a chunk went to and what an event was flagged as, as far as there is
/// such a thing.
pub open spec fn outcome_words(result: ApplyResult) -> Seq<Seq<char>> {
    (match result.bin {
        Some(bin) => seq!["->"@, state::bin_text(bin)],
        None => Seq::empty(),
    }) + (match result.alert {
        Some(alert) => seq!["<<"@, state::reason_text(alert.reason)],
        None => Seq::empty(),
    })
}

/// The call of an event: its name, the size asked for unless it is a free, the size of
/// the chunk, and the address; a reallocation names the old address last.
pub open spec fn call_words(event: HeapEvent, size: Option<usize>) -> Seq<Seq<char>> {
    let asked = "0x"@ + text::hex(event.size as nat);
    let addr = text::hex0x(event.addr as nat);
    match ipc::kind_of(event.kind) {
        EventKind::Free => seq!["free"@] + size_words(size) + seq![addr],
        EventKind::Realloc => seq!["realloc"@, asked] + size_words(size) + seq![
            addr,
            "<-"@,
            text::hex0x(event.aux_addr as nat),
        ],
        EventKind::Calloc => seq!["calloc"@, asked] + size_words(size) + seq![addr],
        EventKind::Memalign => seq!["memalign"@, asked] + size_words(size) + seq![addr],
        _ => seq!["malloc"@, asked] + size_words(size) + seq![addr],
    }
}

proof fn lemma_size_note(size: Option<usize>)
    ensures
        ({
            let note = report::size_note(size, report::colors(false));
            &&& size is None ==> note.len() == 0
            &&& size is Some ==> words::spaced(note)
            &&& size is Some ==> words::closed_words(note).len() == 0
            &&& size matches Some(s) ==> words::open_word(note) == "(0x"@ + text::hex(s as nat)
                + ")"@
        }),
{
    lemma_event_literals();
}

proof fn lemma_call(event: HeapEvent, size: Option<usize>)
    requires
        !(ipc::kind_of(event.kind) is Invalid),
    ensures
        ({
            let call = report::event_call(event, size, report::colors(false));
            &&& words::spaced(call)
            &&& words::words(call) == call_words(event, size)
        }),
{
    lemma_event_literals();
    lemma_size_note(size);
    let c = report::colors(false);
    let call = report::event_call(event, size, c);
    assert(words::words(call) =~= call_words(event, size));
}

proof fn lemma_outcome(result: ApplyResult)
    ensures
        ({
            let outcome = report::event_outcome(result, report::colors(false));
            &&& result.bin is None && result.alert is None ==> outcome.len() == 0
            &&& result.bin is Some || result.alert is Some ==> words::spaced(outcome)
            &&& words::words(outcome) == outcome_words(result)
        }),
{
    lemma_event_literals();
    words::lemma_words_empty();
    if let Some(bin) = result.bin {
        lemma_solid_bin(bin);
    }
    if let Some(alert) = result.alert {
        lemma_solid_reason(alert.reason);
    }
    let c = report::colors(false);
    let outcome = report::event_outcome(result, c);
    if result.bin is None {
        let alert = match result.alert {
            Some(alert) => "  "@ + c.bright_red + "<< "@ + state::reason_text(alert.reason) + c.reset,
            None => Seq::empty(),
        };
        assert(outcome =~= alert);
    }
    assert(words::words(outcome) =~= outcome_words(result));
}

/// The line of an event says, word by word: a mark for the sort of call, or for a call
/// that was flagged; the index of the chunk; the call; and what came of it. Only a free
/// of nothing and an event of no known kind have no line.
#[verifier::rlimit(40)]
#[verifier::spinoff_prover]
pub proof fn law_event_line_words(event: HeapEvent, result: ApplyResult)
    ensures
        report::event_line(event, result, false) is None <==> ipc::kind_of(event.kind) is Invalid
            || ipc::kind_of(event.kind) is Free && event.addr == 0,
        report::event_line(event, result, false) matches Some(line) ==> words::words(line) == seq![
            if result.alert is Some {
                "[!]"@
            } else {
                match ipc::kind_of(event.kind) {
                    EventKind::Free => "[-]"@,
                    EventKind::Realloc => "[*]"@,
                    _ => "[+]"@,
                }
            },
            match result.chunk_index {
                Some(index) => "#"@ + text::dec(index as nat),
                None => "??"@,
            },
        ] + call_words(event, result.chunk_size) + outcome_words(result),
{
    if let Some(line) = report::event_line(event, result, false) {
        let c = report::colors(false);
        let kind = ipc::kind_of(event.kind);
        let start = report::event_mark(kind, result.alert is Some, c) + " "@ + c.cyan;
        let column = report::index_column(result.chunk_index);
        lemma_event_literals();
        lemma_call(event, result.chunk_size);
        lemma_outcome(result);
        let mark = words::words(start)[0];
        assert(words::words(start) =~= seq![mark]);
        assert(words::open_word(start).len() == 0);
        let head = start + column;
        match result.chunk_index {
            Some(index) => {
                let digits = text::dec(index as nat);
                assert(head =~= (start + "#"@) + text::pad_right(digits, 4));
                assert(words::words((start + "#"@) + text::pad_right(digits, 4)) =~= seq![
                    mark,
                    "#"@ + digits,
                ]);
            },
            None => {
                assert(words::words(head) =~= seq![mark, "??"@]);
            },
        }
        let call = report::event_call(event, result.chunk_size, c);
        let middle = head + c.reset + call;
        assert(words::words(middle) =~= words::words(head) + words::words(call));
        let outcome = report::event_outcome(result, c);
        assert(line == middle + outcome);
        assert(words::words(line) =~= words::words(middle) + outcome_words(result));
    }
}

/// The colour in front of a line is that of its mark: bright red for a flagged call, red
/// for a free, yellow for a reallocation, green for every other call.
pub proof fn law_event_line_color(event: HeapEvent, result: ApplyResult)
    ensures
        report::event_line(event, result, true) matches Some(line) ==> (if result.alert is Some {
            "\x1b[1;91m"@
        } else {
            match ipc::kind_of(event.kind) {
                EventKind::Free => "\x1b[31m"@,
                EventKind::Realloc => "\x1b[33m"@,
                _ => "\x1b[32m"@,
            }
        }).is_prefix_of(line),
{
    if let Some(line) = report::event_line(event, result, true) {
        let color = if result.alert is Some {
            "\x1b[1;91m"@
        } else {
            match ipc::kind_of(event.kind) {
                EventKind::Free => "\x1b[31m"@,
                EventKind::Realloc => "\x1b[33m"@,
                _ => "\x1b[32m"@,
            }
        };
        assert(line.subrange(0, color.len() as int) =~= color);
    }
}

////////////////////////////////////////////////////////////////////////////////
// The table of the heap
////////////////////////////////////////////////////////////////////////////////
/// The literals of the table.
pub proof fn lemma_table_literals()
    ensures
        words::blank("   "@) && words::spaced("   "@),
        words::ended("FREE "@, "FREE"@),
        words::ended("UAF  "@, "UAF"@),
        words::solid("ALLOC"@),
        words::solid("["@),
        words::solid("]"@),
        words::spaced(" (0x"@),
        words::closed_words(" (0x"@).len() == 0,
        words::open_word(" (0x"@) == "(0x"@,
        words::ended("): "@, "):"@),
        words::solid("tcache"@),
        words::solid("fastbin"@),
{
    reveal(words::solid);
    reveal(words::blank);
    reveal(words::spaced);
    reveal(words::ended);
    reveal_strlit("   ");
    reveal_strlit("FREE ");
    reveal_strlit("FREE");
    reveal_strlit("UAF  ");
    reveal_strlit("UAF");
    reveal_strlit("ALLOC");
    reveal_strlit("[");
    reveal_strlit("]");
    reveal_strlit(" (0x");
    reveal_strlit("(0x");
    reveal_strlit(" ");
    reveal_strlit("): ");
    reveal_strlit("):");
    reveal_strlit("tcache");
    reveal_strlit("fastbin");
    assert("FREE "@ =~= "FREE"@ + "FREE "@.skip(4));
    assert("UAF  "@ =~= "UAF"@ + "UAF  "@.skip(3));
    assert("): "@ =~= "):"@ + "): "@.skip(2));
    assert(" (0x"@ =~= " "@ + "(0x"@);
}

/// A state: what it is, and which bin or which misuse.
pub open spec fn state_said(chunk_state: ChunkState) -> Seq<Seq<char>> {
    match chunk_state {
        ChunkState::Allocated => seq!["ALLOC"@],
        ChunkState::Freed { bin } => seq!["FREE"@, state::bin_text(bin)],
        ChunkState::Uaf { reason } => seq!["UAF"@, state::reason_text(reason)],
    }
}

/// The row of a record says its index, its address, the size asked for, the size of
/// the chunk, and its state.
#[verifier::rlimit(40)]
#[verifier::spinoff_prover]
pub proof fn law_chunk_row_words(record: ChunkRecord)
    ensures
        words::words(report::chunk_row(record, report::colors(false))) == seq![
            "#"@ + text::dec(record.index as nat),
            text::hex0x_fill(record.addr as nat, 14),
            text::hex0x_fill(record.size as nat, 6),
            text::hex0x_fill(state::chunk_size_of(record.size) as nat, 6),
        ] + state_said(record.state),
{
    let c = report::colors(false);
    let number = "#"@ + text::dec(record.index as nat);
    let addr = text::hex0x_fill(record.addr as nat, 14);
    let asked = text::hex0x_fill(record.size as nat, 6);
    let size = text::hex0x_fill(state::chunk_size_of(record.size) as nat, 6);
    lemma_event_literals();
    lemma_table_literals();
    words::lemma_words_empty();
    match record.state {
        ChunkState::Freed { bin } => lemma_solid_bin(bin),
        ChunkState::Uaf { reason } => lemma_solid_reason(reason),
        ChunkState::Allocated => {},
    }
    let start = " "@ + c.cyan + text::pad_right(number, 5);
    assert(words::words(start) =~= seq![number]);
    let sizes = start + c.reset + " "@ + addr + "   "@ + asked + "   "@ + size + "  "@;
    assert(words::words(sizes) =~= seq![number, addr, asked, size]);
    assert(words::open_word(sizes).len() == 0);
    let row = report::chunk_row(record, c);
    assert(row == sizes + report::state_column(record.state, c));
    match record.state {
        ChunkState::Allocated => {
            assert(row =~= ((sizes + c.green) + "ALLOC"@) + c.reset);
        },
        ChunkState::Freed { bin } => {
            let name = state::bin_text(bin);
            let text = (((sizes + c.dim) + "FREE "@) + c.reset) + "  "@ + c.magenta + name
                + c.reset;
            assert(row =~= text);
            assert(words::words(text) =~= seq![number, addr, asked, size, "FREE"@, name]);
        },
        ChunkState::Uaf { reason } => {
            let name = state::reason_text(reason);
            let text = (((sizes + c.bright_red) + "UAF  "@) + c.reset) + "  "@ + c.bright_red + name
                + c.reset;
            assert(row =~= text);
            assert(words::words(text) =~= seq![number, addr, asked, size, "UAF"@, name]);
        },
    }
    assert(words::words(row) =~= seq![number, addr, asked, size] + state_said(record.state));
}

/// The colour of a state is that of what it is, whatever the bin and whatever the
/// misuse, and it stands at the end of the row of the chunk.
pub proof fn law_state_color(record: ChunkRecord)
    ensures
        ({
            let column = report::state_column(record.state, report::colors(true));
            &&& column.is_suffix_of(report::chunk_row(record, report::colors(true)))
            &&& record.state == ChunkState::Allocated ==> "\x1b[32m"@.is_prefix_of(column)
            &&& record.state is Freed ==> "\x1b[2m"@.is_prefix_of(column)
            &&& record.state is Uaf ==> "\x1b[1;91m"@.is_prefix_of(column)
        }),
{
    let c = report::colors(true);
    let column = report::state_column(record.state, c);
    let row = report::chunk_row(record, c);
    assert(row.subrange(row.len() - column.len(), row.len() as int) =~= column);
    match record.state {
        ChunkState::Allocated => {
            assert(column.subrange(0, c.green.len() as int) =~= c.green);
        },
        ChunkState::Freed { .. } => {
            assert(column.subrange(0, c.dim.len() as int) =~= c.dim);
        },
        ChunkState::Uaf { .. } => {
            assert(column.subrange(0, c.bright_red.len() as int) =~= c.bright_red);
        },
    }
}

/// The row of an alert says its address and what it was flagged as.
pub proof fn law_alert_row_words(alert: OracleAlert)
    ensures
        words::words(report::alert_row(alert, report::colors(false))) == seq![
            text::hex0x_fill(alert.addr as nat, 14),
            state::reason_text(alert.reason),
        ],
{
    lemma_event_literals();
    lemma_solid_reason(alert.reason);
    assert(words::words(report::alert_row(alert, report::colors(false))) =~= seq![
        text::hex0x_fill(alert.addr as nat, 14),
        state::reason_text(alert.reason),
    ]);
}

/// A chunk of a chain: its index where it has one, else its address.
pub open spec fn shown_as(addr: u64, indices: Map<u64, usize>, word: Seq<char>) -> bool {
    &&& indices.contains_key(addr) ==> word == "#"@ + text::dec(indices[addr] as nat)
    &&& !indices.contains_key(addr) ==> word == text::hex0x(addr as nat)
}

/// A chain names every address of its list, from the last to the first, with arrows
/// between.
pub proof fn law_bin_chain_words(list: Seq<u64>, indices: Map<u64, usize>)
    ensures
        list.len() == 0 ==> report::bin_chain(list, indices).len() == 0,
        list.len() > 0 ==> {
            let all = words::words(report::bin_chain(list, indices));
            &&& all.len() == 2 * list.len() - 1
            &&& forall|i: int|
                0 <= i < list.len() ==> shown_as(
                    #[trigger] list[i],
                    indices,
                    all[2 * (list.len() - 1 - i)],
                )
            &&& forall|i: int| 0 <= i < list.len() - 1 ==> #[trigger] all[2 * i + 1] == "\u{2192}"@
        },
{
    lemma_event_literals();
    assert(words::solid("\u{2192}"@) && " \u{2192} "@ =~= " "@ + "\u{2192}"@ + " "@) by {
        reveal(words::solid);
        reveal_strlit(" ");
        reveal_strlit("\u{2192}");
        reveal_strlit(" \u{2192} ");
    }
    let separator = " "@ + "\u{2192}"@ + " "@;
    assert(words::closed_words(separator) =~= seq!["\u{2192}"@]);
    if list.len() > 0 {
        let parts = report::chain_parts(list, indices);
        assert forall|i: int| 0 <= i < parts.len() implies words::solid(#[trigger] parts[i]) by {}
        words::lemma_words_joined(parts, separator, "\u{2192}"@);
        let all = words::words(report::bin_chain(list, indices));
        assert forall|i: int| 0 <= i < list.len() implies shown_as(
            #[trigger] list[i],
            indices,
            all[2 * (list.len() - 1 - i)],
        ) by {
            assert(parts[list.len() - 1 - i] == all[2 * (list.len() - 1 - i)]);
        }
    }
}

/// The row of a bin says which bin it is, the size of its chunks, and its chain.
pub proof fn law_bin_row_words(
    name: Seq<char>,
    idx: nat,
    list: Seq<u64>,
    indices: Map<u64, usize>,
)
    requires
        words::solid(name),
    ensures
        words::words(report::bin_row(name, idx, list, indices, report::colors(false))) == seq![
            name + "["@ + text::zero_fill(text::dec(idx), 2) + "]"@,
            "(0x"@ + text::hex(0x20 + 0x10 * idx) + "):"@,
        ] + words::words(report::bin_chain(list, indices)),
{
    lemma_event_literals();
    lemma_table_literals();
    let c = report::colors(false);
    let title = name + "["@ + text::zero_fill(text::dec(idx), 2) + "]"@;
    let size = "(0x"@ + text::hex(0x20 + 0x10 * idx) + "):"@;
    let start = " "@ + c.magenta + name + "["@ + text::zero_fill(text::dec(idx), 2) + "]"@
        + c.reset + " (0x"@ + text::hex((idx + 2) * 0x10) + "): "@;
    let chain = report::bin_chain(list, indices);
    assert((idx + 2) * 0x10 == 0x20 + 0x10 * idx);
    assert(words::closed_words(start) =~= seq![title, size]);
    words::lemma_words_fresh(start, chain);
    assert(report::bin_row(name, idx, list, indices, c) == start + chain);
    assert(words::words(start + chain) =~= seq![title, size] + words::words(chain));
}

/// The chains of the table name chunks by the indices on their records.
pub proof fn law_chain_indices(view: OracleView, addr: u64)
    ensures
        report::indices_of(view.chunks).contains_key(addr) <==> view.chunks.contains_key(addr),
        view.chunks.contains_key(addr) ==> report::indices_of(view.chunks)[addr]
            == view.chunks[addr].index,
{
}

/// The size on the row of a bin is the chunk size of every chunk on its list.
pub proof fn law_bin_row_size(view: OracleView, bin: BinType, addr: u64)
    requires
        view.wf(),
        laws::on_list(view, bin, addr),
    ensures
        ({
            let size = text::hex(state::chunk_size_of(view.chunks[addr].size) as nat);
            let word = "(0x"@ + size + "):"@;
            let indices = report::indices_of(view.chunks);
            let c = report::colors(false);
            &&& bin matches BinType::Tcache(i) ==> words::words(
                report::bin_row("tcache"@, i as nat, view.tcache[i as int], indices, c),
            )[1] == word
            &&& bin matches BinType::Fastbin(i) ==> words::words(
                report::bin_row("fastbin"@, i as nat, view.fastbins[i as int], indices, c),
            )[1] == word
        }),
{
    lemma_table_literals();
    laws::law_lists_hold_freed_chunks(view, bin, bin, addr);
    let indices = report::indices_of(view.chunks);
    match bin {
        BinType::Tcache(i) => {
            law_bin_row_words("tcache"@, i as nat, view.tcache[i as int], indices);
        },
        BinType::Fastbin(i) => {
            law_bin_row_words("fastbin"@, i as nat, view.fastbins[i as int], indices);
        },
        _ => {},
    }
}

/// Bins in use have one row each, in the order of their numbers, and the others none.
pub proof fn law_bin_rows(
    name: Seq<char>,
    lists: Seq<Seq<u64>>,
    indices: Map<u64, usize>,
    c: Colors,
    more: Seq<u64>,
)
    ensures
        report::bin_rows(name, Seq::empty(), indices, c).len() == 0,
        more.len() == 0 ==> report::bin_rows(name, lists.push(more), indices, c)
            == report::bin_rows(name, lists, indices, c),
        more.len() > 0 ==> report::bin_rows(name, lists.push(more), indices, c)
            == report::bin_rows(name, lists, indices, c).push(
            report::bin_row(name, lists.len(), more, indices, c),
        ),
{
    assert(lists.push(more).drop_last() =~= lists);
}

/// The trace has a line for each event that has one, in the order of the events.
pub proof fn law_trace(
    results: Seq<(HeapEvent, ApplyResult)>,
    event: HeapEvent,
    result: ApplyResult,
    color: bool,
)
    ensures
        report::trace(Seq::empty(), color).len() == 0,
        report::trace(results.push((event, result)), color) == report::trace(results, color) + (
        match report::event_line(event, result, color) {
            Some(line) => seq![line],
            None => Seq::empty(),
        }),
{
    assert(results.push((event, result)).drop_last() =~= results);
    assert(report::trace(results.push((event, result)), color) =~= report::trace(results, color) + (
    match report::event_line(event, result, color) {
        Some(line) => seq![line],
        None => Seq::empty(),
    }));
}

/// The table of a heap without chunks is empty. Any other starts with a title and a row
/// for every chunk, in the order of the indices; then come the bins in use, if there are
/// any, the thread cache first; then the alerts, if there are any, oldest first; and a
/// rule at the end.
pub proof fn law_heap_table_lines(view: OracleView, color: bool)
    requires
        view.wf(),
    ensures
        ({
            let lines = report::heap_table(view, color);
            let c = report::colors(color);
            let indices = report::indices_of(view.chunks);
            let chunks = listing::by_index(view.chunks);
            let n = chunks.len() as int;
            let cached = report::bin_rows("tcache"@, view.tcache, indices, c);
            let fast = report::bin_rows("fastbin"@, view.fastbins, indices, c);
            let b = cached.len() + fast.len();
            let a = view.alerts.len() as int;
            let bins_at = 3 + n;
            let alerts_at = bins_at + if b > 0 {
                3 + b
            } else {
                0
            };
            &&& n == view.chunks.dom().len()
            &&& n == 0 ==> lines.len() == 0
            &&& n > 0 ==> {
                &&& lines.len() == alerts_at + (if a > 0 {
                    3 + a
                } else {
                    0
                }) + 1
                &&& forall|i: int|
                    0 <= i < n ==> #[trigger] lines[3 + i] == report::chunk_row(chunks[i], c)
                &&& forall|i: int|
                    0 <= i < cached.len() ==> #[trigger] lines[bins_at + 3 + i] == cached[i]
                &&& forall|i: int|
                    0 <= i < fast.len() ==> #[trigger] lines[bins_at + 3 + cached.len() + i]
                        == fast[i]
                &&& forall|i: int|
                    0 <= i < a ==> #[trigger] lines[alerts_at + 3 + i] == report::alert_row(
                        view.alerts[i],
                        c,
                    )
                &&& lines[0] == "\n"@ + report::rule(c) && lines[2] == report::rule(c)
                &&& b > 0 ==> lines[bins_at] == lines[0] && lines[bins_at + 2] == lines[2]
                &&& a > 0 ==> lines[alerts_at] == lines[0] && lines[alerts_at + 2] == lines[2]
                &&& lines[1] == c.cyan + " #     Address          Req     Chunk   State"@ + c.reset
                &&& b > 0 ==> lines[bins_at + 1] == c.magenta + " Bin Chains"@ + c.reset
                &&& a > 0 ==> lines[alerts_at + 1] == c.bright_red + " Alerts"@ + c.reset
                &&& lines.last() == report::rule(c)
            }
        }),
{
    listing::law_by_index(view.chunks);
    listing::law_in_order(view.chunks);
}

/// The closing line says every total behind its name.
#[verifier::rlimit(40)]
#[verifier::spinoff_prover]
pub proof fn law_summary_words(summary: OracleSummary, snap: RuntimeSnapshot)
    ensures
        words::words(report::summary_text(summary, snap)) == seq![
            "heap-oracle:"@,
            "events="@ + text::dec(snap.consumed as nat),
            "chunks="@ + text::dec(summary.total_chunks as nat),
            "allocated="@ + text::dec(summary.allocated as nat),
            "freed="@ + text::dec(summary.freed as nat),
            "uaf="@ + text::dec(summary.uaf as nat),
            "alerts="@ + text::dec(summary.alerts as nat),
            "dropped="@ + text::dec(snap.dropped as nat),
        ],
        words::words(report::counters_text(snap)) == seq![
            "heap-oracle:"@,
            "events="@ + text::dec(snap.consumed as nat),
            "pending="@ + text::dec(snap.pending as nat),
            "dropped="@ + text::dec(snap.dropped as nat),
        ],
{
    lemma_summary_literals();
    assert(words::words(report::summary_text(summary, snap)) =~= seq![
        "heap-oracle:"@,
        "events="@ + text::dec(snap.consumed as nat),
        "chunks="@ + text::dec(summary.total_chunks as nat),
        "allocated="@ + text::dec(summary.allocated as nat),
        "freed="@ + text::dec(summary.freed as nat),
        "uaf="@ + text::dec(summary.uaf as nat),
        "alerts="@ + text::dec(summary.alerts as nat),
        "dropped="@ + text::dec(snap.dropped as nat),
    ]);
    assert(words::words(report::counters_text(snap)) =~= seq![
        "heap-oracle:"@,
        "events="@ + text::dec(snap.consumed as nat),
        "pending="@ + text::dec(snap.pending as nat),
        "dropped="@ + text::dec(snap.dropped as nat),
    ]);
}

/// A literal of a space and a word.
pub open spec fn opens(s: Seq<char>, word: Seq<char>) -> bool {
    words::spaced(s) && words::closed_words(s).len() == 0 && words::open_word(s) == word
}

pub proof fn lemma_opens(s: Seq<char>, word: Seq<char>)
    requires
        s == " "@ + word,
        words::solid(word),
    ensures
        opens(s, word),
{
    lemma_event_literals();
}

/// The literals of the closing line.
proof fn lemma_summary_literals()
    ensures
        words::closed_words("heap-oracle: events="@) == seq!["heap-oracle:"@],
        words::open_word("heap-oracle: events="@) == "events="@,
        words::open_word("heap-oracle: events="@).len() > 0,
        opens(" chunks="@, "chunks="@),
        opens(" allocated="@, "allocated="@),
        opens(" freed="@, "freed="@),
        opens(" uaf="@, "uaf="@),
        opens(" alerts="@, "alerts="@),
        opens(" dropped="@, "dropped="@),
        opens(" pending="@, "pending="@),
        "chunks="@.len() > 0,
        "allocated="@.len() > 0,
        "freed="@.len() > 0,
        "uaf="@.len() > 0,
        "alerts="@.len() > 0,
        "dropped="@.len() > 0,
        "pending="@.len() > 0,
{
    reveal_strlit(" ");
    reveal_strlit("heap-oracle: events=");
    reveal_strlit("heap-oracle:");
    reveal_strlit("events=");
    reveal_strlit(" chunks=");
    reveal_strlit("chunks=");
    reveal_strlit(" allocated=");
    reveal_strlit("allocated=");
    reveal_strlit(" freed=");
    reveal_strlit("freed=");
    reveal_strlit(" uaf=");
    reveal_strlit("uaf=");
    reveal_strlit(" alerts=");
    reveal_strlit("alerts=");
    reveal_strlit(" dropped=");
    reveal_strlit("dropped=");
    reveal_strlit(" pending=");
    reveal_strlit("pending=");
    lemma_event_literals();
    assert(words::solid("heap-oracle:"@) && words::solid("events="@) && words::solid("chunks="@)
        && words::solid("allocated="@) && words::solid("freed="@) && words::solid("uaf="@)
        && words::solid("alerts="@) && words::solid("dropped="@) && words::solid("pending="@)) by {
        reveal(words::solid);
    }
    assert("heap-oracle: events="@ =~= "heap-oracle:"@ + " "@ + "events="@);
    assert(words::closed_words("heap-oracle:"@ + " "@ + "events="@) =~= seq!["heap-oracle:"@]);
    assert(" chunks="@ =~= " "@ + "chunks="@);
    lemma_opens(" chunks="@, "chunks="@);
    assert(" allocated="@ =~= " "@ + "allocated="@);
    lemma_opens(" allocated="@, "allocated="@);
    assert(" freed="@ =~= " "@ + "freed="@);
    lemma_opens(" freed="@, "freed="@);
    assert(" uaf="@ =~= " "@ + "uaf="@);
    lemma_opens(" uaf="@, "uaf="@);
    assert(" alerts="@ =~= " "@ + "alerts="@);
    lemma_opens(" alerts="@, "alerts="@);
    assert(" dropped="@ =~= " "@ + "dropped="@);
    lemma_opens(" dropped="@, "dropped="@);
    assert(" pending="@ =~= " "@ + "pending="@);
    lemma_opens(" pending="@, "pending="@);
}

/// The names of the bins: what they are, and their number in brackets where they have
/// one, so that no two bins have the same name.
pub proof fn law_bin_names(bin: BinType)
    ensures
        match bin {
            BinType::Tcache(i) => lies_between(state::bin_text(bin), "tcache["@, i as int, "]"@),
            BinType::Fastbin(i) => lies_between(state::bin_text(bin), "fastbin["@, i as int, "]"@),
            BinType::Smallbin(i) => lies_between(
                state::bin_text(bin),
                "smallbin["@,
                i as int,
                "]"@,
            ),
            BinType::Largebin => state::bin_text(bin) == "largebin"@,
            BinType::Reallocated => state::bin_text(bin) == "reallocated"@,
        },
{
    match bin {
        BinType::Tcache(i) => lemma_lies_between("tcache["@, i as nat, "]"@),
        BinType::Fastbin(i) => lemma_lies_between("fastbin["@, i as nat, "]"@),
        BinType::Smallbin(i) => lemma_lies_between("smallbin["@, i as nat, "]"@),
        _ => {},
    }
}

/// Whether a text is a number between two others.
pub open spec fn lies_between(s: Seq<char>, left: Seq<char>, n: int, right: Seq<char>) -> bool {
    &&& left.is_prefix_of(s)
    &&& right.is_suffix_of(s)
    &&& text::number(s.subrange(left.len() as int, s.len() - right.len()), 10) == n
}

proof fn lemma_lies_between(left: Seq<char>, n: nat, right: Seq<char>)
    ensures
        lies_between(left + text::dec(n) + right, left, n as int, right),
{
    let s = left + text::dec(n) + right;
    text::law_digits(n, 10);
    assert(s.subrange(left.len() as int, s.len() - right.len()) =~= text::dec(n));
    assert(s.subrange(0, left.len() as int) =~= left);
    assert(s.subrange(s.len() - right.len(), s.len() as int) =~= right);
}

/// How a target ended, word by word.
#[verifier::rlimit(40)]
#[verifier::spinoff_prover]
pub proof fn law_exit_words(code: Option<i32>, signal: Option<i32>)
    ensures
        code matches Some(c) ==> words::words(runtime::exit_text(code, signal)) == seq![
            "exited"@,
            "with"@,
            "status"@,
            text::dec_int(c as int),
        ],
        code is None ==> (signal matches Some(n) ==> words::words(runtime::exit_text(code, signal))
            == match runtime::signal_name(n) {
            Some(name) => seq!["killed"@, "by"@, name, "(signal"@, text::dec_int(n as int) + ")"@],
            None => seq!["killed"@, "by"@, "signal"@, text::dec_int(n as int)],
        }),
        code is None && signal is None ==> runtime::exit_text(code, signal)
            == "exited (unknown status)"@,
{
    lemma_event_literals();
    reveal_strlit(" ");
    reveal_strlit("exited");
    reveal_strlit("with");
    reveal_strlit("status");
    reveal_strlit("killed");
    reveal_strlit("by");
    reveal_strlit("signal");
    reveal_strlit("(signal");
    reveal_strlit("exited with status ");
    reveal_strlit("killed by ");
    reveal_strlit(" (signal ");
    reveal_strlit("killed by signal ");
    reveal_strlit("-");
    reveal_strlit("SIGABRT");
    reveal_strlit("SIGSEGV");
    reveal_strlit("SIGILL");
    reveal_strlit("SIGFPE");
    reveal_strlit("SIGKILL");
    reveal_strlit("SIGTERM");
    assert(words::solid("exited"@) && words::solid("with"@) && words::solid("status"@)
        && words::solid("killed"@) && words::solid("by"@) && words::solid("signal"@)
        && words::solid("(signal"@) && words::solid("-"@) && words::solid("SIGABRT"@)
        && words::solid("SIGSEGV"@) && words::solid("SIGILL"@) && words::solid("SIGFPE"@)
        && words::solid("SIGKILL"@) && words::solid("SIGTERM"@)) by {
        reveal(words::solid);
    }
    let exited = "exited"@ + " "@ + "with"@ + " "@ + "status"@ + " "@;
    let killed = "killed"@ + " "@ + "by"@ + " "@;
    let unnamed = "killed"@ + " "@ + "by"@ + " "@ + "signal"@ + " "@;
    let bracket = " "@ + "(signal"@ + " "@;
    assert("exited with status "@ =~= exited);
    assert("killed by "@ =~= killed);
    assert("killed by signal "@ =~= unnamed);
    assert(" (signal "@ =~= bracket);
    assert(words::closed_words(exited) =~= seq!["exited"@, "with"@, "status"@]);
    assert(words::closed_words(killed) =~= seq!["killed"@, "by"@]);
    assert(words::closed_words(unnamed) =~= seq!["killed"@, "by"@, "signal"@]);
    assert(words::closed_words(bracket) =~= seq!["(signal"@]);
    if let Some(c) = code {
        let number = text::dec_int(c as int);
        assert(words::solid(number));
        assert(words::words(exited + number) =~= seq!["exited"@, "with"@, "status"@, number]);
    } else if let Some(n) = signal {
        let number = text::dec_int(n as int);
        assert(words::solid(number));
        match runtime::signal_name(n) {
            Some(name) => {
                assert(words::words(killed + name + bracket + number + ")"@) =~= seq![
                    "killed"@,
                    "by"@,
                    name,
                    "(signal"@,
                    number + ")"@,
                ]);
            },
            None => {
                assert(words::words(unnamed + number) =~= seq![
                    "killed"@,
                    "by"@,
                    "signal"@,
                    number,
                ]);
            },
        }
    }
}

/// What is wrong with a header: the first of its fields that is not the one expected,
/// with both values.
#[verifier::rlimit(40)]
#[verifier::spinoff_prover]
pub proof fn law_header_words(h: RingHeader)
    ensures
        ipc::header_fault(h) matches Some(message) ==> {
            let all = words::words(message);
            let n = all.len() as int;
            &&& n >= 8
            &&& all[0] == "shared"@ && all[1] == "memory"@ && all[n - 2] == "got"@
            &&& h.magic != ipc::MAGIC ==> {
                &&& all[2] == "magic"@
                &&& all[n - 3] == text::hex0x(ipc::MAGIC as nat) + ","@
                &&& all[n - 1] == text::hex0x(h.magic as nat)
            }
            &&& h.magic == ipc::MAGIC && h.version != ipc::VERSION ==> {
                &&& all[2] == "version"@
                &&& all[n - 3] == text::dec(ipc::VERSION as nat) + ","@
                &&& all[n - 1] == text::dec(h.version as nat)
            }
            &&& h.magic == ipc::MAGIC && h.version == ipc::VERSION && h.capacity
                != ipc::RING_CAPACITY ==> {
                &&& all[2] == "capacity"@
                &&& all[n - 3] == text::dec(ipc::RING_CAPACITY as nat) + ","@
                &&& all[n - 1] == text::dec(h.capacity as nat)
            }
            &&& h.magic == ipc::MAGIC && h.version == ipc::VERSION && h.capacity
                == ipc::RING_CAPACITY ==> {
                &&& all[2] == "event"@ && all[3] == "size"@
                &&& all[n - 3] == text::dec(ipc::EVENT_SIZE as nat) + ","@
                &&& all[n - 1] == text::dec(h.event_size as nat)
            }
        },
{
    lemma_event_literals();
    reveal_strlit(" ");
    reveal_strlit("shared");
    reveal_strlit("memory");
    reveal_strlit("magic");
    reveal_strlit("version");
    reveal_strlit("capacity");
    reveal_strlit("event");
    reveal_strlit("size");
    reveal_strlit("mismatch:");
    reveal_strlit("expected");
    reveal_strlit(",");
    reveal_strlit("got");
    reveal_strlit(", got ");
    reveal_strlit("shared memory magic mismatch: expected ");
    reveal_strlit("shared memory version mismatch: expected ");
    reveal_strlit("shared memory capacity mismatch: expected ");
    reveal_strlit("shared memory event size mismatch: expected ");
    assert(words::solid("shared"@) && words::solid("memory"@) && words::solid("magic"@)
        && words::solid("version"@) && words::solid("capacity"@) && words::solid("event"@)
        && words::solid("size"@) && words::solid("mismatch:"@) && words::solid("expected"@)
        && words::solid(","@) && words::solid("got"@)) by {
        reveal(words::solid);
    }
    let start = "shared"@ + " "@ + "memory"@ + " "@;
    let end = " "@ + "mismatch:"@ + " "@ + "expected"@ + " "@;
    assert(words::closed_words(start) =~= seq!["shared"@, "memory"@]);
    assert(words::closed_words(end) =~= seq!["mismatch:"@, "expected"@]);
    let magic = start + "magic"@ + end;
    let version = start + "version"@ + end;
    let capacity = start + "capacity"@ + end;
    let size = start + "event"@ + " "@ + "size"@ + end;
    assert("shared memory magic mismatch: expected "@ =~= magic);
    assert("shared memory version mismatch: expected "@ =~= version);
    assert("shared memory capacity mismatch: expected "@ =~= capacity);
    assert("shared memory event size mismatch: expected "@ =~= size);
    let got = seq!["shared"@, "memory"@];
    assert(words::closed_words(magic) =~= got + seq!["magic"@, "mismatch:"@, "expected"@]);
    assert(words::closed_words(version) =~= got + seq!["version"@, "mismatch:"@, "expected"@]);
    assert(words::closed_words(capacity) =~= got + seq!["capacity"@, "mismatch:"@, "expected"@]);
    assert(words::closed_words(size) =~= got + seq!["event"@, "size"@, "mismatch:"@, "expected"@]);
    lemma_expected_got(magic, text::hex0x(ipc::MAGIC as nat), text::hex0x(h.magic as nat));
    lemma_expected_got(version, text::dec(ipc::VERSION as nat), text::dec(h.version as nat));
    lemma_expected_got(capacity, text::dec(ipc::RING_CAPACITY as nat), text::dec(h.capacity as nat));
    lemma_expected_got(size, text::dec(ipc::EVENT_SIZE as nat), text::dec(h.event_size as nat));
}

proof fn lemma_expected_got(start: Seq<char>, expected: Seq<char>, got: Seq<char>)
    requires
        words::open_word(start).len() == 0,
        words::solid(expected),
        words::solid(got),
    ensures
        words::words(start + expected + ", got "@ + got) == words::words(start) + seq![
            expected + ","@,
            "got"@,
            got,
        ],
{
    lemma_event_literals();
    reveal_strlit(" ");
    reveal_strlit(",");
    reveal_strlit("got");
    reveal_strlit(", got ");
    assert(words::solid(","@) && words::solid("got"@)) by {
        reveal(words::solid);
    }
    let line = start + expected + ", got "@ + got;
    let spread = start + expected + ","@ + " "@ + "got"@ + " "@ + got;
    assert(line =~= spread);
    assert(words::words(spread) =~= words::words(start) + seq![expected + ","@, "got"@, got]);
}

/// The debugging line of an event names its kind and gives its numbers in order.
#[verifier::rlimit(40)]
#[verifier::spinoff_prover]
pub proof fn law_event_debug_words(e: HeapEvent)
    ensures
        words::words(ipc::event_debug(e)) == seq![
            "HeapEvent"@,
            "{"@,
            "kind:"@,
            ipc::kind_variant(ipc::kind_of(e.kind)) + ","@,
            "pid:"@,
            text::dec(e.pid as nat) + ","@,
            "tid:"@,
            text::dec(e.tid as nat) + ","@,
            "timestamp_ns:"@,
            text::dec(e.timestamp_ns as nat) + ","@,
            "addr:"@,
            text::hex0x(e.addr as nat) + ","@,
            "aux_addr:"@,
            text::hex0x(e.aux_addr as nat) + ","@,
            "size:"@,
            text::dec(e.size as nat) + ","@,
            "aux_size:"@,
            text::dec(e.aux_size as nat),
            "}"@,
        ],
{
    lemma_event_literals();
    reveal_strlit(" ");
    reveal_strlit(" }");
    reveal_strlit("}");
    reveal_strlit("{");
    reveal_strlit("HeapEvent");
    reveal_strlit("kind:");
    reveal_strlit("HeapEvent { kind: ");
    assert(words::solid("HeapEvent"@) && words::solid("{"@) && words::solid("}"@) && words::solid(
        "kind:"@,
    )) by {
        reveal(words::solid);
    }
    let kind = ipc::kind_variant(ipc::kind_of(e.kind));
    assert(words::solid(kind)) by {
        reveal(words::solid);
        reveal_strlit("Invalid");
        reveal_strlit("Alloc");
        reveal_strlit("Free");
        reveal_strlit("Realloc");
        reveal_strlit("Memalign");
        reveal_strlit("Calloc");
    }
    let start = "HeapEvent"@ + " "@ + "{"@ + " "@ + "kind:"@ + " "@;
    assert("HeapEvent { kind: "@ =~= start);
    assert(words::closed_words(start) =~= seq!["HeapEvent"@, "{"@, "kind:"@]);
    assert(" }"@ =~= " "@ + "}"@);
    lemma_opens(" }"@, "}"@);
    lemma_field_names();
    let a = start + kind;
    let b = a + ", pid: "@ + text::dec(e.pid as nat);
    lemma_field(a, ", pid: "@, "pid:"@, text::dec(e.pid as nat));
    let c = b + ", tid: "@ + text::dec(e.tid as nat);
    lemma_field(b, ", tid: "@, "tid:"@, text::dec(e.tid as nat));
    let d = c + ", timestamp_ns: "@ + text::dec(e.timestamp_ns as nat);
    lemma_field(c, ", timestamp_ns: "@, "timestamp_ns:"@, text::dec(e.timestamp_ns as nat));
    let f = d + ", addr: "@ + text::hex0x(e.addr as nat);
    lemma_field(d, ", addr: "@, "addr:"@, text::hex0x(e.addr as nat));
    let g = f + ", aux_addr: "@ + text::hex0x(e.aux_addr as nat);
    lemma_field(f, ", aux_addr: "@, "aux_addr:"@, text::hex0x(e.aux_addr as nat));
    let h = g + ", size: "@ + text::dec(e.size as nat);
    lemma_field(g, ", size: "@, "size:"@, text::dec(e.size as nat));
    let i = h + ", aux_size: "@ + text::dec(e.aux_size as nat);
    lemma_field(h, ", aux_size: "@, "aux_size:"@, text::dec(e.aux_size as nat));
    assert(ipc::event_debug(e) == i + " }"@);
    assert(words::words(i + " }"@) =~= words::closed_words(i).push(
        text::dec(e.aux_size as nat),
    ).push("}"@));
}

/// Whether a text is a comma, a space, a name and a space.
spec fn is_field(s: Seq<char>, name: Seq<char>) -> bool {
    words::solid(name) && s == ","@ + " "@ + name + " "@
}

proof fn lemma_field_names()
    ensures
        is_field(", pid: "@, "pid:"@),
        is_field(", tid: "@, "tid:"@),
        is_field(", timestamp_ns: "@, "timestamp_ns:"@),
        is_field(", addr: "@, "addr:"@),
        is_field(", aux_addr: "@, "aux_addr:"@),
        is_field(", size: "@, "size:"@),
        is_field(", aux_size: "@, "aux_size:"@),
{
    reveal(words::solid);
    reveal_strlit(" ");
    reveal_strlit(",");
    reveal_strlit(", pid: ");
    reveal_strlit("pid:");
    reveal_strlit(", tid: ");
    reveal_strlit("tid:");
    reveal_strlit(", timestamp_ns: ");
    reveal_strlit("timestamp_ns:");
    reveal_strlit(", addr: ");
    reveal_strlit("addr:");
    reveal_strlit(", aux_addr: ");
    reveal_strlit("aux_addr:");
    reveal_strlit(", size: ");
    reveal_strlit("size:");
    reveal_strlit(", aux_size: ");
    reveal_strlit("aux_size:");
    assert(", pid: "@ =~= ","@ + " "@ + "pid:"@ + " "@);
    assert(", tid: "@ =~= ","@ + " "@ + "tid:"@ + " "@);
    assert(", timestamp_ns: "@ =~= ","@ + " "@ + "timestamp_ns:"@ + " "@);
    assert(", addr: "@ =~= ","@ + " "@ + "addr:"@ + " "@);
    assert(", aux_addr: "@ =~= ","@ + " "@ + "aux_addr:"@ + " "@);
    assert(", size: "@ =~= ","@ + " "@ + "size:"@ + " "@);
    assert(", aux_size: "@ =~= ","@ + " "@ + "aux_size:"@ + " "@);
}

/// One more field of a debugging line.
proof fn lemma_field(s: Seq<char>, field: Seq<char>, name: Seq<char>, value: Seq<char>)
    requires
        words::open_word(s).len() > 0,
        is_field(field, name),
        words::solid(value),
    ensures
        words::closed_words(s + field + value) == words::closed_words(s).push(
            words::open_word(s) + ","@,
        ).push(name),
        words::open_word(s + field + value) == value,
        words::open_word(s + field + value).len() > 0,
{
    lemma_event_literals();
    assert(words::solid(","@)) by {
        reveal(words::solid);
        reveal_strlit(",");
    }
    let spread = s + ","@ + " "@ + name + " "@ + value;
    assert(s + field + value =~= spread);
    assert(words::closed_words(spread) =~= words::closed_words(s).push(
        words::open_word(s) + ","@,
    ).push(name));
}

} // verus!
