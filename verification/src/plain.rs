//! Colours add control sequences to the output and change nothing else: with colours off
//! no line holds one, and without them a coloured line is the plain one.

use vstd::prelude::*;

use crate::ipc;
use crate::ipc::{EventKind, HeapEvent};
use crate::listing;
use crate::model::OracleView;
use crate::report;
use crate::report::Colors;
use crate::state;
use crate::state::{ApplyResult, BinType, ChunkRecord, ChunkState, OracleAlert, UafReason};
use crate::text;

verus! {

/// Whether a text holds no escape character.
#[verifier::opaque]
pub open spec fn plain(s: Seq<char>) -> bool {
    forall|i: int| 0 <= i < s.len() ==> s[i] != '\x1b'
}

/// Whether every line is free of escape characters.
pub open spec fn all_plain(lines: Seq<Seq<char>>) -> bool {
    forall|i: int| 0 <= i < lines.len() ==> plain(#[trigger] lines[i])
}

broadcast proof fn lemma_plain_concat(a: Seq<char>, b: Seq<char>)
    requires
        plain(a),
        plain(b),
    ensures
        #[trigger] plain(a + b),
{
    reveal(plain);
}

broadcast proof fn lemma_plain_run(c: char, n: nat)
    requires
        c != '\x1b',
    ensures
        #[trigger] plain(text::run_of(c, n)),
{
    reveal(plain);
}

broadcast proof fn lemma_plain_digits(n: nat, base: nat)
    requires
        base == 10 || base == 16,
    ensures
        #[trigger] plain(text::digits(n, base)),
    decreases n,
{
    reveal(plain);
    if n >= base {
        assert(n / base < n) by (nonlinear_arith)
            requires
                n >= base,
                base >= 2,
        ;
        lemma_plain_digits(n / base, base);
        assert(n % base < base);
    }
}

/// The literals of the event lines.
proof fn lemma_plain_event_literals()
    ensures
        plain(""@),
        plain(" "@),
        plain("  "@),
        plain("#"@),
        plain("??   "@),
        plain("(0x"@),
        plain(")"@),
        plain("0x"@),
        plain("[!]"@),
        plain("[-]"@),
        plain("[*]"@),
        plain("[+]"@),
        plain(" free    "@),
        plain(" realloc  "@),
        plain("<-"@),
        plain("-> "@),
        plain("<< "@),
        plain("invalid"@),
        plain("malloc"@),
        plain("free"@),
        plain("realloc"@),
        plain("memalign"@),
        plain("calloc"@),
        plain(Seq::<char>::empty()),
{
    reveal(plain);
    reveal_strlit("");
    reveal_strlit(" ");
    reveal_strlit("  ");
    reveal_strlit("#");
    reveal_strlit("??   ");
    reveal_strlit("(0x");
    reveal_strlit(")");
    reveal_strlit("0x");
    reveal_strlit("[!]");
    reveal_strlit("[-]");
    reveal_strlit("[*]");
    reveal_strlit("[+]");
    reveal_strlit(" free    ");
    reveal_strlit(" realloc  ");
    reveal_strlit("<-");
    reveal_strlit("-> ");
    reveal_strlit("<< ");
    reveal_strlit("invalid");
    reveal_strlit("malloc");
    reveal_strlit("free");
    reveal_strlit("realloc");
    reveal_strlit("memalign");
    reveal_strlit("calloc");
}

/// The literals of the table.
proof fn lemma_plain_table_literals()
    ensures
        plain("\n"@),
        plain("   "@),
        plain("["@),
        plain("]"@),
        plain(" (0x"@),
        plain("): "@),
        plain(" \u{2192} "@),
        plain("ALLOC"@),
        plain("FREE "@),
        plain("UAF  "@),
        plain("tcache"@),
        plain("fastbin"@),
        plain(" Bin Chains"@),
        plain(" Alerts"@),
        plain(" #     Address          Req     Chunk   State"@),
{
    reveal(plain);
    reveal_strlit("\n");
    reveal_strlit("   ");
    reveal_strlit("[");
    reveal_strlit("]");
    reveal_strlit(" (0x");
    reveal_strlit("): ");
    reveal_strlit(" \u{2192} ");
    reveal_strlit("ALLOC");
    reveal_strlit("FREE ");
    reveal_strlit("UAF  ");
    reveal_strlit("tcache");
    reveal_strlit("fastbin");
    reveal_strlit(" Bin Chains");
    reveal_strlit(" Alerts");
    reveal_strlit(" #     Address          Req     Chunk   State");
}

proof fn lemma_plain_bin(bin: BinType)
    ensures
        plain(state::bin_text(bin)),
{
    broadcast use {lemma_plain_concat, lemma_plain_digits};

    assert(plain("tcache["@) && plain("fastbin["@) && plain("smallbin["@) && plain("]"@) && plain(
        "largebin"@,
    ) && plain("reallocated"@)) by {
        reveal(plain);
        reveal_strlit("tcache[");
        reveal_strlit("fastbin[");
        reveal_strlit("smallbin[");
        reveal_strlit("]");
        reveal_strlit("largebin");
        reveal_strlit("reallocated");
    }
}

proof fn lemma_plain_reason(reason: UafReason)
    ensures
        plain(state::reason_text(reason)),
{
    reveal(plain);
    reveal_strlit("double-free");
    reveal_strlit("invalid-free");
    reveal_strlit("realloc-after-free");
}

/// Without colours the line of an event holds no control sequence.
pub proof fn law_plain_event_line(event: HeapEvent, result: ApplyResult)
    ensures
        report::event_line(event, result, false) matches Some(line) ==> plain(line),
{
    broadcast use {lemma_plain_concat, lemma_plain_digits, lemma_plain_run};

    lemma_plain_event_literals();
    if let Some(bin) = result.bin {
        lemma_plain_bin(bin);
    }
    if let Some(alert) = result.alert {
        lemma_plain_reason(alert.reason);
    }
}

proof fn lemma_plain_chain(list: Seq<u64>, indices: Map<u64, usize>)
    ensures
        plain(report::bin_chain(list, indices)),
{
    broadcast use {lemma_plain_concat, lemma_plain_digits};

    lemma_plain_event_literals();
    lemma_plain_table_literals();
    let parts = report::chain_parts(list, indices);
    assert forall|i: int| 0 <= i < parts.len() implies plain(#[trigger] parts[i]) by {}
    lemma_plain_joined(parts);
}

proof fn lemma_plain_joined(parts: Seq<Seq<char>>)
    requires
        all_plain(parts),
    ensures
        plain(text::joined(parts, " \u{2192} "@)),
    decreases parts.len(),
{
    broadcast use lemma_plain_concat;

    lemma_plain_event_literals();
    lemma_plain_table_literals();
    if parts.len() > 0 {
        assert(plain(parts[0]));
        assert(plain(parts.last()));
        assert forall|i: int| 0 <= i < parts.drop_last().len() implies plain(
            #[trigger] parts.drop_last()[i],
        ) by {
            assert(plain(parts[i]));
        }
        lemma_plain_joined(parts.drop_last());
    }
}

proof fn lemma_plain_bin_rows(name: Seq<char>, lists: Seq<Seq<u64>>, indices: Map<u64, usize>)
    requires
        plain(name),
    ensures
        all_plain(report::bin_rows(name, lists, indices, report::colors(false))),
    decreases lists.len(),
{
    broadcast use {lemma_plain_concat, lemma_plain_digits, lemma_plain_run};

    lemma_plain_event_literals();
    lemma_plain_table_literals();
    if lists.len() > 0 {
        lemma_plain_bin_rows(name, lists.drop_last(), indices);
        lemma_plain_chain(lists.last(), indices);
    }
}

proof fn lemma_plain_chunk_row(record: ChunkRecord)
    ensures
        plain(report::chunk_row(record, report::colors(false))),
{
    broadcast use {lemma_plain_concat, lemma_plain_digits, lemma_plain_run};

    lemma_plain_event_literals();
    lemma_plain_table_literals();
    match record.state {
        ChunkState::Freed { bin } => lemma_plain_bin(bin),
        ChunkState::Uaf { reason } => lemma_plain_reason(reason),
        ChunkState::Allocated => {},
    }
}

proof fn lemma_plain_alert_row(alert: OracleAlert)
    ensures
        plain(report::alert_row(alert, report::colors(false))),
{
    broadcast use {lemma_plain_concat, lemma_plain_digits, lemma_plain_run};

    lemma_plain_event_literals();
    lemma_plain_reason(alert.reason);
}

proof fn lemma_plain_section(title: Seq<char>, rows: Seq<Seq<char>>)
    requires
        plain(title),
        all_plain(rows),
    ensures
        all_plain(report::section(title, rows, report::colors(false))),
{
    broadcast use {lemma_plain_concat, lemma_plain_run};

    lemma_plain_event_literals();
    lemma_plain_table_literals();
    let c = report::colors(false);
    assert(plain(report::rule(c)));
    assert(plain("\n"@ + report::rule(c)));
    let lines = report::section(title, rows, c);
    assert forall|i: int| 0 <= i < lines.len() implies plain(#[trigger] lines[i]) by {
        if i >= 3 {
            assert(lines[i] == rows[i - 3]);
        }
    }
}

/// Without colours no line of the table of the heap holds a control sequence.
pub proof fn law_plain_heap_table(view: OracleView)
    ensures
        all_plain(report::heap_table(view, false)),
{
    broadcast use {lemma_plain_concat, lemma_plain_run};

    lemma_plain_event_literals();
    lemma_plain_table_literals();
    let c = report::colors(false);
    let indices = report::indices_of(view.chunks);
    let records = listing::by_index(view.chunks).map_values(
        |r: ChunkRecord| report::chunk_row(r, c),
    );
    let tcache = report::bin_rows("tcache"@, view.tcache, indices, c);
    let fastbins = report::bin_rows("fastbin"@, view.fastbins, indices, c);
    let alerts = view.alerts.map_values(|a: OracleAlert| report::alert_row(a, c));
    assert forall|i: int| 0 <= i < records.len() implies plain(#[trigger] records[i]) by {
        lemma_plain_chunk_row(listing::by_index(view.chunks)[i]);
    }
    assert forall|i: int| 0 <= i < alerts.len() implies plain(#[trigger] alerts[i]) by {
        lemma_plain_alert_row(view.alerts[i]);
    }
    lemma_plain_bin_rows("tcache"@, view.tcache, indices);
    lemma_plain_bin_rows("fastbin"@, view.fastbins, indices);
    assert(all_plain(tcache + fastbins));
    let records_title = c.cyan + " #     Address          Req     Chunk   State"@ + c.reset;
    let bins_title = c.magenta + " Bin Chains"@ + c.reset;
    let alerts_title = c.bright_red + " Alerts"@ + c.reset;
    lemma_plain_section(records_title, records);
    lemma_plain_section(bins_title, tcache + fastbins);
    lemma_plain_section(alerts_title, alerts);
    assert(plain(report::rule(c)));
}

////////////////////////////////////////////////////////////////////////////////
// Colours only add control sequences
////////////////////////////////////////////////////////////////////////////////
/// Whether a text ends inside a control sequence, which runs from an escape character
/// to the next `m`.
pub open spec fn ends_inside(s: Seq<char>) -> bool
    decreases s.len(),
{
    if s.len() == 0 {
        false
    } else if ends_inside(s.drop_last()) {
        s.last() != 'm'
    } else {
        s.last() == '\x1b'
    }
}

/// A text without its control sequences.
pub open spec fn stripped(s: Seq<char>) -> Seq<char>
    decreases s.len(),
{
    if s.len() == 0 {
        Seq::empty()
    } else {
        let before = stripped(s.drop_last());
        if ends_inside(s.drop_last()) || s.last() == '\x1b' {
            before
        } else {
            before.push(s.last())
        }
    }
}

/// Whether the control sequences of a text all end in it, and what they leave is
/// `rest`.
#[verifier::opaque]
pub open spec fn fades_to(s: Seq<char>, rest: Seq<char>) -> bool {
    !ends_inside(s) && stripped(s) == rest
}

proof fn lemma_strip_concat(a: Seq<char>, b: Seq<char>)
    requires
        !ends_inside(a),
    ensures
        ends_inside(a + b) == ends_inside(b),
        stripped(a + b) == stripped(a) + stripped(b),
    decreases b.len(),
{
    if b.len() == 0 {
        assert(a + b =~= a);
        assert(stripped(a) + stripped(b) =~= stripped(a));
    } else {
        lemma_strip_concat(a, b.drop_last());
        assert((a + b).drop_last() =~= a + b.drop_last());
        assert((a + b).last() == b.last());
        assert(stripped(a + b) =~= stripped(a) + stripped(b));
    }
}

broadcast proof fn lemma_fade_concat(a: Seq<char>, b: Seq<char>, c: Seq<char>, d: Seq<char>)
    requires
        fades_to(a, c),
        fades_to(b, d),
    ensures
        #[trigger] fades_to(a + b, c + d),
{
    reveal(fades_to);
    lemma_strip_concat(a, b);
}

broadcast proof fn lemma_fade_plain(s: Seq<char>)
    requires
        plain(s),
    ensures
        #[trigger] fades_to(s, s),
    decreases s.len(),
{
    reveal(fades_to);
    reveal(plain);
    if s.len() > 0 {
        lemma_fade_plain(s.drop_last());
        assert(s.drop_last().push(s.last()) =~= s);
    } else {
        assert(s =~= Seq::empty());
    }
}

/// Every colour fades to nothing.
proof fn lemma_fade_colors()
    ensures
        ({
            let on = report::colors(true);
            let off = report::colors(false);
            &&& fades_to(on.green, off.green)
            &&& fades_to(on.red, off.red)
            &&& fades_to(on.yellow, off.yellow)
            &&& fades_to(on.cyan, off.cyan)
            &&& fades_to(on.magenta, off.magenta)
            &&& fades_to(on.bright_red, off.bright_red)
            &&& fades_to(on.dim, off.dim)
            &&& fades_to(on.reset, off.reset)
        }),
{
    reveal_strlit("");
    reveal_strlit("\x1b[32m");
    reveal_strlit("\x1b[31m");
    reveal_strlit("\x1b[33m");
    reveal_strlit("\x1b[36m");
    reveal_strlit("\x1b[35m");
    reveal_strlit("\x1b[1;91m");
    reveal_strlit("\x1b[2m");
    reveal_strlit("\x1b[0m");
    lemma_fade_sequence("\x1b[32m"@);
    lemma_fade_sequence("\x1b[31m"@);
    lemma_fade_sequence("\x1b[33m"@);
    lemma_fade_sequence("\x1b[36m"@);
    lemma_fade_sequence("\x1b[35m"@);
    lemma_fade_sequence("\x1b[1;91m"@);
    lemma_fade_sequence("\x1b[2m"@);
    lemma_fade_sequence("\x1b[0m"@);
    assert(""@ =~= Seq::empty());
}

/// A single control sequence fades to nothing.
proof fn lemma_fade_sequence(s: Seq<char>)
    requires
        s.len() >= 2,
        s[0] == '\x1b',
        s.last() == 'm',
        forall|i: int| 0 < i < s.len() - 1 ==> s[i] != 'm',
    ensures
        fades_to(s, Seq::empty()),
{
    reveal(fades_to);
    lemma_open_sequence(s.drop_last());
}

proof fn lemma_open_sequence(s: Seq<char>)
    requires
        s.len() >= 1,
        s[0] == '\x1b',
        forall|i: int| 0 < i < s.len() ==> s[i] != 'm',
    ensures
        ends_inside(s),
        stripped(s) == Seq::<char>::empty(),
    decreases s.len(),
{
    if s.len() > 1 {
        lemma_open_sequence(s.drop_last());
    } else {
        assert(!ends_inside(s.drop_last()));
        assert(stripped(s.drop_last()) == Seq::<char>::empty());
    }
}

/// Colours only add control sequences: without them the coloured line of an event is
/// the plain one.
pub proof fn law_stripped_event_line(event: HeapEvent, result: ApplyResult)
    ensures
        report::event_line(event, result, true) is Some <==> report::event_line(
            event,
            result,
            false,
        ) is Some,
        report::event_line(event, result, true) matches Some(line) ==> report::event_line(
            event,
            result,
            false,
        ) == Some(stripped(line)),
{
    broadcast use {lemma_plain_concat, lemma_plain_digits, lemma_plain_run};

    let on = report::colors(true);
    let off = report::colors(false);
    let kind = ipc::kind_of(event.kind);
    lemma_plain_event_literals();
    if let Some(bin) = result.bin {
        lemma_plain_bin(bin);
    }
    if let Some(alert) = result.alert {
        lemma_plain_reason(alert.reason);
    }
    lemma_fade_colors();
    assert(fades_to(
        report::event_mark(kind, result.alert is Some, on),
        report::event_mark(kind, result.alert is Some, off),
    )) by {
        broadcast use {lemma_fade_concat, lemma_fade_plain};

    }
    assert(fades_to(
        report::size_note(result.chunk_size, on),
        report::size_note(result.chunk_size, off),
    )) by {
        broadcast use {lemma_fade_concat, lemma_fade_plain};

    }
    assert(fades_to(
        report::event_call(event, result.chunk_size, on),
        report::event_call(event, result.chunk_size, off),
    )) by {
        broadcast use {lemma_fade_concat, lemma_fade_plain};

    }
    assert(fades_to(report::event_outcome(result, on), report::event_outcome(result, off))) by {
        broadcast use {lemma_fade_concat, lemma_fade_plain};

    }
    if let Some(line) = report::event_line(event, result, true) {
        assert(fades_to(line, report::event_line(event, result, false)->0)) by {
            broadcast use {lemma_fade_concat, lemma_fade_plain};

        }
        reveal(fades_to);
    }
}

/// Whether each line of a list fades to the line at its place in another.
spec fn all_fade(lines: Seq<Seq<char>>, rest: Seq<Seq<char>>) -> bool {
    &&& lines.len() == rest.len()
    &&& forall|i: int| 0 <= i < lines.len() ==> fades_to(#[trigger] lines[i], rest[i])
}

proof fn lemma_fade_bin_rows(name: Seq<char>, lists: Seq<Seq<u64>>, indices: Map<u64, usize>)
    requires
        plain(name),
    ensures
        all_fade(
            report::bin_rows(name, lists, indices, report::colors(true)),
            report::bin_rows(name, lists, indices, report::colors(false)),
        ),
    decreases lists.len(),
{
    broadcast use {lemma_plain_digits, lemma_plain_run, lemma_plain_concat};

    if lists.len() > 0 {
        let list = lists.last();
        let idx = (lists.len() - 1) as nat;
        lemma_fade_bin_rows(name, lists.drop_last(), indices);
        lemma_plain_event_literals();
        lemma_plain_table_literals();
        lemma_plain_chain(list, indices);
        lemma_fade_colors();
        assert(fades_to(
            report::bin_row(name, idx, list, indices, report::colors(true)),
            report::bin_row(name, idx, list, indices, report::colors(false)),
        )) by {
            broadcast use {lemma_fade_concat, lemma_fade_plain};

        }
    }
}

proof fn lemma_fade_chunk_row(record: ChunkRecord)
    ensures
        fades_to(
            report::chunk_row(record, report::colors(true)),
            report::chunk_row(record, report::colors(false)),
        ),
{
    broadcast use {lemma_plain_digits, lemma_plain_run, lemma_plain_concat};

    lemma_plain_event_literals();
    lemma_plain_table_literals();
    lemma_fade_colors();
    match record.state {
        ChunkState::Freed { bin } => lemma_plain_bin(bin),
        ChunkState::Uaf { reason } => lemma_plain_reason(reason),
        ChunkState::Allocated => {},
    }
    assert(fades_to(
        report::state_column(record.state, report::colors(true)),
        report::state_column(record.state, report::colors(false)),
    )) by {
        broadcast use {lemma_fade_concat, lemma_fade_plain};

    }
    broadcast use {lemma_fade_concat, lemma_fade_plain};

}

proof fn lemma_fade_alert_row(alert: OracleAlert)
    ensures
        fades_to(
            report::alert_row(alert, report::colors(true)),
            report::alert_row(alert, report::colors(false)),
        ),
{
    broadcast use {
        lemma_plain_digits,
        lemma_plain_run,
        lemma_plain_concat,
        lemma_fade_concat,
        lemma_fade_plain,
    };

    lemma_plain_event_literals();
    lemma_plain_reason(alert.reason);
    lemma_fade_colors();
}

/// The rules and the titles of the table.
proof fn lemma_fade_frame()
    ensures
        ({
            let on = report::colors(true);
            let off = report::colors(false);
            let title = " #     Address          Req     Chunk   State"@;
            &&& fades_to(report::rule(on), report::rule(off))
            &&& fades_to("\n"@ + report::rule(on), "\n"@ + report::rule(off))
            &&& fades_to(on.cyan + title + on.reset, off.cyan + title + off.reset)
            &&& fades_to(
                on.magenta + " Bin Chains"@ + on.reset,
                off.magenta + " Bin Chains"@ + off.reset,
            )
            &&& fades_to(
                on.bright_red + " Alerts"@ + on.reset,
                off.bright_red + " Alerts"@ + off.reset,
            )
        }),
{
    broadcast use {lemma_plain_run, lemma_fade_concat, lemma_fade_plain};

    lemma_plain_table_literals();
    lemma_fade_colors();
}

proof fn lemma_fade_section(
    title: Seq<char>,
    faded_title: Seq<char>,
    rows: Seq<Seq<char>>,
    faded_rows: Seq<Seq<char>>,
)
    requires
        fades_to(title, faded_title),
        all_fade(rows, faded_rows),
    ensures
        all_fade(
            report::section(title, rows, report::colors(true)),
            report::section(faded_title, faded_rows, report::colors(false)),
        ),
{
    lemma_fade_frame();
    let lines = report::section(title, rows, report::colors(true));
    let rest = report::section(faded_title, faded_rows, report::colors(false));
    assert forall|i: int| 0 <= i < lines.len() implies fades_to(#[trigger] lines[i], rest[i]) by {
        if i >= 3 {
            assert(lines[i] == rows[i - 3]);
            assert(rest[i] == faded_rows[i - 3]);
        }
    }
}

/// Without their control sequences the lines of the coloured table of the heap are
/// those of the plain one.
pub proof fn law_stripped_heap_table(view: OracleView)
    ensures
        report::heap_table(view, true).map_values(|line: Seq<char>| stripped(line))
            == report::heap_table(view, false),
{
    let on = report::colors(true);
    let off = report::colors(false);
    let indices = report::indices_of(view.chunks);
    let listed = listing::by_index(view.chunks);
    let records = listed.map_values(|r: ChunkRecord| report::chunk_row(r, on));
    let faded_records = listed.map_values(|r: ChunkRecord| report::chunk_row(r, off));
    let bins = report::bin_rows("tcache"@, view.tcache, indices, on) + report::bin_rows(
        "fastbin"@,
        view.fastbins,
        indices,
        on,
    );
    let faded_bins = report::bin_rows("tcache"@, view.tcache, indices, off) + report::bin_rows(
        "fastbin"@,
        view.fastbins,
        indices,
        off,
    );
    let alerts = view.alerts.map_values(|a: OracleAlert| report::alert_row(a, on));
    let faded_alerts = view.alerts.map_values(|a: OracleAlert| report::alert_row(a, off));
    assert forall|i: int| 0 <= i < records.len() implies fades_to(
        #[trigger] records[i],
        faded_records[i],
    ) by {
        lemma_fade_chunk_row(listed[i]);
    }
    assert forall|i: int| 0 <= i < alerts.len() implies fades_to(
        #[trigger] alerts[i],
        faded_alerts[i],
    ) by {
        lemma_fade_alert_row(view.alerts[i]);
    }
    lemma_plain_table_literals();
    lemma_fade_bin_rows("tcache"@, view.tcache, indices);
    lemma_fade_bin_rows("fastbin"@, view.fastbins, indices);
    assert(all_fade(bins, faded_bins));
    lemma_fade_frame();
    let title = " #     Address          Req     Chunk   State"@;
    lemma_fade_section(
        on.cyan + title + on.reset,
        off.cyan + title + off.reset,
        records,
        faded_records,
    );
    lemma_fade_section(
        on.magenta + " Bin Chains"@ + on.reset,
        off.magenta + " Bin Chains"@ + off.reset,
        bins,
        faded_bins,
    );
    lemma_fade_section(
        on.bright_red + " Alerts"@ + on.reset,
        off.bright_red + " Alerts"@ + off.reset,
        alerts,
        faded_alerts,
    );
    let lines = report::heap_table(view, true);
    let rest = report::heap_table(view, false);
    assert(all_fade(lines, rest));
    assert forall|i: int| 0 <= i < lines.len() implies stripped(#[trigger] lines[i]) == rest[i] by {
        assert(fades_to(lines[i], rest[i]));
        reveal(fades_to);
    }
    assert(lines.map_values(|line: Seq<char>| stripped(line)) =~= rest);
}

} // verus!
