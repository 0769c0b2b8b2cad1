//! What the labels of the window say.

use vstd::prelude::*;

use crate::model::OracleView;
use crate::panel;
use crate::panel::Tone;
use crate::runtime::RuntimeSnapshot;
use crate::said;
use crate::state;
use crate::state::{ChunkRecord, ChunkState, OracleAlert, OracleSummary};
use crate::text;
use crate::words;

verus! {

broadcast use words::group_words;

/// A name with a space behind it and a number.
proof fn lemma_counted(label: Seq<char>, name: Seq<char>, n: nat)
    requires
        words::ended(label, name),
    ensures
        words::words(panel::counted(label, n)) == seq![name, text::dec(n)],
{
    words::lemma_words_empty();
    assert(Seq::<char>::empty() + label =~= label);
    assert(words::closed_words(Seq::<char>::empty() + label) =~= seq![name]);
    assert(words::words(panel::counted(label, n)) =~= seq![name, text::dec(n)]);
}

proof fn lemma_label_names()
    ensures
        words::ended("events "@, "events"@),
        words::ended("pending "@, "pending"@),
        words::ended("dropped "@, "dropped"@),
        words::ended("chunks "@, "chunks"@),
        words::ended("allocated "@, "allocated"@),
        words::ended("freed "@, "freed"@),
        words::ended("uaf "@, "uaf"@),
        words::ended("alerts "@, "alerts"@),
{
    reveal(words::solid);
    reveal(words::blank);
    reveal(words::ended);
    reveal_strlit("events ");
    reveal_strlit("events");
    reveal_strlit("pending ");
    reveal_strlit("pending");
    reveal_strlit("dropped ");
    reveal_strlit("dropped");
    reveal_strlit("chunks ");
    reveal_strlit("chunks");
    reveal_strlit("allocated ");
    reveal_strlit("allocated");
    reveal_strlit("freed ");
    reveal_strlit("freed");
    reveal_strlit("uaf ");
    reveal_strlit("uaf");
    reveal_strlit("alerts ");
    reveal_strlit("alerts");
    assert("events "@ =~= "events"@ + "events "@.skip(6));
    assert("pending "@ =~= "pending"@ + "pending "@.skip(7));
    assert("dropped "@ =~= "dropped"@ + "dropped "@.skip(7));
    assert("chunks "@ =~= "chunks"@ + "chunks "@.skip(6));
    assert("allocated "@ =~= "allocated"@ + "allocated "@.skip(9));
    assert("freed "@ =~= "freed"@ + "freed "@.skip(5));
    assert("uaf "@ =~= "uaf"@ + "uaf "@.skip(3));
    assert("alerts "@ =~= "alerts"@ + "alerts "@.skip(6));
}

/// The overview shows the three counters, and the status of the target exactly once it
/// has exited.
pub proof fn law_overview(snap: RuntimeSnapshot)
    ensures
        ({
            let labels = panel::overview(snap);
            &&& labels.len() == if snap.target_exited {
                4int
            } else {
                3
            }
            &&& labels[0].0 == Tone::Plain && words::words(labels[0].1) == seq![
                "events"@,
                text::dec(snap.consumed as nat),
            ]
            &&& labels[1].0 == Tone::Plain && words::words(labels[1].1) == seq![
                "pending"@,
                text::dec(snap.pending as nat),
            ]
            &&& labels[2].0 == Tone::Plain && words::words(labels[2].1) == seq![
                "dropped"@,
                text::dec(snap.dropped as nat),
            ]
            &&& snap.target_exited ==> labels[3].0 == Tone::Alarm && words::words(labels[3].1)
                == seq![
                "target"@,
                "exited"@,
                "("@ + text::dec_int(snap.target_status as int) + ")"@,
            ]
        }),
{
    lemma_label_names();
    lemma_counted("events "@, "events"@, snap.consumed as nat);
    lemma_counted("pending "@, "pending"@, snap.pending as nat);
    lemma_counted("dropped "@, "dropped"@, snap.dropped as nat);
    if snap.target_exited {
        let status = text::dec_int(snap.target_status as int);
        reveal_strlit("target exited (");
        reveal_strlit("target");
        reveal_strlit("exited");
        reveal_strlit("(");
        reveal_strlit(")");
        reveal_strlit("-");
        reveal_strlit(" ");
        said::lemma_event_literals();
        assert(words::solid("target"@) && words::solid("exited"@) && words::solid("("@)
            && words::solid(")"@) && words::solid("-"@)) by {
            reveal(words::solid);
        }
        let start = "target"@ + " "@ + "exited"@ + " "@ + "("@;
        assert("target exited ("@ =~= start);
        assert(words::closed_words(start) =~= seq!["target"@, "exited"@]);
        assert(words::solid(status));
        assert(words::words("target exited ("@ + status + ")"@) =~= seq![
            "target"@,
            "exited"@,
            "("@ + status + ")"@,
        ]);
    }
}

/// The totals show each class of chunks under its own name and in its own tone.
pub proof fn law_totals(summary: OracleSummary)
    ensures
        ({
            let labels = panel::totals(summary);
            &&& labels.len() == 5
            &&& labels[0].0 == Tone::Plain && words::words(labels[0].1) == seq![
                "chunks"@,
                text::dec(summary.total_chunks as nat),
            ]
            &&& labels[1].0 == Tone::Live && words::words(labels[1].1) == seq![
                "allocated"@,
                text::dec(summary.allocated as nat),
            ]
            &&& labels[2].0 == Tone::Idle && words::words(labels[2].1) == seq![
                "freed"@,
                text::dec(summary.freed as nat),
            ]
            &&& labels[3].0 == Tone::Alarm && words::words(labels[3].1) == seq![
                "uaf"@,
                text::dec(summary.uaf as nat),
            ]
            &&& labels[4].0 == Tone::Plain && words::words(labels[4].1) == seq![
                "alerts"@,
                text::dec(summary.alerts as nat),
            ]
        }),
{
    lemma_label_names();
    lemma_counted("chunks "@, "chunks"@, summary.total_chunks as nat);
    lemma_counted("allocated "@, "allocated"@, summary.allocated as nat);
    lemma_counted("freed "@, "freed"@, summary.freed as nat);
    lemma_counted("uaf "@, "uaf"@, summary.uaf as nat);
    lemma_counted("alerts "@, "alerts"@, summary.alerts as nat);
}

/// A chain of the window names the addresses of its list from the first on, ten at most,
/// with arrows between; more than ten end in dots.
#[verifier::rlimit(40)]
#[verifier::spinoff_prover]
pub proof fn law_chain_words(list: Seq<u64>)
    ensures
        list.len() == 0 ==> panel::chain(list).len() == 0,
        list.len() > 0 ==> {
            let all = words::words(panel::chain(list));
            let shown = if list.len() > 10 {
                10
            } else {
                list.len() as int
            };
            &&& all.len() == 2 * shown - 1 + (if list.len() > 10 {
                2int
            } else {
                0
            })
            &&& forall|i: int|
                0 <= i < shown ==> all[2 * i] == text::hex0x(#[trigger] list[i] as nat)
            &&& forall|i: int| 0 <= i < shown - 1 ==> #[trigger] all[2 * i + 1] == "->"@
            &&& list.len() > 10 ==> all[19] == "->"@ && all[20] == "..."@
        },
{
    said::lemma_event_literals();
    assert(words::solid("->"@) && words::solid("..."@) && " -> "@ =~= " "@ + "->"@ + " "@
        && " -> ..."@ =~= " "@ + "->"@ + " "@ + "..."@) by {
        reveal(words::solid);
        reveal_strlit(" ");
        reveal_strlit("->");
        reveal_strlit("...");
        reveal_strlit(" -> ");
        reveal_strlit(" -> ...");
    }
    let separator = " "@ + "->"@ + " "@;
    let dots = " "@ + "->"@ + " "@ + "..."@;
    assert(words::closed_words(separator) =~= seq!["->"@]);
    assert(words::closed_words(dots) =~= seq!["->"@]);
    if list.len() > 0 {
        let shown = if list.len() > 10 {
            list.take(10)
        } else {
            list
        };
        let parts = panel::hex_parts(shown);
        assert forall|i: int| 0 <= i < parts.len() implies words::solid(#[trigger] parts[i]) by {}
        words::lemma_words_joined(parts, separator, "->"@);
        let body = text::joined(parts, separator);
        let all = words::words(panel::chain(list));
        if list.len() > 10 {
            assert(all =~= words::words(body).push("->"@).push("..."@));
        }
        assert forall|i: int| 0 <= i < shown.len() implies all[2 * i] == text::hex0x(
            #[trigger] list[i] as nat,
        ) by {
            assert(parts[i] == text::hex0x(list[i] as nat));
        }
    }
}

/// The line of a bin says which bin it is and its chain.
pub proof fn law_bin_entry_words(name: Seq<char>, idx: nat, list: Seq<u64>)
    requires
        words::solid(name),
    ensures
        words::words(panel::bin_entry(name, idx, list)) == seq![
            name + "["@ + text::zero_fill(text::dec(idx), 2) + "]:"@,
        ] + words::words(panel::chain(list)),
{
    said::lemma_table_literals();
    assert(words::ended("]: "@, "]:"@)) by {
        reveal(words::ended);
        reveal(words::solid);
        reveal(words::blank);
        reveal_strlit("]: ");
        reveal_strlit("]:");
        assert("]: "@ =~= "]:"@ + "]: "@.skip(2));
    }
    let title = name + "["@ + text::zero_fill(text::dec(idx), 2) + "]:"@;
    let start = name + "["@ + text::zero_fill(text::dec(idx), 2) + "]: "@;
    assert(words::closed_words(start) =~= seq![title]);
    words::lemma_words_fresh(start, panel::chain(list));
    assert(words::words(start + panel::chain(list)) =~= seq![title] + words::words(
        panel::chain(list),
    ));
}

/// Bins in use have one line each, in the order of their numbers, and the others none;
/// the thread cache comes before the fast bins.
pub proof fn law_bin_entries(
    name: Seq<char>,
    lists: Seq<Seq<u64>>,
    more: Seq<u64>,
    view: OracleView,
)
    ensures
        panel::bin_entries(name, Seq::empty()).len() == 0,
        more.len() == 0 ==> panel::bin_entries(name, lists.push(more)) == panel::bin_entries(
            name,
            lists,
        ),
        more.len() > 0 ==> panel::bin_entries(name, lists.push(more)) == panel::bin_entries(
            name,
            lists,
        ).push(panel::bin_entry(name, lists.len(), more)),
        panel::bin_panel(view) == panel::bin_entries("tcache"@, view.tcache) + panel::bin_entries(
            "fastbin"@,
            view.fastbins,
        ),
{
    assert(lists.push(more).drop_last() =~= lists);
}

/// The alert panel shows the latest alerts, sixteen at most and the newest first, each
/// with its address, what it was flagged as, and its time.
#[verifier::rlimit(40)]
#[verifier::spinoff_prover]
pub proof fn law_alert_panel(alerts: Seq<OracleAlert>)
    ensures
        panel::alert_panel(alerts).len() == if alerts.len() < 16 {
            alerts.len()
        } else {
            16
        },
        forall|i: int|
            0 <= i < panel::alert_panel(alerts).len() ==> words::words(
                #[trigger] panel::alert_panel(alerts)[i],
            ) == seq![
                text::hex0x_fill(alerts[alerts.len() - 1 - i].addr as nat, 14),
                state::reason_text(alerts[alerts.len() - 1 - i].reason),
                "@"@,
                text::dec(alerts[alerts.len() - 1 - i].timestamp_ns as nat),
                "ns"@,
            ],
{
    said::lemma_event_literals();
    assert(words::solid("@"@) && words::solid("ns"@) && "  @ "@ =~= "  "@ + "@"@ + " "@ && " ns"@
        =~= " "@ + "ns"@) by {
        reveal(words::solid);
        reveal_strlit(" ");
        reveal_strlit("  ");
        reveal_strlit("@");
        reveal_strlit("ns");
        reveal_strlit("  @ ");
        reveal_strlit(" ns");
    }
    let at = "  "@ + "@"@ + " "@;
    assert(words::closed_words(at) =~= seq!["@"@]);
    said::lemma_opens(" ns"@, "ns"@);
    assert forall|i: int| 0 <= i < panel::alert_panel(alerts).len() implies words::words(
        #[trigger] panel::alert_panel(alerts)[i],
    ) == seq![
        text::hex0x_fill(alerts[alerts.len() - 1 - i].addr as nat, 14),
        state::reason_text(alerts[alerts.len() - 1 - i].reason),
        "@"@,
        text::dec(alerts[alerts.len() - 1 - i].timestamp_ns as nat),
        "ns"@,
    ] by {
        let alert = alerts[alerts.len() - 1 - i];
        said::lemma_solid_reason(alert.reason);
        assert(words::words(panel::alert_entry(alert)) =~= seq![
            text::hex0x_fill(alert.addr as nat, 14),
            state::reason_text(alert.reason),
            "@"@,
            text::dec(alert.timestamp_ns as nat),
            "ns"@,
        ]);
    }
}

/// The state of a chunk on its line.
pub open spec fn state_shown(chunk_state: ChunkState) -> Seq<Seq<char>> {
    match chunk_state {
        ChunkState::Allocated => seq!["ALLOC"@],
        ChunkState::Freed { bin } => seq!["FREE"@, "->"@, state::bin_text(bin)],
        ChunkState::Uaf { reason } => seq!["UAF"@, "("@ + state::reason_text(reason) + ")"@],
    }
}

/// The line of a chunk says its index, its address, the size asked for, its state, and
/// where it was allocated, if that is known.
#[verifier::rlimit(40)]
#[verifier::spinoff_prover]
pub proof fn law_chunk_entry_words(record: ChunkRecord)
    ensures
        words::words(panel::chunk_entry(record)) == seq![
            "#"@ + text::dec(record.index as nat),
            text::hex0x_fill(record.addr as nat, 14),
            "["@ + text::hex0x_fill(record.size as nat, 6) + "]"@,
        ] + state_shown(record.state) + (if record.alloc_stack.len > 0 {
            seq!["@"@, text::hex0x(record.alloc_stack.frames@[0] as nat)]
        } else {
            Seq::empty()
        }),
{
    said::lemma_event_literals();
    said::lemma_table_literals();
    words::lemma_words_empty();
    assert(words::solid("@"@) && words::solid("("@) && words::solid("->"@) && " @ "@ =~= " "@
        + "@"@ + " "@ && " ["@ =~= " "@ + "["@ && " ("@ =~= " "@ + "("@ && " -> "@ =~= " "@ + "->"@
        + " "@ && words::ended("] "@, "]"@)) by {
        reveal(words::solid);
        reveal(words::blank);
        reveal(words::ended);
        reveal_strlit(" ");
        reveal_strlit("@");
        reveal_strlit("(");
        reveal_strlit("->");
        reveal_strlit("[");
        reveal_strlit("]");
        reveal_strlit(" @ ");
        reveal_strlit(" [");
        reveal_strlit(" (");
        reveal_strlit(" -> ");
        reveal_strlit("] ");
        assert("] "@ =~= "]"@ + "] "@.skip(1));
    }
    said::lemma_opens(" ["@, "["@);
    said::lemma_opens(" ("@, "("@);
    let at = " "@ + "@"@ + " "@;
    let arrow = " "@ + "->"@ + " "@;
    assert(words::closed_words(at) =~= seq!["@"@]);
    assert(words::closed_words(arrow) =~= seq!["->"@]);
    let number = text::dec(record.index as nat);
    let addr = text::hex0x_fill(record.addr as nat, 14);
    let size = text::hex0x_fill(record.size as nat, 6);
    let start = "#"@ + text::pad_right(number, 4);
    assert(words::words(start) =~= seq!["#"@ + number]);
    let head = start + " "@ + addr + " ["@ + size + "] "@;
    assert(words::closed_words(head) =~= seq!["#"@ + number, addr, "["@ + size + "]"@]);
    let told = panel::state_words(record.state);
    match record.state {
        ChunkState::Allocated => {
            assert(words::words(told) =~= state_shown(record.state));
        },
        ChunkState::Freed { bin } => {
            said::lemma_solid_bin(bin);
            let first = Seq::<char>::empty() + "FREE "@;
            assert(told =~= first + " -> "@ + state::bin_text(bin));
            assert(words::words(first + " -> "@ + state::bin_text(bin)) =~= state_shown(
                record.state,
            ));
        },
        ChunkState::Uaf { reason } => {
            said::lemma_solid_reason(reason);
            let first = Seq::<char>::empty() + "UAF  "@;
            let text = first + " ("@ + state::reason_text(reason) + ")"@;
            assert(told =~= text);
            assert(words::words(text) =~= state_shown(record.state));
        },
    }
    words::lemma_words_fresh(head, told);
    let body = head + told;
    assert(words::words(body) =~= words::words(head) + words::words(told));
    let note = panel::frame_note(record);
    if record.alloc_stack.len > 0 {
        let frame = text::hex0x(record.alloc_stack.frames@[0] as nat);
        assert(words::words(note) =~= seq!["@"@, frame]);
        assert(words::spaced(note));
        assert(words::words(body + note) =~= words::words(body) + seq!["@"@, frame]);
    }
    assert(panel::chunk_entry(record) == body + note);
    assert(words::words(body + note) =~= seq![
        "#"@ + number,
        addr,
        "["@ + size + "]"@,
    ] + state_shown(record.state) + (if record.alloc_stack.len > 0 {
        seq!["@"@, text::hex0x(record.alloc_stack.frames@[0] as nat)]
    } else {
        Seq::empty()
    }));
}

/// The tone and the block of a chunk tell what it is, whatever its bin and whatever the
/// misuse.
pub proof fn law_state_signs(chunk_state: ChunkState)
    ensures
        panel::state_tone(chunk_state) == Tone::Live <==> chunk_state == ChunkState::Allocated,
        panel::state_tone(chunk_state) == Tone::Idle <==> chunk_state is Freed,
        panel::state_tone(chunk_state) == Tone::Alarm <==> chunk_state is Uaf,
        chunk_state == ChunkState::Allocated ==> panel::state_block(chunk_state)
            == "\u{2588}\u{2588}"@,
        chunk_state is Freed ==> panel::state_block(chunk_state) == "\u{2591}\u{2591}"@,
        chunk_state is Uaf ==> panel::state_block(chunk_state) == "!!"@,
{
}

} // verus!
