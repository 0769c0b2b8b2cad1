//! What the heap oracle promises, proved of its model.

use vstd::prelude::*;

use crate::ipc;
use crate::ipc::{EventKind, HeapEvent, RingStats};
use crate::model;
use crate::model::OracleView;
use crate::runtime;
use crate::runtime::ReaderStep;
use crate::state;
use crate::state::{BinType, ChunkState, OracleAlert, UafReason};

verus! {

/// Whether the chunk at `addr` is allocated.
pub open spec fn is_allocated(view: OracleView, addr: u64) -> bool {
    view.chunks.contains_key(addr) && view.chunks[addr].state == ChunkState::Allocated
}

/// Whether an event frees or reallocates memory that is not allocated, and as what
/// it is to be flagged. A null address is never flagged, and neither is a
/// reallocation that failed or that moves a block never seen.
pub open spec fn misuse(view: OracleView, event: HeapEvent) -> Option<OracleAlert> {
    let (addr, moves) = match ipc::kind_of(event.kind) {
        EventKind::Free => (event.addr, false),
        EventKind::Realloc => if event.size as usize == 0 {
            (event.aux_addr, false)
        } else if event.addr == 0 {
            (0, true)
        } else {
            (event.aux_addr, true)
        },
        _ => (0, false),
    };
    if addr == 0 || is_allocated(view, addr) {
        None
    } else {
        let timestamp_ns = event.timestamp_ns;
        if moves {
            if view.chunks.contains_key(addr) {
                Some(OracleAlert { addr, reason: UafReason::ReallocOfFreed, timestamp_ns })
            } else {
                None
            }
        } else if view.chunks.contains_key(addr) {
            Some(OracleAlert { addr, reason: UafReason::DoubleFree, timestamp_ns })
        } else {
            Some(OracleAlert { addr, reason: UafReason::InvalidFree, timestamp_ns })
        }
    }
}

/// An event raises an alert exactly when it misuses memory, with the reason for
/// that misuse; the alert becomes the latest, and the others keep their order.
pub proof fn law_alerts_are_misuse(view: OracleView, event: HeapEvent)
    ensures
        view.step(event).1.alert == misuse(view, event),
        misuse(view, event) is None ==> view.step(event).0.alerts == view.alerts,
        misuse(view, event) matches Some(alert) ==> view.step(event).0.alerts == model::last_items(
            view.alerts.push(alert),
            state::ALERT_LIMIT as nat,
        ) && view.step(event).0.alerts.last() == alert,
{
}

/// Every event keeps the state well formed.
pub proof fn law_step_preserves_wf(view: OracleView, event: HeapEvent)
    requires
        view.wf(),
        0 <= view.next_index <= usize::MAX,
    ensures
        view.step(event).0.wf(),
{
    let counted = OracleView { total_events: model::bumped(view.total_events), ..view };
    let stack = state::stack_of(event);
    let size = event.size as usize;
    let ns = event.timestamp_ns;
    model::lemma_counted_wf(view);
    model::lemma_alloc_wf(counted, event.addr, size, stack, ns);
    model::lemma_free_wf(counted, event.addr, stack, ns);
    model::lemma_free_wf(counted, event.aux_addr, stack, ns);
    if event.aux_addr != 0 {
        model::lemma_release_wf(counted, event.aux_addr, stack, ns);
        let middle = counted.after_release(event.aux_addr, stack, ns).0;
        model::lemma_alloc_wf(middle, event.addr, size, stack, ns);
    }
}

/// Every state that events lead to from the empty oracle is well formed, as long as
/// the indices last.
pub proof fn law_reachable_wf(events: Seq<HeapEvent>)
    requires
        OracleView::initial().after_all(events).next_index <= usize::MAX,
    ensures
        OracleView::initial().after_all(events).wf(),
        0 <= OracleView::initial().after_all(events).next_index,
    decreases events.len(),
{
    if events.len() == 0 {
        model::lemma_initial_wf();
    } else {
        let before = OracleView::initial().after_all(events.drop_last());
        model::lemma_step_index(before, events.last());
        law_reachable_wf(events.drop_last());
        law_step_preserves_wf(before, events.last());
    }
}

/// Applying one sequence of events and then another is applying both as one.
pub proof fn law_sequences_compose(view: OracleView, first: Seq<HeapEvent>, second: Seq<HeapEvent>)
    ensures
        view.after_all(first + second) == view.after_all(first).after_all(second),
    decreases second.len(),
{
    if second.len() == 0 {
        assert(first + second =~= first);
    } else {
        assert((first + second).drop_last() =~= first + second.drop_last());
        law_sequences_compose(view, first, second.drop_last());
    }
}

/// An event changes no record but those at the addresses it names, and no record is
/// ever dropped.
pub proof fn law_other_records_untouched(view: OracleView, event: HeapEvent, addr: u64)
    ensures
        addr != event.addr && (addr != event.aux_addr || !(ipc::kind_of(event.kind) is Realloc))
            ==> {
            &&& view.step(event).0.chunks.contains_key(addr) == view.chunks.contains_key(addr)
            &&& view.chunks.contains_key(addr) ==> view.step(event).0.chunks[addr]
                == view.chunks[addr]
        },
        view.chunks.contains_key(addr) ==> view.step(event).0.chunks.contains_key(addr),
{
}

/// An event that names only null addresses, or of an unknown kind, is counted and
/// does nothing else; so is a reallocation that failed.
pub proof fn law_null_events(view: OracleView, event: HeapEvent)
    requires
        ({
            ||| ipc::kind_of(event.kind) is Invalid
            ||| event.addr == 0 && !(ipc::kind_of(event.kind) is Realloc)
            ||| event.addr == 0 && ipc::kind_of(event.kind) is Realloc && (event.aux_addr == 0
                || event.size as usize != 0)
        }),
    ensures
        view.step(event) == (
            OracleView { total_events: model::bumped(view.total_events), ..view },
            state::no_result(),
        ),
{
}

/// Every event is counted, up to the largest count.
pub proof fn law_events_counted(view: OracleView, event: HeapEvent)
    ensures
        view.step(event).0.total_events == model::bumped(view.total_events),
{
}

/// An index is handed out once: an event that takes one takes the next, reports it,
/// and puts it on the record it writes; an event that takes none leaves the
/// indices of all records as they are.
pub proof fn law_indices_are_fresh(view: OracleView, event: HeapEvent, addr: u64)
    requires
        view.wf(),
        0 <= view.next_index < usize::MAX,
    ensures
        view.step(event).0.next_index == view.next_index + (if view.takes_index(event) {
            1int
        } else {
            0
        }),
        view.takes_index(event) ==> view.step(event).1.chunk_index == Some(
            view.next_index as usize,
        ),
        view.step(event).0.chunks.contains_key(addr) ==> {
            ||| view.chunks.contains_key(addr) && view.step(event).0.chunks[addr].index
                == view.chunks[addr].index
            ||| view.takes_index(event) && view.step(event).0.chunks[addr].index
                == view.next_index
        },
{
}

/// After an allocation at an address that is not null, the chunk there is allocated,
/// with the size asked for, without a free stack, and in no bin list.
pub proof fn law_alloc_makes_allocated(view: OracleView, event: HeapEvent)
    requires
        view.wf(),
        0 <= view.next_index < usize::MAX,
        event.addr != 0,
        ({
            let kind = ipc::kind_of(event.kind);
            ||| kind is Alloc
            ||| kind is Calloc
            ||| kind is Memalign
            ||| kind is Realloc && (event.aux_addr == 0 || event.size as usize != 0)
        }),
    ensures
        is_allocated(view.step(event).0, event.addr),
        view.step(event).0.chunks[event.addr].size == event.size as usize,
        view.step(event).0.chunks[event.addr].free_stack is None,
        view.step(event).0.chunks[event.addr].alloc_stack == state::stack_of(event),
        view.step(event).1.chunk_size == Some(
            state::chunk_size_of(event.size as usize) as usize,
        ),
        forall|i: int|
            #![trigger view.step(event).0.tcache[i]]
            0 <= i < state::TCACHE_BINS ==> !view.step(event).0.tcache[i].contains(event.addr),
        forall|i: int|
            #![trigger view.step(event).0.fastbins[i]]
            0 <= i < state::FASTBIN_BINS ==> !view.step(event).0.fastbins[i].contains(event.addr),
{
    law_step_preserves_wf(view, event);
    let end = view.step(event).0;
    assert forall|i: int| #![trigger end.tcache[i]] 0 <= i < state::TCACHE_BINS implies !(
    end.tcache[i].contains(event.addr)) by {
        assert(!end.is_freed_into(event.addr, BinType::Tcache(i as usize)));
    }
    assert forall|i: int| #![trigger end.fastbins[i]] 0 <= i < state::FASTBIN_BINS implies !(
    end.fastbins[i].contains(event.addr)) by {
        assert(!end.is_freed_into(event.addr, BinType::Fastbin(i as usize)));
    }
}

/// The calls that allocate are alike: two such events with the same address, size,
/// time and stack do the same, whichever call, thread or process they come from.
pub proof fn law_allocations_alike(view: OracleView, a: HeapEvent, b: HeapEvent)
    requires
        ipc::kind_of(a.kind) is Alloc || ipc::kind_of(a.kind) is Calloc || ipc::kind_of(
            a.kind,
        ) is Memalign,
        ipc::kind_of(b.kind) is Alloc || ipc::kind_of(b.kind) is Calloc || ipc::kind_of(
            b.kind,
        ) is Memalign,
        a.addr == b.addr,
        a.size == b.size,
        a.timestamp_ns == b.timestamp_ns,
        a.stack_len == b.stack_len,
        a.callstack == b.callstack,
    ensures
        view.step(a) == view.step(b),
{
}

/// The generation of an address starts at zero, goes up by one with each allocation
/// of an address seen before, and is kept by every free.
pub proof fn law_generations(view: OracleView, event: HeapEvent)
    ensures
        ({
            let kind = ipc::kind_of(event.kind);
            let end = view.step(event).0;
            &&& (kind is Alloc || kind is Calloc || kind is Memalign) && event.addr != 0
                ==> end.chunks[event.addr].generation == if view.chunks.contains_key(event.addr) {
                model::bumped(view.chunks[event.addr].generation)
            } else {
                0
            }
            &&& kind is Free && event.addr != 0 ==> end.chunks[event.addr].generation
                == if view.chunks.contains_key(event.addr) {
                view.chunks[event.addr].generation
            } else {
                0
            }
        }),
{
}

/// A free of an allocated chunk raises no alert, frees the chunk into the bin that it
/// reports, puts the address last on that bin's list, and keeps the index and size.
pub proof fn law_good_free(view: OracleView, event: HeapEvent)
    requires
        view.wf(),
        ipc::kind_of(event.kind) is Free,
        is_allocated(view, event.addr),
    ensures
        view.step(event).1.alert is None,
        view.step(event).1.bin matches Some(bin) && {
            &&& view.step(event).0.is_freed_into(event.addr, bin)
            &&& state::bin_fits(bin, view.chunks[event.addr].size)
            &&& bin matches BinType::Tcache(i) ==> view.step(event).0.tcache[i as int]
                == view.tcache[i as int].push(event.addr)
            &&& bin matches BinType::Fastbin(i) ==> view.step(event).0.fastbins[i as int]
                == view.fastbins[i as int].push(event.addr)
        },
        view.step(event).0.chunks[event.addr].index == view.chunks[event.addr].index,
        view.step(event).0.chunks[event.addr].size == view.chunks[event.addr].size,
{
    let counted = OracleView { total_events: model::bumped(view.total_events), ..view };
    model::lemma_counted_wf(view);
    assert forall|bin: BinType| (bin is Tcache || bin is Fastbin) implies !(
    #[trigger] counted.is_freed_into(event.addr, bin)) by {}
    model::lemma_unbinned_unknown(counted, event.addr);
    model::lemma_bin_for_fits(counted, view.chunks[event.addr].size);
}

/// The thread cache takes a freed chunk of up to 0x410 bytes while its bin has fewer
/// than seven; only then do the fast bins, the small bins and the large bins follow,
/// by size.
pub proof fn law_bin_choice(view: OracleView, size: usize)
    requires
        view.wf(),
    ensures
        ({
            let chunk_size = state::chunk_size_of(size);
            let class = state::size_class(chunk_size);
            let cached = chunk_size <= 0x410 && view.tcache[class].len() < state::TCACHE_FILL_COUNT;
            &&& view.bin_for(size) is Tcache <==> cached
            &&& view.bin_for(size) is Fastbin <==> !cached && chunk_size <= 0xb0
            &&& view.bin_for(size) is Smallbin <==> !cached && 0xb0 < chunk_size <= 0x400
            &&& view.bin_for(size) is Largebin <==> !cached && 0x400 < chunk_size
            &&& state::bin_fits(view.bin_for(size), size)
        }),
{
}

/// Allocating an address, freeing it and freeing it again: only the second free is
/// flagged, as a double free.
pub proof fn law_double_free_flagged(
    view: OracleView,
    alloc: HeapEvent,
    first: HeapEvent,
    second: HeapEvent,
)
    requires
        alloc.addr != 0,
        first.addr == alloc.addr,
        second.addr == alloc.addr,
        ipc::kind_of(alloc.kind) is Alloc,
        ipc::kind_of(first.kind) is Free,
        ipc::kind_of(second.kind) is Free,
    ensures
        ({
            let (a, allocated) = view.step(alloc);
            let (b, freed) = a.step(first);
            let (c, flagged) = b.step(second);
            &&& allocated.alert is None
            &&& freed.alert is None
            &&& flagged.alert == Some(
                OracleAlert {
                    addr: alloc.addr,
                    reason: UafReason::DoubleFree,
                    timestamp_ns: second.timestamp_ns,
                },
            )
            &&& c.chunks[alloc.addr].state == (ChunkState::Uaf { reason: UafReason::DoubleFree })
        }),
{
}

/// The records share out into allocated, freed and flagged ones.
pub proof fn law_summary_partition(view: OracleView)
    requires
        view.wf(),
    ensures
        model::class_count(view.chunks, 0) + model::class_count(view.chunks, 1)
            + model::class_count(view.chunks, 2) == view.chunks.dom().len(),
{
    model::lemma_classes_partition(view.chunks);
}

/// Whether `addr` is on one list.
pub open spec fn on_list(view: OracleView, bin: BinType, addr: u64) -> bool {
    match bin {
        BinType::Tcache(i) => i < state::TCACHE_BINS && view.tcache[i as int].contains(addr),
        BinType::Fastbin(i) => i < state::FASTBIN_BINS && view.fastbins[i as int].contains(addr),
        _ => false,
    }
}

/// The lists hold exactly the chunks freed into them, each on one list only, each
/// chunk of the size that its list is for.
pub proof fn law_lists_hold_freed_chunks(view: OracleView, bin: BinType, other: BinType, addr: u64)
    requires
        view.wf(),
    ensures
        bin is Tcache || bin is Fastbin ==> (on_list(view, bin, addr) <==> view.is_freed_into(
            addr,
            bin,
        )),
        on_list(view, bin, addr) && on_list(view, other, addr) ==> bin == other,
        on_list(view, bin, addr) ==> state::bin_fits(bin, view.chunks[addr].size),
{
    assert(view.chunks.contains_key(addr) ==> match view.chunks[addr].state {
        ChunkState::Freed { bin } => state::bin_fits(bin, view.chunks[addr].size),
        _ => true,
    });
}

/// Taking an address out of the lists deletes it from the one that holds it and keeps
/// the other addresses of every list in their order; an address on no list changes
/// nothing.
pub proof fn law_unbinned(view: OracleView, addr: u64)
    requires
        view.wf(),
    ensures
        forall|i: int|
            0 <= i < state::TCACHE_BINS ==> #[trigger] view.unbinned(addr).tcache[i]
                == view.tcache[i].filter(|x: u64| x != addr),
        forall|i: int|
            0 <= i < state::FASTBIN_BINS ==> #[trigger] view.unbinned(addr).fastbins[i]
                == view.fastbins[i].filter(|x: u64| x != addr),
        forall|bin: BinType, x: u64| #[trigger]
            on_list(view.unbinned(addr), bin, x) <==> on_list(view, bin, x) && x != addr,
        (forall|bin: BinType| !#[trigger] on_list(view, bin, addr)) ==> view.unbinned(addr) == view,
        view.unbinned(addr) == (OracleView {
            tcache: view.unbinned(addr).tcache,
            fastbins: view.unbinned(addr).fastbins,
            ..view
        }),
{
    let end = view.unbinned(addr);
    assert forall|i: int| 0 <= i < state::TCACHE_BINS implies #[trigger] end.tcache[i]
        == view.tcache[i].filter(|x: u64| x != addr) by {
        model::lemma_remove_is_filter(view.tcache[i], addr);
    }
    assert forall|i: int| 0 <= i < state::FASTBIN_BINS implies #[trigger] end.fastbins[i]
        == view.fastbins[i].filter(|x: u64| x != addr) by {
        model::lemma_remove_is_filter(view.fastbins[i], addr);
    }
    assert forall|bin: BinType, x: u64| #[trigger] on_list(end, bin, x) <==> on_list(view, bin, x)
        && x != addr by {
        match bin {
            BinType::Tcache(i) => if i < state::TCACHE_BINS {
                model::lemma_remove_value(view.tcache[i as int], addr);
            },
            BinType::Fastbin(i) => if i < state::FASTBIN_BINS {
                model::lemma_remove_value(view.fastbins[i as int], addr);
            },
            _ => {},
        }
    }
    if forall|bin: BinType| !#[trigger] on_list(view, bin, addr) {
        lemma_unlisted(view, addr);
        model::lemma_unbinned_absent(view, addr);
    }
}

proof fn lemma_unlisted(view: OracleView, addr: u64)
    requires
        forall|bin: BinType| !#[trigger] on_list(view, bin, addr),
    ensures
        forall|i: int|
            0 <= i < state::TCACHE_BINS ==> !(#[trigger] view.tcache[i]).contains(addr),
        forall|i: int|
            0 <= i < state::FASTBIN_BINS ==> !(#[trigger] view.fastbins[i]).contains(addr),
{
    assert forall|i: int| 0 <= i < state::TCACHE_BINS implies !(
    #[trigger] view.tcache[i]).contains(addr) by {
        assert(!on_list(view, BinType::Tcache(i as usize), addr));
    }
    assert forall|i: int| 0 <= i < state::FASTBIN_BINS implies !(
    #[trigger] view.fastbins[i]).contains(addr) by {
        assert(!on_list(view, BinType::Fastbin(i as usize), addr));
    }
}

/// Putting an address that is on no list into a bin and taking it out again restores
/// the state, whichever bin it was; a bin without a list changes nothing at all.
pub proof fn law_binned_then_unbinned(view: OracleView, addr: u64, bin: BinType)
    requires
        view.wf(),
        forall|other: BinType| !#[trigger] on_list(view, other, addr),
    ensures
        view.binned(addr, bin).unbinned(addr) == view,
        !on_list(view.binned(addr, bin), bin, addr) ==> view.binned(addr, bin) == view,
{
    lemma_unlisted(view, addr);
    model::lemma_binned_unbinned(view, addr, bin);
    match bin {
        BinType::Tcache(i) => if i < state::TCACHE_BINS {
            let list = view.tcache[i as int];
            assert(list.push(addr)[list.len() as int] == addr);
        },
        BinType::Fastbin(i) => if i < state::FASTBIN_BINS {
            let list = view.fastbins[i as int];
            assert(list.push(addr)[list.len() as int] == addr);
        },
        _ => {},
    }
}

/// A reallocation of nothing is an allocation, and one to no size is a free of the
/// old block.
pub proof fn law_realloc_degenerate(view: OracleView, event: HeapEvent)
    requires
        ipc::kind_of(event.kind) is Realloc,
    ensures
        event.aux_addr == 0 ==> view.step(event) == view.step(
            HeapEvent { kind: ipc::raw_of(EventKind::Alloc), ..event },
        ),
        event.aux_addr != 0 && event.size as usize == 0 ==> view.step(event) == view.step(
            HeapEvent { kind: ipc::raw_of(EventKind::Free), addr: event.aux_addr, ..event },
        ),
{
}

/// A reallocation that moves an allocated block raises no alert, leaves the old
/// block freed by it and on no list, and the new one allocated.
pub proof fn law_realloc_moves(view: OracleView, event: HeapEvent)
    requires
        view.wf(),
        0 <= view.next_index < usize::MAX,
        ipc::kind_of(event.kind) is Realloc,
        is_allocated(view, event.aux_addr),
        event.addr != 0,
        event.addr != event.aux_addr,
        event.size as usize != 0,
    ensures
        view.step(event).1.alert is None,
        view.step(event).1.bin is None,
        view.step(event).0.is_freed_into(event.aux_addr, BinType::Reallocated),
        forall|bin: BinType| !#[trigger] on_list(view.step(event).0, bin, event.aux_addr),
        is_allocated(view.step(event).0, event.addr),
{
    law_step_preserves_wf(view, event);
    let end = view.step(event).0;
    assert forall|bin: BinType| !#[trigger] on_list(end, bin, event.aux_addr) by {
        law_lists_hold_freed_chunks(end, bin, bin, event.aux_addr);
    }
}

////////////////////////////////////////////////////////////////////////////////
// A session of the reader
////////////////////////////////////////////////////////////////////////////////
/// Reading a batch, applying it, and then reading and applying another is reading and
/// applying both as one.
pub proof fn law_reads_then_applies(
    view: OracleView,
    ring: Seq<HeapEvent>,
    head: u64,
    tail: u64,
    first: usize,
    second: usize,
)
    requires
        tail <= head,
        first + second <= usize::MAX,
    ensures
        ({
            let middle = (tail + ipc::batch_len(head, tail, first)) as u64;
            let both = (first + second) as usize;
            view.after_all(ipc::events_at(ring, ipc::batch_slots(head, tail, first))).after_all(
                ipc::events_at(ring, ipc::batch_slots(head, middle, second)),
            ) == view.after_all(ipc::events_at(ring, ipc::batch_slots(head, tail, both)))
        }),
{
    let middle = (tail + ipc::batch_len(head, tail, first)) as u64;
    let both = (first + second) as usize;
    let one = ipc::events_at(ring, ipc::batch_slots(head, tail, first));
    let two = ipc::events_at(ring, ipc::batch_slots(head, middle, second));
    ipc::law_batches_compose(head, tail, first, second);
    law_sequences_compose(view, one, two);
    assert(one + two =~= ipc::events_at(ring, ipc::batch_slots(head, tail, both)));
}

/// One read of the ring: what the ring held then, how far it was written, and how many
/// events were asked for.
pub struct RingRead {
    pub ring: Seq<HeapEvent>,
    pub head: u64,
    pub limit: usize,
}

/// The reader's position after a sequence of reads.
pub open spec fn tail_after(tail: u64, reads: Seq<RingRead>) -> u64
    decreases reads.len(),
{
    if reads.len() == 0 {
        tail
    } else {
        let before = tail_after(tail, reads.drop_last());
        let read = reads.last();
        (before + ipc::batch_len(read.head, before, read.limit)) as u64
    }
}

/// The oracle after a sequence of reads, each of which was applied before the next.
pub open spec fn view_after(view: OracleView, tail: u64, reads: Seq<RingRead>) -> OracleView
    decreases reads.len(),
{
    if reads.len() == 0 {
        view
    } else {
        let before = tail_after(tail, reads.drop_last());
        let read = reads.last();
        view_after(view, tail, reads.drop_last()).after_all(
            ipc::events_at(read.ring, ipc::batch_slots(read.head, before, read.limit)),
        )
    }
}

/// Whether each read found in the ring what the writer had written by then, from the
/// reader's position on. `written` holds every event at its position.
pub open spec fn reads_hold(written: Seq<HeapEvent>, tail: u64, reads: Seq<RingRead>) -> bool
    decreases reads.len(),
{
    reads.len() == 0 || {
        let before = tail_after(tail, reads.drop_last());
        let read = reads.last();
        &&& reads_hold(written, tail, reads.drop_last())
        &&& before <= read.head <= written.len()
        &&& forall|position: int|
            before <= position < read.head ==> read.ring[ipc::slot_of(position) as int]
                == #[trigger] written[position]
    }
}

/// However the reads are cut, they apply every event from the first position to the
/// last one once and in order.
pub proof fn law_session(
    view: OracleView,
    written: Seq<HeapEvent>,
    tail: u64,
    reads: Seq<RingRead>,
)
    requires
        tail <= written.len(),
        reads_hold(written, tail, reads),
    ensures
        tail <= tail_after(tail, reads) <= written.len(),
        view_after(view, tail, reads) == view.after_all(
            written.subrange(tail as int, tail_after(tail, reads) as int),
        ),
    decreases reads.len(),
{
    if reads.len() == 0 {
        assert(written.subrange(tail as int, tail as int) =~= Seq::empty());
    } else {
        let read = reads.last();
        let before = tail_after(tail, reads.drop_last());
        let after = tail_after(tail, reads);
        let slots = ipc::batch_slots(read.head, before, read.limit);
        law_session(view, written, tail, reads.drop_last());
        let earlier = written.subrange(tail as int, before as int);
        let batch = ipc::events_at(read.ring, slots);
        assert(after == before + slots.len());
        assert forall|i: int| 0 <= i < batch.len() implies batch[i] == written[before + i] by {
            assert(slots[i] == ipc::slot_of(before + i));
        }
        assert(earlier + batch =~= written.subrange(tail as int, after as int));
        law_sequences_compose(view, earlier, batch);
    }
}

/// When the reader stops, it has applied every event that was written, once and in
/// order, and none is pending. `stats` is what it saw of the ring after its last read,
/// and it stopped on that and on some `count` and `stop`.
pub proof fn law_stopped_session(
    view: OracleView,
    written: Seq<HeapEvent>,
    tail: u64,
    reads: Seq<RingRead>,
    stats: RingStats,
    count: nat,
    stop: bool,
)
    requires
        tail <= written.len(),
        reads_hold(written, tail, reads),
        stats.tail == tail_after(tail, reads),
        stats.tail <= stats.head,
        stats.head == written.len(),
        runtime::reader_move(count, ipc::pending_of(stats), stop) == ReaderStep::Stop,
    ensures
        view_after(view, tail, reads) == view.after_all(written.skip(tail as int)),
        ipc::pending_of(stats) == 0,
{
    law_session(view, written, tail, reads);
    assert(written.subrange(tail as int, stats.head as int) =~= written.skip(tail as int));
}

} // verus!
