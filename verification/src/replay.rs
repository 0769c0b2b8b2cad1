//! What each heap call does to the records, the lists and the alerts, and what is
//! reported of it, said of the call itself.

use vstd::prelude::*;

use crate::ipc;
use crate::ipc::{EventKind, HeapEvent, STACK_DEPTH};
use crate::laws;
use crate::model;
use crate::model::OracleView;
use crate::state;
use crate::state::{
    BinType, ChunkRecord, ChunkState, StackTrace, UafReason, ALERT_LIMIT, FASTBIN_BINS, TCACHE_BINS,
};

verus! {

/// Whether an event hands out a block of memory.
pub open spec fn allocates(event: HeapEvent) -> bool {
    event.addr != 0 && match ipc::kind_of(event.kind) {
        EventKind::Alloc | EventKind::Calloc | EventKind::Memalign => true,
        EventKind::Realloc => event.aux_addr == 0 || event.size as usize != 0,
        _ => false,
    }
}

/// Whether an event moves a block to another place or another size.
pub open spec fn moves(event: HeapEvent) -> bool {
    ipc::kind_of(event.kind) is Realloc && event.aux_addr != 0 && event.addr != 0
        && event.size as usize != 0
}

/// The address that an event frees and does nothing else with, null if there is none.
pub open spec fn freed_by(event: HeapEvent) -> u64 {
    match ipc::kind_of(event.kind) {
        EventKind::Free => event.addr,
        EventKind::Realloc => if event.size as usize == 0 {
            event.aux_addr
        } else {
            0
        },
        _ => 0,
    }
}

/// Whether a stack is the one that an event carries.
pub open spec fn is_stack_of(stack: StackTrace, event: HeapEvent) -> bool {
    &&& stack.frames@ == event.callstack@
    &&& stack.len <= STACK_DEPTH
    &&& stack.len <= event.stack_len
    &&& stack.len == STACK_DEPTH || stack.len == event.stack_len
}

/// Whether what was known of a block before it was let go is still known, and the event
/// that let it go is on its record.
pub open spec fn is_kept(before: ChunkRecord, after: ChunkRecord, event: HeapEvent) -> bool {
    &&& after.index == before.index
    &&& after.addr == before.addr
    &&& after.size == before.size
    &&& after.alloc_stack == before.alloc_stack
    &&& after.generation == before.generation
    &&& after.last_event_ns == event.timestamp_ns
    &&& after.free_stack matches Some(stack) && is_stack_of(stack, event)
}

/// The record of a block that was handed out says all that the event says, carries the
/// next index, and counts how often its address was handed out before; the result names
/// that index and the size of the chunk, and no bin.
pub proof fn law_allocation_recorded(view: OracleView, event: HeapEvent)
    requires
        view.wf(),
        0 <= view.next_index < usize::MAX,
        allocates(event),
    ensures
        ({
            let (end, result) = view.step(event);
            let record = end.chunks[event.addr];
            &&& end.chunks.contains_key(event.addr)
            &&& record.state == ChunkState::Allocated
            &&& record.index == view.next_index
            &&& record.addr == event.addr
            &&& record.size == event.size as usize
            &&& is_stack_of(record.alloc_stack, event)
            &&& record.free_stack is None
            &&& record.last_event_ns == event.timestamp_ns
            &&& !view.chunks.contains_key(event.addr) ==> record.generation == 0
            &&& view.chunks.contains_key(event.addr) ==> {
                let before = view.chunks[event.addr].generation;
                record.generation == if before == u64::MAX {
                    before as int
                } else {
                    before + 1
                }
            }
            &&& result.bin is None
            &&& result.chunk_index == Some(record.index)
            &&& result.chunk_size matches Some(size) && size == state::chunk_size_of(record.size)
            &&& !moves(event) ==> result.alert is None
        }),
{
    state::law_chunk_size_fits(event.size as usize);
}

/// A free reports the chunk it is about: of a known address the index and the chunk
/// size of its record, which it keeps, and the bin exactly if the chunk was allocated;
/// of an unknown one a new record, with the next index and no size.
pub proof fn law_free_reported(view: OracleView, event: HeapEvent)
    requires
        view.wf(),
        0 <= view.next_index < usize::MAX,
        freed_by(event) != 0,
    ensures
        ({
            let addr = freed_by(event);
            let (end, result) = view.step(event);
            let record = end.chunks[addr];
            &&& end.chunks.contains_key(addr)
            &&& result.chunk_index == Some(record.index)
            &&& view.chunks.contains_key(addr) ==> is_kept(view.chunks[addr], record, event)
            &&& view.chunks.contains_key(addr) && view.chunks[addr].state == ChunkState::Allocated
                ==> {
                &&& result.alert is None
                &&& result.bin matches Some(bin) && record.state == (ChunkState::Freed { bin })
                &&& result.chunk_size matches Some(size) && size == state::chunk_size_of(
                    record.size,
                )
            }
            &&& view.chunks.contains_key(addr) && view.chunks[addr].state != ChunkState::Allocated
                ==> {
                &&& result.alert is Some
                &&& result.bin is None
                &&& record.state == (ChunkState::Uaf { reason: UafReason::DoubleFree })
                &&& record.size == 0 ==> result.chunk_size is None
                &&& record.size > 0 ==> (result.chunk_size matches Some(size) && size
                    == state::chunk_size_of(record.size))
            }
            &&& !view.chunks.contains_key(addr) ==> {
                &&& result.alert is Some
                &&& result.bin is None
                &&& result.chunk_size is None
                &&& record.state == (ChunkState::Uaf { reason: UafReason::InvalidFree })
                &&& record.index == view.next_index
                &&& record.addr == addr
                &&& record.size == 0
                &&& record.generation == 0
                &&& record.alloc_stack.len == 0
                &&& record.last_event_ns == event.timestamp_ns
                &&& record.free_stack matches Some(stack) && is_stack_of(stack, event)
            }
        }),
{
    if view.chunks.contains_key(freed_by(event)) {
        state::law_chunk_size_fits(view.chunks[freed_by(event)].size);
    }
}

/// A reallocation that moves a known block keeps what was known of the old block: it
/// counts as freed by the move if it was allocated, and is flagged if it was not. A
/// block never seen gets no record.
pub proof fn law_moved_block_kept(view: OracleView, event: HeapEvent)
    requires
        moves(event),
        event.addr != event.aux_addr,
    ensures
        ({
            let (end, result) = view.step(event);
            let old_addr = event.aux_addr;
            &&& end.chunks.contains_key(old_addr) == view.chunks.contains_key(old_addr)
            &&& view.chunks.contains_key(old_addr) ==> {
                &&& is_kept(view.chunks[old_addr], end.chunks[old_addr], event)
                &&& end.chunks[old_addr].state == if view.chunks[old_addr].state
                    == ChunkState::Allocated {
                    ChunkState::Freed { bin: BinType::Reallocated }
                } else {
                    ChunkState::Uaf { reason: UafReason::ReallocOfFreed }
                }
            }
            &&& result.alert is Some <==> view.chunks.contains_key(old_addr)
                && view.chunks[old_addr].state != ChunkState::Allocated
        }),
{
}

/// An index is used up exactly by an event that hands out a block and by a free of an
/// address never seen.
pub proof fn law_index_use(view: OracleView, event: HeapEvent)
    ensures
        view.step(event).0.next_index == view.next_index + if allocates(event) || freed_by(event)
            != 0 && !view.chunks.contains_key(freed_by(event)) {
            1int
        } else {
            0
        },
{
}

/// The count of events goes up by one with each, until it cannot.
pub proof fn law_event_count(view: OracleView, event: HeapEvent)
    ensures
        view.total_events < u64::MAX ==> view.step(event).0.total_events == view.total_events + 1,
        view.total_events == u64::MAX ==> view.step(event).0.total_events == u64::MAX,
{
}

/// An alert goes to the end of the alerts and pushes out the oldest beyond the limit;
/// all others keep their distance from the end.
pub proof fn law_alert_order(view: OracleView, event: HeapEvent)
    requires
        view.alerts.len() <= ALERT_LIMIT,
    ensures
        ({
            let (end, result) = view.step(event);
            let n = view.alerts.len() as int;
            let m = end.alerts.len() as int;
            &&& result.alert is None ==> end.alerts == view.alerts
            &&& result.alert matches Some(alert) ==> {
                &&& m == if n < 128 {
                    n + 1
                } else {
                    128
                }
                &&& end.alerts[m - 1] == alert
                &&& forall|k: int|
                    1 <= k < m ==> #[trigger] end.alerts[m - 1 - k] == view.alerts[n - k]
            }
        }),
{
}

/// Whether an event concerns the place of `x` in the lists.
pub open spec fn touches(event: HeapEvent, x: u64) -> bool {
    x == freed_by(event) || allocates(event) && x == event.addr || moves(event) && x
        == event.aux_addr
}

/// A record that an event does not concern stays as it is, and none appears.
pub proof fn law_untouched_records(view: OracleView, event: HeapEvent, x: u64)
    requires
        view.wf(),
        !touches(event, x),
    ensures
        view.step(event).0.chunks.contains_key(x) == view.chunks.contains_key(x),
        view.chunks.contains_key(x) ==> view.step(event).0.chunks[x] == view.chunks[x],
{
}

/// Every list loses the addresses that an event concerns and keeps all others in their
/// order; the list of the bin that is reported then gets the freed address at its end.
pub proof fn law_lists_after_event(view: OracleView, event: HeapEvent)
    requires
        view.wf(),
        0 <= view.next_index < usize::MAX,
    ensures
        forall|i: int|
            0 <= i < TCACHE_BINS ==> #[trigger] view.step(event).0.tcache[i]
                == view.tcache[i].filter(|x: u64| !touches(event, x)) + (
            if view.step(event).1.bin == Some(BinType::Tcache(i as usize)) {
                seq![freed_by(event)]
            } else {
                Seq::empty()
            }),
        forall|i: int|
            0 <= i < FASTBIN_BINS ==> #[trigger] view.step(event).0.fastbins[i]
                == view.fastbins[i].filter(|x: u64| !touches(event, x)) + (
            if view.step(event).1.bin == Some(BinType::Fastbin(i as usize)) {
                seq![freed_by(event)]
            } else {
                Seq::empty()
            }),
{
    let (end, result) = view.step(event);
    assert forall|i: int| 0 <= i < TCACHE_BINS implies #[trigger] end.tcache[i]
        == view.tcache[i].filter(|x: u64| !touches(event, x)) + (if result.bin == Some(
        BinType::Tcache(i as usize),
    ) {
        seq![freed_by(event)]
    } else {
        Seq::empty()
    }) by {
        assert(!view.tcache[i].contains(0)) by {
            assert(!view.is_freed_into(0, BinType::Tcache(i as usize)));
        }
        lemma_touched(view.tcache[i], event);
    }
    assert forall|i: int| 0 <= i < FASTBIN_BINS implies #[trigger] end.fastbins[i]
        == view.fastbins[i].filter(|x: u64| !touches(event, x)) + (if result.bin == Some(
        BinType::Fastbin(i as usize),
    ) {
        seq![freed_by(event)]
    } else {
        Seq::empty()
    }) by {
        assert(!view.fastbins[i].contains(0)) by {
            assert(!view.is_freed_into(0, BinType::Fastbin(i as usize)));
        }
        lemma_touched(view.fastbins[i], event);
    }
}

/// Taking out the addresses that an event concerns, one after another.
proof fn lemma_touched(list: Seq<u64>, event: HeapEvent)
    requires
        list.no_duplicates(),
        !list.contains(0),
    ensures
        ({
            let kept = list.filter(|x: u64| !touches(event, x));
            &&& moves(event) ==> kept == list.remove_value(event.aux_addr).remove_value(event.addr)
            &&& !moves(event) && allocates(event) ==> kept == list.remove_value(event.addr)
            &&& freed_by(event) != 0 ==> kept == list.remove_value(freed_by(event))
            &&& !allocates(event) && freed_by(event) == 0 ==> kept == list
        }),
{
    let keep = |x: u64| !touches(event, x);
    model::lemma_remove_value(list, event.aux_addr);
    if moves(event) {
        let rest = list.remove_value(event.aux_addr);
        model::lemma_remove_is_filter(list, event.aux_addr);
        model::lemma_remove_is_filter(rest, event.addr);
        lemma_filter_twice(list, |x: u64| x != event.aux_addr, |x: u64| x != event.addr, keep);
    } else if allocates(event) {
        model::lemma_remove_is_filter(list, event.addr);
        lemma_same_filter(list, keep, |x: u64| x != event.addr);
    } else if freed_by(event) != 0 {
        let addr = freed_by(event);
        model::lemma_remove_is_filter(list, addr);
        lemma_same_filter(list, keep, |x: u64| x != addr);
    } else {
        lemma_same_filter(list, keep, |x: u64| x != 0);
        model::lemma_remove_is_filter(list, 0);
        model::lemma_remove_value(list, 0);
    }
}

/// Two tests that agree on the items of a list keep the same items.
proof fn lemma_same_filter(list: Seq<u64>, a: spec_fn(u64) -> bool, b: spec_fn(u64) -> bool)
    requires
        forall|i: int| 0 <= i < list.len() ==> a(#[trigger] list[i]) == b(list[i]),
    ensures
        list.filter(a) == list.filter(b),
    decreases list.len(),
{
    reveal(Seq::filter);
    if list.len() > 0 {
        let front = list.drop_last();
        assert forall|i: int| 0 <= i < front.len() implies a(#[trigger] front[i]) == b(
            front[i],
        ) by {
            assert(front[i] == list[i]);
        }
        lemma_same_filter(front, a, b);
        assert(a(list[list.len() - 1]) == b(list[list.len() - 1]));
    }
}

/// Two tests one after the other are one.
proof fn lemma_filter_twice(
    list: Seq<u64>,
    a: spec_fn(u64) -> bool,
    b: spec_fn(u64) -> bool,
    both: spec_fn(u64) -> bool,
)
    requires
        forall|i: int| 0 <= i < list.len() ==> both(#[trigger] list[i]) == (a(list[i]) && b(list[i])),
    ensures
        list.filter(a).filter(b) == list.filter(both),
    decreases list.len(),
{
    reveal(Seq::filter);
    if list.len() > 0 {
        let front = list.drop_last();
        let last = list[list.len() - 1];
        assert forall|i: int| 0 <= i < front.len() implies both(#[trigger] front[i]) == (a(front[i])
            && b(front[i])) by {
            assert(front[i] == list[i]);
        }
        lemma_filter_twice(front, a, b, both);
        assert(both(last) == (a(last) && b(last)));
        if a(last) {
            let kept = front.filter(a);
            assert(list.filter(a) == kept.push(last));
            assert(kept.push(last).drop_last() =~= kept);
        }
    }
}

/// No events do nothing; one more event of a sequence is one more step, and its result
/// goes to the end of the results.
pub proof fn law_one_more_event(view: OracleView, events: Seq<HeapEvent>, event: HeapEvent)
    ensures
        view.after_all(Seq::empty()) == view,
        view.after_all(seq![event]) == view.step(event).0,
        view.after_all(events.push(event)) == view.after_all(events).step(event).0,
        view.results_of(events.push(event)) == view.results_of(events).push(
            (event, view.after_all(events).step(event).1),
        ),
{
    assert(seq![event].drop_last() =~= Seq::empty());
    assert(events.push(event).drop_last() =~= events);
    assert forall|i: int| 0 <= i <= events.len() implies events.push(event).take(i)
        == events.take(i) by {
        assert(events.push(event).take(i) =~= events.take(i));
    }
    assert(events.take(events.len() as int) =~= events);
    assert(view.results_of(events.push(event)) =~= view.results_of(events).push(
        (event, view.after_all(events).step(event).1),
    ));
}

/// The bin of a freed chunk fits its chunk size: the thread cache, the fast bins and
/// the small bins count sizes from 0x20 in steps of 0x10. The thread cache comes first
/// while it has room for the size.
pub proof fn law_bin_of_free(view: OracleView, event: HeapEvent)
    requires
        view.wf(),
        0 <= view.next_index < usize::MAX,
        laws::is_allocated(view, freed_by(event)),
    ensures
        ({
            let chunk_size = state::chunk_size_of(view.chunks[freed_by(event)].size);
            let class = (chunk_size - 0x20) / 0x10;
            let room = chunk_size <= 0x410 && view.tcache[class].len() < 7;
            &&& view.step(event).1.bin matches Some(bin)
            &&& match bin {
                BinType::Tcache(i) => room && chunk_size == 0x20 + 0x10 * i,
                BinType::Fastbin(i) => !room && chunk_size <= 0xb0 && chunk_size == 0x20 + 0x10 * i,
                BinType::Smallbin(i) => !room && 0xb0 < chunk_size <= 0x400 && chunk_size == 0x20
                    + 0x10 * i,
                BinType::Largebin => !room && 0x400 < chunk_size,
                BinType::Reallocated => false,
            }
        }),
{
    let addr = freed_by(event);
    let counted = OracleView { total_events: model::bumped(view.total_events), ..view };
    model::lemma_counted_wf(view);
    assert forall|bin: BinType| (bin is Tcache || bin is Fastbin) implies !(
    #[trigger] counted.is_freed_into(addr, bin)) by {}
    model::lemma_unbinned_unknown(counted, addr);
}

/// The totals are those of the states: allocated, freed into whatever bin, and flagged
/// for whatever reason.
pub proof fn law_totals_by_state(chunks: Map<u64, ChunkRecord>)
    ensures
        model::class_count(chunks, 0) == chunks.dom().filter(
            |addr: u64| chunks[addr].state == ChunkState::Allocated,
        ).len(),
        model::class_count(chunks, 1) == chunks.dom().filter(
            |addr: u64| chunks[addr].state is Freed,
        ).len(),
        model::class_count(chunks, 2) == chunks.dom().filter(
            |addr: u64| chunks[addr].state is Uaf,
        ).len(),
{
    assert(model::in_class(chunks, 0) =~= chunks.dom().filter(
        |addr: u64| chunks[addr].state == ChunkState::Allocated,
    ));
    assert(model::in_class(chunks, 1) =~= chunks.dom().filter(
        |addr: u64| chunks[addr].state is Freed,
    ));
    assert(model::in_class(chunks, 2) =~= chunks.dom().filter(
        |addr: u64| chunks[addr].state is Uaf,
    ));
}

} // verus!
