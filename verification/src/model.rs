//! The mathematical model of the heap oracle.
//!
//! `OracleView` is what an oracle stands for: a map from addresses to records,
//! the bin lists as sequences, and the alerts in the order they were raised.
//! `step` says what one event does to it and what the event reports.

use vstd::prelude::*;

use crate::ipc;
use crate::ipc::{EventKind, HeapEvent};
use crate::state;
use crate::state::{
    ApplyResult, BinType, ChunkRecord, ChunkState, OracleAlert, StackTrace, UafReason, ALERT_LIMIT,
    FASTBIN_BINS, TCACHE_BINS, TCACHE_FILL_COUNT,
};

verus! {

/// The abstract state of an oracle.
#[verifier::ext_equal]
pub struct OracleView {
    pub chunks: Map<u64, ChunkRecord>,
    pub tcache: Seq<Seq<u64>>,
    pub fastbins: Seq<Seq<u64>>,
    pub alerts: Seq<OracleAlert>,
    pub total_events: u64,
    pub next_index: int,
}

/// The three kinds of chunk state, numbered.
pub open spec fn state_class(state: ChunkState) -> int {
    match state {
        ChunkState::Allocated => 0,
        ChunkState::Freed { .. } => 1,
        ChunkState::Uaf { .. } => 2,
    }
}

/// The addresses whose records are in one class of state.
pub open spec fn in_class(chunks: Map<u64, ChunkRecord>, class: int) -> Set<u64> {
    chunks.dom().filter(|addr: u64| state_class(chunks[addr].state) == class)
}

/// How many records are in one class of state.
pub open spec fn class_count(chunks: Map<u64, ChunkRecord>, class: int) -> nat {
    in_class(chunks, class).len()
}

/// One more, up to the largest value.
pub open spec fn bumped(n: u64) -> u64 {
    if n < u64::MAX {
        (n + 1) as u64
    } else {
        n
    }
}

/// The last `n` items of a sequence, or all of a shorter one.
pub open spec fn last_items<A>(s: Seq<A>, n: nat) -> Seq<A> {
    if s.len() > n {
        s.skip(s.len() - n)
    } else {
        s
    }
}

/// Every list without the first occurrence of `addr`.
pub open spec fn lists_without(lists: Seq<Seq<u64>>, addr: u64) -> Seq<Seq<u64>> {
    lists.map_values(|list: Seq<u64>| list.remove_value(addr))
}

/// A record after an event that released its memory or tried to.
pub open spec fn released(
    record: ChunkRecord,
    state: ChunkState,
    stack: StackTrace,
    timestamp_ns: u64,
) -> ChunkRecord {
    ChunkRecord { state, free_stack: Some(stack), last_event_ns: timestamp_ns, ..record }
}

impl OracleView {
    /// The state before any event.
    pub open spec fn initial() -> OracleView {
        OracleView {
            chunks: Map::empty(),
            tcache: Seq::new(TCACHE_BINS as nat, |i: int| Seq::empty()),
            fastbins: Seq::new(FASTBIN_BINS as nat, |i: int| Seq::empty()),
            alerts: Seq::empty(),
            total_events: 0,
            next_index: 0,
        }
    }

    /// Whether `addr` is free and its chunk is in `bin`.
    pub open spec fn is_freed_into(self, addr: u64, bin: BinType) -> bool {
        self.chunks.contains_key(addr) && self.chunks[addr].state == (ChunkState::Freed { bin })
    }

    /// What holds of the records in every reachable state: each stands under its own
    /// address, which is not null; no two have the same index, and all indices are
    /// below the next one; a freed chunk is in a bin for its size; the allocated
    /// chunks are those without the stack of a free.
    pub open spec fn records_wf(self) -> bool {
        &&& self.chunks.dom().finite()
        &&& self.chunks.dom().len() <= self.next_index
        &&& forall|addr: u64| #[trigger]
            self.chunks.contains_key(addr) ==> addr != 0 && self.chunks[addr].addr == addr
                && self.chunks[addr].index < self.next_index
        &&& forall|a: u64, b: u64|
            #![trigger self.chunks[a], self.chunks[b]]
            self.chunks.contains_key(a) && self.chunks.contains_key(b) && a != b
                ==> self.chunks[a].index != self.chunks[b].index
        &&& forall|addr: u64|
            #![trigger self.chunks.contains_key(addr)]
            self.chunks.contains_key(addr) ==> match self.chunks[addr].state {
                ChunkState::Freed { bin } => state::bin_fits(bin, self.chunks[addr].size),
                _ => true,
            }
        &&& forall|addr: u64| #[trigger]
            self.chunks.contains_key(addr) ==> (self.chunks[addr].free_stack is None
                <==> self.chunks[addr].state == ChunkState::Allocated)
    }

    /// What holds of the bin lists in every reachable state: each holds exactly the
    /// addresses freed into it, each once, and no thread cache list is over its limit.
    pub open spec fn bins_wf(self) -> bool {
        &&& self.tcache.len() == TCACHE_BINS
        &&& self.fastbins.len() == FASTBIN_BINS
        &&& forall|i: int|
            #![trigger self.tcache[i]]
            0 <= i < TCACHE_BINS ==> self.tcache[i].no_duplicates() && self.tcache[i].len()
                <= TCACHE_FILL_COUNT
        &&& forall|i: int|
            #![trigger self.fastbins[i]]
            0 <= i < FASTBIN_BINS ==> self.fastbins[i].no_duplicates()
        &&& forall|i: int, addr: u64|
            #![trigger self.tcache[i].contains(addr)]
            0 <= i < TCACHE_BINS ==> (self.tcache[i].contains(addr) <==> self.is_freed_into(
                addr,
                BinType::Tcache(i as usize),
            ))
        &&& forall|i: int, addr: u64|
            #![trigger self.fastbins[i].contains(addr)]
            0 <= i < FASTBIN_BINS ==> (self.fastbins[i].contains(addr) <==> self.is_freed_into(
                addr,
                BinType::Fastbin(i as usize),
            ))
    }

    /// What holds in every reachable state.
    pub open spec fn wf(self) -> bool {
        &&& self.records_wf()
        &&& self.bins_wf()
        &&& self.alerts.len() <= ALERT_LIMIT
    }

    /// The state with `addr` taken out of the bin lists.
    pub open spec fn unbinned(self, addr: u64) -> OracleView {
        OracleView {
            tcache: lists_without(self.tcache, addr),
            fastbins: lists_without(self.fastbins, addr),
            ..self
        }
    }

    /// The state with `addr` at the end of the list of `bin`. A bin without a list
    /// changes nothing.
    pub open spec fn binned(self, addr: u64, bin: BinType) -> OracleView {
        match bin {
            BinType::Tcache(i) if i < TCACHE_BINS => OracleView {
                tcache: self.tcache.update(i as int, self.tcache[i as int].push(addr)),
                ..self
            },
            BinType::Fastbin(i) if i < FASTBIN_BINS => OracleView {
                fastbins: self.fastbins.update(i as int, self.fastbins[i as int].push(addr)),
                ..self
            },
            _ => self,
        }
    }

    /// The bin that a chunk freed now goes to: the thread cache while its bin has
    /// room, else the fast bin of its size, else a small bin, else the large bins.
    pub open spec fn bin_for(self, size: usize) -> BinType {
        let chunk_size = state::chunk_size_of(size);
        let class = state::size_class(chunk_size);
        if chunk_size <= 0x410 && self.tcache[class].len() < TCACHE_FILL_COUNT {
            BinType::Tcache(class as usize)
        } else if chunk_size <= 0xb0 {
            BinType::Fastbin(class as usize)
        } else if chunk_size <= 0x400 {
            BinType::Smallbin(class as usize)
        } else {
            BinType::Largebin
        }
    }

    /// The state with one record replaced or added.
    pub open spec fn with_record(self, addr: u64, record: ChunkRecord) -> OracleView {
        OracleView { chunks: self.chunks.insert(addr, record), ..self }
    }

    /// The state with one more alert; only the latest ones are kept.
    pub open spec fn with_alert(self, alert: OracleAlert) -> OracleView {
        OracleView { alerts: last_items(self.alerts.push(alert), ALERT_LIMIT as nat), ..self }
    }

    /// The state with the next index handed out.
    pub open spec fn index_taken(self) -> OracleView {
        OracleView { next_index: self.next_index + 1, ..self }
    }

    /// An allocation of `size` bytes at `addr`. The chunk gets a fresh index; an
    /// address seen before moves on to its next generation.
    pub open spec fn after_alloc(
        self,
        addr: u64,
        size: usize,
        stack: StackTrace,
        timestamp_ns: u64,
    ) -> (OracleView, ApplyResult) {
        if addr == 0 {
            (self, state::no_result())
        } else {
            let record = ChunkRecord {
                index: self.next_index as usize,
                addr,
                size,
                state: ChunkState::Allocated,
                alloc_stack: stack,
                free_stack: None,
                last_event_ns: timestamp_ns,
                generation: if self.chunks.contains_key(addr) {
                    bumped(self.chunks[addr].generation)
                } else {
                    0
                },
            };
            let result = ApplyResult {
                chunk_index: Some(record.index),
                chunk_size: Some(state::chunk_size_of(size) as usize),
                ..state::no_result()
            };
            (self.unbinned(addr).with_record(addr, record).index_taken(), result)
        }
    }

    /// A free of `addr`: an allocated chunk goes to its bin; one that is not
    /// allocated is a double free; an address never seen is an invalid free, and
    /// gets a record of its own.
    pub open spec fn after_free(self, addr: u64, stack: StackTrace, timestamp_ns: u64) -> (
        OracleView,
        ApplyResult,
    ) {
        let base = self.unbinned(addr);
        if addr == 0 {
            (self, state::no_result())
        } else if !self.chunks.contains_key(addr) {
            let reason = UafReason::InvalidFree;
            let alert = OracleAlert { addr, reason, timestamp_ns };
            let record = ChunkRecord {
                index: self.next_index as usize,
                addr,
                size: 0,
                state: ChunkState::Uaf { reason },
                alloc_stack: state::empty_stack(),
                free_stack: Some(stack),
                last_event_ns: timestamp_ns,
                generation: 0,
            };
            let result = ApplyResult {
                alert: Some(alert),
                chunk_index: Some(record.index),
                ..state::no_result()
            };
            (base.with_record(addr, record).with_alert(alert).index_taken(), result)
        } else if self.chunks[addr].state == ChunkState::Allocated {
            let old = self.chunks[addr];
            let bin = base.bin_for(old.size);
            let record = released(old, ChunkState::Freed { bin }, stack, timestamp_ns);
            let result = ApplyResult {
                alert: None,
                bin: Some(bin),
                chunk_index: Some(old.index),
                chunk_size: Some(state::chunk_size_of(old.size) as usize),
            };
            (base.with_record(addr, record).binned(addr, bin), result)
        } else {
            let old = self.chunks[addr];
            let reason = UafReason::DoubleFree;
            let alert = OracleAlert { addr, reason, timestamp_ns };
            let record = released(old, ChunkState::Uaf { reason }, stack, timestamp_ns);
            let result = ApplyResult {
                alert: Some(alert),
                bin: None,
                chunk_index: Some(old.index),
                chunk_size: if old.size > 0 {
                    Some(state::chunk_size_of(old.size) as usize)
                } else {
                    None
                },
            };
            (base.with_record(addr, record).with_alert(alert), result)
        }
    }

    /// The release of the old block of a reallocation: an allocated chunk counts as
    /// freed by it, one that is not allocated is flagged, and an address never seen
    /// is passed over. Returns the alert, if there is one.
    pub open spec fn after_release(self, addr: u64, stack: StackTrace, timestamp_ns: u64) -> (
        OracleView,
        Option<OracleAlert>,
    ) {
        let base = self.unbinned(addr);
        if !self.chunks.contains_key(addr) {
            (base, None)
        } else if self.chunks[addr].state == ChunkState::Allocated {
            let record = released(
                self.chunks[addr],
                ChunkState::Freed { bin: BinType::Reallocated },
                stack,
                timestamp_ns,
            );
            (base.with_record(addr, record), None)
        } else {
            let reason = UafReason::ReallocOfFreed;
            let alert = OracleAlert { addr, reason, timestamp_ns };
            let record = released(
                self.chunks[addr],
                ChunkState::Uaf { reason },
                stack,
                timestamp_ns,
            );
            (base.with_record(addr, record).with_alert(alert), Some(alert))
        }
    }

    /// A reallocation: of nothing it is an allocation, to nothing a free; one that
    /// failed changes nothing; any other releases the old block and allocates the new.
    pub open spec fn after_realloc(self, event: HeapEvent) -> (OracleView, ApplyResult) {
        let stack = state::stack_of(event);
        let size = event.size as usize;
        if event.aux_addr == 0 {
            self.after_alloc(event.addr, size, stack, event.timestamp_ns)
        } else if size == 0 {
            self.after_free(event.aux_addr, stack, event.timestamp_ns)
        } else if event.addr == 0 {
            (self, state::no_result())
        } else {
            let (middle, alert) = self.after_release(event.aux_addr, stack, event.timestamp_ns);
            let (end, result) = middle.after_alloc(event.addr, size, stack, event.timestamp_ns);
            (end, ApplyResult { alert, ..result })
        }
    }

    /// One event.
    pub open spec fn step(self, event: HeapEvent) -> (OracleView, ApplyResult) {
        let counted = OracleView { total_events: bumped(self.total_events), ..self };
        let stack = state::stack_of(event);
        match ipc::kind_of(event.kind) {
            EventKind::Alloc | EventKind::Calloc | EventKind::Memalign => counted.after_alloc(
                event.addr,
                event.size as usize,
                stack,
                event.timestamp_ns,
            ),
            EventKind::Free => counted.after_free(event.addr, stack, event.timestamp_ns),
            EventKind::Realloc => counted.after_realloc(event),
            EventKind::Invalid => (counted, state::no_result()),
        }
    }

    /// A sequence of events.
    pub open spec fn after_all(self, events: Seq<HeapEvent>) -> OracleView
        decreases events.len(),
    {
        if events.len() == 0 {
            self
        } else {
            self.after_all(events.drop_last()).step(events.last()).0
        }
    }

    /// The events of a sequence, each with what it reports when its turn comes.
    pub open spec fn results_of(self, events: Seq<HeapEvent>) -> Seq<(HeapEvent, ApplyResult)> {
        Seq::new(
            events.len(),
            |i: int| (events[i], self.after_all(events.take(i)).step(events[i]).1),
        )
    }

    /// Whether an event adds a record or replaces one with a fresh one, and so takes
    /// the next index.
    pub open spec fn takes_index(self, event: HeapEvent) -> bool {
        match ipc::kind_of(event.kind) {
            EventKind::Alloc | EventKind::Calloc | EventKind::Memalign => event.addr != 0,
            EventKind::Free => event.addr != 0 && !self.chunks.contains_key(event.addr),
            EventKind::Realloc => if event.aux_addr != 0 && event.size as usize == 0 {
                !self.chunks.contains_key(event.aux_addr)
            } else {
                event.addr != 0
            },
            EventKind::Invalid => false,
        }
    }
}

////////////////////////////////////////////////////////////////////////////////
// Facts about the pieces
////////////////////////////////////////////////////////////////////////////////
/// Removing a value from a list without repetitions leaves the other items.
pub proof fn lemma_remove_value(list: Seq<u64>, addr: u64)
    requires
        list.no_duplicates(),
    ensures
        list.remove_value(addr).no_duplicates(),
        list.remove_value(addr).len() <= list.len(),
        forall|x: u64| #[trigger]
            list.remove_value(addr).contains(x) <==> list.contains(x) && x != addr,
        !list.contains(addr) ==> list.remove_value(addr) == list,
{
    list.index_of_first_ensures(addr);
    let rest = list.remove_value(addr);
    if list.contains(addr) {
        let at = list.index_of_first(addr)->0;
        assert forall|x: u64| #[trigger] rest.contains(x) implies list.contains(x) && x != addr by {
            let i = choose|i: int| 0 <= i < rest.len() && rest[i] == x;
            if i < at {
                assert(list[i] == x);
            } else {
                assert(list[i + 1] == x);
            }
        }
        assert forall|x: u64| list.contains(x) && x != addr implies #[trigger] rest.contains(x) by {
            let i = choose|i: int| 0 <= i < list.len() && list[i] == x;
            if i < at {
                assert(rest[i] == x);
            } else {
                assert(rest[i - 1] == x);
            }
        }
    }
}

/// The item at `at`, when it is the first of its value, is the one removed.
pub proof fn lemma_remove_value_at(list: Seq<u64>, addr: u64, at: int)
    requires
        0 <= at < list.len(),
        list[at] == addr,
        forall|j: int| 0 <= j < at ==> list[j] != addr,
    ensures
        list.remove_value(addr) == list.remove(at),
{
    list.index_of_first_ensures(addr);
    assert(list.contains(addr));
}

/// In a list without repetitions, removing a value keeps all others in their order.
pub proof fn lemma_remove_is_filter(list: Seq<u64>, addr: u64)
    requires
        list.no_duplicates(),
    ensures
        list.remove_value(addr) == list.filter(|x: u64| x != addr),
    decreases list.len(),
{
    reveal(Seq::filter);
    list.index_of_first_ensures(addr);
    if list.len() > 0 {
        let front = list.drop_last();
        lemma_remove_is_filter(front, addr);
        front.index_of_first_ensures(addr);
        if list.last() == addr {
            lemma_remove_value_at(list, addr, list.len() - 1);
            assert(!front.contains(addr));
            assert(list.remove(list.len() - 1) =~= front);
        } else if front.contains(addr) {
            let at = front.index_of_first(addr)->0;
            lemma_remove_value_at(front, addr, at);
            lemma_remove_value_at(list, addr, at);
            assert(list.remove(at) =~= front.remove(at).push(list.last()));
        } else {
            assert(!list.contains(addr)) by {
                if list.contains(addr) {
                    let i = choose|i: int| 0 <= i < list.len() && list[i] == addr;
                    assert(front[i] == addr);
                }
            }
            assert(list =~= front.push(list.last()));
        }
    }
}

/// How the count of a class changes when one record is written.
pub proof fn lemma_class_count_insert(
    chunks: Map<u64, ChunkRecord>,
    addr: u64,
    record: ChunkRecord,
    class: int,
)
    requires
        chunks.dom().finite(),
    ensures
        class_count(chunks.insert(addr, record), class) == class_count(chunks, class) - (
        if chunks.contains_key(addr) && state_class(chunks[addr].state) == class {
            1int
        } else {
            0
        }) + (if state_class(record.state) == class {
            1int
        } else {
            0
        }),
{
    let before = in_class(chunks, class);
    let after = in_class(chunks.insert(addr, record), class);
    let rest = before.remove(addr);
    assert(before.finite());
    if state_class(record.state) == class {
        assert(after =~= rest.insert(addr));
    } else {
        assert(after =~= rest);
    }
}

/// The three classes share out all records.
pub proof fn lemma_classes_partition(chunks: Map<u64, ChunkRecord>)
    requires
        chunks.dom().finite(),
    ensures
        class_count(chunks, 0) + class_count(chunks, 1) + class_count(chunks, 2)
            == chunks.dom().len(),
    decreases chunks.dom().len(),
{
    if chunks.dom().len() == 0 {
        assert(chunks.dom() =~= Set::empty());
        assert(in_class(chunks, 0) =~= Set::empty());
        assert(in_class(chunks, 1) =~= Set::empty());
        assert(in_class(chunks, 2) =~= Set::empty());
    } else {
        let addr = chunks.dom().choose();
        let rest = chunks.remove(addr);
        lemma_classes_partition(rest);
        assert(rest.insert(addr, chunks[addr]) =~= chunks);
        lemma_class_count_insert(rest, addr, chunks[addr], 0);
        lemma_class_count_insert(rest, addr, chunks[addr], 1);
        lemma_class_count_insert(rest, addr, chunks[addr], 2);
    }
}

////////////////////////////////////////////////////////////////////////////////
// Preservation of the invariant
////////////////////////////////////////////////////////////////////////////////
/// A state stays well formed when `addr` leaves the bin lists and its record is
/// written, if the new record belongs in no list.
proof fn lemma_record_written(view: OracleView, addr: u64, record: ChunkRecord, fresh: bool)
    requires
        view.wf(),
        addr != 0,
        record.addr == addr,
        fresh ==> record.index == view.next_index,
        !fresh ==> view.chunks.contains_key(addr) && record.index == view.chunks[addr].index,
        record.state matches ChunkState::Freed { bin } ==> {
            &&& state::bin_fits(bin, record.size)
            &&& !(bin is Tcache)
            &&& !(bin is Fastbin)
        },
        record.free_stack is None <==> record.state == ChunkState::Allocated,
    ensures
        ({
            let written = view.unbinned(addr).with_record(addr, record);
            if fresh {
                written.index_taken().wf()
            } else {
                written.wf()
            }
        }),
{
    let written = view.unbinned(addr).with_record(addr, record);
    let end = if fresh {
        written.index_taken()
    } else {
        written
    };
    assert forall|i: int| 0 <= i < TCACHE_BINS implies {
        &&& (#[trigger] end.tcache[i]).no_duplicates()
        &&& end.tcache[i].len() <= TCACHE_FILL_COUNT
    } by {
        lemma_remove_value(view.tcache[i], addr);
    }
    assert forall|i: int| 0 <= i < FASTBIN_BINS implies (
    #[trigger] end.fastbins[i]).no_duplicates() by {
        lemma_remove_value(view.fastbins[i], addr);
    }
    assert forall|i: int, x: u64| 0 <= i < TCACHE_BINS implies (
    #[trigger] end.tcache[i].contains(x) <==> end.is_freed_into(
        x,
        BinType::Tcache(i as usize),
    )) by {
        lemma_remove_value(view.tcache[i], addr);
        assert(view.tcache[i].contains(x) <==> view.is_freed_into(x, BinType::Tcache(i as usize)));
    }
    assert forall|i: int, x: u64| 0 <= i < FASTBIN_BINS implies (
    #[trigger] end.fastbins[i].contains(x) <==> end.is_freed_into(
        x,
        BinType::Fastbin(i as usize),
    )) by {
        lemma_remove_value(view.fastbins[i], addr);
        assert(view.fastbins[i].contains(x) <==> view.is_freed_into(
            x,
            BinType::Fastbin(i as usize),
        ));
    }
    assert(end.bins_wf());
    assert(end.records_wf());
}

/// A freed chunk always goes to a bin for its size.
pub proof fn lemma_bin_for_fits(view: OracleView, size: usize)
    ensures
        state::bin_fits(view.bin_for(size), size),
        view.bin_for(size) matches BinType::Tcache(i) ==> view.tcache[i as int].len()
            < TCACHE_FILL_COUNT,
        !(view.bin_for(size) is Reallocated),
{
}

/// Pushing an item that a list lacks.
proof fn lemma_push_contains(list: Seq<u64>, addr: u64)
    ensures
        forall|x: u64| #[trigger] list.push(addr).contains(x) <==> list.contains(x) || x == addr,
        list.no_duplicates() && !list.contains(addr) ==> list.push(addr).no_duplicates(),
{
    let longer = list.push(addr);
    assert forall|x: u64| #[trigger] longer.contains(x) <==> list.contains(x) || x == addr by {
        if list.contains(x) {
            let i = choose|i: int| 0 <= i < list.len() && list[i] == x;
            assert(longer[i] == x);
        }
        assert(longer[list.len() as int] == addr);
    }
}

/// A free of an allocated chunk keeps the state well formed.
proof fn lemma_freed_wf(view: OracleView, addr: u64, stack: StackTrace, timestamp_ns: u64)
    requires
        view.wf(),
        view.chunks.contains_key(addr),
        view.chunks[addr].state == ChunkState::Allocated,
    ensures
        view.after_free(addr, stack, timestamp_ns).0.wf(),
{
    let base = view.unbinned(addr);
    let old = view.chunks[addr];
    let bin = base.bin_for(old.size);
    let record = released(old, ChunkState::Freed { bin }, stack, timestamp_ns);
    lemma_bin_for_fits(base, old.size);
    // The same write with a record that belongs in no list.
    let parked = released(
        old,
        ChunkState::Freed { bin: BinType::Reallocated },
        stack,
        timestamp_ns,
    );
    lemma_record_written(view, addr, parked, false);
    let before = base.with_record(addr, parked);
    let end = base.with_record(addr, record).binned(addr, bin);
    match bin {
        BinType::Tcache(k) => {
            lemma_push_contains(base.tcache[k as int], addr);
            assert(!before.tcache[k as int].contains(addr));
        },
        BinType::Fastbin(k) => {
            lemma_push_contains(base.fastbins[k as int], addr);
            assert(!before.fastbins[k as int].contains(addr));
        },
        _ => {},
    }
    assert forall|i: int, x: u64| 0 <= i < TCACHE_BINS implies (
    #[trigger] end.tcache[i].contains(x) <==> end.is_freed_into(
        x,
        BinType::Tcache(i as usize),
    )) by {
        assert(before.tcache[i].contains(x) <==> before.is_freed_into(
            x,
            BinType::Tcache(i as usize),
        ));
    }
    assert forall|i: int, x: u64| 0 <= i < FASTBIN_BINS implies (
    #[trigger] end.fastbins[i].contains(x) <==> end.is_freed_into(
        x,
        BinType::Fastbin(i as usize),
    )) by {
        assert(before.fastbins[i].contains(x) <==> before.is_freed_into(
            x,
            BinType::Fastbin(i as usize),
        ));
    }
    assert forall|i: int| 0 <= i < TCACHE_BINS implies {
        &&& (#[trigger] end.tcache[i]).no_duplicates()
        &&& end.tcache[i].len() <= TCACHE_FILL_COUNT
    } by {
        assert(before.tcache[i].no_duplicates());
    }
    assert forall|i: int| 0 <= i < FASTBIN_BINS implies (
    #[trigger] end.fastbins[i]).no_duplicates() by {
        assert(before.fastbins[i].no_duplicates());
    }
    assert(end.bins_wf());
    assert(end.records_wf()) by {
        assert(end.chunks.dom() =~= before.chunks.dom());
    }
}

/// Whether the lists are well formed depends on the records and the lists alone.
proof fn lemma_same_bins(view: OracleView, other: OracleView)
    requires
        view.bins_wf(),
        other.chunks == view.chunks,
        other.tcache == view.tcache,
        other.fastbins == view.fastbins,
    ensures
        other.bins_wf(),
{
    assert forall|i: int, x: u64| 0 <= i < TCACHE_BINS implies (
    #[trigger] other.tcache[i].contains(x) <==> other.is_freed_into(
        x,
        BinType::Tcache(i as usize),
    )) by {
        assert(view.tcache[i].contains(x) <==> view.is_freed_into(x, BinType::Tcache(i as usize)));
    }
    assert forall|i: int, x: u64| 0 <= i < FASTBIN_BINS implies (
    #[trigger] other.fastbins[i].contains(x) <==> other.is_freed_into(
        x,
        BinType::Fastbin(i as usize),
    )) by {
        assert(view.fastbins[i].contains(x) <==> view.is_freed_into(
            x,
            BinType::Fastbin(i as usize),
        ));
    }
}

/// An alert keeps the state well formed.
proof fn lemma_alert_wf(view: OracleView, alert: OracleAlert)
    requires
        view.wf(),
    ensures
        view.with_alert(alert).wf(),
{
    lemma_same_bins(view, view.with_alert(alert));
}

/// An allocation keeps the state well formed.
pub proof fn lemma_alloc_wf(
    view: OracleView,
    addr: u64,
    size: usize,
    stack: StackTrace,
    timestamp_ns: u64,
)
    requires
        view.wf(),
        0 <= view.next_index <= usize::MAX,
    ensures
        view.after_alloc(addr, size, stack, timestamp_ns).0.wf(),
{
    if addr != 0 {
        let end = view.after_alloc(addr, size, stack, timestamp_ns).0;
        lemma_record_written(view, addr, end.chunks[addr], true);
    }
}

/// A free keeps the state well formed.
pub proof fn lemma_free_wf(view: OracleView, addr: u64, stack: StackTrace, timestamp_ns: u64)
    requires
        view.wf(),
        0 <= view.next_index <= usize::MAX,
    ensures
        view.after_free(addr, stack, timestamp_ns).0.wf(),
{
    let end = view.after_free(addr, stack, timestamp_ns).0;
    let base = view.unbinned(addr);
    if addr == 0 {
    } else if !view.chunks.contains_key(addr) {
        let record = end.chunks[addr];
        let alert = OracleAlert { addr, reason: UafReason::InvalidFree, timestamp_ns };
        lemma_record_written(view, addr, record, true);
        lemma_alert_wf(base.with_record(addr, record).index_taken(), alert);
        assert(end == base.with_record(addr, record).index_taken().with_alert(alert));
    } else if view.chunks[addr].state == ChunkState::Allocated {
        lemma_freed_wf(view, addr, stack, timestamp_ns);
    } else {
        let record = end.chunks[addr];
        let alert = OracleAlert { addr, reason: UafReason::DoubleFree, timestamp_ns };
        lemma_record_written(view, addr, record, false);
        lemma_alert_wf(base.with_record(addr, record), alert);
    }
}

/// The release of a reallocated block keeps the state well formed.
pub proof fn lemma_release_wf(view: OracleView, addr: u64, stack: StackTrace, timestamp_ns: u64)
    requires
        view.wf(),
        addr != 0,
    ensures
        view.after_release(addr, stack, timestamp_ns).0.wf(),
{
    let end = view.after_release(addr, stack, timestamp_ns).0;
    let base = view.unbinned(addr);
    if !view.chunks.contains_key(addr) {
        lemma_unbinned_unknown(view, addr);
    } else if view.chunks[addr].state == ChunkState::Allocated {
        lemma_record_written(view, addr, end.chunks[addr], false);
    } else {
        let record = end.chunks[addr];
        let alert = OracleAlert { addr, reason: UafReason::ReallocOfFreed, timestamp_ns };
        lemma_record_written(view, addr, record, false);
        lemma_alert_wf(base.with_record(addr, record), alert);
    }
}

/// A list without a value loses nothing by its removal.
proof fn lemma_remove_absent(list: Seq<u64>, addr: u64)
    requires
        !list.contains(addr),
    ensures
        list.remove_value(addr) == list,
{
    list.index_of_first_ensures(addr);
}

/// An address that is in no list leaves the lists as they are.
pub proof fn lemma_unbinned_absent(view: OracleView, addr: u64)
    requires
        forall|i: int| 0 <= i < view.tcache.len() ==> !(#[trigger] view.tcache[i]).contains(addr),
        forall|i: int|
            0 <= i < view.fastbins.len() ==> !(#[trigger] view.fastbins[i]).contains(addr),
    ensures
        view.unbinned(addr) == view,
{
    assert forall|i: int| 0 <= i < view.tcache.len() implies #[trigger] view.unbinned(
        addr,
    ).tcache[i] == view.tcache[i] by {
        lemma_remove_absent(view.tcache[i], addr);
    }
    assert forall|i: int| 0 <= i < view.fastbins.len() implies #[trigger] view.unbinned(
        addr,
    ).fastbins[i] == view.fastbins[i] by {
        lemma_remove_absent(view.fastbins[i], addr);
    }
    assert(view.unbinned(addr).tcache =~= view.tcache);
    assert(view.unbinned(addr).fastbins =~= view.fastbins);
}

/// An address that is not freed into a list leaves the lists as they are.
pub proof fn lemma_unbinned_unknown(view: OracleView, addr: u64)
    requires
        view.wf(),
        forall|bin: BinType|
            (bin is Tcache || bin is Fastbin) ==> !#[trigger] view.is_freed_into(addr, bin),
    ensures
        view.unbinned(addr) == view,
{
    assert forall|i: int| 0 <= i < TCACHE_BINS implies !(#[trigger] view.tcache[i]).contains(
        addr,
    ) by {
        assert(!view.is_freed_into(addr, BinType::Tcache(i as usize)));
    }
    assert forall|i: int| 0 <= i < FASTBIN_BINS implies !(#[trigger] view.fastbins[i]).contains(
        addr,
    ) by {
        assert(!view.is_freed_into(addr, BinType::Fastbin(i as usize)));
    }
    lemma_unbinned_absent(view, addr);
}

/// The first state is well formed.
pub proof fn lemma_initial_wf()
    ensures
        OracleView::initial().wf(),
{
}

/// Counting an event keeps the state well formed.
pub proof fn lemma_counted_wf(view: OracleView)
    requires
        view.wf(),
    ensures
        (OracleView { total_events: bumped(view.total_events), ..view }).wf(),
{
    lemma_same_bins(view, OracleView { total_events: bumped(view.total_events), ..view });
}

/// An address that at most one thread cache list holds leaves that list alone.
pub proof fn lemma_unbinned_tcache(view: OracleView, addr: u64, idx: usize)
    requires
        idx < view.tcache.len(),
        forall|i: int|
            0 <= i < view.tcache.len() && i != idx ==> !(#[trigger] view.tcache[i]).contains(addr),
        forall|i: int|
            0 <= i < view.fastbins.len() ==> !(#[trigger] view.fastbins[i]).contains(addr),
    ensures
        view.unbinned(addr) == (OracleView {
            tcache: view.tcache.update(idx as int, view.tcache[idx as int].remove_value(addr)),
            ..view
        }),
{
    let end = view.unbinned(addr);
    assert forall|i: int| 0 <= i < view.tcache.len() && i != idx implies #[trigger] end.tcache[i]
        == view.tcache[i] by {
        lemma_remove_absent(view.tcache[i], addr);
    }
    assert forall|i: int| 0 <= i < view.fastbins.len() implies #[trigger] end.fastbins[i]
        == view.fastbins[i] by {
        lemma_remove_absent(view.fastbins[i], addr);
    }
    assert(end.tcache =~= view.tcache.update(
        idx as int,
        view.tcache[idx as int].remove_value(addr),
    ));
    assert(end.fastbins =~= view.fastbins);
}

/// An address that at most one fast bin list holds leaves that list alone.
pub proof fn lemma_unbinned_fastbin(view: OracleView, addr: u64, idx: usize)
    requires
        idx < view.fastbins.len(),
        forall|i: int| 0 <= i < view.tcache.len() ==> !(#[trigger] view.tcache[i]).contains(addr),
        forall|i: int|
            0 <= i < view.fastbins.len() && i != idx ==> !(
            #[trigger] view.fastbins[i]).contains(addr),
    ensures
        view.unbinned(addr) == (OracleView {
            fastbins: view.fastbins.update(
                idx as int,
                view.fastbins[idx as int].remove_value(addr),
            ),
            ..view
        }),
{
    let end = view.unbinned(addr);
    assert forall|i: int| 0 <= i < view.tcache.len() implies #[trigger] end.tcache[i]
        == view.tcache[i] by {
        lemma_remove_absent(view.tcache[i], addr);
    }
    assert forall|i: int| 0 <= i < view.fastbins.len() && i != idx implies #[trigger] end.fastbins[i]
        == view.fastbins[i] by {
        lemma_remove_absent(view.fastbins[i], addr);
    }
    assert(end.tcache =~= view.tcache);
    assert(end.fastbins =~= view.fastbins.update(
        idx as int,
        view.fastbins[idx as int].remove_value(addr),
    ));
}

/// Taking out an address that was put into a list when no list held it.
pub proof fn lemma_binned_unbinned(view: OracleView, addr: u64, bin: BinType)
    requires
        view.tcache.len() == TCACHE_BINS,
        view.fastbins.len() == FASTBIN_BINS,
        forall|i: int| 0 <= i < TCACHE_BINS ==> !(#[trigger] view.tcache[i]).contains(addr),
        forall|i: int| 0 <= i < FASTBIN_BINS ==> !(#[trigger] view.fastbins[i]).contains(addr),
    ensures
        view.binned(addr, bin).unbinned(addr) == view,
{
    let after = view.binned(addr, bin);
    match bin {
        BinType::Tcache(i) if i < TCACHE_BINS => {
            let list = view.tcache[i as int];
            lemma_unbinned_tcache(after, addr, i);
            lemma_remove_value_at(list.push(addr), addr, list.len() as int);
            assert(list.push(addr).remove(list.len() as int) =~= list);
            assert(after.unbinned(addr).tcache =~= view.tcache);
        },
        BinType::Fastbin(i) if i < FASTBIN_BINS => {
            let list = view.fastbins[i as int];
            lemma_unbinned_fastbin(after, addr, i);
            lemma_remove_value_at(list.push(addr), addr, list.len() as int);
            assert(list.push(addr).remove(list.len() as int) =~= list);
            assert(after.unbinned(addr).fastbins =~= view.fastbins);
        },
        _ => {
            lemma_unbinned_absent(view, addr);
        },
    }
}

////////////////////////////////////////////////////////////////////////////////
// Sequences of events
////////////////////////////////////////////////////////////////////////////////
/// An event takes the next index or leaves it.
pub proof fn lemma_step_index(view: OracleView, event: HeapEvent)
    ensures
        view.step(event).0.next_index == view.next_index + (if view.takes_index(event) {
            1int
        } else {
            0
        }),
{
}

/// One more event of a sequence.
pub proof fn lemma_after_all_next(view: OracleView, events: Seq<HeapEvent>, i: int)
    requires
        0 <= i < events.len(),
    ensures
        view.after_all(events.take(i + 1)) == view.after_all(events.take(i)).step(events[i]).0,
{
    assert(events.take(i + 1).drop_last() =~= events.take(i));
}

/// Events never give an index back.
pub proof fn lemma_after_all_index_grows(view: OracleView, events: Seq<HeapEvent>, i: int)
    requires
        0 <= i <= events.len(),
    ensures
        view.after_all(events.take(i)).next_index <= view.after_all(events).next_index,
    decreases events.len() - i,
{
    if i == events.len() {
        assert(events.take(i) =~= events);
    } else {
        lemma_after_all_next(view, events, i);
        lemma_step_index(view.after_all(events.take(i)), events[i]);
        lemma_after_all_index_grows(view, events, i + 1);
    }
}

} // verus!
