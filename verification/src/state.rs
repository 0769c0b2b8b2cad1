//! The heap oracle: what is known of every chunk the traced program has used.
//!
//! The oracle replays heap events. It keeps one record per address, mirrors the
//! allocator's thread cache and fast bins, and raises an alert for every free or
//! reallocation of memory that was not allocated at the time.

use std::collections::{BTreeMap, HashMap};

use vstd::prelude::*;

use crate::ipc::{EventKind, HeapEvent, STACK_DEPTH};
use crate::model;
use crate::model::OracleView;
use crate::replay;
use crate::text;

verus! {

/// How many thread cache bins there are.
pub const TCACHE_BINS: usize = 64;

/// How many fast bins there are.
pub const FASTBIN_BINS: usize = 10;

/// How many chunks one thread cache bin takes.
pub const TCACHE_FILL_COUNT: usize = 7;

/// How many alerts are kept.
pub const ALERT_LIMIT: usize = 128;

/// The call stack at an event, innermost frame first.
#[derive(Clone, Copy, Debug)]
pub struct StackTrace {
    pub frames: [u64; STACK_DEPTH],
    pub len: usize,
}

/// A call stack without frames.
pub open spec fn empty_stack() -> StackTrace {
    StackTrace { frames: [0u64; STACK_DEPTH], len: 0 }
}

/// The call stack of an event: its frames, and at most as many of them as fit.
pub open spec fn stack_of(event: HeapEvent) -> StackTrace {
    StackTrace {
        frames: event.callstack,
        len: if event.stack_len < STACK_DEPTH {
            event.stack_len as usize
        } else {
            STACK_DEPTH
        },
    }
}

impl Default for StackTrace {
    fn default() -> (stack: Self)
        ensures
            stack == empty_stack(),
    {
        StackTrace { frames: [0u64; STACK_DEPTH], len: 0 }
    }
}

impl StackTrace {
    pub fn from_event(event: HeapEvent) -> (stack: Self)
        ensures
            stack == stack_of(event),
    {
        let wanted: usize = event.stack_len as usize;
        StackTrace {
            frames: event.stack(),
            len: if wanted < STACK_DEPTH {
                wanted
            } else {
                STACK_DEPTH
            },
        }
    }

    pub fn first_frame(self) -> (frame: Option<u64>)
        ensures
            frame == if self.len > 0 {
                Some(self.frames@[0])
            } else {
                None
            },
    {
        if self.len > 0 {
            Some(self.frames[0])
        } else {
            None
        }
    }
}

/// Where the allocator keeps a freed chunk.
#[derive(Clone, Copy, Debug, PartialEq, Eq, Structural)]
pub enum BinType {
    Tcache(usize),
    Fastbin(usize),
    Smallbin(usize),
    Largebin,
    Reallocated,
}

/// The name of a bin.
pub open spec fn bin_text(bin: BinType) -> Seq<char> {
    match bin {
        BinType::Tcache(i) => "tcache["@ + text::dec(i as nat) + "]"@,
        BinType::Fastbin(i) => "fastbin["@ + text::dec(i as nat) + "]"@,
        BinType::Smallbin(i) => "smallbin["@ + text::dec(i as nat) + "]"@,
        BinType::Largebin => "largebin"@,
        BinType::Reallocated => "reallocated"@,
    }
}

/// A name with an index in brackets.
fn indexed_name(prefix: &str, index: usize) -> (s: String)
    ensures
        s@ == prefix@ + text::dec(index as nat) + "]"@,
{
    let mut out = prefix.to_owned();
    text::push_dec(&mut out, index as u64);
    out.append("]");
    out
}

impl BinType {
    pub fn to_string(&self) -> (s: String)
        ensures
            s@ == bin_text(*self),
    {
        match *self {
            BinType::Tcache(idx) => indexed_name("tcache[", idx),
            BinType::Fastbin(idx) => indexed_name("fastbin[", idx),
            BinType::Smallbin(idx) => indexed_name("smallbin[", idx),
            BinType::Largebin => "largebin".to_owned(),
            BinType::Reallocated => "reallocated".to_owned(),
        }
    }
}

/// Why an address was flagged.
#[derive(Clone, Copy, Debug, PartialEq, Eq, Structural)]
pub enum UafReason {
    DoubleFree,
    InvalidFree,
    ReallocOfFreed,
}

/// The name of a reason.
pub open spec fn reason_text(reason: UafReason) -> Seq<char> {
    match reason {
        UafReason::DoubleFree => "double-free"@,
        UafReason::InvalidFree => "invalid-free"@,
        UafReason::ReallocOfFreed => "realloc-after-free"@,
    }
}

impl UafReason {
    pub fn to_string(&self) -> (s: String)
        ensures
            s@ == reason_text(*self),
    {
        match *self {
            UafReason::DoubleFree => "double-free".to_owned(),
            UafReason::InvalidFree => "invalid-free".to_owned(),
            UafReason::ReallocOfFreed => "realloc-after-free".to_owned(),
        }
    }
}

/// What a chunk is at the moment.
#[derive(Clone, Copy, Debug, PartialEq, Eq, Structural)]
pub enum ChunkState {
    Allocated,
    Freed { bin: BinType },
    Uaf { reason: UafReason },
}

/// What is known of one address.
#[derive(Debug)]
pub struct ChunkRecord {
    pub index: usize,
    pub addr: u64,
    pub size: usize,
    pub state: ChunkState,
    pub alloc_stack: StackTrace,
    pub free_stack: Option<StackTrace>,
    pub last_event_ns: u64,
    pub generation: u64,
}

impl Clone for ChunkRecord {
    fn clone(&self) -> (copy: Self)
        ensures
            copy == *self,
    {
        ChunkRecord {
            index: self.index,
            addr: self.addr,
            size: self.size,
            state: self.state,
            alloc_stack: self.alloc_stack,
            free_stack: self.free_stack,
            last_event_ns: self.last_event_ns,
            generation: self.generation,
        }
    }
}

/// A flagged address.
#[derive(Clone, Copy, Debug)]
pub struct OracleAlert {
    pub addr: u64,
    pub reason: UafReason,
    pub timestamp_ns: u64,
}

/// What one event did.
#[derive(Clone, Copy, Debug)]
pub struct ApplyResult {
    pub alert: Option<OracleAlert>,
    pub bin: Option<BinType>,
    pub chunk_index: Option<usize>,
    pub chunk_size: Option<usize>,
}

/// The result of an event that did nothing.
pub open spec fn no_result() -> ApplyResult {
    ApplyResult { alert: None, bin: None, chunk_index: None, chunk_size: None }
}

impl Default for ApplyResult {
    fn default() -> (r: Self)
        ensures
            r == no_result(),
    {
        ApplyResult { alert: None, bin: None, chunk_index: None, chunk_size: None }
    }
}

/// The totals over all records.
#[derive(Clone, Copy, Debug, Default)]
pub struct OracleSummary {
    pub total_chunks: usize,
    pub allocated: usize,
    pub freed: usize,
    pub uaf: usize,
    pub alerts: usize,
}

/// The bin list that holds an address.
#[derive(Clone, Copy, Debug)]
enum BinLocation {
    Tcache(usize),
    Fastbin(usize),
}

////////////////////////////////////////////////////////////////////////////////
// Chunk sizes and bins
////////////////////////////////////////////////////////////////////////////////
/// The chunk the allocator sets aside for a request: eight bytes more than the
/// request, rounded up to a multiple of 16, and never less than 32. A request
/// too large to be rounded up gets the largest multiple of 16 there is.
pub open spec fn chunk_size_of(request: usize) -> int {
    let padded = if request + 23 <= usize::MAX {
        request + 23
    } else {
        usize::MAX as int
    };
    let aligned = padded - padded % 16;
    if aligned < 0x20 {
        0x20
    } else {
        aligned
    }
}

/// The position of a chunk size in the sequence 32, 48, 64, ...
pub open spec fn size_class(chunk_size: int) -> int {
    (chunk_size - 0x20) / 0x10
}

/// The thread cache bin of a chunk size.
pub open spec fn tcache_bin(chunk_size: int) -> Option<usize> {
    if 0x20 <= chunk_size <= 0x410 {
        Some(size_class(chunk_size) as usize)
    } else {
        None
    }
}

/// The fast bin of a chunk size.
pub open spec fn fast_bin(chunk_size: int) -> Option<usize> {
    if 0x20 <= chunk_size <= 0xb0 {
        Some(size_class(chunk_size) as usize)
    } else {
        None
    }
}

pub fn glibc_chunk_size(size: usize) -> (chunk_size: usize)
    ensures
        chunk_size == chunk_size_of(size),
{
    let padded: usize = size.saturating_add(8 + 15);
    assert(padded & !15usize == padded - padded % 16) by (bit_vector);
    let aligned: usize = padded & !15usize;
    if aligned < 0x20 {
        0x20
    } else {
        aligned
    }
}

fn tcache_index(chunk_size: usize) -> (idx: Option<usize>)
    ensures
        idx == tcache_bin(chunk_size as int),
{
    if !(0x20 <= chunk_size && chunk_size <= 0x410) {
        return None;
    }
    Some((chunk_size - 0x20) / 0x10)
}

fn fastbin_index(chunk_size: usize) -> (idx: Option<usize>)
    ensures
        idx == fast_bin(chunk_size as int),
{
    if !(0x20 <= chunk_size && chunk_size <= 0xb0) {
        return None;
    }
    let idx: usize = (chunk_size - 0x20) / 0x10;
    if idx < FASTBIN_BINS {
        Some(idx)
    } else {
        None
    }
}

/// A chunk holds its request and eight bytes of bookkeeping, is a multiple of 16
/// and at least 32 bytes, and no smaller chunk would do. Requests that cannot be
/// rounded up are left out.
pub proof fn law_chunk_size(request: usize)
    requires
        request + 23 <= usize::MAX,
    ensures
        chunk_size_of(request) >= request + 8,
        chunk_size_of(request) >= 0x20,
        chunk_size_of(request) % 16 == 0,
        forall|smaller: int|
            #![trigger smaller % 16]
            smaller % 16 == 0 && smaller >= 0x20 && smaller >= request + 8 ==> smaller
                >= chunk_size_of(request),
{
    assert(usize::MAX >= 0xffff_ffff);
}

/// A chunk size is a multiple of 16 that a machine word can hold; a request that cannot
/// be rounded up gets the largest of these.
pub proof fn law_chunk_size_fits(request: usize)
    ensures
        0x20 <= chunk_size_of(request) <= usize::MAX,
        chunk_size_of(request) % 16 == 0,
        request + 23 > usize::MAX ==> chunk_size_of(request) + 16 > usize::MAX,
{
    assert(usize::MAX % 16 == 15 && usize::MAX >= 0xffff_ffff) by {
        assert(usize::MAX == 0xffff_ffff || usize::MAX == 0xffff_ffff_ffff_ffff);
    }
}

/// A larger request never gets a smaller chunk.
pub proof fn law_chunk_size_monotone(a: usize, b: usize)
    requires
        a <= b,
    ensures
        chunk_size_of(a) <= chunk_size_of(b),
{
}

/// The thread cache bins cover the chunk sizes from 0x20 to 0x410 and the fast
/// bins those from 0x20 to 0xb0, one size to a bin.
pub proof fn law_bin_indices(chunk_size: int)
    requires
        chunk_size % 16 == 0,
        chunk_size >= 0x20,
    ensures
        tcache_bin(chunk_size) is Some <==> chunk_size <= 0x410,
        fast_bin(chunk_size) is Some <==> chunk_size <= 0xb0,
        tcache_bin(chunk_size) matches Some(i) ==> i < TCACHE_BINS && chunk_size == 0x20 + 0x10
            * i,
        fast_bin(chunk_size) matches Some(i) ==> i < FASTBIN_BINS && chunk_size == 0x20 + 0x10 * i,
{
}

/// Whether a chunk of this size may be in this bin.
pub open spec fn bin_fits(bin: BinType, size: usize) -> bool {
    let chunk_size = chunk_size_of(size);
    match bin {
        BinType::Tcache(i) => i < TCACHE_BINS && chunk_size == 0x20 + 0x10 * i,
        BinType::Fastbin(i) => i < FASTBIN_BINS && chunk_size == 0x20 + 0x10 * i,
        BinType::Smallbin(i) => 0xb0 < chunk_size <= 0x400 && chunk_size == 0x20 + 0x10 * i,
        BinType::Largebin => chunk_size > 0x400,
        BinType::Reallocated => true,
    }
}

////////////////////////////////////////////////////////////////////////////////
// The oracle
////////////////////////////////////////////////////////////////////////////////
/// The state of every chunk seen so far.
pub struct HeapOracle {
    pub chunks: BTreeMap<u64, ChunkRecord>,
    pub tcache: [Vec<u64>; TCACHE_BINS],
    pub fastbins: [Vec<u64>; FASTBIN_BINS],
    pub alerts: Vec<OracleAlert>,
    pub total_events: u64,
    pub next_index: usize,
    pub caches: OracleCaches,
}

/// What the oracle could work out from its records but keeps at hand: how many
/// records are in each class of state, and which list holds an address.
pub struct OracleCaches {
    counts: [usize; 3],
    bin_index: HashMap<u64, BinLocation>,
}

impl View for HeapOracle {
    type V = OracleView;

    open spec fn view(&self) -> OracleView {
        OracleView {
            chunks: self.chunks@,
            tcache: self.tcache@.map_values(|list: Vec<u64>| list@),
            fastbins: self.fastbins@.map_values(|list: Vec<u64>| list@),
            alerts: self.alerts@,
            total_events: self.total_events,
            next_index: self.next_index as int,
        }
    }
}

/// The list of a bin, if it has one.
spec fn list_of(bin: BinType) -> Option<BinLocation> {
    match bin {
        BinType::Tcache(i) if i < TCACHE_BINS => Some(BinLocation::Tcache(i)),
        BinType::Fastbin(i) if i < FASTBIN_BINS => Some(BinLocation::Fastbin(i)),
        _ => None,
    }
}

/// The list that a chunk in this state is in, if it is in one.
spec fn location_of(state: ChunkState) -> Option<BinLocation> {
    match state {
        ChunkState::Freed { bin } => list_of(bin),
        _ => None,
    }
}

/// The lists that the records say their addresses are in.
spec fn locations(chunks: Map<u64, ChunkRecord>) -> Map<u64, BinLocation> {
    Map::new(
        |addr: u64| chunks.contains_key(addr) && location_of(chunks[addr].state) is Some,
        |addr: u64| location_of(chunks[addr].state)->0,
    )
}

/// How the lists of addresses change when one record is written.
proof fn lemma_locations_insert(chunks: Map<u64, ChunkRecord>, addr: u64, record: ChunkRecord)
    ensures
        locations(chunks.insert(addr, record)) == match location_of(record.state) {
            Some(location) => locations(chunks).remove(addr).insert(addr, location),
            None => locations(chunks).remove(addr),
        },
{
    let after = locations(chunks.insert(addr, record));
    match location_of(record.state) {
        Some(location) => {
            assert(after =~= locations(chunks).remove(addr).insert(addr, location));
        },
        None => {
            assert(after =~= locations(chunks).remove(addr));
        },
    }
}

/// The class of a state, as an index into the counts.
fn state_index(state: ChunkState) -> (class: usize)
    ensures
        class == model::state_class(state),
        class < 3,
{
    match state {
        ChunkState::Allocated => 0,
        ChunkState::Freed { .. } => 1,
        ChunkState::Uaf { .. } => 2,
    }
}

/// Where `addr` first occurs in a list.
fn position_of(list: &Vec<u64>, addr: u64) -> (at: Option<usize>)
    ensures
        match at {
            Some(i) => i < list@.len() && list@[i as int] == addr && forall|j: int|
                0 <= j < i ==> list@[j] != addr,
            None => !list@.contains(addr),
        },
{
    let mut i: usize = 0;
    while i < list.len()
        invariant
            i <= list@.len(),
            forall|j: int| 0 <= j < i ==> list@[j] != addr,
        decreases list@.len() - i,
    {
        if list[i] == addr {
            return Some(i);
        }
        i += 1;
    }
    None
}

/// Takes `addr` out of a list that may hold it.
fn drop_entry(list: &mut Vec<u64>, addr: u64)
    ensures
        final(list)@ == old(list)@.remove_value(addr),
{
    match position_of(list, addr) {
        Some(at) => {
            proof {
                model::lemma_remove_value_at(list@, addr, at as int);
            }
            list.remove(at);
        },
        None => {
            proof {
                list@.index_of_first_ensures(addr);
            }
        },
    }
}

impl Default for HeapOracle {
    fn default() -> (oracle: Self)
        ensures
            oracle.wf(),
            oracle@ == OracleView::initial(),
    {
        Self::new()
    }
}

impl HeapOracle {
    /// Whether the counts are those of the records.
    spec fn counts_wf(&self) -> bool {
        forall|class: int|
            0 <= class < 3 ==> #[trigger] self.caches.counts@[class] == model::class_count(
                self.chunks@,
                class,
            )
    }

    /// Whether the counts and the index of the bin lists agree with the records.
    pub closed spec fn caches_wf(&self) -> bool {
        &&& self.counts_wf()
        &&& self.caches.bin_index@ == locations(self.chunks@)
    }

    /// Whether no list holds `addr`.
    spec fn is_unlisted(&self, addr: u64) -> bool {
        &&& forall|i: int| 0 <= i < TCACHE_BINS ==> !(#[trigger] self@.tcache[i]).contains(addr)
        &&& forall|i: int| 0 <= i < FASTBIN_BINS ==> !(#[trigger] self@.fastbins[i]).contains(addr)
    }

    /// Whether the index of the bin lists is right about `addr`: it names a list that
    /// there is, and no other list holds the address.
    spec fn place_known(&self, addr: u64) -> bool {
        let place = if self.caches.bin_index@.contains_key(addr) {
            Some(self.caches.bin_index@[addr])
        } else {
            None
        };
        &&& place matches Some(BinLocation::Tcache(k)) ==> k < TCACHE_BINS
        &&& place matches Some(BinLocation::Fastbin(k)) ==> k < FASTBIN_BINS
        &&& forall|i: int|
            0 <= i < TCACHE_BINS && (#[trigger] self@.tcache[i]).contains(addr) ==> place == Some(
                BinLocation::Tcache(i as usize),
            )
        &&& forall|i: int|
            0 <= i < FASTBIN_BINS && (#[trigger] self@.fastbins[i]).contains(addr) ==> place
                == Some(BinLocation::Fastbin(i as usize))
    }

    /// The index is right about every address.
    proof fn lemma_place_known(&self, addr: u64)
        requires
            self.wf(),
        ensures
            self.place_known(addr),
    {
        assert forall|i: int|
            0 <= i < TCACHE_BINS && (#[trigger] self@.tcache[i]).contains(
                addr,
            ) implies self.caches.bin_index@.contains_key(addr) && self.caches.bin_index@[addr]
            == BinLocation::Tcache(i as usize) by {
            assert(self@.is_freed_into(addr, BinType::Tcache(i as usize)));
        }
        assert forall|i: int|
            0 <= i < FASTBIN_BINS && (#[trigger] self@.fastbins[i]).contains(
                addr,
            ) implies self.caches.bin_index@.contains_key(addr) && self.caches.bin_index@[addr]
            == BinLocation::Fastbin(i as usize) by {
            assert(self@.is_freed_into(addr, BinType::Fastbin(i as usize)));
        }
    }

    /// What holds of every oracle made by `new` and changed by `apply_event` alone.
    pub open spec fn wf(&self) -> bool {
        &&& self@.wf()
        &&& self.caches_wf()
    }

    pub fn new() -> (oracle: Self)
        ensures
            oracle.wf(),
            oracle@ == OracleView::initial(),
    {
        let tcache: [Vec<u64>; TCACHE_BINS] = [
            Vec::new(), Vec::new(), Vec::new(), Vec::new(), Vec::new(), Vec::new(), Vec::new(),
            Vec::new(), Vec::new(), Vec::new(), Vec::new(), Vec::new(), Vec::new(), Vec::new(),
            Vec::new(), Vec::new(), Vec::new(), Vec::new(), Vec::new(), Vec::new(), Vec::new(),
            Vec::new(), Vec::new(), Vec::new(), Vec::new(), Vec::new(), Vec::new(), Vec::new(),
            Vec::new(), Vec::new(), Vec::new(), Vec::new(), Vec::new(), Vec::new(), Vec::new(),
            Vec::new(), Vec::new(), Vec::new(), Vec::new(), Vec::new(), Vec::new(), Vec::new(),
            Vec::new(), Vec::new(), Vec::new(), Vec::new(), Vec::new(), Vec::new(), Vec::new(),
            Vec::new(), Vec::new(), Vec::new(), Vec::new(), Vec::new(), Vec::new(), Vec::new(),
            Vec::new(), Vec::new(), Vec::new(), Vec::new(), Vec::new(), Vec::new(), Vec::new(),
            Vec::new(),
        ];
        let fastbins: [Vec<u64>; FASTBIN_BINS] = [
            Vec::new(), Vec::new(), Vec::new(), Vec::new(), Vec::new(), Vec::new(), Vec::new(),
            Vec::new(), Vec::new(), Vec::new(),
        ];
        let oracle = HeapOracle {
            chunks: BTreeMap::new(),
            tcache,
            fastbins,
            alerts: Vec::new(),
            total_events: 0,
            next_index: 0,
            caches: OracleCaches { counts: [0, 0, 0], bin_index: HashMap::new() },
        };
        proof {
            assert(oracle@.tcache =~= OracleView::initial().tcache);
            assert(oracle@.fastbins =~= OracleView::initial().fastbins);
            model::lemma_initial_wf();
            assert(oracle.caches.bin_index@ =~= locations(oracle.chunks@));
            assert forall|class: int| 0 <= class < 3 implies #[trigger] oracle.caches.counts@[class]
                == model::class_count(oracle.chunks@, class) by {
                assert(model::in_class(oracle.chunks@, class) =~= Set::empty());
            }
        }
        oracle
    }

    pub fn apply_event(&mut self, event: HeapEvent) -> (result: ApplyResult)
        requires
            old(self).wf(),
            old(self)@.takes_index(event) ==> old(self).next_index < usize::MAX,
        ensures
            final(self).wf(),
            (final(self)@, result) == old(self)@.step(event),
            match result.alert {
                Some(alert) => {
                    &&& final(self).alerts@.last() == alert
                    &&& final(self).alerts@ == model::last_items(
                        old(self).alerts@.push(alert),
                        ALERT_LIMIT as nat,
                    )
                },
                None => final(self).alerts@ == old(self).alerts@,
            },
            final(self).alerts@.len() <= ALERT_LIMIT,
    {
        self.total_events = self.total_events.saturating_add(1);
        proof {
            model::lemma_counted_wf(old(self)@);
        }
        assert(self@ == (OracleView {
            total_events: model::bumped(old(self)@.total_events),
            ..old(self)@
        }));
        match event.kind() {
            EventKind::Alloc | EventKind::Calloc | EventKind::Memalign => self.apply_alloc(
                event.addr,
                event.size as usize,
                StackTrace::from_event(event),
                event.timestamp_ns,
            ),
            EventKind::Free => self.apply_free(
                event.addr,
                StackTrace::from_event(event),
                event.timestamp_ns,
            ),
            EventKind::Realloc => self.apply_realloc(event),
            EventKind::Invalid => ApplyResult::default(),
        }
    }

    /// Applies a batch of events in order. The results are handed back if they are
    /// asked for.
    pub fn apply_batch(&mut self, events: &Vec<HeapEvent>, keep_results: bool) -> (results: Vec<
        (HeapEvent, ApplyResult),
    >)
        requires
            old(self).wf(),
            old(self)@.after_all(events@).next_index <= usize::MAX,
        ensures
            final(self).wf(),
            final(self)@ == old(self)@.after_all(events@),
            results@ == if keep_results {
                old(self)@.results_of(events@)
            } else {
                Seq::empty()
            },
    {
        let ghost start = self@;
        let mut results: Vec<(HeapEvent, ApplyResult)> = Vec::new();
        let mut i: usize = 0;
        assert(events@.take(0) =~= Seq::empty());
        while i < events.len()
            invariant
                i <= events@.len(),
                self.wf(),
                self@ == start.after_all(events@.take(i as int)),
                start.after_all(events@).next_index <= usize::MAX,
                results@ =~= if keep_results {
                    start.results_of(events@).take(i as int)
                } else {
                    Seq::empty()
                },
            decreases events@.len() - i,
        {
            let event = events[i];
            proof {
                model::lemma_after_all_next(start, events@, i as int);
                model::lemma_after_all_index_grows(start, events@, i + 1);
                model::lemma_step_index(self@, event);
            }
            let result = self.apply_event(event);
            if keep_results {
                results.push((event, result));
            }
            i += 1;
        }
        assert(events@.take(i as int) =~= events@);
        results
    }

    pub fn summary(&self) -> (summary: OracleSummary)
        requires
            self.wf(),
        ensures
            summary.total_chunks == self@.chunks.dom().len(),
            summary.allocated == model::class_count(self@.chunks, 0),
            summary.freed == model::class_count(self@.chunks, 1),
            summary.uaf == model::class_count(self@.chunks, 2),
            summary.alerts == self@.alerts.len(),
            summary.allocated == self.chunks@.dom().filter(
                |addr: u64| self.chunks@[addr].state == ChunkState::Allocated,
            ).len(),
            summary.freed == self.chunks@.dom().filter(
                |addr: u64| self.chunks@[addr].state is Freed,
            ).len(),
            summary.uaf == self.chunks@.dom().filter(
                |addr: u64| self.chunks@[addr].state is Uaf,
            ).len(),
    {
        proof {
            replay::law_totals_by_state(self.chunks@);
        }
        OracleSummary {
            total_chunks: self.chunks.len(),
            allocated: self.caches.counts[0],
            freed: self.caches.counts[1],
            uaf: self.caches.counts[2],
            alerts: self.alerts.len(),
        }
    }

    /// Moves one record from one class to another in the counts, or adds one.
    fn count_state_change(&mut self, old_state: Option<ChunkState>, new_state: ChunkState)
        requires
            old_state matches Some(state) ==> old(self).caches.counts@[model::state_class(state)] > 0,
            old(self).caches.counts@[model::state_class(new_state)] < usize::MAX || (
            old_state matches Some(state) && model::state_class(state) == model::state_class(
                new_state,
            )),
        ensures
            final(self)@ == old(self)@,
            final(self).caches.bin_index == old(self).caches.bin_index,
            forall|class: int|
                0 <= class < 3 ==> #[trigger] final(self).caches.counts@[class] == old(
                    self,
                ).caches.counts@[class] - (if old_state matches Some(state) && model::state_class(state)
                    == class {
                    1int
                } else {
                    0
                }) + (if model::state_class(new_state) == class {
                    1int
                } else {
                    0
                }),
    {
        if let Some(state) = old_state {
            let class: usize = state_index(state);
            self.caches.counts[class] = self.caches.counts[class] - 1;
        }
        let class: usize = state_index(new_state);
        self.caches.counts[class] = self.caches.counts[class] + 1;
    }

    /// Writes a record that takes the place of another or is new, and counts it.
    fn write_record(&mut self, addr: u64, old_state: Option<ChunkState>, record: ChunkRecord)
        requires
            old(self).counts_wf(),
            old(self)@.chunks.dom().finite(),
            old(self)@.chunks.dom().len() <= old(self).next_index,
            old(self)@.chunks.contains_key(addr) ==> old_state == Some(
                old(self)@.chunks[addr].state,
            ),
            !old(self)@.chunks.contains_key(addr) ==> old_state is None && old(
                self,
            )@.chunks.dom().len() < usize::MAX,
        ensures
            final(self)@ == old(self)@.with_record(addr, record),
            final(self).counts_wf(),
            final(self).caches.bin_index == old(self).caches.bin_index,
    {
        let new_state = record.state;
        proof {
            let chunks = self.chunks@;
            model::lemma_classes_partition(chunks);
            if chunks.contains_key(addr) {
                let class = model::state_class(chunks[addr].state);
                assert(model::in_class(chunks, class).contains(addr));
                assert(model::class_count(chunks, class) > 0);
            }
            assert forall|class: int| 0 <= class < 3 implies #[trigger] model::class_count(
                chunks.insert(addr, record),
                class,
            ) == model::class_count(chunks, class) - (if chunks.contains_key(addr)
                && model::state_class(chunks[addr].state) == class {
                1int
            } else {
                0
            }) + (if model::state_class(record.state) == class {
                1int
            } else {
                0
            }) by {
                model::lemma_class_count_insert(chunks, addr, record, class);
            }
            assert(self.caches.counts@[0] == model::class_count(chunks, 0));
            assert(self.caches.counts@[1] == model::class_count(chunks, 1));
            assert(self.caches.counts@[2] == model::class_count(chunks, 2));
        }
        self.count_state_change(old_state, new_state);
        self.chunks.insert(addr, record);
    }

    /// Marks the chunk at `addr` as released, well or badly.
    fn release_record(&mut self, addr: u64, new_state: ChunkState, stack: StackTrace, timestamp_ns: u64)
        requires
            old(self).counts_wf(),
            old(self)@.chunks.dom().finite(),
            old(self)@.chunks.dom().len() <= old(self).next_index,
            old(self)@.chunks.contains_key(addr),
        ensures
            final(self)@ == old(self)@.with_record(
                addr,
                model::released(old(self)@.chunks[addr], new_state, stack, timestamp_ns),
            ),
            final(self).counts_wf(),
            final(self).caches.bin_index == old(self).caches.bin_index,
    {
        if let Some(found) = self.chunks.get(&addr) {
            let old_state = found.state;
            let mut record = found.clone();
            record.state = new_state;
            record.free_stack = Some(stack);
            record.last_event_ns = timestamp_ns;
            self.write_record(addr, Some(old_state), record);
        }
    }

    fn apply_alloc(
        &mut self,
        addr: u64,
        size: usize,
        stack: StackTrace,
        timestamp_ns: u64,
    ) -> (result: ApplyResult)
        requires
            old(self).wf(),
            addr != 0 ==> old(self).next_index < usize::MAX,
        ensures
            final(self).wf(),
            (final(self)@, result) == old(self)@.after_alloc(addr, size, stack, timestamp_ns),
    {
        if addr == 0 {
            return ApplyResult::default();
        }
        proof {
            model::lemma_alloc_wf(self@, addr, size, stack, timestamp_ns);
            self.lemma_place_known(addr);
        }
        self.remove_from_bins(addr);
        let (old_state, generation): (Option<ChunkState>, u64) = match self.chunks.get(&addr) {
            Some(record) => (Some(record.state), record.generation.saturating_add(1)),
            None => (None, 0),
        };
        let index: usize = self.next_index;
        let record = ChunkRecord {
            index,
            addr,
            size,
            state: ChunkState::Allocated,
            alloc_stack: stack,
            free_stack: None,
            last_event_ns: timestamp_ns,
            generation,
        };
        proof {
            lemma_locations_insert(old(self).chunks@, addr, record);
        }
        self.write_record(addr, old_state, record);
        self.next_index += 1;
        ApplyResult {
            alert: None,
            bin: None,
            chunk_index: Some(index),
            chunk_size: Some(glibc_chunk_size(size)),
        }
    }

    fn apply_free(&mut self, addr: u64, stack: StackTrace, timestamp_ns: u64) -> (result:
        ApplyResult)
        requires
            old(self).wf(),
            addr != 0 && !old(self)@.chunks.contains_key(addr) ==> old(self).next_index
                < usize::MAX,
        ensures
            final(self).wf(),
            (final(self)@, result) == old(self)@.after_free(addr, stack, timestamp_ns),
    {
        let mut result = ApplyResult::default();
        if addr == 0 {
            return result;
        }
        proof {
            model::lemma_free_wf(self@, addr, stack, timestamp_ns);
            self.lemma_place_known(addr);
        }
        self.remove_from_bins(addr);
        let found: Option<(ChunkState, usize, usize)> = match self.chunks.get(&addr) {
            Some(record) => Some((record.state, record.size, record.index)),
            None => None,
        };
        match found {
            Some((ChunkState::Allocated, size, index)) => {
                let bin = self.classify_free_bin(size);
                let new_state = ChunkState::Freed { bin };
                proof {
                    model::lemma_bin_for_fits(self@, size);
                    lemma_locations_insert(
                        old(self).chunks@,
                        addr,
                        model::released(self.chunks@[addr], new_state, stack, timestamp_ns),
                    );
                }
                self.release_record(addr, new_state, stack, timestamp_ns);
                self.push_bin(addr, bin);
                result.bin = Some(bin);
                result.chunk_index = Some(index);
                result.chunk_size = Some(glibc_chunk_size(size));
            },
            Some((_, size, index)) => {
                let new_state = ChunkState::Uaf { reason: UafReason::DoubleFree };
                proof {
                    lemma_locations_insert(
                        old(self).chunks@,
                        addr,
                        model::released(self.chunks@[addr], new_state, stack, timestamp_ns),
                    );
                }
                let alert = self.raise_alert(addr, UafReason::DoubleFree, timestamp_ns);
                self.release_record(addr, new_state, stack, timestamp_ns);
                result.alert = Some(alert);
                result.chunk_index = Some(index);
                if size > 0 {
                    result.chunk_size = Some(glibc_chunk_size(size));
                }
            },
            None => {
                let index: usize = self.next_index;
                let new_state = ChunkState::Uaf { reason: UafReason::InvalidFree };
                let alert = self.raise_alert(addr, UafReason::InvalidFree, timestamp_ns);
                let record = ChunkRecord {
                    index,
                    addr,
                    size: 0,
                    state: new_state,
                    alloc_stack: StackTrace::default(),
                    free_stack: Some(stack),
                    last_event_ns: timestamp_ns,
                    generation: 0,
                };
                proof {
                    lemma_locations_insert(old(self).chunks@, addr, record);
                }
                self.write_record(addr, None, record);
                self.next_index += 1;
                result.alert = Some(alert);
                result.chunk_index = Some(index);
            },
        }
        result
    }

    fn apply_realloc(&mut self, event: HeapEvent) -> (result: ApplyResult)
        requires
            old(self).wf(),
            event.aux_addr != 0 && event.size as usize == 0 ==> (!old(self)@.chunks.contains_key(
                event.aux_addr,
            ) ==> old(self).next_index < usize::MAX),
            !(event.aux_addr != 0 && event.size as usize == 0) && event.addr != 0 ==> old(
                self,
            ).next_index < usize::MAX,
        ensures
            final(self).wf(),
            (final(self)@, result) == old(self)@.after_realloc(event),
            event.aux_addr == 0 ==> (final(self)@, result) == old(self)@.after_alloc(
                event.addr,
                event.size as usize,
                stack_of(event),
                event.timestamp_ns,
            ),
            event.aux_addr != 0 && event.size as usize == 0 ==> (final(self)@, result) == old(
                self,
            )@.after_free(event.aux_addr, stack_of(event), event.timestamp_ns),
    {
        let old_addr: u64 = event.aux_addr;
        let new_addr: u64 = event.addr;
        let size: usize = event.size as usize;
        let stack = StackTrace::from_event(event);
        let timestamp_ns: u64 = event.timestamp_ns;
        if old_addr == 0 {
            return self.apply_alloc(new_addr, size, stack, timestamp_ns);
        }
        if size == 0 {
            return self.apply_free(old_addr, stack, timestamp_ns);
        }
        if new_addr == 0 {
            return ApplyResult::default();
        }
        let alert = self.release_for_realloc(old_addr, stack, timestamp_ns);
        let mut result = self.apply_alloc(new_addr, size, stack, timestamp_ns);
        result.alert = alert;
        result
    }

    /// Releases the old block of a reallocation.
    fn release_for_realloc(&mut self, addr: u64, stack: StackTrace, timestamp_ns: u64) -> (alert:
        Option<OracleAlert>)
        requires
            old(self).wf(),
            addr != 0,
        ensures
            final(self).wf(),
            (final(self)@, alert) == old(self)@.after_release(addr, stack, timestamp_ns),
    {
        proof {
            model::lemma_release_wf(self@, addr, stack, timestamp_ns);
            self.lemma_place_known(addr);
        }
        self.remove_from_bins(addr);
        let found: Option<ChunkState> = match self.chunks.get(&addr) {
            Some(record) => Some(record.state),
            None => None,
        };
        match found {
            Some(ChunkState::Allocated) => {
                let new_state = ChunkState::Freed { bin: BinType::Reallocated };
                proof {
                    lemma_locations_insert(
                        old(self).chunks@,
                        addr,
                        model::released(self.chunks@[addr], new_state, stack, timestamp_ns),
                    );
                }
                self.release_record(addr, new_state, stack, timestamp_ns);
                None
            },
            Some(_) => {
                let new_state = ChunkState::Uaf { reason: UafReason::ReallocOfFreed };
                proof {
                    lemma_locations_insert(
                        old(self).chunks@,
                        addr,
                        model::released(self.chunks@[addr], new_state, stack, timestamp_ns),
                    );
                }
                let alert = self.raise_alert(addr, UafReason::ReallocOfFreed, timestamp_ns);
                self.release_record(addr, new_state, stack, timestamp_ns);
                Some(alert)
            },
            None => {
                assert(self.caches.bin_index@ =~= old(self).caches.bin_index@);
                None
            },
        }
    }

    /// Takes `addr` out of the bin list that holds it, if one does.
    fn remove_from_bins(&mut self, addr: u64)
        requires
            old(self).place_known(addr),
        ensures
            final(self)@ == old(self)@.unbinned(addr),
            final(self).caches.counts == old(self).caches.counts,
            final(self).caches.bin_index@ == old(self).caches.bin_index@.remove(addr),
    {
        let ghost before = self@;
        match self.caches.bin_index.remove(&addr) {
            None => {
                proof {
                    model::lemma_unbinned_absent(before, addr);
                    assert(self.caches.bin_index@ =~= old(self).caches.bin_index@.remove(addr));
                }
            },
            Some(BinLocation::Tcache(idx)) => {
                proof {
                    model::lemma_unbinned_tcache(before, addr, idx);
                }
                drop_entry(&mut self.tcache[idx], addr);
            },
            Some(BinLocation::Fastbin(idx)) => {
                proof {
                    model::lemma_unbinned_fastbin(before, addr, idx);
                }
                drop_entry(&mut self.fastbins[idx], addr);
            },
        }
    }

    /// Puts `addr` at the end of the list of `bin`, where it has one. An address that
    /// was in no list can be taken out again.
    fn push_bin(&mut self, addr: u64, bin: BinType)
        ensures
            final(self)@ == old(self)@.binned(addr, bin),
            final(self).caches.counts == old(self).caches.counts,
            final(self).caches.bin_index@ == match list_of(bin) {
                Some(location) => old(self).caches.bin_index@.insert(addr, location),
                None => old(self).caches.bin_index@,
            },
            old(self).is_unlisted(addr) && old(self).place_known(addr) ==> {
                &&& final(self).place_known(addr)
                &&& final(self)@.unbinned(addr) == old(self)@
            },
    {
        let ghost before = self@;
        proof {
            if self.is_unlisted(addr) {
                model::lemma_binned_unbinned(before, addr, bin);
            }
        }
        match bin {
            BinType::Tcache(idx) => {
                if idx < TCACHE_BINS {
                    self.tcache[idx].push(addr);
                    self.caches.bin_index.insert(addr, BinLocation::Tcache(idx));
                    assert(self@.tcache =~= before.binned(addr, bin).tcache);
                }
            },
            BinType::Fastbin(idx) => {
                if idx < FASTBIN_BINS {
                    self.fastbins[idx].push(addr);
                    self.caches.bin_index.insert(addr, BinLocation::Fastbin(idx));
                    assert(self@.fastbins =~= before.binned(addr, bin).fastbins);
                }
            },
            _ => {},
        }
    }

    /// Records an alert and drops the oldest beyond the limit.
    fn raise_alert(&mut self, addr: u64, reason: UafReason, timestamp_ns: u64) -> (alert:
        OracleAlert)
        ensures
            alert == (OracleAlert { addr, reason, timestamp_ns }),
            final(self)@ == old(self)@.with_alert(alert),
            final(self).caches.counts == old(self).caches.counts,
            final(self).caches.bin_index == old(self).caches.bin_index,
    {
        let alert = OracleAlert { addr, reason, timestamp_ns };
        self.alerts.push(alert);
        let ghost all = self.alerts@;
        if self.alerts.len() > ALERT_LIMIT {
            let keep_from: usize = self.alerts.len() - ALERT_LIMIT;
            let kept = self.alerts.split_off(keep_from);
            self.alerts = kept;
            assert(self.alerts@ =~= all.skip(keep_from as int));
        }
        alert
    }

    /// The bin that a chunk freed now goes to.
    fn classify_free_bin(&self, size: usize) -> (bin: BinType)
        ensures
            bin == self@.bin_for(size),
    {
        let chunk_size: usize = glibc_chunk_size(size);
        proof {
            law_bin_indices(chunk_size as int);
        }
        if let Some(idx) = tcache_index(chunk_size) {
            if self.tcache[idx].len() < TCACHE_FILL_COUNT {
                return BinType::Tcache(idx);
            }
        }
        if let Some(idx) = fastbin_index(chunk_size) {
            return BinType::Fastbin(idx);
        }
        if chunk_size <= 0x400 {
            return BinType::Smallbin((chunk_size - 0x20) / 0x10);
        }
        BinType::Largebin
    }
}

} // verus!
