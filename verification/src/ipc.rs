//! Heap events and the ring buffer that carries them.
//!
//! The tracing hook writes events into a ring in shared memory; the monitor
//! reads them out. This module holds the event format, the ring's header, the
//! arithmetic of positions and slots, and the decisions taken while the shared
//! memory is being set up. The memory itself is touched elsewhere.

use vstd::prelude::*;

use crate::text;

verus! {

/// The word every ring header starts with.
pub const MAGIC: u32 = 0x484f5243;

/// The version of the ring's layout.
pub const VERSION: u32 = 1;

/// How many return addresses an event carries.
pub const STACK_DEPTH: usize = 8;

/// How many events the ring holds.
pub const RING_CAPACITY: usize = 4096;

/// The size of one event in the ring, in bytes.
pub const EVENT_SIZE: usize = 120;

/// The size of the ring's header, in bytes.
pub const HEADER_SIZE: usize = 40;

/// What a heap event reports.
#[derive(Clone, Copy, Debug, PartialEq, Eq, Structural)]
pub enum EventKind {
    Invalid,
    Alloc,
    Free,
    Realloc,
    Memalign,
    Calloc,
}

/// The kind that a raw number in the ring stands for.
pub open spec fn kind_of(raw: u16) -> EventKind {
    if raw == 1 {
        EventKind::Alloc
    } else if raw == 2 {
        EventKind::Free
    } else if raw == 3 {
        EventKind::Realloc
    } else if raw == 4 {
        EventKind::Memalign
    } else if raw == 5 {
        EventKind::Calloc
    } else {
        EventKind::Invalid
    }
}

/// The number of a kind in the ring.
pub open spec fn raw_of(kind: EventKind) -> u16 {
    match kind {
        EventKind::Invalid => 0,
        EventKind::Alloc => 1,
        EventKind::Free => 2,
        EventKind::Realloc => 3,
        EventKind::Memalign => 4,
        EventKind::Calloc => 5,
    }
}

/// The name of the libc call behind a kind.
pub open spec fn kind_text(kind: EventKind) -> Seq<char> {
    match kind {
        EventKind::Invalid => "invalid"@,
        EventKind::Alloc => "malloc"@,
        EventKind::Free => "free"@,
        EventKind::Realloc => "realloc"@,
        EventKind::Memalign => "memalign"@,
        EventKind::Calloc => "calloc"@,
    }
}

impl EventKind {
    pub fn from_raw(raw: u16) -> (kind: Self)
        ensures
            kind == kind_of(raw),
    {
        match raw {
            1 => EventKind::Alloc,
            2 => EventKind::Free,
            3 => EventKind::Realloc,
            4 => EventKind::Memalign,
            5 => EventKind::Calloc,
            _ => EventKind::Invalid,
        }
    }

    pub fn as_str(self) -> (s: &'static str)
        ensures
            s@ == kind_text(self),
    {
        match self {
            EventKind::Invalid => "invalid",
            EventKind::Alloc => "malloc",
            EventKind::Free => "free",
            EventKind::Realloc => "realloc",
            EventKind::Memalign => "memalign",
            EventKind::Calloc => "calloc",
        }
    }
}

/// Every kind is read back from its own number, and every number outside those
/// five reads as `Invalid`.
pub proof fn law_kind_round_trip(kind: EventKind, raw: u16)
    ensures
        kind_of(raw_of(kind)) == kind,
        raw_of(kind_of(raw)) == if 1 <= raw <= 5 {
            raw
        } else {
            0u16
        },
{
}

/// One event as the hook records it.
#[derive(Clone, Copy, Default)]
pub struct HeapEvent {
    pub kind: u16,
    pub flags: u16,
    pub pid: u32,
    pub tid: u32,
    pub stack_len: u32,
    pub timestamp_ns: u64,
    pub addr: u64,
    pub aux_addr: u64,
    pub size: u64,
    pub aux_size: u64,
    pub callstack: [u64; STACK_DEPTH],
}

/// The name of a kind's variant.
pub open spec fn kind_variant(kind: EventKind) -> Seq<char> {
    match kind {
        EventKind::Invalid => "Invalid"@,
        EventKind::Alloc => "Alloc"@,
        EventKind::Free => "Free"@,
        EventKind::Realloc => "Realloc"@,
        EventKind::Memalign => "Memalign"@,
        EventKind::Calloc => "Calloc"@,
    }
}

/// The one-line form of an event for debugging output: addresses in hexadecimal,
/// the other numbers in decimal, without the call stack.
pub open spec fn event_debug(e: HeapEvent) -> Seq<char> {
    "HeapEvent { kind: "@ + kind_variant(kind_of(e.kind)) + ", pid: "@ + text::dec(e.pid as nat)
        + ", tid: "@ + text::dec(e.tid as nat) + ", timestamp_ns: "@ + text::dec(e.timestamp_ns as nat)
        + ", addr: "@ + text::hex0x(e.addr as nat) + ", aux_addr: "@ + text::hex0x(e.aux_addr as nat)
        + ", size: "@ + text::dec(e.size as nat) + ", aux_size: "@ + text::dec(e.aux_size as nat) + " }"@
}

impl HeapEvent {
    pub fn kind(self) -> (kind: EventKind)
        ensures
            kind == kind_of(self.kind),
    {
        EventKind::from_raw(self.kind)
    }

    pub fn stack(self) -> (frames: [u64; STACK_DEPTH])
        ensures
            frames == self.callstack,
    {
        self.callstack
    }

    /// The event on one line, for debugging output.
    pub fn debug_text(&self) -> (s: String)
        ensures
            s@ == event_debug(*self),
    {
        let mut out = "HeapEvent { kind: ".to_owned();
        let variant: &str = match EventKind::from_raw(self.kind) {
            EventKind::Invalid => "Invalid",
            EventKind::Alloc => "Alloc",
            EventKind::Free => "Free",
            EventKind::Realloc => "Realloc",
            EventKind::Memalign => "Memalign",
            EventKind::Calloc => "Calloc",
        };
        out.append(variant);
        out.append(", pid: ");
        text::push_dec(&mut out, self.pid as u64);
        out.append(", tid: ");
        text::push_dec(&mut out, self.tid as u64);
        out.append(", timestamp_ns: ");
        text::push_dec(&mut out, self.timestamp_ns);
        out.append(", addr: ");
        text::push_hex0x(&mut out, self.addr);
        out.append(", aux_addr: ");
        text::push_hex0x(&mut out, self.aux_addr);
        out.append(", size: ");
        text::push_dec(&mut out, self.size);
        out.append(", aux_size: ");
        text::push_dec(&mut out, self.aux_size);
        out.append(" }");
        out
    }
}

/// The values of the ring's header.
///
/// Positions count events from the start of the session: the writer has written
/// everything below `head`, the reader has read everything below `tail`.
#[derive(Clone, Copy, Debug)]
pub struct RingHeader {
    pub magic: u32,
    pub version: u32,
    pub capacity: u32,
    pub event_size: u32,
    pub head: u64,
    pub tail: u64,
    pub dropped: u64,
}

/// What is wrong with a header, if anything: the first field that does not match.
pub open spec fn header_fault(h: RingHeader) -> Option<Seq<char>> {
    if h.magic != MAGIC {
        Some(
            "shared memory magic mismatch: expected "@ + text::hex0x(MAGIC as nat) + ", got "@ + text::hex0x(
                h.magic as nat,
            ),
        )
    } else if h.version != VERSION {
        Some(
            "shared memory version mismatch: expected "@ + text::dec(VERSION as nat) + ", got "@ + text::dec(
                h.version as nat,
            ),
        )
    } else if h.capacity != RING_CAPACITY {
        Some(
            "shared memory capacity mismatch: expected "@ + text::dec(RING_CAPACITY as nat) + ", got "@
                + text::dec(h.capacity as nat),
        )
    } else if h.event_size != EVENT_SIZE {
        Some(
            "shared memory event size mismatch: expected "@ + text::dec(EVENT_SIZE as nat) + ", got "@
                + text::dec(h.event_size as nat),
        )
    } else {
        None
    }
}

/// The message for one header field that does not match, with decimal numbers.
fn mismatch(prefix: &str, expected: u64, got: u64) -> (s: String)
    ensures
        s@ == prefix@ + text::dec(expected as nat) + ", got "@ + text::dec(got as nat),
{
    let mut out = prefix.to_owned();
    text::push_dec(&mut out, expected);
    out.append(", got ");
    text::push_dec(&mut out, got);
    out
}

impl RingHeader {
    /// The header of a ring that nothing has been written to.
    pub fn fresh() -> (h: Self)
        ensures
            h.magic == MAGIC,
            h.version == VERSION,
            h.capacity == RING_CAPACITY,
            h.event_size == EVENT_SIZE,
            h.head == 0,
            h.tail == 0,
            h.dropped == 0,
            header_fault(h) is None,
    {
        RingHeader {
            magic: MAGIC,
            version: VERSION,
            capacity: RING_CAPACITY as u32,
            event_size: EVENT_SIZE as u32,
            head: 0,
            tail: 0,
            dropped: 0,
        }
    }

    /// Checks that the ring has the layout this monitor reads.
    pub fn validate(&self) -> (r: Result<(), String>)
        ensures
            r is Ok <==> header_fault(*self) is None,
            r matches Err(message) ==> header_fault(*self) == Some(message@),
    {
        if self.magic != MAGIC {
            let mut out = "shared memory magic mismatch: expected ".to_owned();
            text::push_hex0x(&mut out, MAGIC as u64);
            out.append(", got ");
            text::push_hex0x(&mut out, self.magic as u64);
            return Err(out);
        }
        if self.version != VERSION {
            return Err(
                mismatch(
                    "shared memory version mismatch: expected ",
                    VERSION as u64,
                    self.version as u64,
                ),
            );
        }
        if self.capacity as usize != RING_CAPACITY {
            return Err(
                mismatch(
                    "shared memory capacity mismatch: expected ",
                    RING_CAPACITY as u64,
                    self.capacity as u64,
                ),
            );
        }
        if self.event_size as usize != EVENT_SIZE {
            return Err(
                mismatch(
                    "shared memory event size mismatch: expected ",
                    EVENT_SIZE as u64,
                    self.event_size as u64,
                ),
            );
        }
        Ok(())
    }

    /// The positions and the count of lost events.
    pub fn stats(&self) -> (s: RingStats)
        ensures
            s == (RingStats { head: self.head, tail: self.tail, dropped: self.dropped }),
    {
        RingStats { head: self.head, tail: self.tail, dropped: self.dropped }
    }
}

/// A header passes validation exactly when its four layout fields are the ones
/// this monitor writes; the positions do not matter.
pub proof fn law_header_valid(h: RingHeader)
    ensures
        header_fault(h) is None <==> {
            &&& h.magic == MAGIC
            &&& h.version == VERSION
            &&& h.capacity == RING_CAPACITY
            &&& h.event_size == EVENT_SIZE
        },
{
}

/// The positions of a ring and its count of lost events.
#[derive(Clone, Copy, Debug, Default)]
pub struct RingStats {
    pub head: u64,
    pub tail: u64,
    pub dropped: u64,
}

/// How many events are written and not yet read.
pub open spec fn pending_of(s: RingStats) -> nat {
    if s.tail < s.head {
        (s.head - s.tail) as nat
    } else {
        0
    }
}

impl RingStats {
    pub fn pending(self) -> (n: u64)
        ensures
            n == pending_of(self),
    {
        self.head.saturating_sub(self.tail)
    }
}

/// How many events one read takes: what lies between the positions, at most
/// `limit`. A tail beyond the head never meets it, so the read is then full.
pub open spec fn batch_len(head: u64, tail: u64, limit: usize) -> nat {
    if tail <= head && head - tail <= limit {
        (head - tail) as nat
    } else {
        limit as nat
    }
}

/// The slot of a position.
pub open spec fn slot_of(position: int) -> usize {
    (position % RING_CAPACITY as int) as usize
}

/// The slots one read takes, in order.
pub open spec fn batch_slots(head: u64, tail: u64, limit: usize) -> Seq<usize> {
    Seq::new(batch_len(head, tail, limit), |i: int| slot_of(tail + i))
}

/// The events in these slots of a ring, in order.
pub open spec fn events_at(ring: Seq<HeapEvent>, slots: Seq<usize>) -> Seq<HeapEvent> {
    slots.map_values(|slot: usize| ring[slot as int])
}

/// What one read of the ring does: the slots to copy out, in order, and the
/// reader's position afterwards.
pub struct BatchPlan {
    pub slots: Vec<usize>,
    pub tail: u64,
}

/// Plans the read of at most `limit` events.
///
/// A tail beyond the head is read on up to the limit, which must not carry it
/// past the last position there is.
pub fn plan_batch(head: u64, tail: u64, limit: usize) -> (plan: BatchPlan)
    requires
        tail <= head || tail + limit <= u64::MAX,
    ensures
        plan.slots@ == batch_slots(head, tail, limit),
        plan.tail == tail + batch_len(head, tail, limit),
{
    let mut slots: Vec<usize> = Vec::new();
    let mut next: u64 = tail;
    while next != head && slots.len() < limit
        invariant
            tail <= head || tail + limit <= u64::MAX,
            tail <= head ==> next <= head,
            next == tail + slots@.len(),
            slots@.len() <= limit,
            forall|i: int| 0 <= i < slots@.len() ==> slots@[i] == slot_of(tail + i),
        decreases limit - slots@.len(),
    {
        let slot: usize = (next % RING_CAPACITY as u64) as usize;
        slots.push(slot);
        next += 1;
    }
    assert(slots@ =~= batch_slots(head, tail, limit));
    BatchPlan { slots, tail: next }
}

/// Reading `first` events and then `second` more takes the slots that one read
/// of both limits together takes, in the same order, and ends at the same position.
pub proof fn law_batches_compose(head: u64, tail: u64, first: usize, second: usize)
    requires
        tail <= head,
        first + second <= usize::MAX,
    ensures
        ({
            let middle = (tail + batch_len(head, tail, first)) as u64;
            let both = (first + second) as usize;
            &&& middle <= head
            &&& batch_slots(head, tail, first) + batch_slots(head, middle, second) == batch_slots(
                head,
                tail,
                both,
            )
            &&& middle + batch_len(head, middle, second) == tail + batch_len(head, tail, both)
        }),
{
    let middle = (tail + batch_len(head, tail, first)) as u64;
    let both = (first + second) as usize;
    assert(batch_slots(head, tail, first) + batch_slots(head, middle, second) =~= batch_slots(
        head,
        tail,
        both,
    ));
}

/// The slots of the ring are taken in turn: the first positions have their own numbers
/// as slots, and the ring starts again every 4096 positions.
pub proof fn law_slots_in_turn(position: int)
    requires
        0 <= position,
    ensures
        position < 4096 ==> slot_of(position) == position,
        slot_of(position + 4096) == slot_of(position),
        slot_of(position) < 4096,
{
}

/// A read takes the events from the tail on, one after another, as many as are there up
/// to the limit, and as many as the limit where the tail is beyond the head.
pub proof fn law_read_takes(head: u64, tail: u64, limit: usize)
    ensures
        ({
            let slots = batch_slots(head, tail, limit);
            &&& slots.len() == batch_len(head, tail, limit)
            &&& slots.len() <= limit
            &&& tail <= head ==> slots.len() <= head - tail
            &&& tail <= head && slots.len() < limit ==> slots.len() == head - tail
            &&& tail > head ==> slots.len() == limit
            &&& slots.len() > 0 ==> slots[0] == slot_of(tail as int)
            &&& forall|i: int|
                0 <= i < slots.len() ==> #[trigger] slots[i] == slot_of(tail + i)
            &&& tail <= head ==> pending_of(RingStats { head, tail, dropped: 0 }) == head - tail
            &&& tail > head ==> pending_of(RingStats { head, tail, dropped: 0 }) == 0
        }),
{
}

/// Events are read in the order of their positions, none is skipped, and a read
/// takes no slot twice while it asks for no more than the ring holds.
pub proof fn law_batch_slots_distinct(head: u64, tail: u64, limit: usize)
    requires
        limit <= RING_CAPACITY,
    ensures
        batch_slots(head, tail, limit).no_duplicates(),
        forall|i: int|
            0 <= i < batch_len(head, tail, limit) ==> #[trigger] batch_slots(head, tail, limit)[i]
                < RING_CAPACITY,
{
    let slots = batch_slots(head, tail, limit);
    assert forall|i: int, j: int|
        0 <= i < slots.len() && 0 <= j < slots.len() && i != j implies slots[i] != slots[j] by {
        assert(slots[i] as int == (tail + i) % 4096);
        assert(slots[j] as int == (tail + j) % 4096);
    }
}

/// A read that comes back shorter than its limit leaves nothing pending, and any
/// read takes exactly what it returns off the pending count.
pub proof fn law_read_drains_pending(head: u64, tail: u64, dropped: u64, limit: usize)
    requires
        tail <= head,
    ensures
        ({
            let taken = batch_len(head, tail, limit);
            let after = RingStats { head, tail: (tail + taken) as u64, dropped };
            &&& pending_of(after) == pending_of(RingStats { head, tail, dropped }) - taken
            &&& taken < limit ==> pending_of(after) == 0
        }),
{
}

/// The bytes a ring of `capacity` events takes.
pub open spec fn ring_bytes(capacity: nat) -> nat {
    (HEADER_SIZE + capacity * EVENT_SIZE) as nat
}

/// A ring takes its header and the same room again for every event.
pub proof fn law_ring_bytes(capacity: nat)
    ensures
        ring_bytes(0) == HEADER_SIZE,
        ring_bytes(capacity + 1) == ring_bytes(capacity) + EVENT_SIZE,
{
    assert((capacity + 1) * 120 == capacity * 120 + 120);
}

pub fn ring_len(capacity: usize) -> (len: usize)
    requires
        HEADER_SIZE + capacity * EVENT_SIZE <= usize::MAX,
    ensures
        len == HEADER_SIZE + capacity * EVENT_SIZE,
        len == ring_bytes(capacity as nat),
{
    HEADER_SIZE + capacity * EVENT_SIZE
}

/// A shared memory name as the system wants it: with one leading slash.
pub open spec fn normalized(name: Seq<char>) -> Seq<char> {
    if name.len() > 0 && name[0] == '/' {
        name
    } else {
        "/"@ + name
    }
}

pub fn normalize_shm_name(name: &str) -> (s: String)
    ensures
        s@ == normalized(name@),
{
    if name.unicode_len() > 0 && name.get_char(0) == '/' {
        name.to_owned()
    } else {
        let mut out = "/".to_owned();
        out.append(name);
        out
    }
}

/// Normalizing puts a slash in front, keeps the rest of the name, and changes
/// nothing when it is done again.
pub proof fn law_normalized(name: Seq<char>)
    ensures
        normalized(name).len() > 0,
        normalized(name)[0] == '/',
        normalized(normalized(name)) == normalized(name),
        normalized(name) == name || normalized(name).skip(1) == name,
        normalized(name) == name <==> name.len() > 0 && name[0] == '/',
{
    reveal_strlit("/");
    assert(("/"@ + name).skip(1) =~= name);
}

/// The path under which the shared memory is opened, or `None` where the name
/// holds a NUL character and no such path exists.
pub open spec fn path_of(name: Seq<char>) -> Option<Seq<char>> {
    if name.contains('\0') {
        None
    } else {
        Some(normalized(name))
    }
}

/// A name has a path exactly if none of its characters is NUL, and the path has none
/// either; it starts with a slash, ends in the name, and is a name with that same path.
pub proof fn law_path(name: Seq<char>)
    ensures
        path_of(name) is None <==> exists|i: int| 0 <= i < name.len() && #[trigger] name[i] == '\0',
        path_of(name) matches Some(path) ==> {
            &&& path.len() > 0 && path[0] == '/'
            &&& name.is_suffix_of(path)
            &&& path_of(path) == Some(path)
            &&& forall|i: int| 0 <= i < path.len() ==> #[trigger] path[i] != '\0'
        },
{
    law_normalized(name);
    reveal_strlit("/");
    if let Some(path) = path_of(name) {
        assert(path.subrange(path.len() - name.len(), path.len() as int) =~= name);
        assert forall|i: int| 0 <= i < path.len() implies #[trigger] path[i] != '\0' by {
            if path.len() == name.len() {
                assert(name.contains(name[i]));
            } else if i > 0 {
                assert(path[i] == name[i - 1]);
                assert(name.contains(name[i - 1]));
            }
        }
    }
    assert forall|i: int| 0 <= i < name.len() && #[trigger] name[i]
        == '\0' implies name.contains('\0') by {}
}

pub fn shm_path(name: &str) -> (path: Option<String>)
    ensures
        path is Some <==> path_of(name@) is Some,
        path matches Some(s) ==> path_of(name@) == Some(s@),
        path is Some <==> !name@.contains('\0'),
        path matches Some(s) ==> s@ == normalized(name@),
{
    for c in chars: name.chars()
        invariant
            chars.seq() == name@,
            forall|i: int| 0 <= i < chars.index() ==> name@[i] != '\0',
    {
        if c == '\0' {
            assert(name@[chars.index() as int] == '\0');
            return None;
        }
    }
    Some(normalize_shm_name(name))
}

/// The message for a name with a NUL character, which is given quoted.
pub fn nul_name_error(quoted: &str) -> (s: String)
    ensures
        s@ == "shared memory name contains NUL byte: "@ + quoted@,
{
    let mut out = "shared memory name contains NUL byte: ".to_owned();
    out.append(quoted);
    out
}

/// The message for a system call that failed.
pub fn os_failure(op: &str, error: &str) -> (s: String)
    ensures
        s@ == op@ + " failed: "@ + error@,
{
    let mut out = op.to_owned();
    out.append(" failed: ");
    out.append(error);
    out
}

/// A system call of the shared memory setup.
#[derive(Clone, Copy, Debug, PartialEq, Eq, Structural)]
pub enum SetupCall {
    OpenName,
    Resize,
    MapMemory,
}

/// What to do once a system call of the setup has returned.
#[derive(Clone, Copy, Debug, PartialEq, Eq, Structural)]
pub enum SetupStep {
    /// Make this call next.
    Call(SetupCall),
    /// Close the descriptor; the mapping stands. `format` says whether its
    /// contents are still to be written.
    Ready { format: bool },
    /// Give up and report the call. `close` says whether a descriptor is open,
    /// `unlink` whether the name is to be removed.
    Fail { call: SetupCall, close: bool, unlink: bool },
}

/// The step after `call`, which succeeded or not, in a setup that creates the
/// ring or attaches to one.
pub open spec fn setup_step(call: SetupCall, succeeded: bool, create: bool) -> SetupStep {
    match (call, succeeded) {
        (SetupCall::OpenName, true) => SetupStep::Call(
            if create {
                SetupCall::Resize
            } else {
                SetupCall::MapMemory
            },
        ),
        (SetupCall::OpenName, false) => SetupStep::Fail { call, close: false, unlink: false },
        (SetupCall::Resize, true) => SetupStep::Call(SetupCall::MapMemory),
        (SetupCall::Resize, false) => SetupStep::Fail { call, close: true, unlink: true },
        (SetupCall::MapMemory, true) => SetupStep::Ready { format: create },
        (SetupCall::MapMemory, false) => SetupStep::Fail { call, close: true, unlink: create },
    }
}

pub fn next_setup_step(call: SetupCall, succeeded: bool, create: bool) -> (step: SetupStep)
    ensures
        step == setup_step(call, succeeded, create),
{
    match call {
        SetupCall::OpenName => {
            if !succeeded {
                SetupStep::Fail { call, close: false, unlink: false }
            } else if create {
                SetupStep::Call(SetupCall::Resize)
            } else {
                SetupStep::Call(SetupCall::MapMemory)
            }
        },
        SetupCall::Resize => {
            if !succeeded {
                SetupStep::Fail { call, close: true, unlink: true }
            } else {
                SetupStep::Call(SetupCall::MapMemory)
            }
        },
        SetupCall::MapMemory => {
            if !succeeded {
                SetupStep::Fail { call, close: true, unlink: create }
            } else {
                SetupStep::Ready { format: create }
            }
        },
    }
}

/// The name of a setup call in messages.
pub open spec fn setup_call_text(call: SetupCall) -> Seq<char> {
    match call {
        SetupCall::OpenName => "shm_open"@,
        SetupCall::Resize => "ftruncate"@,
        SetupCall::MapMemory => "mmap"@,
    }
}

impl SetupCall {
    pub fn as_str(self) -> (s: &'static str)
        ensures
            s@ == setup_call_text(self),
    {
        match self {
            SetupCall::OpenName => "shm_open",
            SetupCall::Resize => "ftruncate",
            SetupCall::MapMemory => "mmap",
        }
    }
}

/// A setup that gives up reports the call that failed; it closes the descriptor
/// exactly when the name was open, and then removes the name exactly when it
/// created it. Only a creating setup resizes.
pub proof fn law_failed_setup_releases(call: SetupCall, create: bool)
    requires
        call == SetupCall::Resize ==> create,
    ensures
        setup_step(call, false, create) matches SetupStep::Fail {
            call: reported,
            close,
            unlink,
        } && reported == call && close == (call != SetupCall::OpenName) && unlink == (close
            && create),
{
}

} // verus!
