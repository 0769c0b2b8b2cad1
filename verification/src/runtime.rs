//! The monitor at work: its counters, the reader's next move, the wait for the last
//! events, and what is said of a target that has exited.

use vstd::prelude::*;

use crate::text;

verus! {

/// How many events the reader takes from the ring at once.
pub const READER_BATCH_SIZE: usize = 128;

/// How long the reader sleeps when there is nothing to read, in milliseconds.
pub const READER_IDLE_MS: u64 = 8;

/// How often the wait for the last events looks at the counters at most.
pub const DRAIN_ROUNDS: usize = 50;

/// How many quiet looks in a row end the wait.
pub const DRAIN_QUIET: usize = 3;

/// How long the wait sleeps between two looks, in milliseconds.
pub const DRAIN_SLEEP_MS: u64 = 20;

/// The counters of a running monitor.
#[derive(Clone, Copy, Debug)]
pub struct RuntimeStats {
    pub consumed: u64,
    pub pending: u64,
    pub dropped: u64,
    pub target_exited: bool,
    pub target_status: i32,
}

/// The counters at one moment.
#[derive(Clone, Copy, Debug, Default)]
pub struct RuntimeSnapshot {
    pub consumed: u64,
    pub pending: u64,
    pub dropped: u64,
    pub target_exited: bool,
    pub target_status: i32,
}

impl Default for RuntimeStats {
    fn default() -> (stats: Self)
        ensures
            stats == (RuntimeStats {
                consumed: 0,
                pending: 0,
                dropped: 0,
                target_exited: false,
                target_status: 0,
            }),
    {
        RuntimeStats { consumed: 0, pending: 0, dropped: 0, target_exited: false, target_status: 0 }
    }
}

/// The sum of two counts, which starts again at zero beyond the largest.
pub open spec fn wrapped_sum(a: u64, b: u64) -> u64 {
    if a + b <= u64::MAX {
        (a + b) as u64
    } else {
        (a + b - u64::MAX - 1) as u64
    }
}

/// The counters once a new state of the ring is known.
pub open spec fn after_ring(stats: RuntimeStats, pending: u64, dropped: u64) -> RuntimeStats {
    RuntimeStats { pending, dropped, ..stats }
}

/// The counters once the target has exited.
pub open spec fn after_exit(stats: RuntimeStats, status: i32) -> RuntimeStats {
    RuntimeStats { target_exited: true, target_status: status, ..stats }
}

/// The counters once more events were consumed.
pub open spec fn after_consumed(stats: RuntimeStats, count: usize) -> RuntimeStats {
    RuntimeStats { consumed: wrapped_sum(stats.consumed, count as u64), ..stats }
}

/// What a look at the counters shows.
pub open spec fn seen(stats: RuntimeStats) -> RuntimeSnapshot {
    RuntimeSnapshot {
        consumed: stats.consumed,
        pending: stats.pending,
        dropped: stats.dropped,
        target_exited: stats.target_exited,
        target_status: stats.target_status,
    }
}

/// A look shows the last state of the ring and the last exit, whatever came before,
/// and all events that were consumed; none of the three touches the others.
pub proof fn law_counters(
    stats: RuntimeStats,
    pending: u64,
    dropped: u64,
    status: i32,
    count: usize,
    more: usize,
)
    requires
        count + more <= usize::MAX,
    ensures
        ({
            let ring = seen(after_ring(stats, pending, dropped));
            &&& ring.pending == pending && ring.dropped == dropped
            &&& ring.consumed == stats.consumed && ring.target_exited == stats.target_exited
                && ring.target_status == stats.target_status
        }),
        ({
            let exit = seen(after_exit(stats, status));
            &&& exit.target_exited && exit.target_status == status
            &&& exit.consumed == stats.consumed && exit.pending == stats.pending && exit.dropped
                == stats.dropped
        }),
        ({
            let fed = seen(after_consumed(stats, count));
            &&& (fed.consumed - stats.consumed - count) % 0x1_0000_0000_0000_0000 == 0
            &&& fed.pending == stats.pending && fed.dropped == stats.dropped && fed.target_exited
                == stats.target_exited && fed.target_status == stats.target_status
        }),
        after_consumed(after_consumed(stats, count), more) == after_consumed(
            stats,
            (count + more) as usize,
        ),
{
}

impl RuntimeStats {
    pub fn snapshot(&self) -> (snap: RuntimeSnapshot)
        ensures
            snap == (RuntimeSnapshot {
                consumed: self.consumed,
                pending: self.pending,
                dropped: self.dropped,
                target_exited: self.target_exited,
                target_status: self.target_status,
            }),
            snap == seen(*self),
    {
        RuntimeSnapshot {
            consumed: self.consumed,
            pending: self.pending,
            dropped: self.dropped,
            target_exited: self.target_exited,
            target_status: self.target_status,
        }
    }

    pub fn update_ring(&mut self, pending: u64, dropped: u64)
        ensures
            *final(self) == (RuntimeStats { pending, dropped, ..*old(self) }),
            *final(self) == after_ring(*old(self), pending, dropped),
    {
        self.pending = pending;
        self.dropped = dropped;
    }

    pub fn mark_target_exit(&mut self, status: i32)
        ensures
            *final(self) == (RuntimeStats {
                target_exited: true,
                target_status: status,
                ..*old(self)
            }),
            *final(self) == after_exit(*old(self), status),
    {
        self.target_status = status;
        self.target_exited = true;
    }

    pub fn add_consumed(&mut self, count: usize)
        ensures
            *final(self) == (RuntimeStats {
                consumed: wrapped_sum(old(self).consumed, count as u64),
                ..*old(self)
            }),
            *final(self) == after_consumed(*old(self), count),
    {
        self.consumed = self.consumed.wrapping_add(count as u64);
    }
}

/// What the reader does once it has looked at the ring.
#[derive(Clone, Copy, Debug, PartialEq, Eq, Structural)]
pub enum ReaderStep {
    /// End.
    Stop,
    /// Sleep and look again.
    Idle,
    /// Apply the events that were read.
    Apply,
}

/// The reader's next move: events that were read are applied; with none read it
/// ends if it was asked to and nothing is pending, and sleeps otherwise.
pub open spec fn reader_move(count: nat, pending: nat, stop: bool) -> ReaderStep {
    if count > 0 {
        ReaderStep::Apply
    } else if stop && pending == 0 {
        ReaderStep::Stop
    } else {
        ReaderStep::Idle
    }
}

pub fn reader_step(count: usize, pending: u64, stop: bool) -> (step: ReaderStep)
    ensures
        step == reader_move(count as nat, pending as nat, stop),
{
    if count == 0 {
        if stop && pending == 0 {
            ReaderStep::Stop
        } else {
            ReaderStep::Idle
        }
    } else {
        ReaderStep::Apply
    }
}

/// The wait for the last events of a target that has exited.
#[derive(Clone, Copy, Debug)]
pub struct Drain {
    pub rounds: usize,
    pub quiet: usize,
    pub last_consumed: u64,
}

/// What the wait does after a look at the counters.
#[derive(Clone, Copy, Debug, PartialEq, Eq, Structural)]
pub enum DrainStep {
    Sleep,
    Done,
}

/// Whether a look shows nothing pending and nothing consumed since the last one.
pub open spec fn is_quiet(drain: Drain, snap: RuntimeSnapshot) -> bool {
    snap.pending == 0 && snap.consumed == drain.last_consumed
}

/// One look at the counters. The wait is over when its rounds are used up or when
/// enough looks in a row were quiet.
pub open spec fn drain_step(drain: Drain, snap: RuntimeSnapshot) -> (Drain, DrainStep) {
    if drain.rounds >= DRAIN_ROUNDS {
        (drain, DrainStep::Done)
    } else {
        let quiet: int = if is_quiet(drain, snap) {
            drain.quiet + 1
        } else {
            0
        };
        if quiet >= DRAIN_QUIET {
            (Drain { quiet: quiet as usize, ..drain }, DrainStep::Done)
        } else {
            (
                Drain {
                    rounds: (drain.rounds + 1) as usize,
                    quiet: quiet as usize,
                    last_consumed: snap.consumed,
                },
                DrainStep::Sleep,
            )
        }
    }
}

impl Drain {
    pub fn start(snap: RuntimeSnapshot) -> (drain: Self)
        ensures
            drain == (Drain { rounds: 0, quiet: 0, last_consumed: snap.consumed }),
    {
        Drain { rounds: 0, quiet: 0, last_consumed: snap.consumed }
    }

    pub fn step(&mut self, snap: RuntimeSnapshot) -> (step: DrainStep)
        requires
            old(self).quiet < usize::MAX,
        ensures
            (*final(self), step) == drain_step(*old(self), snap),
    {
        if self.rounds >= DRAIN_ROUNDS {
            return DrainStep::Done;
        }
        if snap.pending == 0 && snap.consumed == self.last_consumed {
            self.quiet += 1;
            if self.quiet >= DRAIN_QUIET {
                return DrainStep::Done;
            }
        } else {
            self.quiet = 0;
        }
        self.last_consumed = snap.consumed;
        self.rounds += 1;
        DrainStep::Sleep
    }
}

/// The state of a wait after looks that each ended in sleep, or `None` if one of
/// them ended the wait.
pub open spec fn drain_after(drain: Drain, snaps: Seq<RuntimeSnapshot>) -> Option<Drain>
    decreases snaps.len(),
{
    if snaps.len() == 0 {
        Some(drain)
    } else {
        match drain_after(drain, snaps.drop_last()) {
            Some(before) => match drain_step(before, snaps.last()) {
                (after, DrainStep::Sleep) => Some(after),
                (_, DrainStep::Done) => None,
            },
            None => None,
        }
    }
}

/// A wait sleeps at most fifty times, whatever it sees; while it lasts, it has slept
/// once for every look, and fewer than three looks in a row were quiet.
pub proof fn law_drain_ends(first: RuntimeSnapshot, snaps: Seq<RuntimeSnapshot>)
    ensures
        drain_after(
            Drain { rounds: 0, quiet: 0, last_consumed: first.consumed },
            snaps,
        ) matches Some(drain) ==> {
            &&& snaps.len() <= DRAIN_ROUNDS
            &&& drain.rounds == snaps.len()
            &&& drain.quiet < DRAIN_QUIET
        },
    decreases snaps.len(),
{
    if snaps.len() > 0 {
        law_drain_ends(first, snaps.drop_last());
    }
}

/// Three quiet looks in a row end a wait, and a look that is not quiet starts the
/// count again.
pub proof fn law_drain_quiet(
    drain: Drain,
    a: RuntimeSnapshot,
    b: RuntimeSnapshot,
    c: RuntimeSnapshot,
)
    requires
        drain.quiet < DRAIN_QUIET,
        drain.rounds < DRAIN_ROUNDS,
    ensures
        !is_quiet(drain, a) ==> drain_step(drain, a).0.quiet == 0 && drain_step(drain, a).1
            == DrainStep::Sleep,
        is_quiet(drain, a) && is_quiet(drain, b) && is_quiet(drain, c) ==> {
            ||| drain_step(drain, a).1 == DrainStep::Done
            ||| drain_step(drain_step(drain, a).0, b).1 == DrainStep::Done
            ||| drain_step(drain_step(drain_step(drain, a).0, b).0, c).1 == DrainStep::Done
        },
{
}

/// Whether the look at place `i` showed nothing pending and nothing consumed since the
/// look before it, or since the wait began.
pub open spec fn was_quiet(first: RuntimeSnapshot, snaps: Seq<RuntimeSnapshot>, i: int) -> bool {
    &&& snaps[i].pending == 0
    &&& snaps[i].consumed == if i == 0 {
        first.consumed
    } else {
        snaps[i - 1].consumed
    }
}

/// While a wait lasts it knows how many of the last looks were quiet.
proof fn lemma_drain_counts(first: RuntimeSnapshot, snaps: Seq<RuntimeSnapshot>)
    ensures
        drain_after(
            Drain { rounds: 0, quiet: 0, last_consumed: first.consumed },
            snaps,
        ) matches Some(drain) ==> {
            let n = snaps.len() as int;
            &&& drain.rounds == n
            &&& drain.quiet < 3
            &&& drain.quiet <= n
            &&& drain.last_consumed == if n == 0 {
                first.consumed
            } else {
                snaps[n - 1].consumed
            }
            &&& forall|i: int| n - drain.quiet <= i < n ==> #[trigger] was_quiet(first, snaps, i)
            &&& drain.quiet < n ==> !was_quiet(first, snaps, n - 1 - drain.quiet)
        },
    decreases snaps.len(),
{
    let start = Drain { rounds: 0, quiet: 0, last_consumed: first.consumed };
    if snaps.len() > 0 {
        let front = snaps.drop_last();
        lemma_drain_counts(first, front);
        assert forall|i: int| 0 <= i < front.len() implies #[trigger] was_quiet(first, snaps, i)
            == was_quiet(first, front, i) by {}
        if let Some(before) = drain_after(start, front) {
            let n = snaps.len() as int;
            assert(was_quiet(first, snaps, n - 1) <==> is_quiet(before, snaps.last()));
            if before.quiet < n - 1 {
                assert(!was_quiet(first, snaps, n - 2 - before.quiet));
            }
        }
    }
}

/// A wait that has lasted so far is over with the next look exactly if it has slept
/// fifty times or if that look and the two before it were quiet.
pub proof fn law_drain_done(first: RuntimeSnapshot, snaps: Seq<RuntimeSnapshot>)
    requires
        snaps.len() > 0,
        drain_after(
            Drain { rounds: 0, quiet: 0, last_consumed: first.consumed },
            snaps.drop_last(),
        ) is Some,
    ensures
        ({
            let start = Drain { rounds: 0, quiet: 0, last_consumed: first.consumed };
            let n = snaps.len() as int;
            drain_after(start, snaps) is None <==> n > 50 || n >= 3 && was_quiet(
                first,
                snaps,
                n - 1,
            ) && was_quiet(first, snaps, n - 2) && was_quiet(first, snaps, n - 3)
        }),
{
    let start = Drain { rounds: 0, quiet: 0, last_consumed: first.consumed };
    let front = snaps.drop_last();
    let n = snaps.len() as int;
    lemma_drain_counts(first, front);
    assert forall|i: int| 0 <= i < front.len() implies #[trigger] was_quiet(first, snaps, i)
        == was_quiet(first, front, i) by {}
    let before = drain_after(start, front)->0;
    assert(was_quiet(first, snaps, n - 1) <==> is_quiet(before, snaps.last()));
    if n >= 3 {
        assert(was_quiet(first, snaps, n - 2) == was_quiet(first, front, n - 2));
        assert(was_quiet(first, snaps, n - 3) == was_quiet(first, front, n - 3));
    }
}

/// The reader applies whatever it reads, never ends unasked, and never while something
/// is pending.
pub proof fn law_reader_moves(count: nat, pending: nat, stop: bool)
    ensures
        reader_move(count, pending, stop) == ReaderStep::Apply <==> count != 0,
        reader_move(count, pending, stop) == ReaderStep::Stop ==> stop && pending == 0,
        count == 0 && stop && pending == 0 ==> reader_move(count, pending, stop)
            == ReaderStep::Stop,
{
}

/// The count of consumed events is the sum modulo the size of the counter.
pub proof fn law_wrapped_sum(a: u64, b: u64)
    ensures
        wrapped_sum(a, b) as int == (a + b) % 0x1_0000_0000_0000_0000,
{
}

/// Only six signals are spelled out.
pub proof fn law_signal_names(signal: i32)
    ensures
        signal_name(signal) is Some <==> signal == 4 || signal == 6 || signal == 8 || signal == 9
            || signal == 11 || signal == 15,
{
}

/// The status that is reported for a target: its exit code, or -1 where a signal
/// ended it.
pub open spec fn status_of(code: Option<i32>) -> int {
    match code {
        Some(c) => c as int,
        None => -1,
    }
}

/// A target that ended by itself has the status it gave, and any other minus one.
pub proof fn law_status(code: Option<i32>, c: i32)
    ensures
        code == Some(c) ==> status_of(code) == c,
        code is None ==> status_of(code) == -1,
{
}

pub fn exit_code(code: Option<i32>) -> (status: i32)
    ensures
        status == status_of(code),
        status == match code {
            Some(c) => c,
            None => -1i32,
        },
{
    match code {
        Some(c) => c,
        None => -1,
    }
}

/// The names of the signals that are spelled out.
pub open spec fn signal_name(signal: i32) -> Option<Seq<char>> {
    if signal == 6 {
        Some("SIGABRT"@)
    } else if signal == 11 {
        Some("SIGSEGV"@)
    } else if signal == 4 {
        Some("SIGILL"@)
    } else if signal == 8 {
        Some("SIGFPE"@)
    } else if signal == 9 {
        Some("SIGKILL"@)
    } else if signal == 15 {
        Some("SIGTERM"@)
    } else {
        None
    }
}

/// How a target ended, in words.
pub open spec fn exit_text(code: Option<i32>, signal: Option<i32>) -> Seq<char> {
    match (code, signal) {
        (Some(c), _) => "exited with status "@ + text::dec_int(c as int),
        (None, Some(s)) => match signal_name(s) {
            Some(name) => "killed by "@ + name + " (signal "@ + text::dec_int(s as int) + ")"@,
            None => "killed by signal "@ + text::dec_int(s as int),
        },
        (None, None) => "exited (unknown status)"@,
    }
}

pub fn format_exit_status(code: Option<i32>, signal: Option<i32>) -> (s: String)
    ensures
        s@ == exit_text(code, signal),
{
    if let Some(c) = code {
        let mut out = "exited with status ".to_owned();
        text::push_dec_int(&mut out, c);
        return out;
    }
    if let Some(sig) = signal {
        let name: Option<&str> = match sig {
            6 => Some("SIGABRT"),
            11 => Some("SIGSEGV"),
            4 => Some("SIGILL"),
            8 => Some("SIGFPE"),
            9 => Some("SIGKILL"),
            15 => Some("SIGTERM"),
            _ => None,
        };
        return match name {
            Some(known) => {
                let mut out = "killed by ".to_owned();
                out.append(known);
                out.append(" (signal ");
                text::push_dec_int(&mut out, sig);
                out.append(")");
                out
            },
            None => {
                let mut out = "killed by signal ".to_owned();
                text::push_dec_int(&mut out, sig);
                out
            },
        };
    }
    "exited (unknown status)".to_owned()
}

/// The line about a target that has exited, unless it exited well.
pub open spec fn exit_line(code: Option<i32>, signal: Option<i32>) -> Option<Seq<char>> {
    if code == Some(0i32) {
        None
    } else {
        Some("heap-oracle: target "@ + exit_text(code, signal))
    }
}

/// A line is due for every target but one that exited with status zero, and it ends in
/// how the target ended.
pub proof fn law_exit_line(code: Option<i32>, signal: Option<i32>)
    ensures
        exit_line(code, signal) is None <==> (code matches Some(c) && c == 0),
        exit_line(code, signal) matches Some(line) ==> {
            &&& "heap-oracle: target "@.is_prefix_of(line)
            &&& exit_text(code, signal).is_suffix_of(line)
            &&& line.len() == 20 + exit_text(code, signal).len()
        },
{
    reveal_strlit("heap-oracle: target ");
    if let Some(line) = exit_line(code, signal) {
        let tail = exit_text(code, signal);
        assert(line.subrange(0, 20) =~= "heap-oracle: target "@);
        assert(line.subrange(line.len() - tail.len(), line.len() as int) =~= tail);
    }
}

pub fn exit_report(code: Option<i32>, signal: Option<i32>) -> (line: Option<String>)
    ensures
        line is Some <==> exit_line(code, signal) is Some,
        line matches Some(s) ==> exit_line(code, signal) == Some(s@),
        line is Some <==> code != Some(0i32),
        line matches Some(s) ==> s@ == "heap-oracle: target "@ + exit_text(code, signal),
{
    if let Some(c) = code {
        if c == 0 {
            return None;
        }
    }
    let mut out = "heap-oracle: target ".to_owned();
    out.append(format_exit_status(code, signal).as_str());
    Some(out)
}

} // verus!
