//! Copying the content of an entry in chunks, with a way to stop.
//!
//! The copy itself reads from a stream and writes to a file, which this
//! library does not do. What it decides is written here as a machine: the
//! caller holds a buffer of `COPY_CHUNK` bytes, does what the machine asks
//! for, and tells it what came of it. The machine asks to read until the
//! buffer is full or the stream has ended, then to write what the buffer
//! holds; after each write it looks at the interrupt flag.

use crate::error::ExtractError;
use crate::interrupt::{interrupted, InterruptFlag};
use vstd::prelude::*;

verus! {

/// The size of the buffer, in bytes.
pub const COPY_CHUNK: usize = 131072;

/// Where a copy stands.
#[derive(Clone, Copy, Debug, PartialEq, Eq, Structural)]
pub enum Phase {
    /// The buffer is being filled: a read has been asked for.
    Filling,
    /// A write of the full buffer has been asked for.
    Writing,
    /// The stream has ended: a write of what the buffer held has been
    /// asked for, and no read will follow.
    WritingLast,
    /// A flush has been asked for.
    Flushing,
    /// The copy is over, done or failed.
    Finished,
}

/// What the caller tells the machine.
#[derive(Clone, Copy, Debug, PartialEq, Eq, Structural)]
pub enum CopyEvent {
    /// The read gave this many bytes; 0 says that the stream has ended.
    Read(usize),
    /// The write is done.
    Written,
    /// The flush is done.
    Flushed,
    /// The read, the write or the flush failed.
    Failed,
}

/// What the machine asks the caller to do next.
#[derive(Clone, Copy, Debug, PartialEq, Eq, Structural)]
pub enum CopyAction {
    /// Read once into the buffer from `offset` to its end.
    Read { offset: usize },
    /// Write the first `len` bytes of the buffer, all of them.
    Write { len: usize },
    /// Flush what was written.
    Flush,
    /// Nothing: the copy is done, and `total` bytes were written.
    Finish { total: u64 },
    /// Nothing: the copy has failed.
    Fail(ExtractError),
}

/// What a `CopyState` holds.
pub struct CopyView {
    /// The bytes written so far.
    pub written: int,
    /// The bytes that the buffer holds.
    pub filled: int,
    /// Where the copy stands.
    pub phase: Phase,
}

impl CopyView {
    /// What holds of every state of a copy: the buffer is not overfull, a
    /// read is asked for only while there is room in it, and the count of
    /// bytes written fits 64 bits.
    pub open spec fn wf(&self) -> bool {
        &&& 0 <= self.written <= u64::MAX
        &&& 0 <= self.filled <= COPY_CHUNK
        &&& self.phase is Filling ==> self.filled < COPY_CHUNK
        &&& self.phase is Writing ==> self.filled == COPY_CHUNK
        &&& self.phase is Flushing || self.phase is Finished ==> self.filled == 0
    }
}

/// The state of a copy.
#[derive(Debug)]
pub struct CopyState {
    written: u64,
    filled: usize,
    phase: Phase,
}

impl View for CopyState {
    type V = CopyView;

    closed spec fn view(&self) -> CopyView {
        CopyView { written: self.written as int, filled: self.filled as int, phase: self.phase }
    }
}

/// The state in which a copy begins: nothing written, the buffer empty, the
/// first read asked for.
pub open spec fn start_view() -> CopyView {
    CopyView { written: 0, filled: 0, phase: Phase::Filling }
}

/// A copy that has ended with the failure `e`.
pub open spec fn failed(state: CopyView, e: ExtractError) -> (CopyView, CopyAction) {
    (CopyView { written: state.written, filled: 0, phase: Phase::Finished }, CopyAction::Fail(e))
}

/// The count of bytes written once the buffer has been written: 64 bits
/// hold it, or it stays at the most that they hold.
pub open spec fn counted(state: CopyView) -> int {
    if state.written + state.filled > u64::MAX {
        u64::MAX as int
    } else {
        state.written + state.filled
    }
}

/// The state after a write, and what to do next: fail where the flag was
/// seen raised, before anything else; else flush where the stream has
/// ended, else read again into the empty buffer. A count of bytes that 64
/// bits do not hold is a failure.
pub open spec fn after_write(state: CopyView, raised: bool) -> (CopyView, CopyAction) {
    let written = state.written + state.filled;
    if raised {
        failed(CopyView { written: counted(state), ..state }, ExtractError::Interrupted)
    } else if written > u64::MAX {
        failed(state, ExtractError::IoFailure)
    } else if state.phase is WritingLast {
        (CopyView { written, filled: 0, phase: Phase::Flushing }, CopyAction::Flush)
    } else {
        (CopyView { written, filled: 0, phase: Phase::Filling }, CopyAction::Read { offset: 0 })
    }
}

/// The state after a read of `n` bytes, and what to do next: write what the
/// buffer holds where the stream has ended or the buffer is full, else read
/// on behind what was read. A read that claims more bytes than there was
/// room for is a failure of the stream.
pub open spec fn after_read(state: CopyView, n: int) -> (CopyView, CopyAction) {
    if n > COPY_CHUNK - state.filled {
        failed(state, ExtractError::IoFailure)
    } else if n == 0 {
        (CopyView { phase: Phase::WritingLast, ..state }, CopyAction::Write {
            len: state.filled as usize,
        })
    } else if state.filled + n == COPY_CHUNK {
        (CopyView { filled: COPY_CHUNK as int, phase: Phase::Writing, ..state }, CopyAction::Write {
            len: COPY_CHUNK,
        })
    } else {
        (CopyView { filled: state.filled + n, ..state }, CopyAction::Read {
            offset: (state.filled + n) as usize,
        })
    }
}

/// One step of a copy: the state after `event`, and what to do next.
/// `raised` says whether the interrupt flag is seen raised; it matters
/// after a write only. A read, write or flush that failed ends the copy
/// with a failure, and so does an event that was not asked for.
pub open spec fn copy_step(state: CopyView, event: CopyEvent, raised: bool) -> (
    CopyView,
    CopyAction,
) {
    match (state.phase, event) {
        (Phase::Filling, CopyEvent::Read(n)) => after_read(state, n as int),
        (Phase::Writing, CopyEvent::Written) => after_write(state, raised),
        (Phase::WritingLast, CopyEvent::Written) => after_write(state, raised),
        (Phase::Flushing, CopyEvent::Flushed) => (
            CopyView { phase: Phase::Finished, ..state },
            CopyAction::Finish { total: state.written as u64 },
        ),
        (_, CopyEvent::Failed) => failed(state, ExtractError::IoFailure),
        _ => failed(state, ExtractError::IoFailure),
    }
}

/// Whether an action can be carried out on a buffer of `COPY_CHUNK` bytes:
/// a read has room, from where the buffer is filled to, and a write stays
/// within the buffer and is of what the buffer holds.
pub open spec fn fits_buffer(state: CopyView, action: CopyAction) -> bool {
    match action {
        CopyAction::Read { offset } => offset == state.filled && offset < COPY_CHUNK,
        CopyAction::Write { len } => len == state.filled && len <= COPY_CHUNK,
        _ => true,
    }
}

impl CopyState {
    #[verifier::type_invariant]
    spec fn well_formed(&self) -> bool {
        self@.wf()
    }

    /// Begins a copy: the state, and the first thing to do, which is to
    /// read into the empty buffer.
    pub fn start() -> (res: (CopyState, CopyAction))
        ensures
            res.0@ == start_view(),
            res.1 == (CopyAction::Read { offset: 0 }),
    {
        (CopyState { written: 0, filled: 0, phase: Phase::Filling }, CopyAction::Read { offset: 0 })
    }

    /// The bytes written so far.
    pub fn written(&self) -> (res: u64)
        ensures
            res == self@.written,
            self@.wf(),
    {
        proof {
            use_type_invariant(self);
        }
        self.written
    }

    /// Where the copy stands.
    pub fn phase(&self) -> (res: Phase)
        ensures
            res == self@.phase,
    {
        self.phase
    }
}

/// Takes a copy one step further, given whether the interrupt flag is seen
/// raised.
pub fn copy_next(state: CopyState, event: CopyEvent, raised: bool) -> (res: (CopyState, CopyAction))
    ensures
        (res.0@, res.1) == copy_step(state@, event, raised),
        state@.wf(),
        res.0@.wf(),
        fits_buffer(res.0@, res.1),
{
    proof {
        use_type_invariant(&state);
    }
    let CopyState { written, filled, phase } = state;
    match (phase, event) {
        (Phase::Filling, CopyEvent::Read(n)) => {
            if n > COPY_CHUNK - filled {
                (
                    CopyState { written, filled: 0, phase: Phase::Finished },
                    CopyAction::Fail(ExtractError::IoFailure),
                )
            } else if n == 0 {
                (
                    CopyState { written, filled, phase: Phase::WritingLast },
                    CopyAction::Write { len: filled },
                )
            } else if filled + n == COPY_CHUNK {
                (
                    CopyState { written, filled: COPY_CHUNK, phase: Phase::Writing },
                    CopyAction::Write { len: COPY_CHUNK },
                )
            } else {
                (
                    CopyState { written, filled: filled + n, phase: Phase::Filling },
                    CopyAction::Read { offset: filled + n },
                )
            }
        },
        (Phase::Writing, CopyEvent::Written) | (Phase::WritingLast, CopyEvent::Written) => {
            match written.checked_add(filled as u64) {
                None => if raised {
                    (
                        CopyState { written: u64::MAX, filled: 0, phase: Phase::Finished },
                        CopyAction::Fail(ExtractError::Interrupted),
                    )
                } else {
                    (
                        CopyState { written, filled: 0, phase: Phase::Finished },
                        CopyAction::Fail(ExtractError::IoFailure),
                    )
                },
                Some(sum) => if raised {
                    (
                        CopyState { written: sum, filled: 0, phase: Phase::Finished },
                        CopyAction::Fail(ExtractError::Interrupted),
                    )
                } else if phase == Phase::WritingLast {
                    (CopyState { written: sum, filled: 0, phase: Phase::Flushing }, CopyAction::Flush)
                } else {
                    (
                        CopyState { written: sum, filled: 0, phase: Phase::Filling },
                        CopyAction::Read { offset: 0 },
                    )
                },
            }
        },
        (Phase::Flushing, CopyEvent::Flushed) => (
            CopyState { written, filled: 0, phase: Phase::Finished },
            CopyAction::Finish { total: written },
        ),
        _ => (
            CopyState { written, filled: 0, phase: Phase::Finished },
            CopyAction::Fail(ExtractError::IoFailure),
        ),
    }
}

/// Takes a copy one step further. After a write it asks the interrupt flag,
/// and the copy fails with `Interrupted` where the holder sees the flag
/// raised; a holder that has seen it raised before sees it raised. The
/// flag is not asked otherwise, and is then left as it is.
pub fn interruptable_copy(state: CopyState, event: CopyEvent, flag: &mut InterruptFlag) -> (res: (
    CopyState,
    CopyAction,
))
    ensures
        (res.0@, res.1) == copy_step(state@, event, final(flag).seen_raised()),
        old(flag).seen_raised() ==> final(flag).seen_raised(),
        !(event is Written) ==> final(flag).seen_raised() == old(flag).seen_raised(),
        res.0@.wf(),
        fits_buffer(res.0@, res.1),
{
    let raised = match event {
        CopyEvent::Written => interrupted(flag),
        _ => false,
    };
    copy_next(state, event, raised)
}

/// A copy from its start over `events`, each with whether the flag was
/// seen raised at it: the state at the end, and the last thing asked for.
pub open spec fn run(events: Seq<(CopyEvent, bool)>) -> (CopyView, CopyAction)
    decreases events.len(),
{
    if events.len() == 0 {
        (start_view(), CopyAction::Read { offset: 0 })
    } else {
        copy_step(run(events.drop_last()).0, events.last().0, events.last().1)
    }
}

/// The bytes that the reads among `events` gave.
pub open spec fn bytes_read(events: Seq<(CopyEvent, bool)>) -> int
    decreases events.len(),
{
    if events.len() == 0 {
        0
    } else {
        bytes_read(events.drop_last()) + match events.last().0 {
            CopyEvent::Read(n) => n as int,
            _ => 0,
        }
    }
}

/// A copy loses no byte and makes none up. However it has run, its state
/// is well formed and what it asks for fits the buffer. It asks for a
/// read, a write or a flush only while it is not over. As long as it has
/// not failed, the bytes written and the bytes in the buffer are together
/// the bytes read. Where it is done, the total it gives is the number of
/// bytes read, and the buffer is empty.
pub proof fn lemma_copy_accounts(events: Seq<(CopyEvent, bool)>)
    ensures
        run(events).0.wf(),
        fits_buffer(run(events).0, run(events).1),
        run(events).1 is Fail || run(events).1 is Finish <==> run(events).0.phase is Finished,
        !(run(events).1 is Fail) ==> run(events).0.written + run(events).0.filled == bytes_read(
            events,
        ),
        run(events).1 matches CopyAction::Finish { total } ==> total == bytes_read(events) && run(
            events,
        ).0.filled == 0,
        run(events).1 is Read <==> run(events).0.phase is Filling,
        run(events).1 is Write <==> run(events).0.phase is Writing || run(events).0.phase
            is WritingLast,
        run(events).1 is Flush <==> run(events).0.phase is Flushing,
    decreases events.len(),
{
    if events.len() > 0 {
        lemma_copy_accounts(events.drop_last());
    }
}

/// The flag decides at every write: a copy that sees the flag raised after
/// a write fails with `Interrupted` at once, whatever else holds, and a
/// copy fails so there only.
pub proof fn lemma_copy_interrupts(state: CopyView, event: CopyEvent, raised: bool)
    ensures
        copy_step(state, event, raised).1 == CopyAction::Fail(ExtractError::Interrupted) <==> raised
            && event is Written && (state.phase is Writing || state.phase is WritingLast),
{
}

/// A copy that is over stays over: whatever it is told then, it asks for
/// nothing more and counts nothing more, so nothing is read or written
/// after it has failed or is done, and a copy that has failed is never
/// done.
pub proof fn lemma_copy_over_stays_over(
    events: Seq<(CopyEvent, bool)>,
    more: Seq<(CopyEvent, bool)>,
)
    requires
        run(events).0.phase is Finished,
    ensures
        run(events + more).0.phase is Finished,
        run(events + more).0.written == run(events).0.written,
        more.len() > 0 ==> run(events + more).1 is Fail,
    decreases more.len(),
{
    if more.len() == 0 {
        assert(events + more == events);
    } else {
        assert((events + more).drop_last() == events + more.drop_last());
        lemma_copy_over_stays_over(events, more.drop_last());
    }
}

/// A read, write or flush that failed ends the copy with `IoFailure`,
/// wherever the copy stood, and for good: whatever follows, the copy does
/// not come to be done.
pub proof fn lemma_copy_fails_on_failure(
    events: Seq<(CopyEvent, bool)>,
    raised: bool,
    more: Seq<(CopyEvent, bool)>,
)
    ensures
        run(events.push((CopyEvent::Failed, raised))).1 == CopyAction::Fail(ExtractError::IoFailure),
        run(events.push((CopyEvent::Failed, raised)) + more).1 is Fail,
        run(events.push((CopyEvent::Failed, raised)) + more).0.phase is Finished,
{
    let failed_at = events.push((CopyEvent::Failed, raised));
    assert(failed_at.drop_last() == events);
    lemma_copy_over_stays_over(failed_at, more);
}

/// An interrupt stops a copy at the chunk in hand. Where a write is done
/// and the flag is seen raised, the copy fails with `Interrupted`: all
/// that was read has been written and is counted, and whatever follows,
/// nothing more is read or written and the copy does not come to be done.
pub proof fn lemma_copy_stops_when_interrupted(
    events: Seq<(CopyEvent, bool)>,
    more: Seq<(CopyEvent, bool)>,
)
    requires
        run(events).0.phase is Writing || run(events).0.phase is WritingLast,
    ensures
        run(events.push((CopyEvent::Written, true))).1 == CopyAction::Fail(
            ExtractError::Interrupted,
        ),
        bytes_read(events) <= u64::MAX ==> run(events.push((CopyEvent::Written, true))).0.written
            == bytes_read(events),
        run(events.push((CopyEvent::Written, true)) + more).1 is Fail,
        run(events.push((CopyEvent::Written, true)) + more).0.phase is Finished,
        run(events.push((CopyEvent::Written, true)) + more).0.written == run(
            events.push((CopyEvent::Written, true)),
        ).0.written,
{
    let stopped = events.push((CopyEvent::Written, true));
    assert(stopped.drop_last() == events);
    lemma_copy_accounts(events);
    lemma_copy_over_stays_over(stopped, more);
}

} // verus!
