//! Cooperative cancellation.
//!
//! Work that can be interrupted holds an `InterruptFlag` and asks
//! `interrupted` at its checkpoints. Whoever wants the work to stop, such as
//! a signal handler, holds a clone of the flag and raises it. A raised flag
//! stays raised: nothing here lowers it. So each holder remembers that it
//! has seen the flag raised, and what it has seen once it sees at every
//! later checkpoint.

use std::sync::atomic::AtomicBool;
use std::sync::atomic::Ordering;
use std::sync::Arc;
use vstd::prelude::*;

verus! {

/// A flag that is lowered when made and can only be raised. Clones share
/// the one flag; each keeps for itself whether it has seen the flag raised.
#[derive(Clone, Debug)]
pub struct InterruptFlag {
    raised: Arc<AtomicBool>,
    seen: bool,
}

impl InterruptFlag {
    /// Whether this holder has seen the flag raised, or has raised it.
    pub closed spec fn seen_raised(&self) -> bool {
        self.seen
    }

    /// A new flag, lowered: its holder has not seen it raised.
    pub fn new() -> (res: InterruptFlag)
        ensures
            !res.seen_raised(),
    {
        InterruptFlag { raised: Arc::new(AtomicBool::new(false)), seen: false }
    }

    /// Raises the flag, for every holder of a clone.
    pub fn raise(&mut self)
        ensures
            final(self).seen_raised(),
    {
        self.raised.store(true, Ordering::SeqCst);
        self.seen = true;
    }
}

/// Whether the flag has been raised by now. A holder that has seen the flag
/// raised, or has raised it, is told so again. Any other holder looks at the
/// shared flag, which other holders may have raised, and remembers what it
/// saw: the answer is what the holder has seen from now on.
pub fn interrupted(flag: &mut InterruptFlag) -> (res: bool)
    ensures
        res == final(flag).seen_raised(),
        old(flag).seen_raised() ==> res,
{
    if !flag.seen {
        flag.seen = flag.raised.load(Ordering::SeqCst);
    }
    flag.seen
}

} // verus!
