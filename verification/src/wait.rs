//! Waiting for a socket that another process is about to create.
use vstd::prelude::*;

verus! {

/// How often a socket is looked for.
pub const RETRY_LIMIT: u16 = 20;

/// The time between two looks, in milliseconds.
pub const RETRY_DELAY_MS: u64 = 100;

/// What to do after a look.
#[derive(Clone, Copy, Debug, PartialEq, Eq, Structural)]
pub enum WaitStep {
    /// Nothing more: the socket exists.
    Found,
    /// Sleep for so many milliseconds and look again.
    Sleep(u64),
    /// Nothing more: the socket does not exist.
    GiveUp,
}

/// What to do after a look that came after `failed` looks in vain.
pub open spec fn wait_step(failed: int, found: bool) -> WaitStep {
    if found {
        WaitStep::Found
    } else if failed + 1 >= RETRY_LIMIT {
        WaitStep::GiveUp
    } else {
        WaitStep::Sleep(RETRY_DELAY_MS)
    }
}

/// How many looks were in vain after a look that came after `failed` such looks.
pub open spec fn failed_after(failed: int, found: bool) -> int {
    if found {
        failed
    } else {
        failed + 1
    }
}

/// The steps of a wait that looks in vain `looks` times.
pub open spec fn steps_in_vain(looks: nat) -> Seq<WaitStep> {
    Seq::new(looks, |i: int| wait_step(i, false))
}

/// A wait in vain gives up at the last look and not before, and sleeps between
/// any two looks.
pub proof fn lemma_wait_is_bounded(looks: nat)
    requires
        looks <= RETRY_LIMIT,
    ensures
        forall|i: int|
            0 <= i < looks && i < RETRY_LIMIT - 1 ==> #[trigger] steps_in_vain(looks)[i]
                == WaitStep::Sleep(RETRY_DELAY_MS),
        looks == RETRY_LIMIT ==> steps_in_vain(looks).last() == WaitStep::GiveUp,
{
}

/// A socket that is found ends the wait at once. One that is not is looked for
/// twenty times in all, with a tenth of a second between two looks.
pub proof fn lemma_each_look_is_answered(failed: int, found: bool)
    requires
        0 <= failed < 20,
    ensures
        found <==> wait_step(failed, found) == WaitStep::Found,
        !found && failed < 19 ==> wait_step(failed, found) == WaitStep::Sleep(100),
        !found && failed == 19 ==> wait_step(failed, found) == WaitStep::GiveUp,
        !found ==> failed_after(failed, found) == failed + 1,
{
}

/// A wait for a socket.
#[derive(Debug)]
pub struct SocketWait {
    failed: u16,
}

impl SocketWait {
    /// How many looks were in vain.
    pub closed spec fn failed(self) -> int {
        self.failed as int
    }

    /// A wait before the first look.
    pub fn new() -> (r: SocketWait)
        ensures
            r.failed() == 0,
    {
        SocketWait { failed: 0 }
    }

    /// Takes what a look showed.
    pub fn look(&mut self, found: bool) -> (r: WaitStep)
        requires
            old(self).failed() < RETRY_LIMIT,
        ensures
            r == wait_step(old(self).failed(), found),
            final(self).failed() == failed_after(old(self).failed(), found),
    {
        if found {
            return WaitStep::Found;
        }
        self.failed = self.failed + 1;
        if self.failed >= RETRY_LIMIT {
            WaitStep::GiveUp
        } else {
            WaitStep::Sleep(RETRY_DELAY_MS)
        }
    }
}

} // verus!
