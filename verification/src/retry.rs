//! Connecting to a node that may not be up yet.

use vstd::prelude::*;

verus! {

/// The pause after the first failed attempt, in milliseconds.
pub const FIRST_DELAY: u64 = 200;

/// The longest pause between two attempts, in milliseconds.
pub const LONGEST_DELAY: u64 = 5000;

/// The attempts at one connection.
#[derive(Clone, Copy, Debug, PartialEq, Eq, Structural)]
pub struct Attempts {
    /// How many attempts have failed.
    pub failed: u32,
    /// How long to pause after the next failed attempt, in milliseconds.
    pub delay: u64,
}

/// What to do after a failed attempt.
#[derive(Clone, Copy, Debug, PartialEq, Eq, Structural)]
pub enum RetryStep {
    /// Try again after so many milliseconds.
    RetryAfter { delay: u64 },
    /// Report the failure.
    GiveUp,
}

/// The pause after the failed attempt with the given number, counted from zero:
/// it doubles each time, up to the longest pause.
pub open spec fn delay_after(failed: nat) -> nat
    decreases failed,
{
    if failed == 0 {
        FIRST_DELAY as nat
    } else if 2 * delay_after((failed - 1) as nat) < LONGEST_DELAY {
        2 * delay_after((failed - 1) as nat)
    } else {
        LONGEST_DELAY as nat
    }
}

/// What to do after one more failed attempt, where `failed` failed before and at
/// most `max_attempts` are to be made.
pub open spec fn step_after(failed: nat, max_attempts: nat) -> RetryStep {
    if failed + 1 >= max_attempts {
        RetryStep::GiveUp
    } else {
        RetryStep::RetryAfter { delay: delay_after(failed) as u64 }
    }
}

impl Attempts {
    /// The pause is the one that follows the attempts that have failed.
    pub open spec fn well_formed(&self) -> bool {
        self.delay == delay_after(self.failed as nat)
    }

    /// Before the first attempt.
    pub fn new() -> (attempts: Attempts)
        ensures
            attempts.well_formed(),
            attempts.failed == 0,
    {
        Attempts { failed: 0, delay: FIRST_DELAY }
    }
}

/// Every pause is within its bounds.
pub proof fn delays_are_bounded(failed: nat)
    ensures
        FIRST_DELAY <= delay_after(failed) <= LONGEST_DELAY,
    decreases failed,
{
    if failed > 0 {
        delays_are_bounded((failed - 1) as nat);
    }
}

/// Decides what to do after one more failed attempt, where at most
/// `max_attempts` are to be made.
pub fn connect_with_retry(attempts: &mut Attempts, max_attempts: u32) -> (step: RetryStep)
    requires
        old(attempts).well_formed(),
        old(attempts).failed < u32::MAX,
    ensures
        final(attempts).well_formed(),
        final(attempts).failed == old(attempts).failed + 1,
        step == step_after(old(attempts).failed as nat, max_attempts as nat),
{
    proof {
        delays_are_bounded(attempts.failed as nat);
    }
    let delay: u64 = attempts.delay;
    attempts.failed = attempts.failed + 1;
    attempts.delay = if delay * 2 < LONGEST_DELAY {
        delay * 2
    } else {
        LONGEST_DELAY
    };
    if attempts.failed >= max_attempts {
        RetryStep::GiveUp
    } else {
        RetryStep::RetryAfter { delay }
    }
}

/// Pauses do not get shorter.
pub proof fn delays_do_not_shrink(failed: nat)
    ensures
        delay_after(failed) <= delay_after(failed + 1),
{
    delays_are_bounded(failed);
}

/// As many attempts are made as are allowed, and at least one: while fewer have
/// failed the next follows after the pause, and the last failure is reported.
pub proof fn all_attempts_are_made(failed: nat, max_attempts: nat)
    ensures
        failed + 1 < max_attempts ==> (step_after(failed, max_attempts) matches RetryStep::RetryAfter { delay } && delay
            == delay_after(failed)),
        failed + 1 >= max_attempts ==> step_after(failed, max_attempts) == RetryStep::GiveUp,
{
    delays_are_bounded(failed);
}

/// The pauses are 200, 400, 800, 1600 and 3200 milliseconds, and then 5000.
pub proof fn pauses(failed: nat)
    ensures
        delay_after(0) == 200,
        delay_after(1) == 400,
        delay_after(2) == 800,
        delay_after(3) == 1600,
        delay_after(4) == 3200,
        failed >= 5 ==> delay_after(failed) == 5000,
    decreases failed,
{
    reveal_with_fuel(delay_after, 6);
    if failed > 5 {
        pauses((failed - 1) as nat);
    }
}

} // verus!
