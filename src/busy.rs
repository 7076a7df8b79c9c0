//! Waiting for the controller's busy line to fall.
//!
//! The wait itself alternates hardware work (reading the busy line, letting a policy
//! sleep) with decisions; [`BusyWaitLoop`] makes the decisions, whoever owns the line
//! does the work.
use vstd::prelude::*;

verus! {

/// A waiting policy has used up its budget.
#[derive(Clone, Copy, Debug, PartialEq, Eq, Structural)]
pub struct BusyTimeout;

/// What one poll costs the budget: its step, and at least a millisecond, so that even a
/// policy that does not sleep runs out.
pub open spec fn step_cost(step: nat) -> nat {
    if step == 0 {
        1
    } else {
        step
    }
}

/// The budget left after charging one poll to `budget`, or `None` for a timeout: a poll
/// that the budget cannot pay for, so any poll once the budget is spent.
pub open spec fn charged(budget: nat, step: nat) -> Option<nat> {
    if step_cost(step) <= budget {
        Some((budget - step_cost(step)) as nat)
    } else {
        None
    }
}

/// Whether polls charged from `budget` time out at the latest at poll number `polls + 1`.
pub open spec fn times_out_within(budget: nat, step: nat, polls: nat) -> bool
    decreases polls,
{
    match charged(budget, step) {
        None => true,
        Some(left) => polls > 0 && times_out_within(left, step, (polls - 1) as nat),
    }
}

/// A fixed-step policy: each poll sleeps `delay_ms` and charges it (at least a
/// millisecond) to a total budget of `timeout_ms`, and times out once the budget cannot
/// pay for another poll.
pub struct DelayWaiter<Delay> {
    delay: Delay,
    delay_ms: u32,
    timeout_ms: u32,
}

impl<Delay> DelayWaiter<Delay> {
    pub closed spec fn step(&self) -> u32 {
        self.delay_ms
    }

    pub closed spec fn budget(&self) -> u32 {
        self.timeout_ms
    }

    pub closed spec fn sleeper(&self) -> Delay {
        self.delay
    }

    /// A policy that sleeps 1 ms per poll within a budget of 100 000 ms.
    pub fn new(delay: Delay) -> (r: Self)
        ensures
            r.step() == 1,
            r.budget() == 100_000,
            r.sleeper() == delay,
    {
        DelayWaiter { delay, delay_ms: 1, timeout_ms: 100_000 }
    }

    pub fn with_delay_ms(self, ms: u32) -> (r: Self)
        ensures
            r.step() == ms,
            r.budget() == self.budget(),
            r.sleeper() == self.sleeper(),
    {
        DelayWaiter { delay: self.delay, delay_ms: ms, timeout_ms: self.timeout_ms }
    }

    pub fn with_timeout_ms(self, ms: u32) -> (r: Self)
        ensures
            r.step() == self.step(),
            r.budget() == ms,
            r.sleeper() == self.sleeper(),
    {
        DelayWaiter { delay: self.delay, delay_ms: self.delay_ms, timeout_ms: ms }
    }

    /// How long each poll sleeps.
    pub fn delay_ms(&self) -> (r: u32)
        ensures
            r == self.step(),
    {
        self.delay_ms
    }

    /// What is left of the budget.
    pub fn timeout_ms(&self) -> (r: u32)
        ensures
            r == self.budget(),
    {
        self.timeout_ms
    }

    /// The delay source that a poll sleeps on.
    pub fn delay_mut(&mut self) -> (r: &mut Delay)
        ensures
            *r == old(self).sleeper(),
            final(self).step() == old(self).step(),
            final(self).budget() == old(self).budget(),
            final(self).sleeper() == *final(r),
    {
        &mut self.delay
    }

    /// Charges one step, already slept, to the budget (see [`charged`]).
    pub fn charge_step(&mut self) -> (r: Result<(), BusyTimeout>)
        ensures
            r is Ok <==> charged(old(self).budget() as nat, old(self).step() as nat) is Some,
            r is Ok ==> final(self).budget() == charged(
                old(self).budget() as nat,
                old(self).step() as nat,
            )->0,
            r is Err ==> final(self).budget() == old(self).budget(),
            final(self).step() == old(self).step(),
            final(self).sleeper() == old(self).sleeper(),
    {
        let cost = if self.delay_ms == 0 {
            1
        } else {
            self.delay_ms
        };
        match self.timeout_ms.checked_sub(cost) {
            Some(left) => {
                self.timeout_ms = left;
                Ok(())
            },
            None => Err(BusyTimeout),
        }
    }
}

/// A policy never waits without end: polling it times out at the latest at poll number
/// `budget / cost + 1`, where each poll costs its step, and at least a millisecond.
pub proof fn lemma_fixed_step_times_out(budget: nat, step: nat)
    ensures
        times_out_within(budget, step, budget / step_cost(step)),
    decreases budget,
{
    let cost = step_cost(step);
    if let Some(left) = charged(budget, step) {
        vstd::arithmetic::div_mod::lemma_div_minus_one(budget as int, cost as int);
        lemma_fixed_step_times_out(left, step);
        assert(budget / cost > 0) by {
            vstd::arithmetic::div_mod::lemma_div_is_ordered(cost as int, budget as int, cost as int);
            vstd::arithmetic::div_mod::lemma_div_by_self(cost as int);
        }
    }
}

/// What the wait asks for next.
#[derive(Clone, Copy, Debug, PartialEq, Eq, Structural)]
pub enum WaitAction {
    /// Read the busy line and report its level.
    ReadBusy,
    /// Let the waiting policy poll once and report what it returned.
    Poll,
    /// The line is low: the controller is ready.
    Idle,
    /// The policy gave up and the line was still high when read again.
    TimedOut,
}

/// The decisions of one wait for the busy line.
#[derive(Clone, Copy, Debug, PartialEq, Eq, Structural)]
pub struct BusyWaitLoop {
    /// The policy has timed out; the next reading of the line is the last.
    pub gave_up: bool,
}

impl BusyWaitLoop {
    /// A wait begins by reading the line.
    pub fn start() -> (r: (BusyWaitLoop, WaitAction))
        ensures
            r.0.gave_up == false,
            r.1 == WaitAction::ReadBusy,
    {
        (BusyWaitLoop { gave_up: false }, WaitAction::ReadBusy)
    }

    /// A low line ends the wait; a high one asks for a poll, or is a timeout once the
    /// policy has given up.
    pub fn on_busy_level(&self, high: bool) -> (r: WaitAction)
        ensures
            !high ==> r == WaitAction::Idle,
            high && !self.gave_up ==> r == WaitAction::Poll,
            high && self.gave_up ==> r == WaitAction::TimedOut,
    {
        if !high {
            WaitAction::Idle
        } else if self.gave_up {
            WaitAction::TimedOut
        } else {
            WaitAction::Poll
        }
    }

    /// After a poll the line is read again; a policy timeout makes that reading the last.
    pub fn on_poll(&mut self, polled: Result<(), BusyTimeout>) -> (r: WaitAction)
        ensures
            r == WaitAction::ReadBusy,
            final(self).gave_up == (old(self).gave_up || polled is Err),
    {
        if polled.is_err() {
            self.gave_up = true;
        }
        WaitAction::ReadBusy
    }
}

} // verus!
