//! An exclusive bus device made of a shared bus and a dedicated chip-select line.
use std::marker::PhantomData;
use vstd::prelude::*;

verus! {

pub struct SingleDevice<Spi, Word, Delay, Cs> {
    pub _phantom: PhantomData<Word>,
    pub bus: Spi,
    pub delay: Delay,
    pub cs: Cs,
}

#[derive(Debug)]
pub enum SingleDeviceError<Spi, Output> {
    Spi(Spi),
    Output(Output),
}

/// Tags the failure of driving the chip-select line.
pub fn do_output<T, SpiError, OutputError>(r: Result<T, OutputError>) -> (e: Result<
    T,
    SingleDeviceError<SpiError, OutputError>,
>)
    ensures
        match r {
            Ok(t) => e == Ok::<T, SingleDeviceError<SpiError, OutputError>>(t),
            Err(x) => e == Err::<T, SingleDeviceError<SpiError, OutputError>>(
                SingleDeviceError::Output(x),
            ),
        },
{
    match r {
        Ok(t) => Ok(t),
        Err(e) => Err(SingleDeviceError::Output(e)),
    }
}

/// One step of a bus transaction.
#[derive(Clone, Copy, Debug, PartialEq, Eq, Structural)]
pub enum TxStep {
    /// Select the device: drive chip-select low.
    Select,
    /// Perform the caller's operation with this index.
    Operation(usize),
    /// Wait until the bus has sent everything.
    Flush,
    /// Release the device: drive chip-select high.
    Release,
}

/// Selection held over every operation in order, the bus flushed, then released: the
/// steps of a transaction of `n` operations in which every step succeeds.
pub open spec fn transaction_steps(n: nat) -> Seq<TxStep> {
    seq![TxStep::Select] + Seq::new(n, |i: int| TxStep::Operation(i as usize)) + seq![
        TxStep::Flush,
        TxStep::Release,
    ]
}

/// What follows `step` in a transaction of `n` operations, given whether it succeeded;
/// `None` ends the transaction. Once the device is selected, a failed operation or flush
/// still releases it; a failed selection selected nothing and ends at once.
pub open spec fn next_step_spec(n: nat, step: TxStep, succeeded: bool) -> Option<TxStep> {
    match step {
        TxStep::Select => if !succeeded {
            None
        } else if n > 0 {
            Some(TxStep::Operation(0))
        } else {
            Some(TxStep::Flush)
        },
        TxStep::Operation(i) => if !succeeded {
            Some(TxStep::Release)
        } else if i + 1 < n {
            Some(TxStep::Operation((i + 1) as usize))
        } else {
            Some(TxStep::Flush)
        },
        TxStep::Flush => Some(TxStep::Release),
        TxStep::Release => None,
    }
}

impl<Spi, Word, Delay, Cs> SingleDevice<Spi, Word, Delay, Cs> {
    /// A transaction begins by selecting the device.
    pub fn first_step() -> (r: TxStep)
        ensures
            r == TxStep::Select,
    {
        TxStep::Select
    }

    /// The step after `step` (see [`next_step_spec`]). Whoever owns the bus performs the
    /// steps one by one; when a step fails after selection, it still performs the
    /// release and returns the first failure.
    pub fn next_step(n: usize, step: TxStep, succeeded: bool) -> (r: Option<TxStep>)
        ensures
            r == next_step_spec(n as nat, step, succeeded),
    {
        match step {
            TxStep::Select => if !succeeded {
                None
            } else if n > 0 {
                Some(TxStep::Operation(0))
            } else {
                Some(TxStep::Flush)
            },
            TxStep::Operation(i) => if !succeeded {
                Some(TxStep::Release)
            } else if n > 0 && i < n - 1 {
                Some(TxStep::Operation(i + 1))
            } else {
                Some(TxStep::Flush)
            },
            TxStep::Flush => Some(TxStep::Release),
            TxStep::Release => None,
        }
    }
}

/// When every step succeeds, a transaction runs exactly through [`transaction_steps`]:
/// each step is followed by the next one there, and the release ends it.
pub proof fn lemma_successful_transaction_in_order(n: nat, k: int)
    requires
        n <= usize::MAX,
        0 <= k < transaction_steps(n).len(),
    ensures
        k + 1 < transaction_steps(n).len() ==> next_step_spec(n, transaction_steps(n)[k], true)
            == Some(transaction_steps(n)[k + 1]),
        k + 1 == transaction_steps(n).len() ==> next_step_spec(
            n,
            transaction_steps(n)[k],
            true,
        ) is None,
        transaction_steps(n)[0] == TxStep::Select,
{
    let t = transaction_steps(n);
    assert(t.len() == n + 3);
    assert(t[0] == TxStep::Select);
    assert(t[n as int + 1] == TxStep::Flush);
    assert(t[n as int + 2] == TxStep::Release);
    if 1 <= k <= n {
        assert(t[k] == TxStep::Operation((k - 1) as usize));
        if k < n {
            assert(t[k + 1] == TxStep::Operation(k as usize));
        }
    }
}

/// Once selected, the device is released whatever fails: a failed operation or flush is
/// followed by the release, and the release is the last step.
pub proof fn lemma_failure_still_releases(n: nat, step: TxStep, succeeded: bool)
    ensures
        (step is Operation || step is Flush) && !succeeded ==> next_step_spec(n, step, succeeded)
            == Some(TxStep::Release),
        step is Release ==> next_step_spec(n, step, succeeded) is None,
        step is Select && !succeeded ==> next_step_spec(n, step, succeeded) is None,
{
}

} // verus!
