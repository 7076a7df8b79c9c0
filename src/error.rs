//! The driver's errors, one variant for each place a failure can come from.
use vstd::prelude::*;

verus! {

#[derive(Debug)]
pub enum DisplayError<Spi, Input, Output> {
    /// The waiting policy gave up and the busy line was still high.
    BusyTimeout,
    /// A bus write failed.
    Spi(Spi),
    /// Reading the busy line failed.
    Input(Input),
    /// Driving the data/command or the reset line failed.
    Output(Output),
}

impl<Spi, Input, Output> From<Spi> for DisplayError<Spi, Input, Output> {
    fn from(value: Spi) -> (r: Self)
        ensures
            r == DisplayError::<Spi, Input, Output>::Spi(value),
    {
        DisplayError::Spi(value)
    }
}

impl<Spi, Input, Output> vstd::std_specs::convert::FromSpecImpl<Spi> for DisplayError<Spi, Input, Output> {
    open spec fn obeys_from_spec() -> bool {
        true
    }

    open spec fn from_spec(v: Spi) -> Self {
        DisplayError::Spi(v)
    }
}

/// Tags the failure of reading an input line.
pub fn do_input<T, Spi, Input, Output>(r: Result<T, Input>) -> (e: Result<
    T,
    DisplayError<Spi, Input, Output>,
>)
    ensures
        match r {
            Ok(t) => e == Ok::<T, DisplayError<Spi, Input, Output>>(t),
            Err(x) => e == Err::<T, DisplayError<Spi, Input, Output>>(DisplayError::Input(x)),
        },
{
    match r {
        Ok(t) => Ok(t),
        Err(e) => Err(DisplayError::Input(e)),
    }
}

/// Tags the failure of driving an output line.
pub fn do_output<T, Spi, Input, Output>(r: Result<T, Output>) -> (e: Result<
    T,
    DisplayError<Spi, Input, Output>,
>)
    ensures
        match r {
            Ok(t) => e == Ok::<T, DisplayError<Spi, Input, Output>>(t),
            Err(x) => e == Err::<T, DisplayError<Spi, Input, Output>>(DisplayError::Output(x)),
        },
{
    match r {
        Ok(t) => Ok(t),
        Err(e) => Err(DisplayError::Output(e)),
    }
}

} // verus!
