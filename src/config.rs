//! The hardware that a driver owns for its lifetime.
use vstd::prelude::*;

verus! {

/// Marks the types that may configure a driver; only [`DisplayConfiguration`] has it.
pub trait Internal {

}

/// The bus, the data/command, reset and busy lines, the delay source and the waiting
/// policy of one panel.
pub struct DisplayConfiguration<Spi, Dc, Rst, Busy, Delay, Wait> {
    pub spi: Spi,
    pub dc: Dc,
    pub rst: Rst,
    pub busy: Busy,
    pub delay: Delay,
    pub busy_wait: Wait,
}

impl<Spi, Dc, Rst, Busy, Delay, Wait> Internal for DisplayConfiguration<
    Spi,
    Dc,
    Rst,
    Busy,
    Delay,
    Wait,
> {

}

} // verus!
