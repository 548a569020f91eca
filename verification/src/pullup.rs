//! A line with nothing on it but the pull-up resistor.

use vstd::prelude::*;
use crate::pin::BusPin;

verus! {

/// A pin on a line that carries no device: the line is high whenever the pin does not
/// drive it low, and no operation fails, so its error type
/// has nothing to say. It stands for an empty bus.
#[derive(Debug, Clone, Copy, PartialEq, Eq)]
pub struct PulledUp {
    /// Whether the pin drives the line low.
    pub low: bool,
}

impl BusPin for PulledUp {
    type Error = ();

    open spec fn drive_low_may(&self, after: &Self, result: Result<(), ()>) -> bool {
        result is Ok && after.low
    }

    open spec fn release_may(&self, after: &Self, result: Result<(), ()>) -> bool {
        result is Ok && !after.low
    }

    open spec fn is_high_may(&self, after: &Self, result: Result<bool, ()>) -> bool {
        *after == *self && result == Ok::<bool, ()>(!self.low)
    }

    open spec fn is_low_may(&self, after: &Self, result: Result<bool, ()>) -> bool {
        *after == *self && result == Ok::<bool, ()>(self.low)
    }

    fn drive_low(&mut self) -> (result: Result<(), ()>) {
        self.low = true;
        Ok(())
    }

    fn release(&mut self) -> (result: Result<(), ()>) {
        self.low = false;
        Ok(())
    }

    fn is_high(&mut self) -> (result: Result<bool, ()>) {
        Ok(!self.low)
    }

    fn is_low(&mut self) -> (result: Result<bool, ()>) {
        Ok(self.low)
    }
}

impl PulledUp {
    /// The pin, not driving the line.
    pub fn new() -> (pin: PulledUp)
        ensures
            !pin.low,
    {
        PulledUp { low: false }
    }
}

} // verus!
