use vstd::prelude::*;

verus! {

/// The open-drain pin that the bus hangs on.
///
/// What a pin returns is for the pull-up, the devices and the wiring to decide, so
/// nothing is promised of it here. Each operation only has a name for what it may do:
/// a relation between the pin before the call, the pin after it and what the call
/// returned. An implementation that knows more of itself says so there; one that says
/// nothing leaves the relation at `true`. The bus master states in these terms that it
/// hands on what the pin did.
pub trait BusPin: Sized {
    /// The pin's own failure.
    type Error;

    /// `drive_low` may take the pin from `self` to `after` and return `result`.
    open spec fn drive_low_may(&self, after: &Self, result: Result<(), Self::Error>) -> bool {
        true
    }

    /// `release` may take the pin from `self` to `after` and return `result`.
    open spec fn release_may(&self, after: &Self, result: Result<(), Self::Error>) -> bool {
        true
    }

    /// `is_high` may take the pin from `self` to `after` and return `result`.
    open spec fn is_high_may(&self, after: &Self, result: Result<bool, Self::Error>) -> bool {
        true
    }

    /// `is_low` may take the pin from `self` to `after` and return `result`.
    open spec fn is_low_may(&self, after: &Self, result: Result<bool, Self::Error>) -> bool {
        true
    }

    /// Pulls the line to ground.
    fn drive_low(&mut self) -> (result: Result<(), Self::Error>)
        ensures
            old(self).drive_low_may(final(self), result),
    ;

    /// Lets go of the line, so that the pull-up or a device sets its level.
    fn release(&mut self) -> (result: Result<(), Self::Error>)
        ensures
            old(self).release_may(final(self), result),
    ;

    /// Whether the line is sensed high.
    fn is_high(&mut self) -> (result: Result<bool, Self::Error>)
        ensures
            old(self).is_high_may(final(self), result),
    ;

    /// Whether the line is sensed low.
    fn is_low(&mut self) -> (result: Result<bool, Self::Error>)
        ensures
            old(self).is_low_may(final(self), result),
    ;
}

} // verus!
