use vstd::prelude::*;

verus! {

/// Why a bus operation failed.
#[derive(Debug, PartialEq, Eq)]
pub enum OneWireError<E> {
    /// The idle line did not return to the pulled-up level in time.
    BusNotHigh,
    /// The pin refused an operation; the pin's own error is carried unchanged.
    PinError(E),
    /// A search saw an answer that cannot occur while the devices on the bus stay the same.
    UnexpectedResponse,
    /// A ROM code was assembled whose check byte does not match its other seven bytes.
    CrcMismatch,
}

pub type OneWireResult<T, E> = Result<T, OneWireError<E>>;

/// What the pin returned, as the bus master reports it: a value as it is, the pin's
/// error unchanged inside `PinError`.
pub open spec fn reported<R, E>(result: Result<R, E>) -> OneWireResult<R, E> {
    match result {
        Ok(value) => Ok(value),
        Err(e) => Err(OneWireError::PinError(e)),
    }
}

/// Turns what the pin returned into what the bus master reports.
pub fn report<R, E>(result: Result<R, E>) -> (out: OneWireResult<R, E>)
    ensures
        out == reported(result),
{
    match result {
        Ok(value) => Ok(value),
        Err(e) => Err(OneWireError::PinError(e)),
    }
}

} // verus!
