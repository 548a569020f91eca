//! What a task asks of its driver, and what the driver hands back.

use vstd::prelude::*;
use crate::error::OneWireError;

verus! {

/// One thing to do on the line. A task names it; the driver does it.
#[derive(Debug, Clone, Copy, PartialEq, Eq, Structural)]
pub enum Line {
    /// Wait until the line is sensed high, but no longer than the timeout.
    AwaitHigh { timeout_us: u32 },
    /// Pull the line to ground.
    DriveLow,
    /// Let go of the line.
    Release,
    /// Ask whether the line is high.
    SenseHigh,
    /// Ask whether the line is low.
    SenseLow,
    /// Let the given time pass.
    Delay { us: u32 },
}

/// How a request ended.
#[derive(Debug, PartialEq, Eq)]
pub enum Reply<E> {
    /// The request was carried out; it asked no question.
    Done,
    /// The answer to the question that the request asked.
    Sensed(bool),
    /// The time allowed ran out first.
    TimedOut,
    /// The pin refused.
    Failed(E),
}

impl Line {
    /// Whether the request asks a question of the line.
    pub open spec fn asks(self) -> bool {
        self is SenseHigh || self is SenseLow
    }

    /// Whether the driver has to let time pass for this request, rather than act on the pin.
    pub open spec fn waits(self) -> bool {
        self is AwaitHigh || self is Delay
    }
}

impl<E> Reply<E> {
    /// What this reply means to a task whose outstanding request is `pending`: the answer
    /// sensed, if a question was asked, or why the task cannot go on.
    ///
    /// A refusal of the pin and a timeout are errors whatever was asked. A reply of the
    /// wrong kind, or one that nothing asked for, is an unexpected response.
    pub open spec fn meaning(self, pending: Option<Line>) -> Result<Option<bool>, OneWireError<E>> {
        match self {
            Reply::Failed(e) => Err(OneWireError::PinError(e)),
            Reply::TimedOut => Err(OneWireError::BusNotHigh),
            Reply::Done => match pending {
                Some(line) => if line.asks() {
                    Err(OneWireError::UnexpectedResponse)
                } else {
                    Ok(None)
                },
                None => Err(OneWireError::UnexpectedResponse),
            },
            Reply::Sensed(answer) => match pending {
                Some(line) => if line.asks() {
                    Ok(Some(answer))
                } else {
                    Err(OneWireError::UnexpectedResponse)
                },
                None => Err(OneWireError::UnexpectedResponse),
            },
        }
    }

    /// The reply for a request that asked nothing, given what the pin returned.
    pub open spec fn of_action(result: Result<(), E>) -> Reply<E> {
        match result {
            Ok(_) => Reply::Done,
            Err(e) => Reply::Failed(e),
        }
    }

    /// The reply for a request that asked a question, given what the pin returned.
    pub open spec fn of_answer(result: Result<bool, E>) -> Reply<E> {
        match result {
            Ok(answer) => Reply::Sensed(answer),
            Err(e) => Reply::Failed(e),
        }
    }

    /// Makes the reply for a request that asked nothing from what the pin returned.
    pub fn from_action(result: Result<(), E>) -> (reply: Reply<E>)
        ensures
            reply == Reply::of_action(result),
    {
        match result {
            Ok(_) => Reply::Done,
            Err(e) => Reply::Failed(e),
        }
    }

    /// Makes the reply for a request that asked a question from what the pin returned.
    pub fn from_answer(result: Result<bool, E>) -> (reply: Reply<E>)
        ensures
            reply == Reply::of_answer(result),
    {
        match result {
            Ok(answer) => Reply::Sensed(answer),
            Err(e) => Reply::Failed(e),
        }
    }

    /// Reads the reply against the outstanding request.
    pub fn read(self, pending: Option<Line>) -> (result: Result<Option<bool>, OneWireError<E>>)
        ensures
            result == self.meaning(pending),
    {
        let asked = match pending {
            Some(Line::SenseHigh) => Some(true),
            Some(Line::SenseLow) => Some(true),
            Some(_) => Some(false),
            None => None,
        };
        match self {
            Reply::Failed(e) => Err(OneWireError::PinError(e)),
            Reply::TimedOut => Err(OneWireError::BusNotHigh),
            Reply::Done => match asked {
                Some(false) => Ok(None),
                _ => Err(OneWireError::UnexpectedResponse),
            },
            Reply::Sensed(answer) => match asked {
                Some(true) => Ok(Some(answer)),
                _ => Err(OneWireError::UnexpectedResponse),
            },
        }
    }
}

} // verus!
