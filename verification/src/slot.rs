//! The smallest units of bus traffic: the wait for the idle line, the reset pulse, and
//! the time slots that read a bit, write a 1 and write a 0.

use vstd::prelude::*;
use crate::error::OneWireError;
use crate::line::{Line, Reply};
use crate::timing::{
    IDLE_TIMEOUT_US, PRESENCE_SAMPLE_US, READ_LOW_US, READ_RECOVERY_US, READ_SAMPLE_US,
    RESET_LOW_US, RESET_RECOVERY_US, WRITE_0_HIGH_US, WRITE_0_LOW_US, WRITE_1_HIGH_US,
    WRITE_1_LOW_US,
};

verus! {

/// Which unit of traffic a slot is.
#[derive(Debug, Clone, Copy, PartialEq, Eq, Structural)]
pub enum SlotKind {
    /// The wait for the idle line to be high.
    WaitForHigh,
    /// The reset pulse with the presence sample that follows it, after the wait for the
    /// idle line.
    Reset,
    /// A read slot: the devices answer with one bit.
    Read,
    /// A write slot for the given bit.
    Write(bool),
}

/// One unit of traffic in progress.
///
/// `step` counts the requests of the slot's script that were answered. `sample` holds
/// the answer to the script's one question once it was asked: for a reset, whether a
/// device showed its presence; for a read slot, the bit read.
#[derive(Debug, Clone, Copy, PartialEq, Eq)]
pub struct Slot {
    pub kind: SlotKind,
    pub step: u8,
    pub sample: bool,
}

impl SlotKind {
    /// The requests that make up a slot of this kind, in order.
    pub open spec fn script(self) -> Seq<Line> {
        match self {
            SlotKind::WaitForHigh => seq![Line::AwaitHigh { timeout_us: 250 }],
            SlotKind::Reset => seq![
                Line::AwaitHigh { timeout_us: 250 },
                Line::DriveLow,
                Line::Delay { us: 480 },
                Line::Release,
                Line::Delay { us: 70 },
                Line::SenseLow,
                Line::Delay { us: 410 },
            ],
            SlotKind::Read => seq![
                Line::DriveLow,
                Line::Delay { us: 6 },
                Line::Release,
                Line::Delay { us: 9 },
                Line::SenseHigh,
                Line::Delay { us: 55 },
            ],
            SlotKind::Write(true) => seq![
                Line::DriveLow,
                Line::Delay { us: 6 },
                Line::Release,
                Line::Delay { us: 64 },
            ],
            SlotKind::Write(false) => seq![
                Line::DriveLow,
                Line::Delay { us: 60 },
                Line::Release,
                Line::Delay { us: 10 },
            ],
        }
    }

    /// What a slot of this kind has sampled at its end, where its one question, if it
    /// asks one, was answered with `level`.
    pub open spec fn sampled(self, level: bool) -> bool {
        match self {
            SlotKind::Reset => level,
            SlotKind::Read => level,
            _ => false,
        }
    }

    /// The number of requests in a slot of this kind.
    pub fn script_len(self) -> (len: u8)
        ensures
            len == self.script().len(),
            1 <= len <= 7,
    {
        match self {
            SlotKind::WaitForHigh => 1,
            SlotKind::Reset => 7,
            SlotKind::Read => 6,
            SlotKind::Write(_) => 4,
        }
    }
}

impl Slot {
    /// A slot of the given kind with nothing done yet.
    pub open spec fn fresh(kind: SlotKind) -> Slot {
        Slot { kind, step: 0, sample: false }
    }

    /// The request that is outstanding, if the slot is not over.
    pub open spec fn outstanding(self) -> Option<Line> {
        if self.step < self.kind.script().len() {
            Some(self.kind.script()[self.step as int])
        } else {
            None
        }
    }

    /// Whether every request of the slot was answered.
    pub open spec fn over(self) -> bool {
        self.step >= self.kind.script().len()
    }

    /// The slot after its outstanding request was answered with `sensed`.
    pub open spec fn answered(self, sensed: Option<bool>) -> Slot {
        Slot {
            kind: self.kind,
            step: (self.step + 1) as u8,
            sample: match sensed {
                Some(answer) => answer,
                None => self.sample,
            },
        }
    }

    /// The slot after the driver answered its outstanding request, a question with
    /// `level`; the slot itself if it is over.
    pub open spec fn stepped(self, level: bool) -> Slot {
        match self.outstanding() {
            Some(line) => self.answered(
                if line.asks() {
                    Some(level)
                } else {
                    None
                },
            ),
            None => self,
        }
    }

    /// The slot after the driver answered `n` requests in this way.
    pub open spec fn run(self, level: bool, n: nat) -> Slot
        decreases n,
    {
        if n == 0 {
            self
        } else {
            self.run(level, (n - 1) as nat).stepped(level)
        }
    }

    /// A slot of the given kind at its end, its question, if it asks one, answered
    /// with `level`.
    pub open spec fn ended(kind: SlotKind, level: bool) -> Slot {
        Slot { kind, step: kind.script().len() as u8, sample: kind.sampled(level) }
    }

    /// Starts a slot of the given kind.
    pub fn start(kind: SlotKind) -> (slot: Slot)
        ensures
            slot == Slot::fresh(kind),
            !slot.over(),
    {
        Slot { kind, step: 0, sample: false }
    }

    /// The request that the driver has to carry out next; `None` once the slot is over.
    pub fn pending(&self) -> (line: Option<Line>)
        ensures
            line == self.outstanding(),
    {
        match self.kind {
            SlotKind::WaitForHigh => match self.step {
                0 => Some(Line::AwaitHigh { timeout_us: IDLE_TIMEOUT_US }),
                _ => None,
            },
            SlotKind::Reset => match self.step {
                0 => Some(Line::AwaitHigh { timeout_us: IDLE_TIMEOUT_US }),
                1 => Some(Line::DriveLow),
                2 => Some(Line::Delay { us: RESET_LOW_US }),
                3 => Some(Line::Release),
                4 => Some(Line::Delay { us: PRESENCE_SAMPLE_US }),
                5 => Some(Line::SenseLow),
                6 => Some(Line::Delay { us: RESET_RECOVERY_US }),
                _ => None,
            },
            SlotKind::Read => match self.step {
                0 => Some(Line::DriveLow),
                1 => Some(Line::Delay { us: READ_LOW_US }),
                2 => Some(Line::Release),
                3 => Some(Line::Delay { us: READ_SAMPLE_US }),
                4 => Some(Line::SenseHigh),
                5 => Some(Line::Delay { us: READ_RECOVERY_US }),
                _ => None,
            },
            SlotKind::Write(true) => match self.step {
                0 => Some(Line::DriveLow),
                1 => Some(Line::Delay { us: WRITE_1_LOW_US }),
                2 => Some(Line::Release),
                3 => Some(Line::Delay { us: WRITE_1_HIGH_US }),
                _ => None,
            },
            SlotKind::Write(false) => match self.step {
                0 => Some(Line::DriveLow),
                1 => Some(Line::Delay { us: WRITE_0_LOW_US }),
                2 => Some(Line::Release),
                3 => Some(Line::Delay { us: WRITE_0_HIGH_US }),
                _ => None,
            },
        }
    }

    /// Whether the slot is over.
    pub fn finished(&self) -> (over: bool)
        ensures
            over == self.over(),
    {
        self.step >= self.kind.script_len()
    }

    /// Takes the driver's reply to the outstanding request.
    ///
    /// A reply that answers the request moves the slot one step on and, where the
    /// request asked a question, records the answer. Any other reply is reported as an
    /// error and leaves the slot as it was.
    pub fn feed<E>(&mut self, reply: Reply<E>) -> (result: Result<(), OneWireError<E>>)
        ensures
            match reply.meaning(old(self).outstanding()) {
                Ok(sensed) => result == Ok::<(), OneWireError<E>>(())
                    && *final(self) == old(self).answered(sensed),
                Err(e) => result == Err::<(), OneWireError<E>>(e) && *final(self) == *old(self),
            },
    {
        let pending = self.pending();
        match reply.read(pending) {
            Ok(sensed) => {
                self.step = self.step + 1;
                match sensed {
                    Some(answer) => {
                        self.sample = answer;
                    },
                    None => {},
                }
                Ok(())
            },
            Err(e) => Err(e),
        }
    }
}

/// A slot whose every request is answered in turn goes through its script and ends
/// with the answer to its question as its sample; before the last answer it is not over.
pub proof fn lemma_slot_run(kind: SlotKind, level: bool, n: nat)
    requires
        n <= kind.script().len(),
    ensures
        Slot::fresh(kind).run(level, n).kind == kind,
        Slot::fresh(kind).run(level, n).step == n,
        n == kind.script().len() ==> Slot::fresh(kind).run(level, n) == Slot::ended(kind, level),
{
    reveal_with_fuel(Slot::run, 8);
    let slot = Slot::fresh(kind);
    match kind {
        SlotKind::WaitForHigh => {
            assert(slot.run(level, 1) == Slot::ended(kind, level));
        },
        SlotKind::Reset => {
            assert(slot.run(level, 5).step == 5);
            assert(slot.run(level, 7) == Slot::ended(kind, level));
        },
        SlotKind::Read => {
            assert(slot.run(level, 4).step == 4);
            assert(slot.run(level, 6) == Slot::ended(kind, level));
        },
        SlotKind::Write(true) => {
            assert(slot.run(level, 4) == Slot::ended(kind, level));
        },
        SlotKind::Write(false) => {
            assert(slot.run(level, 4) == Slot::ended(kind, level));
        },
    }
}

/// The wait for the idle line, alone or at the head of a reset, allows the line 250 µs
/// to be high. A timeout there is reported as `BusNotHigh`, and the task stays where it
/// was.
pub proof fn lemma_idle_timeout<E>(kind: SlotKind)
    requires
        kind is WaitForHigh || kind is Reset,
    ensures
        Slot::fresh(kind).outstanding() == Some(Line::AwaitHigh { timeout_us: 250 }),
        Reply::<E>::TimedOut.meaning(Slot::fresh(kind).outstanding()) == Err::<
            Option<bool>,
            OneWireError<E>,
        >(OneWireError::BusNotHigh),
{
}

} // verus!
