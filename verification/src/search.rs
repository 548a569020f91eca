//! The ROM search: one pass walks the 64 bit positions of the codes on the bus and
//! comes out with one code and the branches left for later passes.

use vstd::prelude::*;
use crate::address::{Address, SearchState};
use crate::bits::{put_bit, test_bit};
use crate::commands::{SEARCH_ALARM, SEARCH_NORMAL};
use crate::crc::check_crc8;
use crate::error::OneWireError;
use crate::line::{Line, Reply};
use crate::slot::{Slot, SlotKind};

verus! {

/// The bit that a pass goes on with where no earlier pass binds it: 0 if a device
/// answered with 0, else 1 if one answered with 1, and none if nothing answered.
pub open spec fn explored(zero: bool, one: bool) -> Option<bool> {
    if zero {
        Some(false)
    } else if one {
        Some(true)
    } else {
        None
    }
}

/// One pass of a search, as far as it has come.
///
/// `prior` is the state that the pass resumes from, if any. `index` is the next bit
/// position; below it, `address` holds the bits that were written back to the bus.
/// `discrepancies` and `last_discrepancy_index` grow into the fields of the state that
/// the pass ends with.
#[derive(Debug, Clone, Copy, PartialEq, Eq)]
pub struct Pass {
    pub prior: Option<SearchState>,
    pub address: u64,
    pub discrepancies: u64,
    pub last_discrepancy_index: u8,
    pub index: u8,
}

impl Pass {
    /// A pass at position 0. A resumed pass starts from the code found last, with the
    /// branch point that it is about to take struck from the open ones.
    pub open spec fn begun(prior: Option<SearchState>) -> Pass {
        match prior {
            Some(s) => Pass {
                prior,
                address: s.address,
                discrepancies: crate::bits::with_bit(
                    s.discrepancies,
                    s.last_discrepancy_index as u64,
                    false,
                ),
                last_discrepancy_index: 0,
                index: 0,
            },
            None => Pass {
                prior,
                address: 0,
                discrepancies: 0,
                last_discrepancy_index: 0,
                index: 0,
            },
        }
    }

    /// Whether the pass is below the branch point of the state it resumes from, where it
    /// repeats the bits of the code found last.
    pub open spec fn replaying(self) -> bool {
        self.prior matches Some(s) && self.index < s.last_discrepancy_index
    }

    /// Whether the pass is at the branch point of the state it resumes from, where it
    /// turns to the branch not yet walked.
    pub open spec fn turning(self) -> bool {
        self.prior matches Some(s) && self.index == s.last_discrepancy_index
    }

    /// Whether all 64 positions are decided.
    pub open spec fn complete(self) -> bool {
        self.index >= 64
    }

    /// The bit to write back at the current position, given whether a device answered
    /// with 0 and whether one answered with 1; none where the answers cannot be.
    pub open spec fn choice(self, zero: bool, one: bool) -> Option<bool> {
        if self.complete() {
            None
        } else if self.replaying() {
            Some(crate::bits::bit(self.prior->0.address, self.index as u64))
        } else if self.turning() {
            if zero && one {
                Some(true)
            } else {
                None
            }
        } else {
            explored(zero, one)
        }
    }

    /// The pass one position further, after the answers `zero` and `one`.
    pub open spec fn chosen(self, zero: bool, one: bool) -> Pass {
        let i = self.index as u64;
        let next = (self.index + 1) as u8;
        if self.replaying() {
            Pass {
                last_discrepancy_index: if crate::bits::bit(self.prior->0.discrepancies, i) {
                    self.index
                } else {
                    self.last_discrepancy_index
                },
                index: next,
                ..self
            }
        } else if self.turning() {
            Pass { address: crate::bits::with_bit(self.address, i, true), index: next, ..self }
        } else if zero && one {
            Pass {
                address: crate::bits::with_bit(self.address, i, false),
                discrepancies: crate::bits::with_bit(self.discrepancies, i, true),
                last_discrepancy_index: self.index,
                index: next,
                ..self
            }
        } else {
            Pass { address: crate::bits::with_bit(self.address, i, !zero), index: next, ..self }
        }
    }

    /// What a pass comes to: the code with the state for the next pass, if all positions
    /// are decided and the code is intact.
    pub open spec fn found<E>(self) -> Result<(Address, SearchState), OneWireError<E>> {
        if !self.complete() {
            Err(OneWireError::UnexpectedResponse)
        } else if !crate::crc::intact(crate::address::le_bytes(self.address)) {
            Err(OneWireError::CrcMismatch)
        } else {
            Ok(
                (
                    Address(self.address),
                    SearchState {
                        address: self.address,
                        discrepancies: self.discrepancies,
                        last_discrepancy_index: self.last_discrepancy_index,
                    },
                ),
            )
        }
    }

    /// Starts a pass, fresh or from the state of the pass before.
    pub fn begin(prior: Option<&SearchState>) -> (pass: Pass)
        ensures
            pass == Pass::begun(
                match prior {
                    Some(s) => Some(*s),
                    None => None,
                },
            ),
    {
        match prior {
            Some(s) => Pass {
                prior: Some(*s),
                address: s.address,
                discrepancies: put_bit(s.discrepancies, s.last_discrepancy_index, false),
                last_discrepancy_index: 0,
                index: 0,
            },
            None => Pass {
                prior: None,
                address: 0,
                discrepancies: 0,
                last_discrepancy_index: 0,
                index: 0,
            },
        }
    }

    /// Decides the current position from the two answers and moves to the next.
    ///
    /// Returns the bit to write back. Where the answers cannot be (nothing answered, or
    /// the branch point of the pass before no longer shows both values) it returns
    /// `None` and the pass stays where it is.
    pub fn decide(&mut self, zero: bool, one: bool) -> (bit: Option<bool>)
        ensures
            bit == old(self).choice(zero, one),
            *final(self) == if bit is Some {
                old(self).chosen(zero, one)
            } else {
                *old(self)
            },
    {
        if self.index >= 64 {
            return None;
        }
        let i: u8 = self.index;
        match self.prior {
            Some(s) => {
                if i < s.last_discrepancy_index {
                    if test_bit(s.discrepancies, i) {
                        self.last_discrepancy_index = i;
                    }
                    self.index = i + 1;
                    return Some(test_bit(s.address, i));
                }
                if i == s.last_discrepancy_index {
                    if !(zero && one) {
                        return None;
                    }
                    self.address = put_bit(self.address, i, true);
                    self.index = i + 1;
                    return Some(true);
                }
            },
            None => {},
        }
        if zero && one {
            self.address = put_bit(self.address, i, false);
            self.discrepancies = put_bit(self.discrepancies, i, true);
            self.last_discrepancy_index = i;
            self.index = i + 1;
            Some(false)
        } else if zero || one {
            self.address = put_bit(self.address, i, !zero);
            self.index = i + 1;
            Some(!zero)
        } else {
            None
        }
    }

    /// Ends the pass: checks the code found and hands it out with the state for the
    /// next pass. A code that is not intact is not handed out.
    pub fn finish<E>(&self) -> (result: Result<(Address, SearchState), OneWireError<E>>)
        ensures
            result == self.found::<E>(),
    {
        if self.index < 64 {
            return Err(OneWireError::UnexpectedResponse);
        }
        let address = Address(self.address);
        let bytes = address.to_le_bytes();
        match check_crc8::<E>(bytes.as_slice()) {
            Ok(()) => Ok(
                (
                    address,
                    SearchState {
                        address: self.address,
                        discrepancies: self.discrepancies,
                        last_discrepancy_index: self.last_discrepancy_index,
                    },
                ),
            ),
            Err(e) => Err(e),
        }
    }
}

/// Where a search task stands.
#[derive(Debug, Clone, Copy, PartialEq, Eq, Structural)]
pub enum Stage {
    /// The reset pulse is in progress.
    Reset,
    /// The write slot for the given bit of the search command is in progress.
    Command(u8),
    /// The first read slot of a position: does a device have 0 there?
    AskZero,
    /// The second read slot of a position: does a device have 1 there?
    AskOne,
    /// The write slot that tells the devices which bit was chosen.
    Tell,
    /// Over: there was nothing to search.
    Nothing,
    /// Over: the answers could not be.
    Violated,
    /// Over: all positions are decided.
    Complete,
}

/// One call of the search as a task: reset, search command, then for each position two
/// read slots and a write slot.
///
/// A read slot samples the line high where no device pulls it low, so the answer
/// "a device has this value" is the sample negated. `zero` keeps the first answer of
/// a position until the second arrives.
#[derive(Debug, Clone, Copy, PartialEq, Eq)]
pub struct Search {
    pub only_alarming: bool,
    pub stage: Stage,
    pub slot: Slot,
    pub pass: Pass,
    pub zero: bool,
}

impl Search {
    /// The command byte that opens the pass.
    pub open spec fn command(self) -> u8 {
        if self.only_alarming {
            0xEC
        } else {
            0xF0
        }
    }

    /// A search that has done nothing yet. From a state with no branch left it is over
    /// at once, with nothing found and nothing asked of the bus.
    pub open spec fn begun(prior: Option<SearchState>, only_alarming: bool) -> Search {
        Search {
            only_alarming,
            stage: if prior matches Some(s) && s.exhausted() {
                Stage::Nothing
            } else {
                Stage::Reset
            },
            slot: Slot::fresh(SlotKind::Reset),
            pass: Pass::begun(prior),
            zero: false,
        }
    }

    /// Whether the search has ended, one way or another.
    pub open spec fn over(self) -> bool {
        self.stage is Nothing || self.stage is Violated || self.stage is Complete
    }

    /// The request that is outstanding, if the search is not over.
    pub open spec fn outstanding(self) -> Option<Line> {
        if self.over() {
            None
        } else {
            self.slot.outstanding()
        }
    }

    /// The search after the slot in progress ended with `sample`.
    pub open spec fn turned(self, sample: bool) -> Search {
        match self.stage {
            Stage::Reset => if sample {
                Search {
                    stage: Stage::Command(0),
                    slot: Slot::fresh(SlotKind::Write(crate::crc::byte_bit(self.command(), 0))),
                    ..self
                }
            } else {
                Search { stage: Stage::Nothing, ..self }
            },
            Stage::Command(k) => if k < 7 {
                Search {
                    stage: Stage::Command((k + 1) as u8),
                    slot: Slot::fresh(
                        SlotKind::Write(crate::crc::byte_bit(self.command(), (k + 1) as u8)),
                    ),
                    ..self
                }
            } else {
                Search { stage: Stage::AskZero, slot: Slot::fresh(SlotKind::Read), ..self }
            },
            Stage::AskZero => Search {
                stage: Stage::AskOne,
                slot: Slot::fresh(SlotKind::Read),
                zero: !sample,
                ..self
            },
            Stage::AskOne => match self.pass.choice(self.zero, !sample) {
                Some(bit) => Search {
                    stage: Stage::Tell,
                    slot: Slot::fresh(SlotKind::Write(bit)),
                    pass: self.pass.chosen(self.zero, !sample),
                    ..self
                },
                None => Search { stage: Stage::Violated, ..self },
            },
            Stage::Tell => if self.pass.complete() {
                Search { stage: Stage::Complete, ..self }
            } else {
                Search { stage: Stage::AskZero, slot: Slot::fresh(SlotKind::Read), ..self }
            },
            _ => self,
        }
    }

    /// The search after its outstanding request was answered with `sensed`.
    pub open spec fn answered(self, sensed: Option<bool>) -> Search {
        let slot = self.slot.answered(sensed);
        if !slot.over() {
            Search { slot, ..self }
        } else {
            Search { slot, ..self }.turned(slot.sample)
        }
    }

    /// The search after the driver answered its outstanding request, a question with
    /// `level`; the search itself if it is over.
    pub open spec fn stepped(self, level: bool) -> Search {
        match self.outstanding() {
            Some(line) => self.answered(
                if line.asks() {
                    Some(level)
                } else {
                    None
                },
            ),
            None => self,
        }
    }

    /// The search after the driver answered `n` requests in this way.
    pub open spec fn run(self, level: bool, n: nat) -> Search
        decreases n,
    {
        if n == 0 {
            self
        } else {
            self.run(level, (n - 1) as nat).stepped(level)
        }
    }

    /// The search after the whole slot in progress, its question, if it asks one,
    /// answered with `level`.
    pub open spec fn after_slot(self, level: bool) -> Search {
        let slot = Slot::ended(self.slot.kind, level);
        Search { slot, ..self }.turned(slot.sample)
    }

    /// What the search has come to. `Ok(None)`: there was nothing to search, because no
    /// branch was left or no device answered the reset. A search that is still under way
    /// has no result to vouch for.
    pub open spec fn outcome<E>(self) -> Result<Option<(Address, SearchState)>, OneWireError<E>> {
        match self.stage {
            Stage::Nothing => Ok(None),
            Stage::Complete => match self.pass.found::<E>() {
                Ok(found) => Ok(Some(found)),
                Err(e) => Err(e),
            },
            _ => Err(OneWireError::UnexpectedResponse),
        }
    }

    /// Whether the slot in progress is the one that belongs at the stage.
    pub open spec fn wf(self) -> bool {
        &&& !self.over() ==> !self.slot.over()
        &&& self.stage is Reset || self.stage is Command ==> !self.pass.complete()
        &&& self.stage is Reset ==> self.slot.kind == SlotKind::Reset
        &&& self.stage matches Stage::Command(k) ==> k < 8 && self.slot.kind == SlotKind::Write(
            crate::crc::byte_bit(self.command(), k),
        )
        &&& self.stage is AskZero || self.stage is AskOne ==> self.slot.kind == SlotKind::Read
            && !self.pass.complete()
        &&& self.stage is Tell ==> self.slot.kind is Write
        &&& self.stage is Complete ==> self.pass.complete()
    }

    /// Starts a search: fresh with `None`, or from the state that the call before
    /// returned. With `only_alarming`, only devices in alarm state take part.
    pub fn begin(prior: Option<&SearchState>, only_alarming: bool) -> (task: Search)
        ensures
            task == Search::begun(
                match prior {
                    Some(s) => Some(*s),
                    None => None,
                },
                only_alarming,
            ),
            task.wf(),
    {
        let exhausted = match prior {
            Some(s) => s.discrepancies == 0,
            None => false,
        };
        Search {
            only_alarming,
            stage: if exhausted {
                Stage::Nothing
            } else {
                Stage::Reset
            },
            slot: Slot::start(SlotKind::Reset),
            pass: Pass::begin(prior),
            zero: false,
        }
    }

    /// Whether the search has ended.
    pub fn is_over(&self) -> (over: bool)
        ensures
            over == self.over(),
    {
        match self.stage {
            Stage::Nothing => true,
            Stage::Violated => true,
            Stage::Complete => true,
            _ => false,
        }
    }

    /// The request that the driver has to carry out next; `None` once the search is over.
    pub fn pending(&self) -> (line: Option<Line>)
        ensures
            line == self.outstanding(),
    {
        if self.is_over() {
            None
        } else {
            self.slot.pending()
        }
    }

    fn command_bit(&self, k: u8) -> (set: bool)
        ensures
            set == crate::crc::byte_bit(self.command(), k),
    {
        let command: u8 = if self.only_alarming {
            SEARCH_ALARM
        } else {
            SEARCH_NORMAL
        };
        k < 8 && (command >> k) & 1 == 1
    }

    /// Takes the driver's reply to the outstanding request.
    ///
    /// A reply that answers the request moves the search on: within the slot, or, where
    /// the slot ends, to what follows it. Any other reply is reported as an error and
    /// leaves the search as it was.
    pub fn feed<E>(&mut self, reply: Reply<E>) -> (result: Result<(), OneWireError<E>>)
        ensures
            match reply.meaning(old(self).outstanding()) {
                Ok(sensed) => result == Ok::<(), OneWireError<E>>(())
                    && *final(self) == old(self).answered(sensed),
                Err(e) => result == Err::<(), OneWireError<E>>(e) && *final(self) == *old(self),
            },
            old(self).wf() ==> final(self).wf(),
    {
        if self.is_over() {
            return match reply.read(None) {
                Ok(_) => Err(OneWireError::UnexpectedResponse),
                Err(e) => Err(e),
            };
        }
        match self.slot.feed(reply) {
            Ok(()) => {},
            Err(e) => {
                return Err(e);
            },
        }
        if self.slot.finished() {
            let sample: bool = self.slot.sample;
            match self.stage {
                Stage::Reset => {
                    if sample {
                        self.stage = Stage::Command(0);
                        self.slot = Slot::start(SlotKind::Write(self.command_bit(0)));
                    } else {
                        self.stage = Stage::Nothing;
                    }
                },
                Stage::Command(k) => {
                    if k < 7 {
                        self.stage = Stage::Command(k + 1);
                        self.slot = Slot::start(SlotKind::Write(self.command_bit(k + 1)));
                    } else {
                        self.stage = Stage::AskZero;
                        self.slot = Slot::start(SlotKind::Read);
                    }
                },
                Stage::AskZero => {
                    self.zero = !sample;
                    self.stage = Stage::AskOne;
                    self.slot = Slot::start(SlotKind::Read);
                },
                Stage::AskOne => {
                    match self.pass.decide(self.zero, !sample) {
                        Some(bit) => {
                            self.stage = Stage::Tell;
                            self.slot = Slot::start(SlotKind::Write(bit));
                        },
                        None => {
                            self.stage = Stage::Violated;
                        },
                    }
                },
                Stage::Tell => {
                    if self.pass.index >= 64 {
                        self.stage = Stage::Complete;
                    } else {
                        self.stage = Stage::AskZero;
                        self.slot = Slot::start(SlotKind::Read);
                    }
                },
                _ => {},
            }
        }
        Ok(())
    }

    /// The result of the search: the code found with the state for the next call, or
    /// `None` where there was nothing to search.
    ///
    /// It fails with `UnexpectedResponse` if the answers on the bus could not be, or if
    /// the search has not ended, and with `CrcMismatch` if the code found is not intact.
    pub fn finish<E>(&self) -> (result: Result<Option<(Address, SearchState)>, OneWireError<E>>)
        ensures
            result == self.outcome::<E>(),
    {
        match self.stage {
            Stage::Nothing => Ok(None),
            Stage::Complete => match self.pass.finish::<E>() {
                Ok(found) => Ok(Some(found)),
                Err(e) => Err(e),
            },
            _ => Err(OneWireError::UnexpectedResponse),
        }
    }
}

/// Within a slot the search does nothing but let the slot go on.
proof fn lemma_within_slot(search: Search, level: bool, n: nat)
    requires
        !search.over(),
        search.slot == Slot::fresh(search.slot.kind),
        n < search.slot.kind.script().len(),
    ensures
        search.run(level, n) == (Search { slot: search.slot.run(level, n), ..search }),
    decreases n,
{
    if n > 0 {
        lemma_within_slot(search, level, (n - 1) as nat);
        crate::slot::lemma_slot_run(search.slot.kind, level, (n - 1) as nat);
        crate::slot::lemma_slot_run(search.slot.kind, level, n);
    }
}

/// A search whose driver answers every request of the slot in progress comes to what
/// follows the slot: answer by answer it does what `after_slot` says in one step.
pub proof fn lemma_slot_through(search: Search, level: bool)
    requires
        !search.over(),
        search.slot == Slot::fresh(search.slot.kind),
    ensures
        search.run(level, search.slot.kind.script().len()) == search.after_slot(level),
{
    let kind = search.slot.kind;
    let len = kind.script().len();
    assert(len >= 1) by {
        crate::slot::lemma_slot_run(kind, level, 0);
        match kind {
            SlotKind::WaitForHigh => {},
            SlotKind::Reset => {},
            SlotKind::Read => {},
            SlotKind::Write(true) => {},
            SlotKind::Write(false) => {},
        }
    }
    lemma_within_slot(search, level, (len - 1) as nat);
    crate::slot::lemma_slot_run(kind, level, (len - 1) as nat);
    crate::slot::lemma_slot_run(kind, level, len);
}

/// The cursor of an enumeration: call after call of the search, each from the state
/// that the one before returned, until nothing is left or a call fails.
#[derive(Debug, Clone, Copy, PartialEq, Eq)]
pub struct DeviceSearch {
    pub state: Option<SearchState>,
    pub finished: bool,
    pub only_alarming: bool,
}

impl DeviceSearch {
    /// An enumeration that has not begun.
    pub open spec fn begun(only_alarming: bool) -> DeviceSearch {
        DeviceSearch { state: None, finished: false, only_alarming }
    }

    /// The enumeration after a search came out with `outcome`.
    pub open spec fn recorded<E>(
        self,
        outcome: Result<Option<(Address, SearchState)>, OneWireError<E>>,
    ) -> DeviceSearch {
        if self.finished {
            self
        } else {
            match outcome {
                Ok(Some((_, state))) => DeviceSearch { state: Some(state), ..self },
                _ => DeviceSearch { state: None, finished: true, ..self },
            }
        }
    }

    /// What the enumeration yields after a search came out with `outcome`: the code
    /// found, or the failure, or nothing once it has ended.
    pub open spec fn yielded<E>(
        self,
        outcome: Result<Option<(Address, SearchState)>, OneWireError<E>>,
    ) -> Option<Result<Address, OneWireError<E>>> {
        if self.finished {
            None
        } else {
            match outcome {
                Ok(Some((address, _))) => Some(Ok(address)),
                Ok(None) => None,
                Err(e) => Some(Err(e)),
            }
        }
    }

    /// Starts an enumeration of all devices, or of those in alarm state only.
    pub fn begin(only_alarming: bool) -> (cursor: DeviceSearch)
        ensures
            cursor == DeviceSearch::begun(only_alarming),
    {
        DeviceSearch { state: None, finished: false, only_alarming }
    }

    /// The search to run next; `None` once the enumeration has ended.
    pub fn next_search(&self) -> (task: Option<Search>)
        ensures
            task == if self.finished {
                None
            } else {
                Some(Search::begun(self.state, self.only_alarming))
            },
            task matches Some(search) ==> search.wf(),
    {
        if self.finished {
            None
        } else {
            Some(Search::begin(self.state.as_ref(), self.only_alarming))
        }
    }

    /// Takes the outcome of the search that `next_search` handed out and says what the
    /// enumeration yields for it. A search that found nothing, or failed, ends the
    /// enumeration; to go through the devices again, begin a new one.
    pub fn record<E>(
        &mut self,
        outcome: Result<Option<(Address, SearchState)>, OneWireError<E>>,
    ) -> (item: Option<Result<Address, OneWireError<E>>>)
        ensures
            item == old(self).yielded(outcome),
            *final(self) == old(self).recorded(outcome),
    {
        if self.finished {
            return None;
        }
        match outcome {
            Ok(Some((address, state))) => {
                self.state = Some(state);
                Some(Ok(address))
            },
            Ok(None) => {
                self.state = None;
                self.finished = true;
                None
            },
            Err(e) => {
                self.state = None;
                self.finished = true;
                Some(Err(e))
            },
        }
    }
}

} // verus!
