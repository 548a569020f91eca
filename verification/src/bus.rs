//! The bus master: it owns the pin, acts on it, and hands out the tasks that make up
//! the protocol.
//!
//! A task is a state machine. It names one request at a time; a driver carries the
//! request out (through [`OneWireAsync::perform`], or by waiting where the request is a
//! wait) and feeds the reply back, until the task is over.

use vstd::prelude::*;
use vstd::slice::slice_to_vec;
use crate::address::{Address, SearchState};
use crate::commands::{MATCH_ROM, SKIP_ROM};
use crate::error::{report, reported, OneWireResult};
use crate::line::{Line, Reply};
use crate::pin::BusPin;
use crate::search::{DeviceSearch, Search};
use crate::slot::{Slot, SlotKind};
use crate::transfer::{Reader, ReaderView, Writer, WriterView};

verus! {

/// The master of one 1-Wire bus: it owns the pin for as long as it lives.
pub struct OneWireAsync<T> {
    pin: T,
}

/// The bytes that select one device: the match command and the code, lowest byte first.
pub open spec fn match_bytes(code: u64) -> Seq<u8> {
    seq![0x55u8] + crate::address::le_bytes(code)
}

/// The bytes of a transaction after its reset pulse: the selection of one device or of
/// all, then the command.
pub open spec fn command_bytes(command: u8, address: Option<Address>) -> Seq<u8> {
    match address {
        Some(a) => match_bytes(a.0).push(command),
        None => seq![0xCCu8, command],
    }
}

impl<T: BusPin> OneWireAsync<T> {
    /// The pin as it now is.
    pub closed spec fn pin(&self) -> T {
        self.pin
    }

    /// Takes the pin and releases the line, which is high while the bus idles.
    pub fn new(pin: T) -> (result: OneWireResult<OneWireAsync<T>, T::Error>)
        ensures
            exists|r: Result<(), T::Error>, bus: OneWireAsync<T>|
                #![trigger reported(r), bus.pin()]
                pin.release_may(&bus.pin(), r) && result == match reported(r) {
                    Ok(_) => Ok(bus),
                    Err(e) => Err(e),
                },
    {
        let mut one_wire = OneWireAsync { pin };
        match one_wire.release_bus() {
            Ok(_) => Ok(one_wire),
            Err(e) => Err(e),
        }
    }

    /// Gives the pin back.
    pub fn into_inner(self) -> (pin: T)
        ensures
            pin == self.pin(),
    {
        self.pin
    }

    /// The pin itself, for what only its owner's driver can do with it, such as waiting
    /// for an edge.
    pub fn pin_mut(&mut self) -> (pin: &mut T)
        ensures
            *pin == old(self).pin(),
            final(self).pin() == *final(pin),
    {
        &mut self.pin
    }

    /// Disconnects from the line, letting a device or the pull-up resistor set its level.
    pub fn release_bus(&mut self) -> (result: OneWireResult<(), T::Error>)
        ensures
            exists|r: Result<_, T::Error>|
                #![trigger reported(r)]
                old(self).pin().release_may(&final(self).pin(), r) && result == reported(r),
    {
        let r = self.pin.release();
        report(r)
    }

    /// Drives the line low.
    pub fn set_bus_low(&mut self) -> (result: OneWireResult<(), T::Error>)
        ensures
            exists|r: Result<_, T::Error>|
                #![trigger reported(r)]
                old(self).pin().drive_low_may(&final(self).pin(), r) && result == reported(r),
    {
        let r = self.pin.drive_low();
        report(r)
    }

    /// Whether the line is high.
    pub fn is_bus_high(&mut self) -> (result: OneWireResult<bool, T::Error>)
        ensures
            exists|r: Result<_, T::Error>|
                #![trigger reported(r)]
                old(self).pin().is_high_may(&final(self).pin(), r) && result == reported(r),
    {
        let r = self.pin.is_high();
        report(r)
    }

    /// Whether the line is low.
    pub fn is_bus_low(&mut self) -> (result: OneWireResult<bool, T::Error>)
        ensures
            exists|r: Result<_, T::Error>|
                #![trigger reported(r)]
                old(self).pin().is_low_may(&final(self).pin(), r) && result == reported(r),
    {
        let r = self.pin.is_low();
        report(r)
    }

    /// Carries out a request that acts on the pin, and makes the reply to feed back.
    ///
    /// A request that is a wait is not for the pin: the pin is left alone and `None`
    /// comes back, so that the driver lets the time pass in its own way. The reply to any
    /// other request is of the kind that the request calls for, or the pin's refusal.
    pub fn perform(&mut self, line: Line) -> (reply: Option<Reply<T::Error>>)
        ensures
            reply is None <==> line.waits(),
            line.waits() ==> final(self).pin() == old(self).pin(),
            line is DriveLow ==> exists|r: Result<(), T::Error>|
                #![trigger Reply::of_action(r)]
                old(self).pin().drive_low_may(&final(self).pin(), r) && reply == Some(
                    Reply::of_action(r),
                ),
            line is Release ==> exists|r: Result<(), T::Error>|
                #![trigger Reply::of_action(r)]
                old(self).pin().release_may(&final(self).pin(), r) && reply == Some(
                    Reply::of_action(r),
                ),
            line is SenseHigh ==> exists|r: Result<bool, T::Error>|
                #![trigger Reply::of_answer(r)]
                old(self).pin().is_high_may(&final(self).pin(), r) && reply == Some(
                    Reply::of_answer(r),
                ),
            line is SenseLow ==> exists|r: Result<bool, T::Error>|
                #![trigger Reply::of_answer(r)]
                old(self).pin().is_low_may(&final(self).pin(), r) && reply == Some(
                    Reply::of_answer(r),
                ),
    {
        match line {
            Line::DriveLow => {
                let r = self.pin.drive_low();
                Some(Reply::from_action(r))
            },
            Line::Release => {
                let r = self.pin.release();
                Some(Reply::from_action(r))
            },
            Line::SenseHigh => {
                let r = self.pin.is_high();
                Some(Reply::from_answer(r))
            },
            Line::SenseLow => {
                let r = self.pin.is_low();
                Some(Reply::from_answer(r))
            },
            Line::AwaitHigh { .. } => None,
            Line::Delay { .. } => None,
        }
    }

    /// The wait for the idle line: up to 250 µs for the pull-up to bring it high. A
    /// timeout fed to the task is reported as `BusNotHigh`.
    pub fn wait_for_high(&self) -> (task: Slot)
        ensures
            task == Slot::fresh(SlotKind::WaitForHigh),
    {
        Slot::start(SlotKind::WaitForHigh)
    }

    /// A reset pulse. Once the task is over, its sample says whether a device showed
    /// its presence.
    pub fn reset(&self) -> (task: Slot)
        ensures
            task == Slot::fresh(SlotKind::Reset),
    {
        Slot::start(SlotKind::Reset)
    }

    /// A read slot. Once the task is over, its sample is the bit read.
    pub fn read_bit(&self) -> (task: Slot)
        ensures
            task == Slot::fresh(SlotKind::Read),
    {
        Slot::start(SlotKind::Read)
    }

    /// A write slot for 1.
    pub fn write_1_bit(&self) -> (task: Slot)
        ensures
            task == Slot::fresh(SlotKind::Write(true)),
    {
        Slot::start(SlotKind::Write(true))
    }

    /// A write slot for 0.
    pub fn write_0_bit(&self) -> (task: Slot)
        ensures
            task == Slot::fresh(SlotKind::Write(false)),
    {
        Slot::start(SlotKind::Write(false))
    }

    /// A write slot for the given bit.
    pub fn write_bit(&self, value: bool) -> (task: Slot)
        ensures
            task == Slot::fresh(SlotKind::Write(value)),
    {
        if value {
            self.write_1_bit()
        } else {
            self.write_0_bit()
        }
    }

    /// Reads one byte, lowest bit first.
    pub fn read_byte(&self) -> (task: Reader)
        ensures
            task@ == ReaderView::begun(1),
            task@.wf(),
    {
        Reader::begin(1)
    }

    /// Reads `count` bytes, one after the other.
    pub fn read_bytes(&self, count: usize) -> (task: Reader)
        ensures
            task@ == ReaderView::begun(count as int),
            task@.wf(),
    {
        Reader::begin(count)
    }

    /// Writes one byte, lowest bit first.
    pub fn write_byte(&self, value: u8) -> (task: Writer)
        ensures
            task@ == WriterView::begun(seq![value], false),
            task@.wf(),
    {
        let mut bytes: Vec<u8> = Vec::new();
        bytes.push(value);
        assert(bytes@ =~= seq![value]);
        Writer::begin(bytes, false)
    }

    /// Writes the bytes given, one after the other.
    pub fn write_bytes(&self, bytes: &[u8]) -> (task: Writer)
        ensures
            task@ == WriterView::begun(bytes@, false),
            task@.wf(),
    {
        Writer::begin(slice_to_vec(bytes), false)
    }

    /// Selects one device: the match command, then its code. To be used after a reset,
    /// with the command for the device right behind it.
    pub fn match_address(&self, address: &Address) -> (task: Writer)
        ensures
            task@ == WriterView::begun(match_bytes(address.0), false),
            task@.wf(),
    {
        Writer::begin(selection(Some(address)), false)
    }

    /// Selects all devices at once: the skip command. To be used after a reset, with the
    /// command for the devices right behind it.
    pub fn skip_address(&self) -> (task: Writer)
        ensures
            task@ == WriterView::begun(seq![0xCCu8], false),
            task@.wf(),
    {
        Writer::begin(selection(None), false)
    }

    /// Opens a transaction: a reset pulse, the selection of the device given or of all
    /// devices, then the command. What the command makes the devices send or expect is
    /// the caller's to read or write afterwards.
    ///
    /// The task goes on whether or not a device answered the reset; its `presence`
    /// says which, for the caller to check.
    pub fn send_command(&self, command: u8, address: Option<&Address>) -> (task: Writer)
        ensures
            task@ == WriterView::begun(
                command_bytes(
                    command,
                    match address {
                        Some(a) => Some(*a),
                        None => None,
                    },
                ),
                true,
            ),
            task@.wf(),
    {
        let mut bytes = selection(address);
        bytes.push(command);
        proof {
            match address {
                Some(a) => {},
                None => {
                    assert(bytes@ =~= seq![0xCCu8, command]);
                },
            }
        }
        Writer::begin(bytes, true)
    }

    /// The cursor for going through all devices on the bus, or through those in alarm
    /// state only.
    pub fn devices(&self, only_alarming: bool) -> (cursor: DeviceSearch)
        ensures
            cursor == DeviceSearch::begun(only_alarming),
    {
        DeviceSearch::begin(only_alarming)
    }

    /// One call of the search: with `None` it finds the first device, with the state
    /// that a call returned it finds the next one.
    pub fn device_search(
        &self,
        search_state: Option<&SearchState>,
        only_alarming: bool,
    ) -> (task: Search)
        ensures
            task == Search::begun(
                match search_state {
                    Some(s) => Some(*s),
                    None => None,
                },
                only_alarming,
            ),
            task.wf(),
    {
        Search::begin(search_state, only_alarming)
    }
}

/// The bytes that select the device given, or all devices.
fn selection(address: Option<&Address>) -> (bytes: Vec<u8>)
    ensures
        bytes@ == match address {
            Some(a) => match_bytes(a.0),
            None => seq![0xCCu8],
        },
{
    let mut bytes: Vec<u8> = Vec::new();
    match address {
        Some(a) => {
            bytes.push(MATCH_ROM);
            let mut code = a.to_le_bytes();
            bytes.append(&mut code);
            assert(bytes@ =~= match_bytes(a.0));
        },
        None => {
            bytes.push(SKIP_ROM);
            assert(bytes@ =~= seq![0xCCu8]);
        },
    }
    bytes
}

} // verus!
