//! The tasks run against a simulated line with simulated devices on it.

use one_wire_bus::crc::crc8;
use one_wire_bus::{
    Address, BusPin, DeviceSearch, Line, OneWireAsync, OneWireError, Reader, Reply, Search,
    SearchState, Slot, Writer,
};

/// The simulated pin's failure.
#[derive(Debug, Clone, Copy, PartialEq, Eq)]
struct Jam;

#[derive(Debug, Clone, Copy, PartialEq, Eq)]
enum Mode {
    /// Waits for a reset.
    Idle,
    /// Takes the bits of the ROM command.
    RomCommand { got: u8, n: u8 },
    /// Takes part in a search: sends its bit, the complement, then takes the choice.
    Search { index: u8, phase: u8 },
    /// Compares the code that the master sends with its own.
    Match { index: u8 },
    /// Is addressed: takes bytes.
    Selected { got: u8, n: u8 },
    /// Sends the bits of `to_send`, lowest first.
    Send { n: usize },
}

struct Device {
    rom: u64,
    alarm: bool,
    mode: Mode,
    heard: Vec<u8>,
    to_send: Vec<u8>,
}

impl Device {
    fn new(rom: u64) -> Device {
        Device { rom, alarm: false, mode: Mode::Idle, heard: Vec::new(), to_send: Vec::new() }
    }

    fn rom_bit(&self, index: u8) -> bool {
        (self.rom >> index) & 1 == 1
    }

    /// A time slot with a short low pulse: the device sends a bit or takes a 1.
    /// Returns whether the device holds the line low.
    fn short_slot(&mut self) -> bool {
        match self.mode {
            Mode::Search { index, phase: 0 } => {
                self.mode = Mode::Search { index, phase: 1 };
                !self.rom_bit(index)
            }
            Mode::Search { index, phase: 1 } => {
                self.mode = Mode::Search { index, phase: 2 };
                self.rom_bit(index)
            }
            Mode::Send { n } => {
                self.mode = Mode::Send { n: n + 1 };
                match self.to_send.get(n / 8) {
                    Some(byte) => (byte >> (n % 8)) & 1 == 0,
                    None => false,
                }
            }
            _ => {
                self.take(true);
                false
            }
        }
    }

    /// A bit written by the master.
    fn take(&mut self, bit: bool) {
        match self.mode {
            Mode::Idle | Mode::Send { .. } => {}
            Mode::RomCommand { got, n } => {
                let got = got | ((bit as u8) << n);
                if n < 7 {
                    self.mode = Mode::RomCommand { got, n: n + 1 };
                } else {
                    self.mode = match got {
                        0xF0 => Mode::Search { index: 0, phase: 0 },
                        0xEC if self.alarm => Mode::Search { index: 0, phase: 0 },
                        0x55 => Mode::Match { index: 0 },
                        0xCC => Mode::Selected { got: 0, n: 0 },
                        _ => Mode::Idle,
                    };
                }
            }
            Mode::Search { index, phase } => {
                if phase != 2 || self.rom_bit(index) != bit {
                    self.mode = Mode::Idle;
                } else if index == 63 {
                    self.mode = Mode::Selected { got: 0, n: 0 };
                } else {
                    self.mode = Mode::Search { index: index + 1, phase: 0 };
                }
            }
            Mode::Match { index } => {
                if self.rom_bit(index) != bit {
                    self.mode = Mode::Idle;
                } else if index == 63 {
                    self.mode = Mode::Selected { got: 0, n: 0 };
                } else {
                    self.mode = Mode::Match { index: index + 1 };
                }
            }
            Mode::Selected { got, n } => {
                let got = got | ((bit as u8) << n);
                if n < 7 {
                    self.mode = Mode::Selected { got, n: n + 1 };
                } else {
                    self.heard.push(got);
                    self.mode = Mode::Selected { got: 0, n: 0 };
                }
            }
        }
    }
}

/// The line, the pull-up and the devices, seen from the master's pin.
struct Wire {
    devices: Vec<Device>,
    master_low: bool,
    low_for: u32,
    since_release: u32,
    pulled_for: u32,
    stuck_low: bool,
    jammed: bool,
    log: Vec<Line>,
}

impl Wire {
    fn new(roms: &[u64]) -> Wire {
        Wire {
            devices: roms.iter().map(|rom| Device::new(*rom)).collect(),
            master_low: false,
            low_for: 0,
            since_release: 1000,
            pulled_for: 0,
            stuck_low: false,
            jammed: false,
            log: Vec::new(),
        }
    }

    fn high(&self) -> bool {
        !(self.master_low || self.stuck_low || self.since_release < self.pulled_for)
    }

    fn delay(&mut self, us: u32) {
        if self.master_low {
            self.low_for += us;
        } else {
            self.since_release += us;
        }
    }

    fn await_high(&mut self, timeout_us: u32) -> bool {
        if self.high() {
            return true;
        }
        self.delay(timeout_us);
        self.high()
    }
}

impl BusPin for Wire {
    type Error = Jam;

    fn drive_low(&mut self) -> Result<(), Jam> {
        if self.jammed {
            return Err(Jam);
        }
        self.master_low = true;
        self.low_for = 0;
        Ok(())
    }

    fn release(&mut self) -> Result<(), Jam> {
        if self.jammed {
            return Err(Jam);
        }
        if !self.master_low {
            return Ok(());
        }
        self.master_low = false;
        self.since_release = 0;
        self.pulled_for = 0;
        if self.low_for >= 480 {
            for device in self.devices.iter_mut() {
                device.mode = Mode::RomCommand { got: 0, n: 0 };
            }
            if !self.devices.is_empty() {
                self.pulled_for = 240;
            }
        } else if self.low_for < 15 {
            for device in self.devices.iter_mut() {
                if device.short_slot() {
                    self.pulled_for = 30;
                }
            }
        } else {
            for device in self.devices.iter_mut() {
                device.take(false);
            }
        }
        Ok(())
    }

    fn is_high(&mut self) -> Result<bool, Jam> {
        if self.jammed {
            return Err(Jam);
        }
        Ok(self.high())
    }

    fn is_low(&mut self) -> Result<bool, Jam> {
        if self.jammed {
            return Err(Jam);
        }
        Ok(!self.high())
    }
}

trait Task {
    fn pending(&self) -> Option<Line>;
    fn feed(&mut self, reply: Reply<Jam>) -> Result<(), OneWireError<Jam>>;
}

impl Task for Slot {
    fn pending(&self) -> Option<Line> {
        Slot::pending(self)
    }
    fn feed(&mut self, reply: Reply<Jam>) -> Result<(), OneWireError<Jam>> {
        Slot::feed(self, reply)
    }
}

impl Task for Writer {
    fn pending(&self) -> Option<Line> {
        Writer::pending(self)
    }
    fn feed(&mut self, reply: Reply<Jam>) -> Result<(), OneWireError<Jam>> {
        Writer::feed(self, reply)
    }
}

impl Task for Reader {
    fn pending(&self) -> Option<Line> {
        Reader::pending(self)
    }
    fn feed(&mut self, reply: Reply<Jam>) -> Result<(), OneWireError<Jam>> {
        Reader::feed(self, reply)
    }
}

impl Task for Search {
    fn pending(&self) -> Option<Line> {
        Search::pending(self)
    }
    fn feed(&mut self, reply: Reply<Jam>) -> Result<(), OneWireError<Jam>> {
        Search::feed(self, reply)
    }
}

/// Carries out one request the way a driver does: on the pin where it acts on the pin,
/// by letting simulated time pass where it is a wait.
fn answer(bus: &mut OneWireAsync<Wire>, line: Line) -> Reply<Jam> {
    bus.pin_mut().log.push(line);
    match bus.perform(line) {
        Some(reply) => reply,
        None => match line {
            Line::Delay { us } => {
                bus.pin_mut().delay(us);
                Reply::Done
            }
            Line::AwaitHigh { timeout_us } => {
                if bus.pin_mut().await_high(timeout_us) {
                    Reply::Done
                } else {
                    Reply::TimedOut
                }
            }
            _ => unreachable!(),
        },
    }
}

fn run<T: Task>(bus: &mut OneWireAsync<Wire>, task: &mut T) -> Result<(), OneWireError<Jam>> {
    while let Some(line) = task.pending() {
        let reply = answer(bus, line);
        task.feed(reply)?;
    }
    Ok(())
}

fn search(
    bus: &mut OneWireAsync<Wire>,
    state: Option<&SearchState>,
    only_alarming: bool,
) -> Result<Option<(Address, SearchState)>, OneWireError<Jam>> {
    let mut task = bus.device_search(state, only_alarming);
    run(bus, &mut task)?;
    task.finish()
}

/// A ROM code with the right check byte.
fn rom(family: u8, serial: u64) -> u64 {
    let mut bytes = [0u8; 8];
    bytes[0] = family;
    for k in 0..6 {
        bytes[k + 1] = (serial >> (8 * k)) as u8;
    }
    bytes[7] = crc8(&bytes[..7]);
    u64::from_le_bytes(bytes)
}

fn bus_with(roms: &[u64]) -> OneWireAsync<Wire> {
    let mut bus = OneWireAsync::new(Wire::new(roms)).unwrap();
    bus.pin_mut().since_release = 1000;
    bus
}

/// The order in which a search finds codes: by the bits as they go over the wire.
fn in_wire_order(roms: &[u64]) -> Vec<u64> {
    let mut sorted = roms.to_vec();
    sorted.sort_by_key(|rom| rom.reverse_bits());
    sorted
}

fn enumerate(bus: &mut OneWireAsync<Wire>, only_alarming: bool) -> (Vec<u64>, Option<SearchState>) {
    let mut found = Vec::new();
    let mut state: Option<SearchState> = None;
    loop {
        match search(bus, state.as_ref(), only_alarming).unwrap() {
            Some((address, next)) => {
                found.push(address.0);
                state = Some(next);
            }
            None => return (found, state),
        }
        assert!(found.len() <= 64);
    }
}

const RESET: [Line; 7] = [
    Line::AwaitHigh { timeout_us: 250 },
    Line::DriveLow,
    Line::Delay { us: 480 },
    Line::Release,
    Line::Delay { us: 70 },
    Line::SenseLow,
    Line::Delay { us: 410 },
];

#[test]
fn reset_follows_its_script_and_finds_a_device() {
    let mut bus = bus_with(&[rom(0x28, 1)]);
    let mut task = bus.reset();
    assert_eq!(run(&mut bus, &mut task), Ok(()));
    assert!(task.sample);
    assert_eq!(bus.pin_mut().log, RESET.to_vec());
}

#[test]
fn reset_on_an_empty_bus_finds_nothing() {
    let mut bus = bus_with(&[]);
    let mut task = bus.reset();
    assert_eq!(run(&mut bus, &mut task), Ok(()));
    assert!(!task.sample);
    assert_eq!(bus.pin_mut().log, RESET.to_vec());
}

#[test]
fn reset_on_a_line_that_stays_low_fails_with_bus_not_high() {
    let mut bus = bus_with(&[rom(0x28, 1)]);
    bus.pin_mut().stuck_low = true;
    let mut task = bus.reset();
    assert_eq!(run(&mut bus, &mut task), Err(OneWireError::BusNotHigh));
    assert_eq!(bus.pin_mut().log, vec![Line::AwaitHigh { timeout_us: 250 }]);
}

#[test]
fn wait_for_high_times_out_after_250_us() {
    let mut bus = bus_with(&[]);
    bus.pin_mut().stuck_low = true;
    let mut task = bus.wait_for_high();
    assert_eq!(task.pending(), Some(Line::AwaitHigh { timeout_us: 250 }));
    assert_eq!(run(&mut bus, &mut task), Err(OneWireError::BusNotHigh));
    assert_eq!(bus.pin_mut().log, vec![Line::AwaitHigh { timeout_us: 250 }]);
}

#[test]
fn wait_for_high_ends_when_the_line_is_high() {
    let mut bus = bus_with(&[]);
    let mut task = bus.wait_for_high();
    assert_eq!(run(&mut bus, &mut task), Ok(()));
    assert_eq!(task.pending(), None);
}

#[test]
fn read_bit_follows_its_script() {
    let mut bus = bus_with(&[]);
    let mut task = bus.read_bit();
    assert_eq!(run(&mut bus, &mut task), Ok(()));
    assert!(task.sample);
    assert_eq!(
        bus.pin_mut().log,
        vec![
            Line::DriveLow,
            Line::Delay { us: 6 },
            Line::Release,
            Line::Delay { us: 9 },
            Line::SenseHigh,
            Line::Delay { us: 55 },
        ]
    );
}

#[test]
fn write_bits_follow_their_scripts() {
    let mut bus = bus_with(&[]);
    let mut one = bus.write_1_bit();
    assert_eq!(run(&mut bus, &mut one), Ok(()));
    assert_eq!(
        bus.pin_mut().log,
        vec![Line::DriveLow, Line::Delay { us: 6 }, Line::Release, Line::Delay { us: 64 }]
    );
    bus.pin_mut().log.clear();
    let mut zero = bus.write_0_bit();
    assert_eq!(run(&mut bus, &mut zero), Ok(()));
    assert_eq!(
        bus.pin_mut().log,
        vec![Line::DriveLow, Line::Delay { us: 60 }, Line::Release, Line::Delay { us: 10 }]
    );
    assert_eq!(bus.write_bit(true), bus.write_1_bit());
    assert_eq!(bus.write_bit(false), bus.write_0_bit());
}

#[test]
fn a_jammed_pin_stops_a_task_with_a_pin_error() {
    let mut bus = bus_with(&[rom(0x28, 1)]);
    let mut task = bus.write_byte(0xA5);
    bus.pin_mut().jammed = true;
    assert_eq!(run(&mut bus, &mut task), Err(OneWireError::PinError(Jam)));
    assert_eq!(bus.pin_mut().log, vec![Line::DriveLow]);
}

#[test]
fn skip_address_and_bytes_reach_every_device() {
    let mut bus = bus_with(&[rom(0x28, 1), rom(0x28, 2)]);
    let mut reset = bus.reset();
    run(&mut bus, &mut reset).unwrap();
    let mut skip = bus.skip_address();
    run(&mut bus, &mut skip).unwrap();
    let mut bytes = bus.write_bytes(&[0x4E, 0x01, 0xFE]);
    run(&mut bus, &mut bytes).unwrap();
    let mut byte = bus.write_byte(0x80);
    run(&mut bus, &mut byte).unwrap();
    for device in bus.pin_mut().devices.iter() {
        assert_eq!(device.heard, vec![0x4E, 0x01, 0xFE, 0x80]);
    }
}

#[test]
fn match_address_reaches_one_device() {
    let a = rom(0x28, 0x1234);
    let b = rom(0x28, 0x1235);
    let mut bus = bus_with(&[a, b]);
    let mut reset = bus.reset();
    run(&mut bus, &mut reset).unwrap();
    let mut select = bus.match_address(&Address(b));
    run(&mut bus, &mut select).unwrap();
    let mut byte = bus.write_byte(0x44);
    run(&mut bus, &mut byte).unwrap();
    assert_eq!(bus.pin_mut().devices[0].heard, Vec::<u8>::new());
    assert_eq!(bus.pin_mut().devices[1].heard, vec![0x44]);
}

#[test]
fn send_command_with_an_address_resets_matches_and_commands() {
    let a = rom(0x10, 77);
    let b = rom(0x28, 78);
    let mut bus = bus_with(&[a, b]);
    let mut task = bus.send_command(0xBE, Some(&Address(a)));
    assert_eq!(run(&mut bus, &mut task), Ok(()));
    assert!(task.presence());
    assert_eq!(bus.pin_mut().log[..7], RESET);
    assert_eq!(bus.pin_mut().log.len(), 7 + 4 * 8 * 10);
    assert_eq!(bus.pin_mut().devices[0].heard, vec![0xBE]);
    assert_eq!(bus.pin_mut().devices[1].heard, Vec::<u8>::new());
}

#[test]
fn send_command_without_an_address_resets_skips_and_commands() {
    let mut bus = bus_with(&[rom(0x10, 77), rom(0x28, 78)]);
    let mut task = bus.send_command(0x44, None);
    assert_eq!(run(&mut bus, &mut task), Ok(()));
    assert!(task.presence());
    assert_eq!(bus.pin_mut().log[..7], RESET);
    assert_eq!(bus.pin_mut().log.len(), 7 + 4 * 8 * 2);
    assert_eq!(bus.pin_mut().devices[0].heard, vec![0x44]);
    assert_eq!(bus.pin_mut().devices[1].heard, vec![0x44]);
}

#[test]
fn send_command_on_an_empty_bus_goes_through_and_reports_no_presence() {
    let mut bus = bus_with(&[]);
    let mut task = bus.send_command(0x44, None);
    assert_eq!(run(&mut bus, &mut task), Ok(()));
    assert!(!task.presence());
    assert_eq!(bus.pin_mut().log.len(), 7 + 4 * 8 * 2);
}

#[test]
fn read_bytes_assembles_what_a_device_sends() {
    let mut bus = bus_with(&[rom(0x28, 1)]);
    bus.pin_mut().devices[0].to_send = vec![0x50, 0x05, 0xFF, 0x00, 0x81];
    bus.pin_mut().devices[0].mode = Mode::Send { n: 0 };
    let mut first = bus.read_byte();
    assert_eq!(run(&mut bus, &mut first), Ok(()));
    assert_eq!(first.received(), &vec![0x50]);
    let mut rest = bus.read_bytes(4);
    assert_eq!(run(&mut bus, &mut rest), Ok(()));
    assert_eq!(rest.received(), &vec![0x05, 0xFF, 0x00, 0x81]);
}

#[test]
fn read_bytes_of_nothing_asks_nothing() {
    let mut bus = bus_with(&[]);
    let mut task = bus.read_bytes(0);
    assert_eq!(task.pending(), None);
    assert_eq!(run(&mut bus, &mut task), Ok(()));
    assert_eq!(task.received(), &Vec::<u8>::new());
    let mut nothing = bus.write_bytes(&[]);
    assert_eq!(nothing.pending(), None);
    assert_eq!(run(&mut bus, &mut nothing), Ok(()));
    assert!(bus.pin_mut().log.is_empty());
}

#[test]
fn read_bytes_keeps_what_arrived_before_a_failure() {
    let mut bus = bus_with(&[rom(0x28, 1)]);
    bus.pin_mut().devices[0].to_send = vec![0x11, 0x22];
    bus.pin_mut().devices[0].mode = Mode::Send { n: 0 };
    let mut task = bus.read_bytes(2);
    for _ in 0..(8 * 6 + 3) {
        let line = task.pending().unwrap();
        let reply = answer(&mut bus, line);
        task.feed(reply).unwrap();
    }
    bus.pin_mut().jammed = true;
    assert_eq!(run(&mut bus, &mut task), Err(OneWireError::PinError(Jam)));
    assert_eq!(task.received(), &vec![0x11]);
}

#[test]
fn a_byte_written_and_echoed_reads_back_the_same() {
    for value in 0..=255u8 {
        let mut bus = bus_with(&[rom(0x28, 1)]);
        bus.pin_mut().devices[0].mode = Mode::Selected { got: 0, n: 0 };
        let mut write = bus.write_byte(value);
        run(&mut bus, &mut write).unwrap();
        let heard = bus.pin_mut().devices[0].heard.clone();
        assert_eq!(heard, vec![value]);
        bus.pin_mut().devices[0].to_send = heard;
        bus.pin_mut().devices[0].mode = Mode::Send { n: 0 };
        let mut read = bus.read_byte();
        run(&mut bus, &mut read).unwrap();
        assert_eq!(read.received(), &vec![value]);
    }
}

#[test]
fn a_byte_goes_out_lowest_bit_first() {
    let mut bus = bus_with(&[]);
    let mut write = bus.write_byte(0b0000_1101);
    let mut lows = Vec::new();
    while let Some(line) = write.pending() {
        if let Line::Delay { us } = line {
            lows.push(us);
        }
        let reply = answer(&mut bus, line);
        write.feed(reply).unwrap();
    }
    assert_eq!(lows, vec![6, 64, 60, 10, 6, 64, 6, 64, 60, 10, 60, 10, 60, 10, 60, 10]);
}

#[test]
fn search_finds_every_device_once_in_wire_order() {
    let roms = [
        rom(0x28, 0x0000_0000_0001),
        rom(0x28, 0x0000_0000_0002),
        rom(0x10, 0x00AB_CDEF_0123),
        rom(0x28, 0xFFFF_FFFF_FFFF),
        rom(0x22, 0x0000_0000_0000),
        rom(0x28, 0x8000_0000_0001),
        rom(0x01, 0x1234_5678_9ABC),
    ];
    let mut bus = bus_with(&roms);
    let (found, state) = enumerate(&mut bus, false);
    assert_eq!(found, in_wire_order(&roms));
    assert_eq!(state.unwrap().discrepancies, 0);
    assert_eq!(state.unwrap().address, *found.last().unwrap());
}

#[test]
fn search_order_is_by_the_first_bit_on_the_wire() {
    let mut bus = bus_with(&[0b01, 0b10]);
    let wire = bus.pin_mut();
    assert_eq!(wire.devices.len(), 2);
    let mut task = bus.device_search(None, false);
    run(&mut bus, &mut task).unwrap();
    // Neither code is intact, so look at the pass itself: it took the branch with 0 at
    // position 0 and came out with the code 0b10.
    assert_eq!(task.pass.address, 0b10);
    assert_eq!(task.pass.discrepancies, 0b01);
    assert_eq!(task.pass.last_discrepancy_index, 0);
    assert_eq!(task.finish::<Jam>(), Err(OneWireError::CrcMismatch));
}

#[test]
fn search_order_is_by_the_wire_not_by_the_number() {
    // Both codes are intact. The first is the smaller number, but it has 1 at position 8
    // where the second has 0, so the second is found first.
    let smaller: u64 = 0x2900_0000_0000_0128;
    let larger: u64 = 0x7000_0000_0000_0228;
    assert_eq!(smaller, rom(0x28, 1));
    assert_eq!(larger, rom(0x28, 2));
    let mut bus = bus_with(&[smaller, larger]);
    let (found, _) = enumerate(&mut bus, false);
    assert_eq!(found, vec![larger, smaller]);
}

#[test]
fn search_with_one_device_finds_it_and_is_then_exhausted() {
    let only = rom(0x28, 0x0102_0304_0506);
    let mut bus = bus_with(&[only]);
    let (address, state) = search(&mut bus, None, false).unwrap().unwrap();
    assert_eq!(address, Address(only));
    assert_eq!(state.address, only);
    assert_eq!(state.discrepancies, 0);
    assert!(state.is_exhausted());
    bus.pin_mut().log.clear();
    assert_eq!(search(&mut bus, Some(&state), false), Ok(None));
    assert!(bus.pin_mut().log.is_empty());
}

#[test]
fn search_on_an_empty_bus_finds_nothing_and_exchanges_no_bit() {
    let mut bus = bus_with(&[]);
    assert_eq!(search(&mut bus, None, false), Ok(None));
    assert_eq!(bus.pin_mut().log, RESET.to_vec());
}

#[test]
fn search_sends_the_command_for_the_kind_of_search() {
    let mut lows_normal = Vec::new();
    let mut lows_alarm = Vec::new();
    for (only_alarming, lows) in [(false, &mut lows_normal), (true, &mut lows_alarm)] {
        let mut bus = bus_with(&[rom(0x28, 1)]);
        bus.pin_mut().devices[0].alarm = true;
        let mut task = bus.device_search(None, only_alarming);
        for _ in 0..(7 + 4 * 8) {
            let line = task.pending().unwrap();
            let reply = answer(&mut bus, line);
            task.feed(reply).unwrap();
        }
        let log = &bus.pin_mut().log;
        for slot in 0..8 {
            if let Line::Delay { us } = log[7 + 4 * slot + 1] {
                lows.push(us == 6);
            }
        }
    }
    // 0xF0 and 0xEC, lowest bit first.
    assert_eq!(lows_normal, vec![false, false, false, false, true, true, true, true]);
    assert_eq!(lows_alarm, vec![false, false, true, true, false, true, true, true]);
}

#[test]
fn search_rejects_a_code_that_is_not_intact() {
    let broken = rom(0x28, 0x0102_0304_0506) ^ (1 << 60);
    let mut bus = bus_with(&[broken]);
    assert_eq!(search(&mut bus, None, false), Err(OneWireError::CrcMismatch));
}

#[test]
fn search_for_alarms_finds_the_devices_in_alarm_state_only() {
    let roms = [rom(0x28, 1), rom(0x28, 2), rom(0x28, 3), rom(0x28, 4)];
    let mut bus = bus_with(&roms);
    bus.pin_mut().devices[1].alarm = true;
    bus.pin_mut().devices[3].alarm = true;
    let (found, state) = enumerate(&mut bus, true);
    assert_eq!(found, in_wire_order(&[roms[1], roms[3]]));
    assert_eq!(state.unwrap().discrepancies, 0);
}

#[test]
fn search_with_no_device_answering_is_an_unexpected_response() {
    let mut bus = bus_with(&[rom(0x28, 1), rom(0x28, 2)]);
    assert_eq!(search(&mut bus, None, true), Err(OneWireError::UnexpectedResponse));
}

#[test]
fn resumed_search_fails_when_the_branch_point_is_gone() {
    let roms = [rom(0x28, 0x10), rom(0x28, 0x11)];
    let order = in_wire_order(&roms);
    let mut bus = bus_with(&roms);
    let (address, state) = search(&mut bus, None, false).unwrap().unwrap();
    assert_eq!(address.0, order[0]);
    assert_ne!(state.discrepancies, 0);
    bus.pin_mut().devices.retain(|device| device.rom != order[1]);
    assert_eq!(search(&mut bus, Some(&state), false), Err(OneWireError::UnexpectedResponse));
}

#[test]
fn resumed_search_fails_when_the_device_found_last_is_gone() {
    let roms = [rom(0x28, 0x10), rom(0x28, 0x11)];
    let order = in_wire_order(&roms);
    let mut bus = bus_with(&roms);
    let (_, state) = search(&mut bus, None, false).unwrap().unwrap();
    bus.pin_mut().devices.retain(|device| device.rom != order[0]);
    assert_eq!(search(&mut bus, Some(&state), false), Err(OneWireError::UnexpectedResponse));
}

#[test]
fn search_that_has_not_ended_has_no_result() {
    let mut bus = bus_with(&[rom(0x28, 1)]);
    let mut task = bus.device_search(None, false);
    assert_eq!(task.finish::<Jam>(), Err(OneWireError::UnexpectedResponse));
    let line = task.pending().unwrap();
    let reply = answer(&mut bus, line);
    task.feed(reply).unwrap();
    assert_eq!(task.finish::<Jam>(), Err(OneWireError::UnexpectedResponse));
}

#[test]
fn search_fails_with_bus_not_high_on_a_line_that_stays_low() {
    let mut bus = bus_with(&[rom(0x28, 1)]);
    bus.pin_mut().stuck_low = true;
    assert_eq!(search(&mut bus, None, false), Err(OneWireError::BusNotHigh));
}

#[test]
fn devices_goes_through_the_bus_and_ends() {
    let roms = [rom(0x28, 5), rom(0x28, 6), rom(0x3B, 7)];
    let mut bus = bus_with(&roms);
    let mut cursor: DeviceSearch = bus.devices(false);
    let mut found = Vec::new();
    while let Some(mut task) = cursor.next_search() {
        let outcome = run(&mut bus, &mut task).and_then(|_| task.finish());
        match cursor.record(outcome) {
            Some(item) => found.push(item.unwrap().0),
            None => break,
        }
    }
    assert_eq!(found, in_wire_order(&roms));
    assert!(cursor.finished);
    assert_eq!(cursor.next_search(), None);
    assert_eq!(cursor.record::<Jam>(Ok(None)), None);
}

#[test]
fn devices_ends_after_a_failure() {
    let mut bus = bus_with(&[rom(0x28, 5)]);
    bus.pin_mut().stuck_low = true;
    let mut cursor = bus.devices(false);
    let mut task = cursor.next_search().unwrap();
    let outcome = run(&mut bus, &mut task).and_then(|_| task.finish());
    assert_eq!(cursor.record(outcome), Some(Err(OneWireError::BusNotHigh)));
    assert!(cursor.finished);
    assert_eq!(cursor.state, None);
    assert_eq!(cursor.next_search(), None);
}
