use one_wire_bus::{BusPin, Line, OneWireAsync, OneWireError, PulledUp, Reply};

/// A pin that records what was done to it and answers from a fixed level.
struct FakePin {
    driven_low: bool,
    level_when_released: bool,
    broken: bool,
    calls: Vec<&'static str>,
}

impl FakePin {
    fn new(level_when_released: bool) -> Self {
        FakePin { driven_low: true, level_when_released, broken: false, calls: Vec::new() }
    }
}

impl BusPin for FakePin {
    type Error = u8;

    fn drive_low(&mut self) -> Result<(), u8> {
        self.calls.push("drive_low");
        if self.broken {
            return Err(7);
        }
        self.driven_low = true;
        Ok(())
    }

    fn release(&mut self) -> Result<(), u8> {
        self.calls.push("release");
        if self.broken {
            return Err(7);
        }
        self.driven_low = false;
        Ok(())
    }

    fn is_high(&mut self) -> Result<bool, u8> {
        self.calls.push("is_high");
        if self.broken {
            return Err(7);
        }
        Ok(!self.driven_low && self.level_when_released)
    }

    fn is_low(&mut self) -> Result<bool, u8> {
        self.calls.push("is_low");
        if self.broken {
            return Err(7);
        }
        Ok(self.driven_low || !self.level_when_released)
    }
}

#[test]
fn new_releases_the_line() {
    let bus = OneWireAsync::new(FakePin::new(true)).unwrap();
    let pin = bus.into_inner();
    assert_eq!(pin.calls, vec!["release"]);
    assert!(!pin.driven_low);
}

#[test]
fn new_hands_on_the_pin_error() {
    let mut pin = FakePin::new(true);
    pin.broken = true;
    match OneWireAsync::new(pin) {
        Err(e) => assert_eq!(e, OneWireError::PinError(7)),
        Ok(_) => panic!("a broken pin cannot be released"),
    }
}

#[test]
fn level_follows_the_pin() {
    let mut bus = OneWireAsync::new(FakePin::new(true)).unwrap();
    assert_eq!(bus.is_bus_high(), Ok(true));
    assert_eq!(bus.is_bus_low(), Ok(false));
    assert_eq!(bus.set_bus_low(), Ok(()));
    assert_eq!(bus.is_bus_high(), Ok(false));
    assert_eq!(bus.is_bus_low(), Ok(true));
    assert_eq!(bus.release_bus(), Ok(()));
    assert_eq!(bus.is_bus_high(), Ok(true));
    let pin = bus.into_inner();
    assert_eq!(
        pin.calls,
        vec!["release", "is_high", "is_low", "drive_low", "is_high", "is_low", "release", "is_high"]
    );
}

#[test]
fn every_pin_operation_hands_on_the_pin_error() {
    let mut bus = OneWireAsync::new(FakePin::new(true)).unwrap();
    bus.pin_mut().broken = true;
    assert_eq!(bus.release_bus(), Err(OneWireError::PinError(7)));
    assert_eq!(bus.set_bus_low(), Err(OneWireError::PinError(7)));
    assert_eq!(bus.is_bus_high(), Err(OneWireError::PinError(7)));
    assert_eq!(bus.is_bus_low(), Err(OneWireError::PinError(7)));
}

#[test]
fn perform_acts_on_the_pin_and_leaves_waits_alone() {
    let mut bus = OneWireAsync::new(FakePin::new(true)).unwrap();
    assert_eq!(bus.perform(Line::DriveLow), Some(Reply::Done));
    assert_eq!(bus.perform(Line::SenseHigh), Some(Reply::Sensed(false)));
    assert_eq!(bus.perform(Line::SenseLow), Some(Reply::Sensed(true)));
    assert_eq!(bus.perform(Line::Release), Some(Reply::Done));
    assert_eq!(bus.perform(Line::SenseHigh), Some(Reply::Sensed(true)));
    assert_eq!(bus.perform(Line::SenseLow), Some(Reply::Sensed(false)));
    assert_eq!(bus.perform(Line::Delay { us: 480 }), None);
    assert_eq!(bus.perform(Line::AwaitHigh { timeout_us: 250 }), None);
    let pin = bus.into_inner();
    assert_eq!(
        pin.calls,
        vec!["release", "drive_low", "is_high", "is_low", "release", "is_high", "is_low"]
    );
}

#[test]
fn perform_reports_a_refusal_as_failed() {
    let mut bus = OneWireAsync::new(FakePin::new(true)).unwrap();
    bus.pin_mut().broken = true;
    assert_eq!(bus.perform(Line::DriveLow), Some(Reply::Failed(7)));
    assert_eq!(bus.perform(Line::Release), Some(Reply::Failed(7)));
    assert_eq!(bus.perform(Line::SenseHigh), Some(Reply::Failed(7)));
    assert_eq!(bus.perform(Line::SenseLow), Some(Reply::Failed(7)));
}

#[test]
fn a_refusal_fed_to_a_task_is_a_pin_error() {
    let mut bus = OneWireAsync::new(FakePin::new(true)).unwrap();
    let mut task = bus.write_bit(true);
    bus.pin_mut().broken = true;
    let line = task.pending().unwrap();
    assert_eq!(line, Line::DriveLow);
    let reply = bus.perform(line).unwrap();
    let before = task;
    assert_eq!(task.feed(reply), Err(OneWireError::PinError(7)));
    assert_eq!(task, before);
}

#[test]
fn a_pulled_up_pin_is_high_unless_driven() {
    let mut pin = PulledUp::new();
    assert!(!pin.low);
    assert_eq!(pin.is_high(), Ok(true));
    assert_eq!(pin.is_low(), Ok(false));
    assert_eq!(pin.drive_low(), Ok(()));
    assert_eq!(pin.is_high(), Ok(false));
    assert_eq!(pin.is_low(), Ok(true));
    assert_eq!(pin.release(), Ok(()));
    assert_eq!(pin.is_high(), Ok(true));
}

#[test]
fn a_search_on_a_pulled_up_pin_finds_nothing() {
    let mut bus = OneWireAsync::new(PulledUp { low: true }).unwrap();
    assert_eq!(bus.is_bus_high(), Ok(true));
    let mut task = bus.device_search(None, false);
    let mut requests = 0;
    while let Some(line) = task.pending() {
        let reply = bus.perform(line).unwrap_or(Reply::Done);
        task.feed(reply).unwrap();
        requests += 1;
    }
    assert_eq!(requests, 7);
    assert_eq!(task.finish::<()>(), Ok(None));
    assert!(!bus.into_inner().low);
}

#[test]
fn a_read_on_a_pulled_up_pin_reads_ones() {
    let mut bus = OneWireAsync::new(PulledUp::new()).unwrap();
    let mut task = bus.read_bytes(2);
    while let Some(line) = task.pending() {
        let reply = bus.perform(line).unwrap_or(Reply::Done);
        task.feed(reply).unwrap();
    }
    assert_eq!(task.received(), &vec![0xFF, 0xFF]);
}
