//! Tasks that move whole bytes: a writer, which may open with a reset pulse, and a reader.

use vstd::prelude::*;
use crate::error::OneWireError;
use crate::line::{Line, Reply};
use crate::slot::{Slot, SlotKind};

verus! {

/// A byte with its lowest bit dropped and `bit` put in at the top: what a reader holds
/// after one more bit arrived.
pub open spec fn shifted_in(byte: u8, bit: bool) -> u8 {
    if bit {
        (byte >> 1) | 0x80
    } else {
        byte >> 1
    }
}

/// What a reader that holds `start` holds after it read the lowest `n` bits of `value`
/// in the order in which a writer sends them.
pub open spec fn read_back(start: u8, value: u8, n: nat) -> u8
    decreases n,
{
    if n == 0 {
        start
    } else {
        shifted_in(
            read_back(start, value, (n - 1) as nat),
            crate::crc::byte_bit(value, (n - 1) as u8),
        )
    }
}

/// Reading back, slot by slot, the eight bits that a writer sends for a byte gives that
/// byte again, whatever the reader held before.
pub proof fn lemma_round_trip(start: u8, value: u8)
    ensures
        read_back(start, value, 8) == value,
{
    reveal_with_fuel(read_back, 9);
    let b0 = (value >> 0u8) & 1 == 1;
    let b1 = (value >> 1u8) & 1 == 1;
    let b2 = (value >> 2u8) & 1 == 1;
    let b3 = (value >> 3u8) & 1 == 1;
    let b4 = (value >> 4u8) & 1 == 1;
    let b5 = (value >> 5u8) & 1 == 1;
    let b6 = (value >> 6u8) & 1 == 1;
    let b7 = (value >> 7u8) & 1 == 1;
    let r1 = shifted_in(start, b0);
    let r2 = shifted_in(r1, b1);
    let r3 = shifted_in(r2, b2);
    let r4 = shifted_in(r3, b3);
    let r5 = shifted_in(r4, b4);
    let r6 = shifted_in(r5, b5);
    let r7 = shifted_in(r6, b6);
    let r8 = shifted_in(r7, b7);
    assert(r8 == value) by (bit_vector)
        requires
            b0 == ((value >> 0u8) & 1 == 1),
            b1 == ((value >> 1u8) & 1 == 1),
            b2 == ((value >> 2u8) & 1 == 1),
            b3 == ((value >> 3u8) & 1 == 1),
            b4 == ((value >> 4u8) & 1 == 1),
            b5 == ((value >> 5u8) & 1 == 1),
            b6 == ((value >> 6u8) & 1 == 1),
            b7 == ((value >> 7u8) & 1 == 1),
            r1 == (if b0 { (start >> 1) | 0x80 } else { start >> 1 }),
            r2 == (if b1 { (r1 >> 1) | 0x80 } else { r1 >> 1 }),
            r3 == (if b2 { (r2 >> 1) | 0x80 } else { r2 >> 1 }),
            r4 == (if b3 { (r3 >> 1) | 0x80 } else { r3 >> 1 }),
            r5 == (if b4 { (r4 >> 1) | 0x80 } else { r4 >> 1 }),
            r6 == (if b5 { (r5 >> 1) | 0x80 } else { r5 >> 1 }),
            r7 == (if b6 { (r6 >> 1) | 0x80 } else { r6 >> 1 }),
            r8 == (if b7 { (r7 >> 1) | 0x80 } else { r7 >> 1 }),
    ;
}

/// A task that writes bytes, lowest bit first, after a reset pulse if it was asked for.
///
/// `byte` and `bit` say which bit the current write slot carries. While `resetting`
/// holds, the reset pulse is still in progress; `presence` then becomes what the pulse
/// sampled.
#[derive(Debug)]
pub struct Writer {
    pub bytes: Vec<u8>,
    pub resetting: bool,
    pub presence: bool,
    pub byte: usize,
    pub bit: u8,
    pub slot: Slot,
}

/// A writer as a plain value.
pub struct WriterView {
    pub bytes: Seq<u8>,
    pub resetting: bool,
    pub presence: bool,
    pub byte: int,
    pub bit: u8,
    pub slot: Slot,
}

impl WriterView {
    /// A writer that has done nothing yet.
    pub open spec fn begun(bytes: Seq<u8>, reset_first: bool) -> WriterView {
        let start = WriterView {
            bytes,
            resetting: reset_first,
            presence: false,
            byte: 0,
            bit: 0,
            slot: Slot::fresh(SlotKind::Reset),
        };
        if start.over() {
            start
        } else {
            WriterView { slot: Slot::fresh(start.due()), ..start }
        }
    }

    /// Whether the reset pulse and every bit are through.
    pub open spec fn over(self) -> bool {
        !self.resetting && (self.byte < 0 || self.byte >= self.bytes.len())
    }

    /// The request that is outstanding, if the task is not over.
    pub open spec fn outstanding(self) -> Option<Line> {
        if self.over() {
            None
        } else {
            self.slot.outstanding()
        }
    }

    /// The slot that belongs at the current position: the reset pulse, or the write
    /// slot for bit `bit` of byte `byte`.
    pub open spec fn due(self) -> SlotKind {
        if self.resetting {
            SlotKind::Reset
        } else {
            SlotKind::Write(crate::crc::byte_bit(self.bytes[self.byte], self.bit))
        }
    }

    /// The position after the current slot ended with `sample`.
    pub open spec fn moved_on(self, sample: bool) -> WriterView {
        if self.resetting {
            WriterView { resetting: false, presence: sample, ..self }
        } else if self.bit >= 7 {
            WriterView { byte: self.byte + 1, bit: 0, ..self }
        } else {
            WriterView { bit: (self.bit + 1) as u8, ..self }
        }
    }

    /// The writer after its outstanding request was answered with `sensed`.
    pub open spec fn answered(self, sensed: Option<bool>) -> WriterView {
        let slot = self.slot.answered(sensed);
        if !slot.over() {
            WriterView { slot, ..self }
        } else {
            let next = WriterView { slot, ..self }.moved_on(slot.sample);
            if next.over() {
                next
            } else {
                WriterView { slot: Slot::fresh(next.due()), ..next }
            }
        }
    }

    /// Whether the slot in progress is the one that belongs at the position.
    pub open spec fn wf(self) -> bool {
        &&& self.bit < 8
        &&& self.byte >= 0
        &&& !self.over() ==> self.slot.kind == self.due() && !self.slot.over()
    }

    /// The writer after the driver answered its outstanding request, a question with
    /// `level`; the writer itself if it is over.
    pub open spec fn stepped(self, level: bool) -> WriterView {
        match self.outstanding() {
            Some(line) => self.answered(
                if line.asks() {
                    Some(level)
                } else {
                    None
                },
            ),
            None => self,
        }
    }

    /// The writer after the driver answered `n` requests in this way.
    pub open spec fn run(self, level: bool, n: nat) -> WriterView
        decreases n,
    {
        if n == 0 {
            self
        } else {
            self.run(level, (n - 1) as nat).stepped(level)
        }
    }

    /// The writer after the whole slot in progress, its question, if it asks one,
    /// answered with `level`.
    pub open spec fn after_slot(self, level: bool) -> WriterView {
        let slot = Slot::ended(self.slot.kind, level);
        let next = WriterView { slot, ..self }.moved_on(slot.sample);
        if next.over() {
            next
        } else {
            WriterView { slot: Slot::fresh(next.due()), ..next }
        }
    }

    /// Within a slot the writer does nothing but let the slot go on.
    proof fn lemma_within_slot(self, level: bool, n: nat)
        requires
            !self.over(),
            self.slot == Slot::fresh(self.slot.kind),
            n < self.slot.kind.script().len(),
        ensures
            self.run(level, n) == (WriterView { slot: self.slot.run(level, n), ..self }),
        decreases n,
    {
        if n > 0 {
            self.lemma_within_slot(level, (n - 1) as nat);
            crate::slot::lemma_slot_run(self.slot.kind, level, (n - 1) as nat);
            crate::slot::lemma_slot_run(self.slot.kind, level, n);
        }
    }

    /// A writer whose driver answers every request of the slot in progress comes to
    /// what follows the slot: answer by answer it does what `after_slot` says in one
    /// step.
    pub proof fn lemma_slot_through(self, level: bool)
        requires
            !self.over(),
            self.slot == Slot::fresh(self.slot.kind),
        ensures
            self.run(level, self.slot.kind.script().len()) == self.after_slot(level),
    {
        let kind = self.slot.kind;
        let len = kind.script().len();
        assert(len >= 1) by {
            match kind {
                SlotKind::WaitForHigh => {},
                SlotKind::Reset => {},
                SlotKind::Read => {},
                SlotKind::Write(true) => {},
                SlotKind::Write(false) => {},
            }
        }
        self.lemma_within_slot(level, (len - 1) as nat);
        crate::slot::lemma_slot_run(kind, level, (len - 1) as nat);
        crate::slot::lemma_slot_run(kind, level, len);
    }

    /// The writer after `n` slots went by, where `present` is what a reset pulse
    /// samples.
    pub open spec fn after_slots(self, present: bool, n: nat) -> WriterView
        decreases n,
    {
        if n == 0 {
            self
        } else {
            self.after_slots(present, (n - 1) as nat).after_slot(present)
        }
    }
}

impl View for Writer {
    type V = WriterView;

    open spec fn view(&self) -> WriterView {
        WriterView {
            bytes: self.bytes@,
            resetting: self.resetting,
            presence: self.presence,
            byte: self.byte as int,
            bit: self.bit,
            slot: self.slot,
        }
    }
}

impl Writer {
    /// A task that writes `bytes` in order, after a reset pulse if `reset_first` holds.
    pub fn begin(bytes: Vec<u8>, reset_first: bool) -> (task: Writer)
        ensures
            task@ == WriterView::begun(bytes@, reset_first),
            task@.wf(),
    {
        let mut task = Writer {
            bytes,
            resetting: reset_first,
            presence: false,
            byte: 0,
            bit: 0,
            slot: Slot::start(SlotKind::Reset),
        };
        if !task.is_over() {
            task.slot = Slot::start(task.due_kind());
        }
        task
    }

    /// Whether the reset pulse and every bit are through.
    pub fn is_over(&self) -> (over: bool)
        ensures
            over == self@.over(),
    {
        !self.resetting && self.byte >= self.bytes.len()
    }

    fn due_kind(&self) -> (kind: SlotKind)
        requires
            !self@.over(),
        ensures
            kind == self@.due(),
    {
        if self.resetting {
            SlotKind::Reset
        } else {
            let value: u8 = self.bytes[self.byte];
            let set: bool = self.bit < 8 && (value >> self.bit) & 1 == 1;
            SlotKind::Write(set)
        }
    }

    /// The request that the driver has to carry out next; `None` once the task is over.
    pub fn pending(&self) -> (line: Option<Line>)
        ensures
            line == self@.outstanding(),
    {
        if self.is_over() {
            None
        } else {
            self.slot.pending()
        }
    }

    /// Whether the reset pulse at the start found a device present. It says nothing
    /// before that pulse has sampled the line, and nothing of a task without one.
    pub fn presence(&self) -> (present: bool)
        ensures
            present == self@.presence,
    {
        self.presence
    }

    /// Takes the driver's reply to the outstanding request.
    ///
    /// A reply that answers the request moves the task on: within the slot, or to the
    /// slot of the next bit. Any other reply is reported as an error and leaves the task
    /// as it was.
    pub fn feed<E>(&mut self, reply: Reply<E>) -> (result: Result<(), OneWireError<E>>)
        ensures
            match reply.meaning(old(self)@.outstanding()) {
                Ok(sensed) => result == Ok::<(), OneWireError<E>>(())
                    && final(self)@ == old(self)@.answered(sensed),
                Err(e) => result == Err::<(), OneWireError<E>>(e) && final(self)@ == old(self)@,
            },
            old(self)@.wf() ==> final(self)@.wf(),
    {
        if self.is_over() {
            return match reply.read(None) {
                Ok(_) => Err(OneWireError::UnexpectedResponse),
                Err(e) => Err(e),
            };
        }
        match self.slot.feed(reply) {
            Ok(()) => {},
            Err(e) => {
                return Err(e);
            },
        }
        if self.slot.finished() {
            if self.resetting {
                self.resetting = false;
                self.presence = self.slot.sample;
            } else if self.bit >= 7 {
                let len: usize = self.bytes.len();
                assert(self.byte < len);
                self.byte = self.byte + 1;
                self.bit = 0;
            } else {
                self.bit = self.bit + 1;
            }
            if !self.is_over() {
                self.slot = Slot::start(self.due_kind());
            }
        }
        Ok(())
    }
}

/// A task that reads `count` bytes, lowest bit first.
///
/// `bytes` holds the bytes that are complete, `current` the bits of the next one as
/// far as they were read, and `bit` their number.
#[derive(Debug)]
pub struct Reader {
    pub count: usize,
    pub bytes: Vec<u8>,
    pub current: u8,
    pub bit: u8,
    pub slot: Slot,
}

/// A reader as a plain value.
pub struct ReaderView {
    pub count: int,
    pub bytes: Seq<u8>,
    pub current: u8,
    pub bit: u8,
    pub slot: Slot,
}

impl ReaderView {
    /// A reader that has done nothing yet.
    pub open spec fn begun(count: int) -> ReaderView {
        ReaderView {
            count,
            bytes: Seq::empty(),
            current: 0,
            bit: 0,
            slot: Slot::fresh(SlotKind::Read),
        }
    }

    /// Whether all the bytes asked for were read.
    pub open spec fn over(self) -> bool {
        self.bytes.len() >= self.count
    }

    /// The request that is outstanding, if the task is not over.
    pub open spec fn outstanding(self) -> Option<Line> {
        if self.over() {
            None
        } else {
            self.slot.outstanding()
        }
    }

    /// The reader after a read slot ended with `sample`: the bit goes into the current
    /// byte, and the eighth bit completes it.
    pub open spec fn moved_on(self, sample: bool) -> ReaderView {
        let current = shifted_in(self.current, sample);
        if self.bit >= 7 {
            ReaderView { bytes: self.bytes.push(current), current: 0, bit: 0, ..self }
        } else {
            ReaderView { current, bit: (self.bit + 1) as u8, ..self }
        }
    }

    /// The reader after its outstanding request was answered with `sensed`.
    pub open spec fn answered(self, sensed: Option<bool>) -> ReaderView {
        let slot = self.slot.answered(sensed);
        if !slot.over() {
            ReaderView { slot, ..self }
        } else {
            let next = ReaderView { slot, ..self }.moved_on(slot.sample);
            if next.over() {
                next
            } else {
                ReaderView { slot: Slot::fresh(SlotKind::Read), ..next }
            }
        }
    }

    /// Whether a read slot is in progress as long as bytes are missing.
    pub open spec fn wf(self) -> bool {
        &&& self.bit < 8
        &&& !self.over() ==> self.slot.kind == SlotKind::Read && !self.slot.over()
    }

    /// The reader after the driver answered its outstanding request, a question with
    /// `level`; the reader itself if it is over.
    pub open spec fn stepped(self, level: bool) -> ReaderView {
        match self.outstanding() {
            Some(line) => self.answered(
                if line.asks() {
                    Some(level)
                } else {
                    None
                },
            ),
            None => self,
        }
    }

    /// The reader after the driver answered `n` requests in this way.
    pub open spec fn run(self, level: bool, n: nat) -> ReaderView
        decreases n,
    {
        if n == 0 {
            self
        } else {
            self.run(level, (n - 1) as nat).stepped(level)
        }
    }

    /// The reader after the whole slot in progress, its question, if it asks one,
    /// answered with `level`.
    pub open spec fn after_slot(self, level: bool) -> ReaderView {
        let slot = Slot::ended(self.slot.kind, level);
        let next = ReaderView { slot, ..self }.moved_on(slot.sample);
        if next.over() {
            next
        } else {
            ReaderView { slot: Slot::fresh(SlotKind::Read), ..next }
        }
    }

    /// Within a slot the reader does nothing but let the slot go on.
    proof fn lemma_within_slot(self, level: bool, n: nat)
        requires
            !self.over(),
            self.slot == Slot::fresh(self.slot.kind),
            n < self.slot.kind.script().len(),
        ensures
            self.run(level, n) == (ReaderView { slot: self.slot.run(level, n), ..self }),
        decreases n,
    {
        if n > 0 {
            self.lemma_within_slot(level, (n - 1) as nat);
            crate::slot::lemma_slot_run(self.slot.kind, level, (n - 1) as nat);
            crate::slot::lemma_slot_run(self.slot.kind, level, n);
        }
    }

    /// A reader whose driver answers every request of the slot in progress comes to
    /// what follows the slot: answer by answer it does what `after_slot` says in one
    /// step.
    pub proof fn lemma_slot_through(self, level: bool)
        requires
            !self.over(),
            self.slot == Slot::fresh(self.slot.kind),
        ensures
            self.run(level, self.slot.kind.script().len()) == self.after_slot(level),
    {
        let kind = self.slot.kind;
        let len = kind.script().len();
        assert(len >= 1) by {
            match kind {
                SlotKind::WaitForHigh => {},
                SlotKind::Reset => {},
                SlotKind::Read => {},
                SlotKind::Write(true) => {},
                SlotKind::Write(false) => {},
            }
        }
        self.lemma_within_slot(level, (len - 1) as nat);
        crate::slot::lemma_slot_run(kind, level, (len - 1) as nat);
        crate::slot::lemma_slot_run(kind, level, len);
    }

    /// The reader after `n` read slots in which a device sent the bytes of `sent` bit
    /// by bit, each byte lowest bit first.
    pub open spec fn after_sent(self, sent: Seq<u8>, n: nat) -> ReaderView
        decreases n,
    {
        if n == 0 {
            self
        } else {
            let m = (n - 1) as nat;
            self.after_sent(sent, m).after_slot(
                crate::crc::byte_bit(sent[m as int / 8], (m % 8) as u8),
            )
        }
    }
}

impl View for Reader {
    type V = ReaderView;

    open spec fn view(&self) -> ReaderView {
        ReaderView {
            count: self.count as int,
            bytes: self.bytes@,
            current: self.current,
            bit: self.bit,
            slot: self.slot,
        }
    }
}

impl Reader {
    /// A task that reads `count` bytes.
    pub fn begin(count: usize) -> (task: Reader)
        ensures
            task@ == ReaderView::begun(count as int),
            task@.wf(),
    {
        Reader { count, bytes: Vec::new(), current: 0, bit: 0, slot: Slot::start(SlotKind::Read) }
    }

    /// Whether all the bytes asked for were read.
    pub fn is_over(&self) -> (over: bool)
        ensures
            over == self@.over(),
    {
        self.bytes.len() >= self.count
    }

    /// The request that the driver has to carry out next; `None` once the task is over.
    pub fn pending(&self) -> (line: Option<Line>)
        ensures
            line == self@.outstanding(),
    {
        if self.is_over() {
            None
        } else {
            self.slot.pending()
        }
    }

    /// The bytes read so far, in the order in which they arrived.
    pub fn received(&self) -> (bytes: &Vec<u8>)
        ensures
            bytes@ == self@.bytes,
    {
        &self.bytes
    }

    /// Takes the driver's reply to the outstanding request.
    ///
    /// A reply that answers the request moves the task on: within the slot, or to the
    /// slot of the next bit, the bit just read going in above the bits read before it.
    /// Any other reply is reported as an error and leaves the task as it was.
    pub fn feed<E>(&mut self, reply: Reply<E>) -> (result: Result<(), OneWireError<E>>)
        ensures
            match reply.meaning(old(self)@.outstanding()) {
                Ok(sensed) => result == Ok::<(), OneWireError<E>>(())
                    && final(self)@ == old(self)@.answered(sensed),
                Err(e) => result == Err::<(), OneWireError<E>>(e) && final(self)@ == old(self)@,
            },
            old(self)@.wf() ==> final(self)@.wf(),
    {
        if self.is_over() {
            return match reply.read(None) {
                Ok(_) => Err(OneWireError::UnexpectedResponse),
                Err(e) => Err(e),
            };
        }
        match self.slot.feed(reply) {
            Ok(()) => {},
            Err(e) => {
                return Err(e);
            },
        }
        if self.slot.finished() {
            let shifted: u8 = if self.slot.sample {
                (self.current >> 1) | 0x80
            } else {
                self.current >> 1
            };
            if self.bit >= 7 {
                self.bytes.push(shifted);
                self.current = 0;
                self.bit = 0;
            } else {
                self.current = shifted;
                self.bit = self.bit + 1;
            }
            if !self.is_over() {
                self.slot = Slot::start(SlotKind::Read);
            }
        }
        Ok(())
    }
}

/// A writer goes through its bytes in order, eight write slots for each, the slots of
/// a byte carrying its bits lowest first; after the last it is over. Where it opens with
/// a reset pulse, that pulse is one slot more at the start, and the writer keeps what
/// the pulse sampled.
pub proof fn lemma_writer_slots(bytes: Seq<u8>, reset_first: bool, present: bool, n: nat)
    requires
        n <= 8 * bytes.len(),
    ensures
        ({
            let lead: nat = if reset_first {
                1
            } else {
                0
            };
            let w = WriterView::begun(bytes, reset_first).after_slots(present, lead + n);
            &&& reset_first ==> WriterView::begun(bytes, reset_first).slot == Slot::fresh(
                SlotKind::Reset,
            ) && w.presence == present
            &&& n < 8 * bytes.len() ==> w.slot == Slot::fresh(
                SlotKind::Write(crate::crc::byte_bit(bytes[n as int / 8], (n % 8) as u8)),
            ) && !w.over()
            &&& n == 8 * bytes.len() ==> w.over()
        }),
{
    lemma_writer_at(bytes, reset_first, present, n);
}

/// Where a writer stands after its reset pulse, if it has one, and `n` write slots.
proof fn lemma_writer_at(bytes: Seq<u8>, reset_first: bool, present: bool, n: nat)
    requires
        n <= 8 * bytes.len(),
    ensures
        ({
            let lead: nat = if reset_first {
                1
            } else {
                0
            };
            let start = WriterView::begun(bytes, reset_first);
            let w = start.after_slots(present, lead + n);
            &&& w.bytes == bytes
            &&& !w.resetting
            &&& w.byte == n / 8
            &&& w.bit == n % 8
            &&& reset_first ==> start.slot == Slot::fresh(SlotKind::Reset) && w.presence == present
            &&& n < 8 * bytes.len() ==> w.slot == Slot::fresh(
                SlotKind::Write(crate::crc::byte_bit(bytes[n as int / 8], (n % 8) as u8)),
            )
        }),
    decreases n,
{
    let lead: nat = if reset_first {
        1
    } else {
        0
    };
    let start = WriterView::begun(bytes, reset_first);
    if n == 0 {
        if reset_first {
            assert(start.after_slots(present, 1) == start.after_slots(present, 0).after_slot(
                present,
            ));
        }
    } else {
        lemma_writer_at(bytes, reset_first, present, (n - 1) as nat);
        assert(start.after_slots(present, lead + n) == start.after_slots(
            present,
            (lead + n - 1) as nat,
        ).after_slot(present));
    }
}

/// A reader that is sent bytes bit by bit, each lowest bit first, collects those bytes
/// in order, one for every eight read slots, and is over when it has as many as it was
/// asked for.
pub proof fn lemma_reader_slots(count: nat, sent: Seq<u8>, n: nat)
    requires
        n <= 8 * count,
        count <= sent.len(),
    ensures
        ({
            let r = ReaderView::begun(count as int).after_sent(sent, n);
            &&& r.bytes == sent.take(n as int / 8)
            &&& n < 8 * count ==> !r.over() && r.slot == Slot::fresh(SlotKind::Read)
            &&& n == 8 * count ==> r.over() && r.bytes == sent.take(count as int)
        }),
{
    lemma_reader_at(count, sent, n);
}

/// Where a reader stands after `n` read slots.
proof fn lemma_reader_at(count: nat, sent: Seq<u8>, n: nat)
    requires
        n <= 8 * count,
        count <= sent.len(),
    ensures
        ({
            let r = ReaderView::begun(count as int).after_sent(sent, n);
            &&& r.count == count
            &&& r.bytes == sent.take(n as int / 8)
            &&& r.bit == n % 8
            &&& n < 8 * count ==> r.current == read_back(0, sent[n as int / 8], n % 8) && r.slot
                == Slot::fresh(SlotKind::Read)
        }),
    decreases n,
{
    if n == 0 {
        assert(sent.take(0) =~= Seq::<u8>::empty());
    } else {
        let m = (n - 1) as nat;
        lemma_reader_at(count, sent, m);
        let before = ReaderView::begun(count as int).after_sent(sent, m);
        let value = sent[m as int / 8];
        if m % 8 == 7 {
            reveal_with_fuel(read_back, 2);
            lemma_round_trip(0, value);
            assert(sent.take(m as int / 8).push(value) =~= sent.take(n as int / 8));
        }
    }
}

/// A byte written and sent back reads as the same byte: a writer for one byte goes
/// through eight write slots that carry the bits of the byte, lowest first, and a reader
/// for one byte that is sent those bits in its eight read slots ends with that byte.
pub proof fn lemma_echo(value: u8)
    ensures
        forall|j: nat|
            j < 8 ==> (#[trigger] WriterView::begun(seq![value], false).after_slots(false, j)).slot
                == Slot::fresh(SlotKind::Write(crate::crc::byte_bit(value, j as u8))),
        WriterView::begun(seq![value], false).after_slots(false, 8).over(),
        ReaderView::begun(1).after_sent(seq![value], 8).bytes == seq![value],
        ReaderView::begun(1).after_sent(seq![value], 8).over(),
{
    let bytes = seq![value];
    assert forall|j: nat| j < 8 implies (#[trigger] WriterView::begun(bytes, false).after_slots(
        false,
        j,
    )).slot == Slot::fresh(SlotKind::Write(crate::crc::byte_bit(value, j as u8))) by {
        lemma_writer_slots(bytes, false, false, j);
    }
    lemma_writer_slots(bytes, false, false, 8);
    lemma_reader_slots(1, bytes, 8);
    assert(bytes.take(1) =~= bytes);
}

} // verus!
