//! The PL011 UART of the BCM2837 and the BCM2711.

use vstd::prelude::*;
use crate::bus::{poll_plan, polled, Access, Cursor, Poll, Stage, Step};
use crate::console::{All, Read, Statistics, Write};
use crate::driver::DeviceDriver;
use crate::fields::{field_sum, field_val, field_value, FieldValue};
use crate::mmio::MMIODerefWrapper;
use crate::synchronization::{Mutex, NullLock};

verus! {

/// The layout of the UART's bank.
pub struct RegisterBlock;

/// Data register: a write queues a character for sending, a read takes a
/// received one.
pub const DR: usize = 0x00;

/// Flag register.
pub const FR: usize = 0x18;

/// Integer part of the baud rate divisor, sixteen bits.
pub const IBRD: usize = 0x24;

/// Fractional part of the baud rate divisor, six bits, in sixty-fourths.
pub const FBRD: usize = 0x28;

/// Line control register.
pub const LCR_H: usize = 0x2C;

/// Control register.
pub const CR: usize = 0x30;

/// Interrupt clear register, eleven bits.
pub const ICR: usize = 0x44;

/// The size of the bank in bytes.
pub const BANK_SIZE: usize = 0x48;

/// The clock that feeds the UART, in hertz.
pub const UART_CLOCK_HZ: u32 = 48_000_000;

/// The baud rate that the UART is set to.
pub const BAUD_RATE: u32 = 115_200;

type Registers = MMIODerefWrapper<RegisterBlock>;

/// The flag that is up while the UART is sending: bit 3 of the flag register.
pub open spec fn busy() -> FieldValue {
    FieldValue { mask: 0x08, value: 0x08 }
}

/// The flag that is up while nothing received is waiting: bit 4 of the flag
/// register.
pub open spec fn receive_empty() -> FieldValue {
    FieldValue { mask: 0x10, value: 0x10 }
}

/// The flag that is up while no more can be queued for sending: bit 5 of the
/// flag register.
pub open spec fn transmit_full() -> FieldValue {
    FieldValue { mask: 0x20, value: 0x20 }
}

/// The whole part of the divisor that brings a clock of `clock` hertz down
/// to sixteen samples for each of `baud` bits a second.
pub open spec fn divisor_int(clock: nat, baud: nat) -> nat {
    clock / (16 * baud)
}

/// The rest of that divisor in sixty-fourths, rounded to the nearest.
pub open spec fn divisor_frac(clock: nat, baud: nat) -> nat {
    ((clock % (16 * baud)) * 64 + 8 * baud) / (16 * baud)
}

/// The low byte of a character, which is what the UART sends of it.
pub open spec fn low_byte(c: char) -> u32 {
    (c as u32) & 0xFF
}

/// The character that a word read from the data register brings: its low
/// byte.
pub open spec fn received(word: u32) -> char {
    ((word & 0xFF) as u8) as char
}

/// Whether a read waits for a character.
#[derive(Clone, Copy, PartialEq, Eq, Structural, Debug)]
pub enum BlockingMode {
    /// The read waits until a character has come in.
    Blocking,
    /// The read gives up at once where none is waiting.
    NonBlocking,
}

/// An operation of the UART.
#[derive(Clone, Copy, PartialEq, Eq, Structural, Debug)]
pub enum Job {
    /// Setting the UART up.
    Init,
    /// Sending this character.
    WriteChar(char),
    /// Sending a string.
    WriteStr,
    /// Waiting until all that was queued is sent.
    Flush,
    /// Receiving a character.
    ReadChar(BlockingMode),
    /// Discarding what has been received.
    ClearRx,
}

/// How the UART is set up for eight data bits, no parity, one stop bit at
/// 115200 baud: wait until it has sent what is queued; switch it off; write
/// the clear value of the interrupt field; set the divisor to 26 and 3/64;
/// select eight-bit words and the FIFOs; switch the UART, its transmitter and
/// its receiver on.
pub open spec fn init_plan(base: usize) -> Seq<Step> {
    seq![
        Step::WaitWhile { addr: (base + FR) as usize, flag: busy() },
        Step::Store { addr: (base + CR) as usize, value: 0 },
        Step::Store { addr: (base + ICR) as usize, value: 0 },
        Step::Store { addr: (base + IBRD) as usize, value: 26 },
        Step::Store { addr: (base + FBRD) as usize, value: 3 },
        Step::Store { addr: (base + LCR_H) as usize, value: 0x70 },
        Step::Store { addr: (base + CR) as usize, value: 0x301 },
    ]
}

/// How a character is sent: wait while the transmit FIFO is full, then write
/// the character's low byte to the data register.
pub open spec fn write_char_plan(base: usize, c: char) -> Seq<Step> {
    seq![
        Step::WaitWhile { addr: (base + FR) as usize, flag: transmit_full() },
        Step::Store { addr: (base + DR) as usize, value: low_byte(c) },
    ]
}

/// How the UART is drained: wait while it is busy sending.
pub open spec fn flush_plan(base: usize) -> Seq<Step> {
    seq![Step::WaitWhile { addr: (base + FR) as usize, flag: busy() }]
}

/// How a character is received. A blocking read waits while the receive FIFO
/// is empty; a non-blocking read ends without a result where it is. Then the
/// data register is read.
pub open spec fn read_char_plan(base: usize, mode: BlockingMode) -> Seq<Step> {
    seq![
        match mode {
            BlockingMode::Blocking => Step::WaitWhile {
                addr: (base + FR) as usize,
                flag: receive_empty(),
            },
            BlockingMode::NonBlocking => Step::StopIf {
                addr: (base + FR) as usize,
                flag: receive_empty(),
            },
        },
        Step::Fetch { addr: (base + DR) as usize },
    ]
}

/// What a UART driver holds.
pub struct UartState {
    /// The address of the UART's bank.
    pub base: usize,
    /// How many characters have been sent.
    pub chars_written: nat,
    /// How many characters have been received.
    pub chars_read: nat,
    /// The operation under way and how far it has come; `None` while none is.
    pub progress: Option<(Job, Cursor)>,
    /// How many characters of the string being sent are out.
    pub position: nat,
}

/// An answer without its word.
pub open spec fn done(answer: Poll<Option<u32>>) -> Poll<()> {
    match answer {
        Poll::Pending(access) => Poll::Pending(access),
        Poll::Ready(_) => Poll::Ready(()),
    }
}

impl UartState {
    /// How far `job` has come; `None` where another operation, or none, is
    /// under way.
    pub open spec fn standing(self, job: Job) -> Option<Cursor> {
        match self.progress {
            Some((under_way, at)) => if under_way == job {
                Some(at)
            } else {
                None
            },
            None => None,
        }
    }

    /// One call of an operation `job` that follows `plan`, as [`polled`]
    /// says: the state it leaves, and the plan's answer.
    pub open spec fn follow(self, job: Job, plan: Seq<Step>, reply: Option<u32>) -> (UartState, Poll<Option<u32>>) {
        let (progress, answer) = polled(plan, self.standing(job), reply);
        (
            UartState {
                progress: match progress {
                    Some(at) => Some((job, at)),
                    None => None,
                },
                ..self
            },
            answer,
        )
    }

    /// One call of `init`: it follows [`init_plan`] and changes nothing else.
    pub open spec fn init(self, reply: Option<u32>) -> (UartState, Poll<()>) {
        let (next, answer) = self.follow(Job::Init, init_plan(self.base), reply);
        (next, done(answer))
    }

    /// One call of `flush`: it follows [`flush_plan`] and changes nothing
    /// else.
    pub open spec fn flush(self, reply: Option<u32>) -> (UartState, Poll<()>) {
        let (next, answer) = self.follow(Job::Flush, flush_plan(self.base), reply);
        (next, done(answer))
    }

    /// One call of `write_char`: it follows [`write_char_plan`], and counts
    /// the character as sent with the call that finds the store performed.
    pub open spec fn write_char(self, c: char, reply: Option<u32>) -> (UartState, Poll<()>) {
        let (next, answer) = self.follow(Job::WriteChar(c), write_char_plan(self.base, c), reply);
        match answer {
            Poll::Pending(access) => (next, Poll::Pending(access)),
            Poll::Ready(_) => (
                UartState { chars_written: self.chars_written + 1, ..next },
                Poll::Ready(()),
            ),
        }
    }

    /// One call of `read_char`: it follows [`read_char_plan`]. Where the plan
    /// ends with a word, the character is counted as received and returned;
    /// where it ends without one, nothing is counted.
    pub open spec fn read_char(self, mode: BlockingMode, reply: Option<u32>) -> (UartState, Poll<Option<char>>) {
        let (next, answer) = self.follow(Job::ReadChar(mode), read_char_plan(self.base, mode), reply);
        match answer {
            Poll::Pending(access) => (next, Poll::Pending(access)),
            Poll::Ready(Some(word)) => (
                UartState { chars_read: self.chars_read + 1, ..next },
                Poll::Ready(Some(received(word))),
            ),
            Poll::Ready(None) => (next, Poll::Ready(None)),
        }
    }

    /// One call of `clear_rx`: non-blocking reads, one after the other. A
    /// read that brings a character is counted and the next one is started
    /// with the same call; the first read that brings none ends the
    /// operation.
    pub open spec fn clear_rx(self, reply: Option<u32>) -> (UartState, Poll<()>) {
        let plan = read_char_plan(self.base, BlockingMode::NonBlocking);
        let (next, answer) = self.follow(Job::ClearRx, plan, reply);
        match answer {
            Poll::Pending(access) => (next, Poll::Pending(access)),
            Poll::Ready(Some(_)) => {
                let counted = UartState { chars_read: self.chars_read + 1, ..next };
                let (again, first) = counted.follow(Job::ClearRx, plan, None);
                (again, done(first))
            },
            Poll::Ready(None) => (next, Poll::Ready(())),
        }
    }

    /// How many characters of a string are out when a call of `write_str`
    /// comes with `reply`: none where the call starts the operation.
    pub open spec fn sent(self, reply: Option<u32>) -> nat {
        if reply is Some && self.standing(Job::WriteStr) is Some {
            self.position
        } else {
            0
        }
    }

    /// One call of `write_str`: the characters of `s` are sent in order, each
    /// as `write_char` sends one. A character is counted with the call that
    /// finds its store performed, and the next one is started with the same
    /// call; after the last one the operation is complete.
    pub open spec fn write_str(self, s: Seq<char>, reply: Option<u32>) -> (UartState, Poll<()>) {
        let i = self.sent(reply);
        if i >= s.len() {
            (UartState { progress: None, position: 0, ..self }, Poll::Ready(()))
        } else {
            let (next, answer) = UartState { position: i, ..self }.follow(
                Job::WriteStr,
                write_char_plan(self.base, s[i as int]),
                reply,
            );
            match answer {
                Poll::Pending(access) => (next, Poll::Pending(access)),
                Poll::Ready(_) => {
                    let counted = UartState {
                        chars_written: self.chars_written + 1,
                        position: i + 1,
                        ..next
                    };
                    if i + 1 < s.len() {
                        let (again, first) = counted.follow(
                            Job::WriteStr,
                            write_char_plan(self.base, s[i as int + 1]),
                            None,
                        );
                        (again, done(first))
                    } else {
                        (UartState { position: 0, ..counted }, Poll::Ready(()))
                    }
                },
            }
        }
    }

    /// One call of `init` as a device driver makes it: [`UartState::init`],
    /// which always ends well.
    pub open spec fn bring_up(self, reply: Option<u32>) -> (UartState, Poll<Result<(), &'static str>>) {
        let (next, answer) = self.init(reply);
        (
            next,
            match answer {
                Poll::Pending(access) => Poll::Pending(access),
                Poll::Ready(_) => Poll::Ready(Ok(())),
            },
        )
    }

    /// One call of a console's `read_char`: a blocking
    /// [`UartState::read_char`], which ends with a character.
    pub open spec fn read_blocking(self, reply: Option<u32>) -> (UartState, Poll<char>) {
        let (next, answer) = self.read_char(BlockingMode::Blocking, reply);
        (
            next,
            match answer {
                Poll::Pending(access) => Poll::Pending(access),
                Poll::Ready(c) => Poll::Ready(c.unwrap()),
            },
        )
    }

    /// Whether the progress is one that the operations leave behind: a
    /// position inside the plan of the operation under way, with an access
    /// asked for and no word fetched yet.
    pub open spec fn sound(self) -> bool {
        match self.progress {
            None => true,
            Some((job, at)) => {
                &&& at.word is None
                &&& at.stage != Stage::Due
                &&& match job {
                    Job::Init => at.index < 7 && (at.stage == Stage::Settling ==> at.index == 0),
                    Job::Flush => at.index == 0,
                    Job::WriteChar(_) => at.index < 2 && (at.stage == Stage::Settling ==> at.index == 0),
                    Job::WriteStr => at.index < 2 && (at.stage == Stage::Settling ==> at.index == 0),
                    Job::ReadChar(BlockingMode::Blocking) => at.index < 2 && (at.stage == Stage::Settling
                        ==> at.index == 0),
                    Job::ReadChar(BlockingMode::NonBlocking) => at.index < 2 && at.stage == Stage::Asked,
                    Job::ClearRx => at.index < 2 && at.stage == Stage::Asked,
                }
            },
        }
    }
}

/// Computes the divisor for a clock of `clock` hertz and `baud` bits a
/// second: the whole part, and the rest in sixty-fourths rounded to the
/// nearest.
pub fn baud_divisors(clock: u32, baud: u32) -> (divisor: (u32, u32))
    requires
        baud > 0,
    ensures
        divisor.0 == divisor_int(clock as nat, baud as nat),
        divisor.1 == divisor_frac(clock as nat, baud as nat),
{
    let samples: u64 = 16 * (baud as u64);
    let whole: u64 = (clock as u64) / samples;
    let rest: u64 = (clock as u64) % samples;
    let scaled: u64 = rest * 64 + 8 * (baud as u64);
    let sixty_fourths: u64 = scaled / samples;
    assert(whole <= clock) by (nonlinear_arith)
        requires
            whole == (clock as int) / (samples as int),
            samples >= 1,
    ;
    assert(sixty_fourths <= 64) by (nonlinear_arith)
        requires
            sixty_fourths == (scaled as int) / (samples as int),
            scaled < 65 * samples,
            samples >= 1,
    ;
    (whole as u32, sixty_fourths as u32)
}

/// The UART without a lock round it.
pub struct PL011UartInner {
    registers: Registers,
    chars_written: usize,
    chars_read: usize,
    progress: Option<(Job, Cursor)>,
    position: usize,
}

/// The UART as the panic path uses it.
pub type PanicUart = PL011UartInner;

impl View for PL011UartInner {
    type V = UartState;

    closed spec fn view(&self) -> UartState {
        UartState {
            base: self.registers.base(),
            chars_written: self.chars_written as nat,
            chars_read: self.chars_read as nat,
            progress: self.progress,
            position: self.position as nat,
        }
    }
}

impl PL011UartInner {
    /// What holds of every driver: its bank lies within the address space,
    /// and its progress is sound.
    #[verifier::type_invariant]
    pub open spec fn inv(&self) -> bool {
        &&& self@.base + BANK_SIZE <= usize::MAX
        &&& self@.sound()
    }

    /// The driver of the UART at `mmio_start_addr`: nothing sent, nothing
    /// received, nothing under way. The bank has to lie within the address
    /// space.
    pub fn new(mmio_start_addr: usize) -> (uart: Self)
        requires
            mmio_start_addr + BANK_SIZE <= usize::MAX,
        ensures
            uart@ == (UartState {
                base: mmio_start_addr,
                chars_written: 0,
                chars_read: 0,
                progress: None,
                position: 0,
            }),
    {
        PL011UartInner {
            registers: Registers::new(mmio_start_addr),
            chars_written: 0,
            chars_read: 0,
            progress: None,
            position: 0,
        }
    }

    /// How many characters have been sent.
    pub fn chars_written(&self) -> (count: usize)
        ensures
            count == self@.chars_written,
    {
        self.chars_written
    }

    /// How many characters have been received.
    pub fn chars_read(&self) -> (count: usize)
        ensures
            count == self@.chars_read,
    {
        self.chars_read
    }

    /// Starts or resumes `job` along `plan` and keeps the progress.
    fn follow(&mut self, job: Job, plan: &Vec<Step>, reply: Option<u32>) -> (answer: Poll<Option<u32>>)
        requires
            old(self)@.follow(job, plan@, reply).0.sound(),
        ensures
            (final(self)@, answer) == old(self)@.follow(job, plan@, reply),
    {
        proof {
            use_type_invariant(&*self);
        }
        let standing: Option<Cursor> = match self.progress {
            Some((under_way, at)) => if under_way == job {
                Some(at)
            } else {
                None
            },
            None => None,
        };
        let (progress, answer) = poll_plan(plan, standing, reply);
        self.progress = match progress {
            Some(at) => Some((job, at)),
            None => None,
        };
        answer
    }

    fn init_steps(&self) -> (plan: Vec<Step>)
        ensures
            plan@ == init_plan(self@.base),
    {
        proof {
            use_type_invariant(self);
        }
        let (whole, sixty_fourths) = baud_divisors(UART_CLOCK_HZ, BAUD_RATE);
        assert(whole == 26 && sixty_fourths == 3) by (nonlinear_arith)
            requires
                whole == divisor_int(48_000_000, 115_200),
                sixty_fourths == divisor_frac(48_000_000, 115_200),
        ;
        let sending = field_value(0b1, 3, 0b1);
        let interrupts = field_value(0x7FF, 0, 0);
        let whole_part = field_val(0xFFFF, 0, whole);
        let fraction = field_val(0x3F, 0, sixty_fourths);
        let line = field_sum(field_value(0b11, 5, 0b11), field_value(0b1, 4, 0b1));
        let on = field_sum(
            field_sum(field_value(0b1, 0, 0b1), field_value(0b1, 8, 0b1)),
            field_value(0b1, 9, 0b1),
        );
        assert({
            &&& 0b1u32 << 3u32 == 0x08u32
            &&& (0b1u32 & 0b1u32) << 3u32 == 0x08u32
            &&& (0u32 & 0x7FFu32) << 0u32 == 0u32
            &&& (26u32 & 0xFFFFu32) << 0u32 == 26u32
            &&& (3u32 & 0x3Fu32) << 0u32 == 3u32
            &&& 0b11u32 << 5u32 == 0x60u32
            &&& (0b11u32 & 0b11u32) << 5u32 == 0x60u32
            &&& 0b1u32 << 4u32 == 0x10u32
            &&& (0b1u32 & 0b1u32) << 4u32 == 0x10u32
            &&& (0x60u32 & 0x60u32) | (0x10u32 & 0x10u32) == 0x70u32
            &&& 0b1u32 << 0u32 == 0x01u32
            &&& (0b1u32 & 0b1u32) << 0u32 == 0x01u32
            &&& 0b1u32 << 8u32 == 0x100u32
            &&& (0b1u32 & 0b1u32) << 8u32 == 0x100u32
            &&& 0b1u32 << 9u32 == 0x200u32
            &&& (0b1u32 & 0b1u32) << 9u32 == 0x200u32
            &&& 0x01u32 | 0x100u32 == 0x101u32
            &&& (0x01u32 & 0x01u32) | (0x100u32 & 0x100u32) == 0x101u32
            &&& (0x101u32 & 0x101u32) | (0x200u32 & 0x200u32) == 0x301u32
        }) by (bit_vector);
        let plan = vec![
            Step::WaitWhile { addr: self.registers.at(FR), flag: sending },
            Step::Store { addr: self.registers.at(CR), value: 0 },
            Step::Store { addr: self.registers.at(ICR), value: interrupts.value },
            Step::Store { addr: self.registers.at(IBRD), value: whole_part.value },
            Step::Store { addr: self.registers.at(FBRD), value: fraction.value },
            Step::Store { addr: self.registers.at(LCR_H), value: line.value },
            Step::Store { addr: self.registers.at(CR), value: on.value },
        ];
        assert(plan@ =~= init_plan(self@.base));
        plan
    }

    fn flush_steps(&self) -> (plan: Vec<Step>)
        ensures
            plan@ == flush_plan(self@.base),
    {
        proof {
            use_type_invariant(self);
        }
        let sending = field_value(0b1, 3, 0b1);
        assert(0b1u32 << 3u32 == 0x08u32 && (0b1u32 & 0b1u32) << 3u32 == 0x08u32) by (bit_vector);
        let plan = vec![Step::WaitWhile { addr: self.registers.at(FR), flag: sending }];
        assert(plan@ =~= flush_plan(self@.base));
        plan
    }

    fn write_char_steps(&self, c: char) -> (plan: Vec<Step>)
        ensures
            plan@ == write_char_plan(self@.base, c),
    {
        proof {
            use_type_invariant(self);
        }
        let full = field_value(0b1, 5, 0b1);
        assert(0b1u32 << 5u32 == 0x20u32 && (0b1u32 & 0b1u32) << 5u32 == 0x20u32) by (bit_vector);
        let plan = vec![
            Step::WaitWhile { addr: self.registers.at(FR), flag: full },
            Step::Store { addr: self.registers.at(DR), value: (c as u32) & 0xFF },
        ];
        assert(plan@ =~= write_char_plan(self@.base, c));
        plan
    }

    fn read_char_steps(&self, mode: BlockingMode) -> (plan: Vec<Step>)
        ensures
            plan@ == read_char_plan(self@.base, mode),
    {
        proof {
            use_type_invariant(self);
        }
        let empty = field_value(0b1, 4, 0b1);
        assert(0b1u32 << 4u32 == 0x10u32 && (0b1u32 & 0b1u32) << 4u32 == 0x10u32) by (bit_vector);
        let check = match mode {
            BlockingMode::Blocking => Step::WaitWhile { addr: self.registers.at(FR), flag: empty },
            BlockingMode::NonBlocking => Step::StopIf { addr: self.registers.at(FR), flag: empty },
        };
        let plan = vec![check, Step::Fetch { addr: self.registers.at(DR) }];
        assert(plan@ =~= read_char_plan(self@.base, mode));
        plan
    }

    /// Sets the UART up for eight data bits, no parity, one stop bit at
    /// 115200 baud, one bus access at a time.
    ///
    /// `None` for `reply` starts the operation, `Some` of what the last
    /// access returned resumes it. It cannot fail.
    pub fn init(&mut self, reply: Option<u32>) -> (out: Poll<()>)
        ensures
            (final(self)@, out) == old(self)@.init(reply),
    {
        proof {
            use_type_invariant(&*self);
        }
        let plan = self.init_steps();
        let answer = self.follow(Job::Init, &plan, reply);
        match answer {
            Poll::Pending(access) => Poll::Pending(access),
            Poll::Ready(_) => Poll::Ready(()),
        }
    }

    /// Sends `c`, one bus access at a time: waits while the transmit FIFO is
    /// full, writes the character's low byte to the data register, and counts
    /// the character with the call that completes the operation.
    ///
    /// The count has to have room for one more character.
    pub fn write_char(&mut self, c: char, reply: Option<u32>) -> (out: Poll<()>)
        requires
            old(self)@.chars_written < usize::MAX,
        ensures
            (final(self)@, out) == old(self)@.write_char(c, reply),
    {
        proof {
            use_type_invariant(&*self);
        }
        let plan = self.write_char_steps(c);
        let answer = self.follow(Job::WriteChar(c), &plan, reply);
        match answer {
            Poll::Pending(access) => Poll::Pending(access),
            Poll::Ready(_) => {
                proof {
                    use_type_invariant(&*self);
                }
                self.chars_written = self.chars_written + 1;
                Poll::Ready(())
            },
        }
    }

    /// Receives a character, one bus access at a time.
    ///
    /// A blocking read waits until the receive FIFO holds a character. A
    /// non-blocking read that finds the FIFO empty is complete at once, with
    /// `None` and with nothing counted. Else the data register is read, the
    /// character is counted, and the operation is complete with `Some` of it.
    ///
    /// The count has to have room for one more character.
    pub fn read_char(&mut self, blocking_mode: BlockingMode, reply: Option<u32>) -> (out: Poll<Option<char>>)
        requires
            old(self)@.chars_read < usize::MAX,
        ensures
            (final(self)@, out) == old(self)@.read_char(blocking_mode, reply),
    {
        proof {
            use_type_invariant(&*self);
        }
        let plan = self.read_char_steps(blocking_mode);
        let answer = self.follow(Job::ReadChar(blocking_mode), &plan, reply);
        match answer {
            Poll::Pending(access) => Poll::Pending(access),
            Poll::Ready(Some(word)) => {
                proof {
                    use_type_invariant(&*self);
                }
                self.chars_read = self.chars_read + 1;
                Poll::Ready(Some(((word & 0xFF) as u8) as char))
            },
            Poll::Ready(None) => Poll::Ready(None),
        }
    }

    /// Discards what has been received, one bus access at a time: reads
    /// without blocking, counting each character, until a read finds the
    /// receive FIFO empty.
    ///
    /// The count has to have room for one more character.
    pub fn clear_rx(&mut self, reply: Option<u32>) -> (out: Poll<()>)
        requires
            old(self)@.chars_read < usize::MAX,
        ensures
            (final(self)@, out) == old(self)@.clear_rx(reply),
    {
        proof {
            use_type_invariant(&*self);
        }
        let plan = self.read_char_steps(BlockingMode::NonBlocking);
        let answer = self.follow(Job::ClearRx, &plan, reply);
        match answer {
            Poll::Pending(access) => Poll::Pending(access),
            Poll::Ready(Some(_)) => {
                proof {
                    use_type_invariant(&*self);
                }
                self.chars_read = self.chars_read + 1;
                let first = self.follow(Job::ClearRx, &plan, None);
                match first {
                    Poll::Pending(access) => Poll::Pending(access),
                    Poll::Ready(_) => Poll::Ready(()),
                }
            },
            Poll::Ready(None) => Poll::Ready(()),
        }
    }

    /// Sends the characters of `s` in order, one bus access at a time, each
    /// as [`PL011UartInner::write_char`] sends one.
    ///
    /// The count has to have room for one more character.
    pub fn write_str(&mut self, s: &str, reply: Option<u32>) -> (out: Poll<()>)
        requires
            old(self)@.chars_written < usize::MAX,
        ensures
            (final(self)@, out) == old(self)@.write_str(s@, reply),
    {
        proof {
            use_type_invariant(&*self);
        }
        let resumed = reply.is_some() && match self.progress {
            Some((Job::WriteStr, _)) => true,
            _ => false,
        };
        let i: usize = if resumed {
            self.position
        } else {
            0
        };
        let len = s.unicode_len();
        if i >= len {
            self.progress = None;
            self.position = 0;
            return Poll::Ready(());
        }
        self.position = i;
        let plan = self.write_char_steps(s.get_char(i));
        let answer = self.follow(Job::WriteStr, &plan, reply);
        match answer {
            Poll::Pending(access) => Poll::Pending(access),
            Poll::Ready(_) => {
                proof {
                    use_type_invariant(&*self);
                }
                self.chars_written = self.chars_written + 1;
                if i + 1 < len {
                    self.position = i + 1;
                    let next = self.write_char_steps(s.get_char(i + 1));
                    let first = self.follow(Job::WriteStr, &next, None);
                    match first {
                        Poll::Pending(access) => Poll::Pending(access),
                        Poll::Ready(_) => Poll::Ready(()),
                    }
                } else {
                    self.position = 0;
                    Poll::Ready(())
                }
            },
        }
    }

    /// Waits until the UART has sent all that was queued, one bus access at
    /// a time.
    pub fn flush(&mut self, reply: Option<u32>) -> (out: Poll<()>)
        ensures
            (final(self)@, out) == old(self)@.flush(reply),
    {
        proof {
            use_type_invariant(&*self);
        }
        let plan = self.flush_steps();
        let answer = self.follow(Job::Flush, &plan, reply);
        match answer {
            Poll::Pending(access) => Poll::Pending(access),
            Poll::Ready(_) => Poll::Ready(()),
        }
    }
}

/// The UART.
pub struct PL011Uart {
    inner: NullLock<PL011UartInner>,
}

impl View for PL011Uart {
    type V = UartState;

    closed spec fn view(&self) -> UartState {
        self.inner.data()@
    }
}

impl PL011Uart {
    /// The driver of the UART at `mmio_start_addr`: nothing sent, nothing
    /// received, nothing under way. The bank has to lie within the address
    /// space.
    pub fn new(mmio_start_addr: usize) -> (uart: Self)
        requires
            mmio_start_addr + BANK_SIZE <= usize::MAX,
        ensures
            uart@ == (UartState {
                base: mmio_start_addr,
                chars_written: 0,
                chars_read: 0,
                progress: None,
                position: 0,
            }),
    {
        PL011Uart { inner: NullLock::new(PL011UartInner::new(mmio_start_addr)) }
    }
}

impl DeviceDriver for PL011Uart {
    fn compatible(&self) -> (name: &'static str)
        ensures
            name == "BCM PL011 UART",
    {
        "BCM PL011 UART"
    }

    /// Sets the UART up under the lock, as [`PL011UartInner::init`] does.
    fn init(&mut self, reply: Option<u32>) -> (out: Poll<Result<(), &'static str>>)
        ensures
            (final(self)@, out) == old(self)@.bring_up(reply),
    {
        let set_up = |inner: &mut PL011UartInner| -> (out: Poll<()>)
            ensures
                (final(inner)@, out) == old(inner)@.init(reply),
            {
                inner.init(reply)
            };
        match self.inner.lock(set_up) {
            Poll::Pending(access) => Poll::Pending(access),
            Poll::Ready(_) => Poll::Ready(Ok(())),
        }
    }
}

impl Write for PL011Uart {
    open spec fn room_to_write(&self) -> bool {
        self@.chars_written < usize::MAX
    }

    /// Sends `c` under the lock, as [`PL011UartInner::write_char`] does.
    fn write_char(&mut self, c: char, reply: Option<u32>) -> (out: Poll<()>)
        ensures
            (final(self)@, out) == old(self)@.write_char(c, reply),
    {
        let send = |inner: &mut PL011UartInner| -> (out: Poll<()>)
            requires
                old(inner)@.chars_written < usize::MAX,
            ensures
                (final(inner)@, out) == old(inner)@.write_char(c, reply),
            {
                inner.write_char(c, reply)
            };
        self.inner.lock(send)
    }

    /// Sends `s` under the lock, as [`PL011UartInner::write_str`] does.
    fn write_str(&mut self, s: &str, reply: Option<u32>) -> (out: Poll<()>)
        ensures
            (final(self)@, out) == old(self)@.write_str(s@, reply),
    {
        let send = |inner: &mut PL011UartInner| -> (out: Poll<()>)
            requires
                old(inner)@.chars_written < usize::MAX,
            ensures
                (final(inner)@, out) == old(inner)@.write_str(s@, reply),
            {
                inner.write_str(s, reply)
            };
        self.inner.lock(send)
    }

    /// Waits under the lock until the UART has sent all that was queued, as
    /// [`PL011UartInner::flush`] does.
    fn flush(&mut self, reply: Option<u32>) -> (out: Poll<()>)
        ensures
            (final(self)@, out) == old(self)@.flush(reply),
    {
        let drain = |inner: &mut PL011UartInner| -> (out: Poll<()>)
            ensures
                (final(inner)@, out) == old(inner)@.flush(reply),
            {
                inner.flush(reply)
            };
        self.inner.lock(drain)
    }
}

impl Read for PL011Uart {
    open spec fn room_to_read(&self) -> bool {
        self@.chars_read < usize::MAX
    }

    /// Receives a character under the lock, waiting for it, as a blocking
    /// [`PL011UartInner::read_char`] does.
    fn read_char(&mut self, reply: Option<u32>) -> (out: Poll<char>)
        ensures
            (final(self)@, out) == old(self)@.read_blocking(reply),
    {
        let receive = |inner: &mut PL011UartInner| -> (out: Poll<char>)
            requires
                old(inner)@.chars_read < usize::MAX,
            ensures
                (final(inner)@, out) == old(inner)@.read_blocking(reply),
            {
                proof {
                    use_type_invariant(&*inner);
                    lemma_blocking_read_brings_a_character(inner@, reply);
                }
                match inner.read_char(BlockingMode::Blocking, reply) {
                    Poll::Pending(access) => Poll::Pending(access),
                    Poll::Ready(Some(c)) => Poll::Ready(c),
                    Poll::Ready(None) => Poll::Ready(' '),
                }
            };
        self.inner.lock(receive)
    }

    /// Discards under the lock what has been received, as
    /// [`PL011UartInner::clear_rx`] does.
    fn clear_rx(&mut self, reply: Option<u32>) -> (out: Poll<()>)
        ensures
            (final(self)@, out) == old(self)@.clear_rx(reply),
    {
        let discard = |inner: &mut PL011UartInner| -> (out: Poll<()>)
            requires
                old(inner)@.chars_read < usize::MAX,
            ensures
                (final(inner)@, out) == old(inner)@.clear_rx(reply),
            {
                inner.clear_rx(reply)
            };
        self.inner.lock(discard)
    }
}

impl Statistics for PL011Uart {
    fn chars_written(&mut self) -> (count: usize)
        ensures
            count == old(self)@.chars_written,
            final(self)@ == old(self)@,
    {
        let count = |inner: &mut PL011UartInner| -> (count: usize)
            ensures
                count == old(inner)@.chars_written,
                final(inner)@ == old(inner)@,
            {
                inner.chars_written()
            };
        self.inner.lock(count)
    }

    fn chars_read(&mut self) -> (count: usize)
        ensures
            count == old(self)@.chars_read,
            final(self)@ == old(self)@,
    {
        let count = |inner: &mut PL011UartInner| -> (count: usize)
            ensures
                count == old(inner)@.chars_read,
                final(inner)@ == old(inner)@,
            {
                inner.chars_read()
            };
        self.inner.lock(count)
    }
}

impl All for PL011Uart {

}

/// A blocking read of a driver whose progress is sound never ends without a
/// character.
pub proof fn lemma_blocking_read_brings_a_character(uart: UartState, reply: Option<u32>)
    requires
        uart.sound(),
    ensures
        uart.read_char(BlockingMode::Blocking, reply).1 matches Poll::Ready(c) ==> c is Some,
{
}

/// What a driver holds after calls of `write_char`, one after the other:
/// each call with its character and its reply, oldest first.
pub open spec fn after_writes(uart: UartState, calls: Seq<(char, Option<u32>)>) -> UartState
    decreases calls.len(),
{
    if calls.len() == 0 {
        uart
    } else {
        after_writes(uart, calls.drop_last()).write_char(calls.last().0, calls.last().1).0
    }
}

/// How many of those calls have answered that their character is out.
pub open spec fn writes_completed(uart: UartState, calls: Seq<(char, Option<u32>)>) -> nat
    decreases calls.len(),
{
    if calls.len() == 0 {
        0
    } else {
        let earlier = calls.drop_last();
        let (c, reply) = calls.last();
        writes_completed(uart, earlier) + if after_writes(uart, earlier).write_char(c, reply).1 is Ready {
            1nat
        } else {
            0nat
        }
    }
}

/// Every character sent is counted once: after any calls of `write_char`,
/// the count has grown by the number of calls that answered that their
/// character is out, and by nothing else.
pub proof fn lemma_characters_sent_are_counted(uart: UartState, calls: Seq<(char, Option<u32>)>)
    ensures
        after_writes(uart, calls).chars_written == uart.chars_written + writes_completed(uart, calls),
        after_writes(uart, calls).chars_read == uart.chars_read,
    decreases calls.len(),
{
    if calls.len() > 0 {
        lemma_characters_sent_are_counted(uart, calls.drop_last());
    }
}

/// The flag register of a UART as a driver that sends sees it: the
/// transmit-full flag is up exactly when the transmit FIFO is full, and the
/// other bits are those of `other`.
pub open spec fn flags_while(other: u32, full: bool) -> u32 {
    if full {
        other | 0x20
    } else {
        other & !0x20u32
    }
}

/// Calls of `write_char` for `c` against a UART at the driver's address
/// whose transmit FIFO stays full for `full_for` more reads of the flag
/// register, until the operation is complete: the driver at the end and the
/// words that have been written to the data register, after those in
/// `sent`; `None` where more than `fuel` accesses are needed.
pub open spec fn send(
    uart: UartState,
    c: char,
    reply: Option<u32>,
    full_for: nat,
    sent: Seq<u32>,
    other: u32,
    fuel: nat,
) -> Option<(UartState, Seq<u32>)>
    decreases fuel,
{
    let (next, out) = uart.write_char(c, reply);
    match out {
        Poll::Ready(_) => Some((next, sent)),
        Poll::Pending(access) => if fuel == 0 {
            None
        } else {
            match access {
                Access::Load { addr } => if addr == uart.base + FR {
                    send(
                        next,
                        c,
                        Some(flags_while(other, full_for > 0)),
                        if full_for > 0 {
                            (full_for - 1) as nat
                        } else {
                            0
                        },
                        sent,
                        other,
                        (fuel - 1) as nat,
                    )
                } else {
                    send(next, c, Some(0), full_for, sent, other, (fuel - 1) as nat)
                },
                Access::Store { addr, value } => send(
                    next,
                    c,
                    Some(0),
                    full_for,
                    if addr == uart.base + DR {
                        sent.push(value)
                    } else {
                        sent
                    },
                    other,
                    (fuel - 1) as nat,
                ),
                Access::Spin { .. } => send(next, c, Some(0), full_for, sent, other, (fuel - 1) as nat),
            }
        },
    }
}

/// A character sent is one byte on the line and one more in the count.
/// Against a UART whose transmit FIFO stays full for `full_for` reads of the
/// flag register, `write_char` is complete after two accesses and two more
/// for each of those reads; the low byte of the character is the one word
/// that it has written to the data register; and the count of characters
/// sent has grown by exactly one.
pub proof fn lemma_write_char_sends_one_byte_and_counts_it(
    uart: UartState,
    c: char,
    full_for: nat,
    sent: Seq<u32>,
    other: u32,
)
    requires
        uart.base + BANK_SIZE <= usize::MAX,
    ensures
        send(uart, c, None, full_for, sent, other, 2 * full_for + 2) == Some(
            (
                UartState { progress: None, chars_written: uart.chars_written + 1, ..uart },
                sent.push(low_byte(c)),
            ),
        ),
{
    let asking = uart.write_char(c, None).0;
    assert(asking.progress == Some((Job::WriteChar(c), Cursor { index: 0, stage: Stage::Asked, word: None })));
    lemma_send_goes_on(asking, c, full_for, sent, other, 2 * full_for + 1);
}

/// The same from the point at which the flag register has been asked for.
proof fn lemma_send_goes_on(uart: UartState, c: char, full_for: nat, sent: Seq<u32>, other: u32, fuel: nat)
    requires
        uart.base + BANK_SIZE <= usize::MAX,
        uart.progress == Some((Job::WriteChar(c), Cursor { index: 0, stage: Stage::Asked, word: None })),
        fuel >= 2 * full_for + 1,
    ensures
        send(
            uart,
            c,
            Some(flags_while(other, full_for > 0)),
            if full_for > 0 {
                (full_for - 1) as nat
            } else {
                0
            },
            sent,
            other,
            fuel,
        ) == Some(
            (
                UartState { progress: None, chars_written: uart.chars_written + 1, ..uart },
                sent.push(low_byte(c)),
            ),
        ),
    decreases full_for,
{
    let flags = flags_while(other, full_for > 0);
    let left: nat = if full_for > 0 {
        (full_for - 1) as nat
    } else {
        0
    };
    assert((other | 0x20) & 0x20 == 0x20u32 & 0x20u32 && (other & !0x20u32) & 0x20 != 0x20u32 & 0x20u32)
        by (bit_vector);
    if full_for == 0 {
        let storing = uart.write_char(c, Some(flags)).0;
        assert(send(storing, c, Some(0), 0, sent.push(low_byte(c)), other, (fuel - 1) as nat) == Some(
            (storing.write_char(c, Some(0)).0, sent.push(low_byte(c))),
        ));
    } else {
        let pausing = uart.write_char(c, Some(flags)).0;
        lemma_send_goes_on(uart, c, left, sent, other, (fuel - 2) as nat);
        assert(send(uart, c, Some(flags), left, sent, other, fuel) == send(
            pausing,
            c,
            Some(0),
            left,
            sent,
            other,
            (fuel - 1) as nat,
        ));
    }
}

/// What a driver and the line hold after the characters of `chars` have
/// been sent one after the other, each with a whole `write_char`, against a
/// UART whose transmit FIFO stays full for `full_for(i)` reads of the flag
/// register while the character at `i` is sent.
pub open spec fn send_all(
    uart: UartState,
    chars: Seq<char>,
    full_for: spec_fn(int) -> nat,
    sent: Seq<u32>,
    other: u32,
) -> Option<(UartState, Seq<u32>)>
    decreases chars.len(),
{
    if chars.len() == 0 {
        Some((uart, sent))
    } else {
        let last = chars.len() - 1;
        match send_all(uart, chars.drop_last(), full_for, sent, other) {
            Some((before, line)) => send(
                before,
                chars[last],
                None,
                full_for(last),
                line,
                other,
                2 * full_for(last) + 2,
            ),
            None => None,
        }
    }
}

/// After characters have been sent one after the other, the count has grown
/// by their number, and their low bytes are on the line in their order,
/// however long the transmit FIFO was full for each.
pub proof fn lemma_characters_sent_one_after_the_other(
    uart: UartState,
    chars: Seq<char>,
    full_for: spec_fn(int) -> nat,
    sent: Seq<u32>,
    other: u32,
)
    requires
        uart.base + BANK_SIZE <= usize::MAX,
    ensures
        send_all(uart, chars, full_for, sent, other) == Some(
            (
                UartState {
                    progress: if chars.len() == 0 {
                        uart.progress
                    } else {
                        None
                    },
                    chars_written: uart.chars_written + chars.len(),
                    ..uart
                },
                sent + chars.map_values(|c: char| low_byte(c)),
            ),
        ),
    decreases chars.len(),
{
    let bytes = chars.map_values(|c: char| low_byte(c));
    if chars.len() == 0 {
        assert(sent + bytes =~= sent);
    } else {
        let last = chars.len() - 1;
        let earlier = chars.drop_last();
        lemma_characters_sent_one_after_the_other(uart, earlier, full_for, sent, other);
        let (before, line) = send_all(uart, earlier, full_for, sent, other).unwrap();
        lemma_write_char_sends_one_byte_and_counts_it(before, chars[last], full_for(last), line, other);
        assert(sent + bytes =~= (sent + earlier.map_values(|c: char| low_byte(c))).push(low_byte(chars[last])));
    }
}

/// The counts never go down, and no operation touches a count that is not
/// its own: whatever the operation and whatever it is given, the driver has
/// sent and received at least as many characters after a call as before;
/// setting up and flushing change neither count, sending leaves the count of
/// characters received alone, and receiving that of characters sent.
pub proof fn lemma_counts_never_go_down(uart: UartState, c: char, s: Seq<char>, mode: BlockingMode, reply: Option<u32>)
    ensures
        uart.init(reply).0.chars_written == uart.chars_written,
        uart.init(reply).0.chars_read == uart.chars_read,
        uart.flush(reply).0.chars_written == uart.chars_written,
        uart.flush(reply).0.chars_read == uart.chars_read,
        uart.write_char(c, reply).0.chars_written >= uart.chars_written,
        uart.write_char(c, reply).0.chars_read == uart.chars_read,
        uart.write_str(s, reply).0.chars_written >= uart.chars_written,
        uart.write_str(s, reply).0.chars_read == uart.chars_read,
        uart.read_char(mode, reply).0.chars_read >= uart.chars_read,
        uart.read_char(mode, reply).0.chars_written == uart.chars_written,
        uart.clear_rx(reply).0.chars_read >= uart.chars_read,
        uart.clear_rx(reply).0.chars_written == uart.chars_written,
{
}

/// A non-blocking read that finds the receive FIFO empty brings nothing and
/// counts nothing: started, it asks for the flag register; given a word in
/// which the receive-empty flag is up, it is complete without a character,
/// and the count of characters received is what it was.
pub proof fn lemma_nonblocking_read_of_nothing(uart: UartState, flags: u32)
    requires
        uart.base + BANK_SIZE <= usize::MAX,
        receive_empty().matched_by(flags),
    ensures
        ({
            let (asking, first) = uart.read_char(BlockingMode::NonBlocking, None);
            let (ended, second) = asking.read_char(BlockingMode::NonBlocking, Some(flags));
            &&& first == Poll::<Option<char>>::Pending(Access::Load { addr: (uart.base + FR) as usize })
            &&& second == Poll::<Option<char>>::Ready(None)
            &&& ended == UartState { progress: None, ..uart }
        }),
{
}

/// The flag register of a UART as a driver of the receive path sees it: the
/// receive-empty flag is up exactly when nothing received is waiting, and
/// the other bits are those of `other`.
pub open spec fn flags_with(other: u32, empty: bool) -> u32 {
    if empty {
        other | 0x10
    } else {
        other & !0x10u32
    }
}

/// What a UART at `base` returns for an access, and what it leaves waiting,
/// when `waiting` are the characters that it has received, oldest first: a
/// load of the data register takes the oldest one, a load of the flag
/// register shows [`flags_with`].
pub open spec fn receive(base: usize, waiting: Seq<u8>, other: u32, access: Access) -> (Seq<u8>, u32) {
    match access {
        Access::Load { addr } => if addr == base + DR && waiting.len() > 0 {
            (waiting.skip(1), waiting[0] as u32)
        } else if addr == base + FR {
            (waiting, flags_with(other, waiting.len() == 0))
        } else {
            (waiting, 0)
        },
        _ => (waiting, 0),
    }
}

/// Calls of `clear_rx` against such a UART, until the operation is
/// complete: the driver and what is left waiting at the end; `None` where
/// more than `fuel` accesses are needed.
pub open spec fn drain(uart: UartState, reply: Option<u32>, waiting: Seq<u8>, other: u32, fuel: nat) -> Option<
    (UartState, Seq<u8>),
>
    decreases fuel,
{
    let (next, out) = uart.clear_rx(reply);
    match out {
        Poll::Ready(_) => Some((next, waiting)),
        Poll::Pending(access) => if fuel == 0 {
            None
        } else {
            let (left, word) = receive(uart.base, waiting, other, access);
            drain(next, Some(word), left, other, (fuel - 1) as nat)
        },
    }
}

/// `clear_rx` comes to an end and leaves nothing waiting. Against a UART
/// that has received `waiting`, the operation is complete after one access
/// and two more for each character; it has counted every character; nothing
/// is left waiting; and a non-blocking read that follows brings nothing.
pub proof fn lemma_clear_rx_leaves_nothing_waiting(uart: UartState, waiting: Seq<u8>, other: u32)
    requires
        uart.base + BANK_SIZE <= usize::MAX,
    ensures
        drain(uart, None, waiting, other, 2 * waiting.len() + 1) == Some(
            (
                UartState { progress: None, chars_read: uart.chars_read + waiting.len(), ..uart },
                Seq::<u8>::empty(),
            ),
        ),
        ({
            let cleared = UartState { progress: None, chars_read: uart.chars_read + waiting.len(), ..uart };
            let (asking, first) = cleared.read_char(BlockingMode::NonBlocking, None);
            let (ended, second) = asking.read_char(
                BlockingMode::NonBlocking,
                Some(flags_with(other, true)),
            );
            &&& first == Poll::<Option<char>>::Pending(Access::Load { addr: (uart.base + FR) as usize })
            &&& second == Poll::<Option<char>>::Ready(None)
            &&& ended == cleared
        }),
{
    let asking = uart.clear_rx(None).0;
    assert(asking.progress == Some((Job::ClearRx, Cursor { index: 0, stage: Stage::Asked, word: None })));
    lemma_drain_goes_on(asking, waiting, other, 2 * waiting.len());
    assert((other | 0x10) & 0x10 == 0x10u32 & 0x10u32) by (bit_vector);
}

/// The same from the point at which the flag register has been asked for.
proof fn lemma_drain_goes_on(uart: UartState, waiting: Seq<u8>, other: u32, fuel: nat)
    requires
        uart.base + BANK_SIZE <= usize::MAX,
        uart.progress == Some((Job::ClearRx, Cursor { index: 0, stage: Stage::Asked, word: None })),
        fuel >= 2 * waiting.len(),
    ensures
        drain(uart, Some(flags_with(other, waiting.len() == 0)), waiting, other, fuel) == Some(
            (
                UartState { progress: None, chars_read: uart.chars_read + waiting.len(), ..uart },
                Seq::<u8>::empty(),
            ),
        ),
    decreases waiting.len(),
{
    let flags = flags_with(other, waiting.len() == 0);
    assert((other | 0x10) & 0x10 == 0x10u32 & 0x10u32 && (other & !0x10u32) & 0x10 != 0x10u32 & 0x10u32)
        by (bit_vector);
    if waiting.len() == 0 {
        assert(waiting =~= Seq::<u8>::empty());
    } else {
        let word = waiting[0] as u32;
        let rest = waiting.skip(1);
        let fetching = uart.clear_rx(Some(flags)).0;
        let asking = fetching.clear_rx(Some(word)).0;
        lemma_drain_goes_on(asking, rest, other, (fuel - 2) as nat);
        assert(drain(uart, Some(flags), waiting, other, fuel) == drain(
            fetching,
            Some(word),
            rest,
            other,
            (fuel - 1) as nat,
        ));
    }
}

} // verus!
