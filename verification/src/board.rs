//! The Raspberry Pi 3 and 4: where their devices lie, which drivers they
//! have, and what they use as a console.
//!
//! `RPI4` tells which board the code is built for: the Raspberry Pi 4, with
//! its BCM2711, where it holds; the Raspberry Pi 3, with its BCM2837, where
//! it does not.

use vstd::prelude::*;
use crate::bus::{polled, Cursor, Poll};
use crate::console::{Statistics, Write};
use crate::driver::{DeviceDriver, DeviceManager};
use crate::gpio::{pins_polled, uart_pins_plan, PanicGPIO, GPIO};
use crate::uart::{PL011Uart, PanicUart, UartState};

verus! {

/// Where a kernel that is loaded over the console is put and started.
pub const BOARD_DEFAULT_LOAD_ADDRESS: usize = 0x8_0000;

/// Where the GPIO bank lies among the peripherals.
pub const GPIO_OFFSET: usize = 0x0020_0000;

/// Where the PL011 UART lies among the peripherals.
pub const UART_OFFSET: usize = 0x0020_1000;

/// Where the peripherals of the Raspberry Pi 3 start.
pub const RPI3_MMIO_START: usize = 0x3F00_0000;

/// Where the peripherals of the Raspberry Pi 4 start.
pub const RPI4_MMIO_START: usize = 0xFE00_0000;

/// What the device manager answers when it is asked for a driver that the
/// registry does not hold.
pub const NO_SUCH_DRIVER: &'static str = "no such device driver";

/// Where the board's peripherals start.
pub open spec fn mmio_start(rpi4: bool) -> usize {
    if rpi4 {
        RPI4_MMIO_START
    } else {
        RPI3_MMIO_START
    }
}

/// The address of the board's GPIO bank.
pub open spec fn gpio_start(rpi4: bool) -> usize {
    (mmio_start(rpi4) + GPIO_OFFSET) as usize
}

/// The address of the board's PL011 UART.
pub open spec fn uart_start(rpi4: bool) -> usize {
    (mmio_start(rpi4) + UART_OFFSET) as usize
}

/// The board's name.
pub fn board_name<const RPI4: bool>() -> (name: &'static str)
    ensures
        name == if RPI4 {
            "Raspberry pi 4"
        } else {
            "Raspberry pi 3"
        },
{
    if RPI4 {
        "Raspberry pi 4"
    } else {
        "Raspberry pi 3"
    }
}

/// Where a kernel that is loaded over the console is put and started.
pub fn board_default_load_address() -> (addr: usize)
    ensures
        addr == BOARD_DEFAULT_LOAD_ADDRESS,
{
    BOARD_DEFAULT_LOAD_ADDRESS
}

fn peripherals<const RPI4: bool>() -> (start: usize)
    ensures
        start == mmio_start(RPI4),
{
    if RPI4 {
        RPI4_MMIO_START
    } else {
        RPI3_MMIO_START
    }
}

/// The board's devices and their registry: the GPIO bank first, then the
/// UART, whose pins the GPIO bank holds.
pub struct BSPDriverManager<const RPI4: bool> {
    gpio: GPIO<RPI4>,
    uart: PL011Uart,
}

impl<const RPI4: bool> BSPDriverManager<RPI4> {
    /// The driver of the GPIO bank.
    pub closed spec fn gpio(&self) -> GPIO<RPI4> {
        self.gpio
    }

    /// The driver of the UART.
    pub closed spec fn uart(&self) -> PL011Uart {
        self.uart
    }
}

/// The board's device manager, with the drivers of the GPIO bank and of the
/// UART at the board's addresses and nothing under way in either. A kernel
/// makes one, once.
pub fn driver_manager<const RPI4: bool>() -> (manager: BSPDriverManager<RPI4>)
    ensures
        manager.gpio().base() == gpio_start(RPI4),
        manager.gpio().progress() is None,
        manager.uart()@ == (UartState {
            base: uart_start(RPI4),
            chars_written: 0,
            chars_read: 0,
            progress: None,
            position: 0,
        }),
{
    let start = peripherals::<RPI4>();
    BSPDriverManager { gpio: GPIO::new(start + GPIO_OFFSET), uart: PL011Uart::new(start + UART_OFFSET) }
}

impl<const RPI4: bool> DeviceManager for BSPDriverManager<RPI4> {
    /// The registry holds two drivers.
    open spec fn holds(self, count: nat) -> bool {
        count == 2
    }

    /// The GPIO bank, at 0, has nothing to bring up and is done at once. The
    /// UART, at 1, is set up as [`UartState::bring_up`] says. There is no
    /// other driver: any other index is an error, and changes nothing.
    open spec fn brings_up(
        self,
        index: usize,
        reply: Option<u32>,
        after: Self,
        out: Poll<Result<(), &'static str>>,
    ) -> bool {
        &&& after.gpio() == self.gpio()
        &&& index == 0 ==> after.uart() == self.uart() && out == Poll::<Result<(), &'static str>>::Ready(
            Ok(()),
        )
        &&& index == 1 ==> (after.uart()@, out) == self.uart()@.bring_up(reply)
        &&& index > 1 ==> after.uart() == self.uart() && out == Poll::<Result<(), &'static str>>::Ready(
            Err(NO_SUCH_DRIVER),
        )
    }

    /// The pins of the UART are handed to it as [`pins_polled`] says, and
    /// the UART is left alone.
    open spec fn finishes(self, reply: Option<u32>, after: Self, out: Poll<()>) -> bool {
        &&& after.uart() == self.uart()
        &&& after.gpio().base() == self.gpio().base()
        &&& pins_polled(self.gpio().base(), RPI4, self.gpio().progress(), reply, after.gpio().progress(), out)
    }

    /// The GPIO bank, then the UART.
    fn all_device_drivers(&self) -> (drivers: Vec<&dyn DeviceDriver>) {
        let gpio: &dyn DeviceDriver = &self.gpio;
        let uart: &dyn DeviceDriver = &self.uart;
        vec![gpio, uart]
    }

    /// Calls `init` of the GPIO bank for 0 and of the UART for 1, and
    /// answers any other index with an error.
    fn init_device_driver(&mut self, index: usize, reply: Option<u32>) -> (out: Poll<Result<(), &'static str>>) {
        if index == 0 {
            self.gpio.init(reply)
        } else if index == 1 {
            self.uart.init(reply)
        } else {
            Poll::Ready(Err(NO_SUCH_DRIVER))
        }
    }

    /// Hands the pins of the UART to it, as [`GPIO::init_gpio_uart_pins`]
    /// does.
    fn post_device_driver_init(&mut self, reply: Option<u32>) -> (out: Poll<()>) {
        self.gpio.init_gpio_uart_pins(reply)
    }
}

/// The board's console: the UART that the device manager holds.
pub fn console<const RPI4: bool>(manager: &mut BSPDriverManager<RPI4>) -> (uart: &mut PL011Uart)
    ensures
        *uart == old(manager).uart(),
        final(manager).uart() == *final(uart),
        final(manager).gpio() == old(manager).gpio(),
{
    &mut manager.uart
}

/// How far the console of last resort has been set up.
#[derive(Clone, Copy, PartialEq, Eq, Structural, Debug)]
pub enum PanicStage {
    /// The pins are about to be handed to the UART, or are being handed over.
    Pins,
    /// The UART is being set up.
    Uart,
    /// The console is set up.
    Up,
}

/// What the console of last resort holds.
pub struct PanicState {
    /// The address of its GPIO bank.
    pub gpio_base: usize,
    /// How far the hand-over of the pins has come.
    pub pins: Option<Cursor>,
    /// Its UART.
    pub uart: UartState,
    /// How far it has been set up.
    pub stage: PanicStage,
}

/// The console of last resort: drivers of the GPIO bank and of the UART that
/// are made for the occasion and stand outside every lock, so that a panic
/// can still print when the kernel's own console is held or broken.
pub struct PanicConsole<const RPI4: bool> {
    gpio: PanicGPIO<RPI4>,
    uart: PanicUart,
    stage: PanicStage,
}

impl<const RPI4: bool> View for PanicConsole<RPI4> {
    type V = PanicState;

    closed spec fn view(&self) -> PanicState {
        PanicState {
            gpio_base: self.gpio.base(),
            pins: self.gpio.progress(),
            uart: self.uart@,
            stage: self.stage,
        }
    }
}

/// What one call of the set-up of the console of last resort does: with
/// `before` for the state it finds and `reply` for what it is given, the
/// state `after` it and its answer `out`.
///
/// `None` for `reply` starts with the pins, whatever was under way. The pins
/// are handed over as [`uart_pins_plan`] says; the call that finds them
/// handed over starts the set-up of the UART, which goes as
/// [`UartState::init`] says; the call that finds the UART set up completes
/// the console. A console that is set up stays so.
pub open spec fn panic_polled(
    before: PanicState,
    rpi4: bool,
    reply: Option<u32>,
    after: PanicState,
    out: Poll<()>,
) -> bool {
    if reply is None || before.stage == PanicStage::Pins {
        let (pins, answer) = polled(uart_pins_plan(before.gpio_base, rpi4), before.pins, reply);
        match answer {
            Poll::Pending(access) => {
                &&& after == PanicState { pins, stage: PanicStage::Pins, ..before }
                &&& out == Poll::<()>::Pending(access)
            },
            Poll::Ready(_) => {
                let (uart, first) = before.uart.init(None);
                &&& after == PanicState { pins, uart, stage: PanicStage::Uart, ..before }
                &&& out == first
            },
        }
    } else if before.stage == PanicStage::Uart {
        let (uart, answer) = before.uart.init(reply);
        &&& after == PanicState {
            uart,
            stage: if answer is Ready {
                PanicStage::Up
            } else {
                PanicStage::Uart
            },
            ..before
        }
        &&& out == answer
    } else {
        after == before && out == Poll::Ready(())
    }
}

/// The console of last resort for the board, not set up yet: fresh drivers
/// of the GPIO bank and of the UART at the board's addresses, with nothing
/// sent, nothing received and nothing under way.
pub fn panic_console_out<const RPI4: bool>() -> (console: PanicConsole<RPI4>)
    ensures
        console@ == (PanicState {
            gpio_base: gpio_start(RPI4),
            pins: None,
            uart: UartState {
                base: uart_start(RPI4),
                chars_written: 0,
                chars_read: 0,
                progress: None,
                position: 0,
            },
            stage: PanicStage::Pins,
        }),
{
    let start = peripherals::<RPI4>();
    PanicConsole {
        gpio: PanicGPIO::new(start + GPIO_OFFSET),
        uart: PanicUart::new(start + UART_OFFSET),
        stage: PanicStage::Pins,
    }
}

impl<const RPI4: bool> PanicConsole<RPI4> {
    /// Sets the console up, one bus access at a time: hands the pins to the
    /// UART, then sets the UART up. It cannot fail.
    pub fn init(&mut self, reply: Option<u32>) -> (out: Poll<()>)
        ensures
            panic_polled(old(self)@, RPI4, reply, final(self)@, out),
    {
        let wiring = match (reply, self.stage) {
            (None, _) => true,
            (_, PanicStage::Pins) => true,
            _ => false,
        };
        if wiring {
            match self.gpio.init_pl011_uart_pins(reply) {
                Poll::Pending(access) => {
                    self.stage = PanicStage::Pins;
                    Poll::Pending(access)
                },
                Poll::Ready(_) => {
                    self.stage = PanicStage::Uart;
                    self.uart.init(None)
                },
            }
        } else {
            match self.stage {
                PanicStage::Uart => {
                    let answer = self.uart.init(reply);
                    match answer {
                        Poll::Pending(access) => Poll::Pending(access),
                        Poll::Ready(_) => {
                            self.stage = PanicStage::Up;
                            Poll::Ready(())
                        },
                    }
                },
                _ => Poll::Ready(()),
            }
        }
    }
}

impl<const RPI4: bool> Write for PanicConsole<RPI4> {
    open spec fn room_to_write(&self) -> bool {
        self@.uart.chars_written < usize::MAX
    }

    /// Sends `c` through the console's UART.
    fn write_char(&mut self, c: char, reply: Option<u32>) -> (out: Poll<()>)
        ensures
            (final(self)@.uart, out) == old(self)@.uart.write_char(c, reply),
            final(self)@ == (PanicState { uart: final(self)@.uart, ..old(self)@ }),
    {
        self.uart.write_char(c, reply)
    }

    /// Sends `s` through the console's UART.
    fn write_str(&mut self, s: &str, reply: Option<u32>) -> (out: Poll<()>)
        ensures
            (final(self)@.uart, out) == old(self)@.uart.write_str(s@, reply),
            final(self)@ == (PanicState { uart: final(self)@.uart, ..old(self)@ }),
    {
        self.uart.write_str(s, reply)
    }

    /// Waits until the console's UART has sent all that was queued.
    fn flush(&mut self, reply: Option<u32>) -> (out: Poll<()>)
        ensures
            (final(self)@.uart, out) == old(self)@.uart.flush(reply),
            final(self)@ == (PanicState { uart: final(self)@.uart, ..old(self)@ }),
    {
        self.uart.flush(reply)
    }
}

impl<const RPI4: bool> Statistics for PanicConsole<RPI4> {
    /// How many characters the console's UART has sent.
    fn chars_written(&mut self) -> (count: usize)
        ensures
            count == old(self)@.uart.chars_written,
            final(self)@ == old(self)@,
    {
        self.uart.chars_written()
    }

    /// How many characters the console's UART has received.
    fn chars_read(&mut self) -> (count: usize)
        ensures
            count == old(self)@.uart.chars_read,
            final(self)@ == old(self)@,
    {
        self.uart.chars_read()
    }
}

} // verus!
