//! The GPIO bank of the BCM2837 and the BCM2711: the pins of the PL011 UART.

use vstd::prelude::*;
use crate::bus::{
    asked, effect, lemma_calls_walk_the_plan, lemma_writes_take_effect_in_order, poll_plan, polled, polls, run,
    Access, Cursor, Memory, Poll, Step,
};
use crate::driver::DeviceDriver;
use crate::fields::{field_sum, field_value, FieldValue};
use crate::mmio::MMIODerefWrapper;
use crate::synchronization::{Mutex, NullLock};

verus! {

/// The layout of the GPIO bank.
pub struct RegisterBlock;

/// Function select 1, which holds the function of pins 10 to 19.
pub const GPFSEL1: usize = 0x04;

/// Pull-up/down enable of the BCM2837.
pub const GPPUD: usize = 0x94;

/// Pull-up/down clock 0 of the BCM2837, one bit for each of pins 0 to 31.
pub const GPPUDCLK0: usize = 0x98;

/// Pull-up/down control 0 of the BCM2711, two bits for each of pins 0 to 15.
pub const GPIO_PUP_PDN_CNTRL_REG0: usize = 0xE4;

/// The size of the bank in bytes.
pub const BANK_SIZE: usize = 0xE8;

/// For how many cycles the BCM2837 wants a pull setting held before and
/// after it is clocked in. The figure is a guess on the safe side: a
/// microsecond on a core that runs at 2 GHz.
pub const DELAY: usize = 2000;

type Registers = MMIODerefWrapper<RegisterBlock>;

/// Alternate function 0, the PL011, for pin 14 (receive) and pin 15
/// (transmit): `0b100` in the three bits at 12 and in the three bits at 15.
pub open spec fn uart_function() -> FieldValue {
    FieldValue { mask: 0x0003_F000, value: 0x0002_4000 }
}

/// The clock bits of pins 14 and 15.
pub open spec fn uart_pull_clocks() -> u32 {
    0x0000_C000
}

/// How the BCM2837 takes the pull resistors off pins 14 and 15, as its
/// manual asks: set "no pull", wait, clock the setting into the two pins,
/// wait, set "no pull" again, take the clock away.
pub open spec fn pull_disable_bcm2837(base: usize) -> Seq<Step> {
    seq![
        Step::Store { addr: (base + GPPUD) as usize, value: 0 },
        Step::Spin { cycles: DELAY },
        Step::Store { addr: (base + GPPUDCLK0) as usize, value: uart_pull_clocks() },
        Step::Spin { cycles: DELAY },
        Step::Store { addr: (base + GPPUD) as usize, value: 0 },
        Step::Store { addr: (base + GPPUDCLK0) as usize, value: 0 },
    ]
}

/// How the BCM2711 takes the pull resistors off pins 14 and 15: one write of
/// "no resistor" for both.
pub open spec fn pull_disable_bcm2711(base: usize) -> Seq<Step> {
    seq![Step::Store { addr: (base + GPIO_PUP_PDN_CNTRL_REG0) as usize, value: 0 }]
}

/// How pins 14 and 15 are handed to the PL011: select alternate function 0
/// for both, keeping the functions of the other pins, then take the pull
/// resistors off as the chip at hand requires.
pub open spec fn uart_pins_plan(base: usize, bcm2711: bool) -> Seq<Step> {
    seq![Step::Modify { addr: (base + GPFSEL1) as usize, field: uart_function() }] + if bcm2711 {
        pull_disable_bcm2711(base)
    } else {
        pull_disable_bcm2837(base)
    }
}

/// What one call of the hand-over of the pins does, for a bank at `base`:
/// with `before` for the progress it finds and `reply` for what it is given,
/// the progress `after` it and its answer `out`. The call follows
/// [`uart_pins_plan`] as [`polled`] says.
pub open spec fn pins_polled(
    base: usize,
    bcm2711: bool,
    before: Option<Cursor>,
    reply: Option<u32>,
    after: Option<Cursor>,
    out: Poll<()>,
) -> bool {
    let (progress, answer) = polled(uart_pins_plan(base, bcm2711), before, reply);
    &&& after == progress
    &&& match answer {
        Poll::Pending(access) => out == Poll::<()>::Pending(access),
        Poll::Ready(_) => out == Poll::Ready(()),
    }
}

/// The GPIO bank without a lock round it. `BCM2711` tells which chip it is
/// built for: the BCM2711 where it holds, the BCM2837 where it does not.
pub struct GPIOInner<const BCM2711: bool> {
    registers: Registers,
    progress: Option<Cursor>,
}

/// The GPIO bank as the panic path uses it.
pub type PanicGPIO<const BCM2711: bool> = GPIOInner<BCM2711>;

/// The GPIO bank.
pub struct GPIO<const BCM2711: bool> {
    inner: NullLock<GPIOInner<BCM2711>>,
}

impl<const BCM2711: bool> GPIOInner<BCM2711> {
    /// The address of the bank.
    pub closed spec fn base(&self) -> usize {
        self.registers.base()
    }

    /// What holds of every driver: its bank lies within the address space.
    #[verifier::type_invariant]
    pub open spec fn inv(&self) -> bool {
        self.base() + BANK_SIZE <= usize::MAX
    }

    /// How far the hand-over of the pins has come; `None` while none is
    /// under way.
    pub closed spec fn progress(&self) -> Option<Cursor> {
        self.progress
    }

    /// The driver of the bank at `mmio_start_addr`, with nothing under way.
    /// The bank has to lie within the address space.
    pub fn new(mmio_start_addr: usize) -> (gpio: Self)
        requires
            mmio_start_addr + BANK_SIZE <= usize::MAX,
        ensures
            gpio.base() == mmio_start_addr,
            gpio.progress() is None,
    {
        GPIOInner { registers: Registers::new(mmio_start_addr), progress: None }
    }

    /// The six steps that take the pull resistors off pins 14 and 15 of a
    /// BCM2837.
    pub fn disable_pud_14_15_bcm2837(&self) -> (plan: Vec<Step>)
        ensures
            plan@ == pull_disable_bcm2837(self.base()),
    {
        proof {
            use_type_invariant(self);
        }
        let off = field_value(0b11, 0, 0b00);
        let clocks = field_sum(field_value(0b1, 14, 0b1), field_value(0b1, 15, 0b1));
        assert({
            &&& (0b00u32 & 0b11u32) << 0u32 == 0u32
            &&& 0b1u32 << 14u32 == 0x4000u32
            &&& (0b1u32 & 0b1u32) << 14u32 == 0x4000u32
            &&& 0b1u32 << 15u32 == 0x8000u32
            &&& (0b1u32 & 0b1u32) << 15u32 == 0x8000u32
            &&& (0x4000u32 & 0x4000u32) | (0x8000u32 & 0x8000u32) == 0xC000u32
        }) by (bit_vector);
        let plan = vec![
            Step::Store { addr: self.registers.at(GPPUD), value: off.value },
            Step::Spin { cycles: DELAY },
            Step::Store { addr: self.registers.at(GPPUDCLK0), value: clocks.value },
            Step::Spin { cycles: DELAY },
            Step::Store { addr: self.registers.at(GPPUD), value: off.value },
            Step::Store { addr: self.registers.at(GPPUDCLK0), value: 0 },
        ];
        assert(plan@ =~= pull_disable_bcm2837(self.base()));
        plan
    }

    /// The one step that takes the pull resistors off pins 14 and 15 of a
    /// BCM2711.
    pub fn disable_pud_14_15_bcm2711(&self) -> (plan: Vec<Step>)
        ensures
            plan@ == pull_disable_bcm2711(self.base()),
    {
        proof {
            use_type_invariant(self);
        }
        let none = field_sum(field_value(0b11, 30, 0b00), field_value(0b11, 28, 0b00));
        assert({
            &&& 0b11u32 << 30u32 == 0xC000_0000u32
            &&& (0b00u32 & 0b11u32) << 30u32 == 0u32
            &&& 0b11u32 << 28u32 == 0x3000_0000u32
            &&& (0b00u32 & 0b11u32) << 28u32 == 0u32
            &&& (0u32 & 0xC000_0000u32) | (0u32 & 0x3000_0000u32) == 0u32
        }) by (bit_vector);
        let plan = vec![
            Step::Store { addr: self.registers.at(GPIO_PUP_PDN_CNTRL_REG0), value: none.value },
        ];
        assert(plan@ =~= pull_disable_bcm2711(self.base()));
        plan
    }

    fn uart_pins(&self) -> (plan: Vec<Step>)
        ensures
            plan@ == uart_pins_plan(self.base(), BCM2711),
    {
        proof {
            use_type_invariant(self);
        }
        let function = field_sum(field_value(0b111, 12, 0b100), field_value(0b111, 15, 0b100));
        assert({
            &&& 0b111u32 << 12u32 == 0x7000u32
            &&& (0b100u32 & 0b111u32) << 12u32 == 0x4000u32
            &&& 0b111u32 << 15u32 == 0x0003_8000u32
            &&& (0b100u32 & 0b111u32) << 15u32 == 0x0002_0000u32
            &&& 0x7000u32 | 0x0003_8000u32 == 0x0003_F000u32
            &&& (0x4000u32 & 0x7000u32) | (0x0002_0000u32 & 0x0003_8000u32) == 0x0002_4000u32
        }) by (bit_vector);
        assert(function == uart_function());
        let mut plan = vec![Step::Modify { addr: self.registers.at(GPFSEL1), field: function }];
        let mut pulls = if BCM2711 {
            self.disable_pud_14_15_bcm2711()
        } else {
            self.disable_pud_14_15_bcm2837()
        };
        let ghost head = plan@;
        let ghost tail = pulls@;
        plan.append(&mut pulls);
        assert(plan@ =~= head + tail);
        plan
    }

    /// Hands pins 14 and 15 to the PL011, one bus access at a time.
    ///
    /// `None` for `reply` starts the operation, `Some` of what the last
    /// access returned resumes it. It cannot fail.
    pub fn init_pl011_uart_pins(&mut self, reply: Option<u32>) -> (out: Poll<()>)
        ensures
            final(self).base() == old(self).base(),
            pins_polled(
                old(self).base(),
                BCM2711,
                old(self).progress(),
                reply,
                final(self).progress(),
                out,
            ),
    {
        proof {
            use_type_invariant(&*self);
        }
        let plan = self.uart_pins();
        let (progress, answer) = poll_plan(&plan, self.progress, reply);
        self.progress = progress;
        match answer {
            Poll::Pending(access) => Poll::Pending(access),
            Poll::Ready(_) => Poll::Ready(()),
        }
    }
}

impl<const BCM2711: bool> GPIO<BCM2711> {
    /// The address of the bank.
    pub closed spec fn base(&self) -> usize {
        self.inner.data().base()
    }

    /// How far the hand-over of the pins has come; `None` while none is
    /// under way.
    pub closed spec fn progress(&self) -> Option<Cursor> {
        self.inner.data().progress()
    }

    /// The driver of the bank at `mmio_start_addr`, with nothing under way.
    /// The bank has to lie within the address space.
    pub fn new(mmio_start_addr: usize) -> (gpio: Self)
        requires
            mmio_start_addr + BANK_SIZE <= usize::MAX,
        ensures
            gpio.base() == mmio_start_addr,
            gpio.progress() is None,
    {
        GPIO { inner: NullLock::new(GPIOInner::new(mmio_start_addr)) }
    }

    /// Hands pins 14 and 15 to the PL011 under the lock, one bus access at a
    /// time, as [`GPIOInner::init_pl011_uart_pins`] does.
    pub fn init_gpio_uart_pins(&mut self, reply: Option<u32>) -> (out: Poll<()>)
        ensures
            final(self).base() == old(self).base(),
            pins_polled(
                old(self).base(),
                BCM2711,
                old(self).progress(),
                reply,
                final(self).progress(),
                out,
            ),
    {
        let hand_over = |inner: &mut GPIOInner<BCM2711>| -> (out: Poll<()>)
            ensures
                final(inner).base() == old(inner).base(),
                pins_polled(
                    old(inner).base(),
                    BCM2711,
                    old(inner).progress(),
                    reply,
                    final(inner).progress(),
                    out,
                ),
            {
                inner.init_pl011_uart_pins(reply)
            };
        self.inner.lock(hand_over)
    }
}

impl<const BCM2711: bool> DeviceDriver for GPIO<BCM2711> {
    fn compatible(&self) -> (name: &'static str)
        ensures
            name == "GPIO Device Driver",
    {
        "GPIO Device Driver"
    }

    /// The bank has nothing to bring up: the call is done at once and
    /// changes nothing.
    fn init(&mut self, reply: Option<u32>) -> (out: Poll<Result<(), &'static str>>)
        ensures
            out == Poll::<Result<(), &'static str>>::Ready(Ok(())),
            *final(self) == *old(self),
    {
        Poll::Ready(Ok(()))
    }
}

/// The hand-over of the pins on a BCM2837 asks for the same eight accesses
/// in the same order every time it is started, whatever was in progress and
/// whatever the accesses return: it reads the function register, writes it
/// back with alternate function 0 for pins 14 and 15, and then takes the six
/// steps that remove the pull resistors.
pub proof fn lemma_pins_are_handed_over_in_order(base: usize, progress: Option<Cursor>, replies: Seq<u32>)
    requires
        base + BANK_SIZE <= usize::MAX,
        replies.len() >= 8,
    ensures
        polls(uart_pins_plan(base, false), progress, None, replies) == seq![
            Access::Load { addr: (base + GPFSEL1) as usize },
            Access::Store {
                addr: (base + GPFSEL1) as usize,
                value: uart_function().modified(replies[0]),
            },
            Access::Store { addr: (base + GPPUD) as usize, value: 0 },
            Access::Spin { cycles: DELAY },
            Access::Store { addr: (base + GPPUDCLK0) as usize, value: uart_pull_clocks() },
            Access::Spin { cycles: DELAY },
            Access::Store { addr: (base + GPPUD) as usize, value: 0 },
            Access::Store { addr: (base + GPPUDCLK0) as usize, value: 0 },
        ],
{
    reveal_with_fuel(asked, 10);
    let plan = uart_pins_plan(base, false);
    lemma_calls_walk_the_plan(plan, progress, replies);
    assert(asked(plan, Cursor::start(), 0, replies) =~= seq![
        Access::Load { addr: (base + GPFSEL1) as usize },
        Access::Store {
            addr: (base + GPFSEL1) as usize,
            value: uart_function().modified(replies[0]),
        },
        Access::Store { addr: (base + GPPUD) as usize, value: 0 },
        Access::Spin { cycles: DELAY },
        Access::Store { addr: (base + GPPUDCLK0) as usize, value: uart_pull_clocks() },
        Access::Spin { cycles: DELAY },
        Access::Store { addr: (base + GPPUD) as usize, value: 0 },
        Access::Store { addr: (base + GPPUDCLK0) as usize, value: 0 },
    ]);
}

/// What the hand-over of the pins leaves in registers that remember what is
/// stored: alternate function 0 for pins 14 and 15 in the function register,
/// and zero in the pull registers of the chip.
pub open spec fn handed_over(base: usize, bcm2711: bool, registers: Memory) -> Memory {
    let function = (base + GPFSEL1) as usize;
    let selected = registers.insert(function, uart_function().modified(registers[function]));
    if bcm2711 {
        selected.insert((base + GPIO_PUP_PDN_CNTRL_REG0) as usize, 0)
    } else {
        selected.insert((base + GPPUD) as usize, 0).insert((base + GPPUDCLK0) as usize, 0)
    }
}

/// On registers that remember what is stored, the hand-over of the pins
/// leaves them [`handed_over`], and a second hand-over changes nothing more.
pub proof fn lemma_handing_over_again_changes_nothing(
    base: usize,
    bcm2711: bool,
    reply: u32,
    registers: Memory,
)
    requires
        base + BANK_SIZE <= usize::MAX,
    ensures
        run(uart_pins_plan(base, bcm2711), Cursor::start(), reply, registers, 14) == Some(
            handed_over(base, bcm2711, registers),
        ),
        handed_over(base, bcm2711, handed_over(base, bcm2711, registers)) == handed_over(
            base,
            bcm2711,
            registers,
        ),
{
    let plan = uart_pins_plan(base, bcm2711);
    let once = handed_over(base, bcm2711, registers);
    reveal_with_fuel(effect, 10);
    lemma_writes_take_effect_in_order(plan, reply, registers, 14);
    assert(effect(plan, 0, registers) =~= once);
    let word = registers[(base + GPFSEL1) as usize];
    let mask = uart_function().mask;
    let value = uart_function().value;
    assert((((word & !mask) | (value & mask)) & !mask) | (value & mask) == (word & !mask) | (value & mask))
        by (bit_vector);
    assert(handed_over(base, bcm2711, once) =~= once);
}

} // verus!
