//! The parts one by one: plans and cursors, the register overlay, the lock,
//! the divisor, the board's constants.

use rpios::board::{
    board_default_load_address, board_name, driver_manager, NO_SUCH_DRIVER, BOARD_DEFAULT_LOAD_ADDRESS,
};
use rpios::bus::{advance, poll_plan, Access, Cursor, Poll, Stage, Step};
use rpios::driver::{DeviceDriver, DeviceManager};
use rpios::fields::FieldValue;
use rpios::gpio::{GPIOInner, GPIO};
use rpios::mmio::MMIODerefWrapper;
use rpios::synchronization::{Mutex, NullLock};
use rpios::uart::{baud_divisors, PL011Uart, BAUD_RATE, UART_CLOCK_HZ};

fn start() -> Cursor {
    Cursor { index: 0, stage: Stage::Due, word: None }
}

#[test]
fn divisor_for_115200_baud_at_48_mhz_is_26_and_3() {
    assert_eq!(UART_CLOCK_HZ, 48_000_000);
    assert_eq!(BAUD_RATE, 115_200);
    assert_eq!(baud_divisors(48_000_000, 115_200), (26, 3));
}

#[test]
fn divisor_is_the_quotient_and_the_rounded_rest() {
    assert_eq!(baud_divisors(3_000_000, 115_200), (1, 40));
    assert_eq!(baud_divisors(48_000_000, 9_600), (312, 32));
    assert_eq!(baud_divisors(16, 1), (1, 0));
    assert_eq!(baud_divisors(15, 1), (0, 60));
    assert_eq!(baud_divisors(0, 7), (0, 0));
    assert_eq!(baud_divisors(u32::MAX, u32::MAX), (0, 4));
    assert_eq!(baud_divisors(u32::MAX, 1), (268_435_455, 60));
}

#[test]
fn rest_of_a_divisor_can_round_up_to_a_whole() {
    assert_eq!(baud_divisors(1_023, 64), (0, 64));
}

#[test]
fn cursor_starts_before_the_first_step() {
    assert_eq!(Cursor::new(), start());
}

#[test]
fn empty_plan_is_through_at_once() {
    let plan: Vec<Step> = Vec::new();
    assert_eq!(advance(&plan, start(), 0), (start(), Poll::Ready(None)));
    assert_eq!(poll_plan(&plan, None, None), (None, Poll::Ready(None)));
}

#[test]
fn stores_and_pauses_are_asked_for_one_after_the_other() {
    let plan = vec![
        Step::Store { addr: 0x10, value: 1 },
        Step::Spin { cycles: 150 },
        Step::Store { addr: 0x14, value: 2 },
    ];
    let (at, answer) = advance(&plan, start(), 0xDEAD);
    assert_eq!(answer, Poll::Pending(Access::Store { addr: 0x10, value: 1 }));
    assert_eq!(at, Cursor { index: 0, stage: Stage::Asked, word: None });
    let (at, answer) = advance(&plan, at, 0xDEAD);
    assert_eq!(answer, Poll::Pending(Access::Spin { cycles: 150 }));
    let (at, answer) = advance(&plan, at, 0xDEAD);
    assert_eq!(answer, Poll::Pending(Access::Store { addr: 0x14, value: 2 }));
    let (at, answer) = advance(&plan, at, 0xDEAD);
    assert_eq!(answer, Poll::Ready(None));
    assert_eq!(at, Cursor { index: 3, stage: Stage::Due, word: None });
    assert_eq!(advance(&plan, at, 0), (at, Poll::Ready(None)));
}

#[test]
fn modify_replaces_the_bits_of_the_field_and_keeps_the_rest() {
    let field = FieldValue { mask: 0x0000_0F00, value: 0x0000_0500 };
    let plan = vec![Step::Modify { addr: 0x20, field }];
    let (at, answer) = advance(&plan, start(), 0);
    assert_eq!(answer, Poll::Pending(Access::Load { addr: 0x20 }));
    let (at, answer) = advance(&plan, at, 0x1234_5A78);
    assert_eq!(answer, Poll::Pending(Access::Store { addr: 0x20, value: 0x1234_5578 }));
    assert_eq!(at.stage, Stage::Settling);
    assert_eq!(advance(&plan, at, 0).1, Poll::Ready(None));
}

#[test]
fn modify_uses_only_the_bits_of_the_value_that_the_mask_covers() {
    let field = FieldValue { mask: 0x0000_00F0, value: 0xFFFF_FFFF };
    let plan = vec![Step::Modify { addr: 0x20, field }];
    let (at, _) = advance(&plan, start(), 0);
    assert_eq!(
        advance(&plan, at, 0).1,
        Poll::Pending(Access::Store { addr: 0x20, value: 0x0000_00F0 })
    );
}

const WORDS: [u32; 9] = [
    0,
    1,
    0x10,
    0x0000_00F0,
    0x0003_F000,
    0x5555_5555,
    0xAAAA_AAAA,
    0x8000_0000,
    0xFFFF_FFFF,
];

#[test]
fn modify_keeps_what_the_mask_leaves_out_for_every_word() {
    for mask in WORDS {
        for value in WORDS {
            for word in WORDS {
                let plan = vec![Step::Modify { addr: 0x20, field: FieldValue { mask, value } }];
                let (at, _) = advance(&plan, start(), 0);
                assert_eq!(
                    advance(&plan, at, word).1,
                    Poll::Pending(Access::Store { addr: 0x20, value: (word & !mask) | (value & mask) })
                );
            }
        }
    }
}

#[test]
fn wait_and_stop_look_at_the_bits_of_the_mask_only() {
    for mask in WORDS {
        for value in WORDS {
            for word in WORDS {
                let flag = FieldValue { mask, value };
                let shows = word & mask == value & mask;
                let wait = vec![Step::WaitWhile { addr: 0x18, flag }];
                let (at, _) = advance(&wait, start(), 0);
                let waiting = advance(&wait, at, word).1;
                let stop = vec![Step::StopIf { addr: 0x18, flag }, Step::Spin { cycles: 7 }];
                let (at, _) = advance(&stop, start(), 0);
                let stopping = advance(&stop, at, word).1;
                if shows {
                    assert_eq!(waiting, Poll::Pending(Access::Spin { cycles: 1 }));
                    assert_eq!(stopping, Poll::Ready(None));
                } else {
                    assert_eq!(waiting, Poll::Ready(None));
                    assert_eq!(stopping, Poll::Pending(Access::Spin { cycles: 7 }));
                }
            }
        }
    }
}

#[test]
fn wait_goes_on_while_the_flag_shows() {
    let flag = FieldValue { mask: 0x8, value: 0x8 };
    let plan = vec![Step::WaitWhile { addr: 0x18, flag }, Step::Store { addr: 0x30, value: 0 }];
    let (at, answer) = advance(&plan, start(), 0);
    assert_eq!(answer, Poll::Pending(Access::Load { addr: 0x18 }));
    let (at, answer) = advance(&plan, at, 0xFFFF_FFFF);
    assert_eq!(answer, Poll::Pending(Access::Spin { cycles: 1 }));
    let (at, answer) = advance(&plan, at, 0);
    assert_eq!(answer, Poll::Pending(Access::Load { addr: 0x18 }));
    let (at, answer) = advance(&plan, at, 0x0000_0008);
    assert_eq!(answer, Poll::Pending(Access::Spin { cycles: 1 }));
    let (at, answer) = advance(&plan, at, 0);
    assert_eq!(answer, Poll::Pending(Access::Load { addr: 0x18 }));
    let (at, answer) = advance(&plan, at, 0xFFFF_FFF7);
    assert_eq!(answer, Poll::Pending(Access::Store { addr: 0x30, value: 0 }));
    assert_eq!(advance(&plan, at, 0).1, Poll::Ready(None));
}

#[test]
fn wait_for_a_cleared_field_goes_on_while_any_of_its_bits_is_up() {
    let flag = FieldValue { mask: 0x3, value: 0x0 };
    let plan = vec![Step::WaitWhile { addr: 0x18, flag }];
    let (at, _) = advance(&plan, start(), 0);
    assert_eq!(advance(&plan, at, 0x4).1, Poll::Pending(Access::Spin { cycles: 1 }));
    assert_eq!(advance(&plan, at, 0x1).1, Poll::Ready(None));
}

#[test]
fn fetch_keeps_the_word_it_reads() {
    let plan = vec![Step::Fetch { addr: 0x00 }, Step::Spin { cycles: 2 }];
    let (at, answer) = advance(&plan, start(), 0);
    assert_eq!(answer, Poll::Pending(Access::Load { addr: 0x00 }));
    let (at, answer) = advance(&plan, at, 0x5A);
    assert_eq!(answer, Poll::Pending(Access::Spin { cycles: 2 }));
    assert_eq!(at.word, Some(0x5A));
    let (at, answer) = advance(&plan, at, 0x77);
    assert_eq!(answer, Poll::Ready(Some(0x5A)));
    assert_eq!(at, Cursor { index: 2, stage: Stage::Due, word: Some(0x5A) });
}

#[test]
fn stop_if_ends_the_plan_where_the_flag_shows() {
    let flag = FieldValue { mask: 0x10, value: 0x10 };
    let plan = vec![Step::StopIf { addr: 0x18, flag }, Step::Fetch { addr: 0x00 }];
    let (at, answer) = advance(&plan, start(), 0);
    assert_eq!(answer, Poll::Pending(Access::Load { addr: 0x18 }));
    assert_eq!(
        advance(&plan, at, 0x90),
        (Cursor { index: 2, stage: Stage::Due, word: None }, Poll::Ready(None))
    );
    let (at, answer) = advance(&plan, at, 0x80);
    assert_eq!(answer, Poll::Pending(Access::Load { addr: 0x00 }));
    assert_eq!(advance(&plan, at, 0x41).1, Poll::Ready(Some(0x41)));
}

#[test]
fn poll_starts_afresh_without_a_reply_and_resumes_with_one() {
    let plan = vec![Step::Store { addr: 0x10, value: 1 }, Step::Store { addr: 0x14, value: 2 }];
    let first = Poll::Pending(Access::Store { addr: 0x10, value: 1 });
    let second = Poll::Pending(Access::Store { addr: 0x14, value: 2 });
    let (progress, answer) = poll_plan(&plan, None, None);
    assert_eq!(answer, first);
    assert_eq!(progress, Some(Cursor { index: 0, stage: Stage::Asked, word: None }));
    assert_eq!(poll_plan(&plan, progress, None).1, first);
    assert_eq!(poll_plan(&plan, None, Some(0)).1, first);
    let (progress, answer) = poll_plan(&plan, progress, Some(0));
    assert_eq!(answer, second);
    assert_eq!(poll_plan(&plan, progress, Some(0)), (None, Poll::Ready(None)));
}

#[test]
fn overlay_gives_the_addresses_of_its_registers() {
    struct Layout;
    let bank = MMIODerefWrapper::<Layout>::new(0x3F20_1000);
    assert_eq!(bank.start_addr(), 0x3F20_1000);
    assert_eq!(bank.at(0), 0x3F20_1000);
    assert_eq!(bank.at(0x18), 0x3F20_1018);
}

#[test]
fn lock_hands_the_value_to_the_operation_and_returns_its_result() {
    let mut lock = NullLock::new(41u32);
    let seen = lock.lock(|value| {
        *value += 1;
        *value * 2
    });
    assert_eq!(seen, 84);
    assert_eq!(lock.lock(|value| *value), 42);
}

#[test]
fn pull_disable_of_the_bcm2837_is_six_steps_in_order() {
    let base = 0x3F20_0000;
    let gpio = GPIOInner::<false>::new(base);
    assert_eq!(
        gpio.disable_pud_14_15_bcm2837(),
        vec![
            Step::Store { addr: base + 0x94, value: 0 },
            Step::Spin { cycles: 2000 },
            Step::Store { addr: base + 0x98, value: 0xC000 },
            Step::Spin { cycles: 2000 },
            Step::Store { addr: base + 0x94, value: 0 },
            Step::Store { addr: base + 0x98, value: 0 },
        ]
    );
}

#[test]
fn pull_disable_of_the_bcm2711_is_one_write() {
    let gpio = GPIOInner::<true>::new(0xFE20_0000);
    assert_eq!(
        gpio.disable_pud_14_15_bcm2711(),
        vec![Step::Store { addr: 0xFE20_00E4, value: 0 }]
    );
}

#[test]
fn hand_over_rewrites_only_the_functions_of_pins_14_and_15() {
    let mut gpio = GPIOInner::<false>::new(0x1000);
    assert_eq!(
        gpio.init_pl011_uart_pins(None),
        Poll::Pending(Access::Load { addr: 0x1004 })
    );
    assert_eq!(
        gpio.init_pl011_uart_pins(Some(0x1234_5678)),
        Poll::Pending(Access::Store { addr: 0x1004, value: 0x1236_4678 })
    );
}

#[test]
fn locked_gpio_hands_the_pins_over_as_the_bare_one_does() {
    let mut bare = GPIOInner::<false>::new(0x3F20_0000);
    let mut locked = GPIO::<false>::new(0x3F20_0000);
    let mut reply = None;
    let mut answers = Vec::new();
    for _ in 0..9 {
        let answer = bare.init_pl011_uart_pins(reply);
        assert_eq!(locked.init_gpio_uart_pins(reply), answer);
        answers.push(answer);
        reply = Some(0x00FF_00FF);
    }
    assert_eq!(answers[0], Poll::Pending(Access::Load { addr: 0x3F20_0004 }));
    assert_eq!(
        answers[1],
        Poll::Pending(Access::Store { addr: 0x3F20_0004, value: 0x00FE_40FF })
    );
    assert_eq!(
        answers[7],
        Poll::Pending(Access::Store { addr: 0x3F20_0098, value: 0 })
    );
    assert_eq!(answers[8], Poll::Ready(()));
}

#[test]
fn drivers_name_their_devices() {
    assert_eq!(GPIO::<false>::new(0x3F20_0000).compatible(), "GPIO Device Driver");
    assert_eq!(PL011Uart::new(0x3F20_1000).compatible(), "BCM PL011 UART");
}

#[test]
fn gpio_bank_has_nothing_to_bring_up() {
    let mut gpio = GPIO::<true>::new(0xFE20_0000);
    assert_eq!(gpio.init(None), Poll::Ready(Ok(())));
    assert_eq!(gpio.init(Some(1)), Poll::Ready(Ok(())));
}

#[test]
fn uart_comes_up_as_a_driver() {
    let mut uart = PL011Uart::new(0x3F20_1000);
    assert_eq!(uart.init(None), Poll::Pending(Access::Load { addr: 0x3F20_1018 }));
    assert_eq!(
        uart.init(Some(0)),
        Poll::Pending(Access::Store { addr: 0x3F20_1030, value: 0 })
    );
    let mut answer = uart.init(Some(0));
    for _ in 0..5 {
        assert!(matches!(answer, Poll::Pending(Access::Store { .. })));
        answer = uart.init(Some(0));
    }
    assert_eq!(answer, Poll::Ready(Ok(())));
}

#[test]
fn board_knows_its_name_and_its_load_address() {
    assert_eq!(board_name::<false>(), "Raspberry pi 3");
    assert_eq!(board_name::<true>(), "Raspberry pi 4");
    assert_eq!(board_default_load_address(), 0x8_0000);
    assert_eq!(BOARD_DEFAULT_LOAD_ADDRESS, 0x8_0000);
}

#[test]
fn device_manager_brings_up_its_two_drivers_by_their_places() {
    let mut manager = driver_manager::<true>();
    assert_eq!(manager.all_device_drivers().len(), 2);
    assert_eq!(manager.init_device_driver(0, None), Poll::Ready(Ok(())));
    assert_eq!(
        manager.init_device_driver(1, None),
        Poll::Pending(Access::Load { addr: 0xFE20_1018 })
    );
    assert_eq!(manager.init_device_driver(2, None), Poll::Ready(Err(NO_SUCH_DRIVER)));
    assert_eq!(
        manager.post_device_driver_init(None),
        Poll::Pending(Access::Load { addr: 0xFE20_0004 })
    );
    assert_eq!(
        manager.post_device_driver_init(Some(0)),
        Poll::Pending(Access::Store { addr: 0xFE20_0004, value: 0x0002_4000 })
    );
    assert_eq!(
        manager.post_device_driver_init(Some(0)),
        Poll::Pending(Access::Store { addr: 0xFE20_00E4, value: 0 })
    );
    assert_eq!(manager.post_device_driver_init(Some(0)), Poll::Ready(()));
}
