//! The bring-up of a board with drivers of its own making.

use rpios::bus::{Access, Poll};
use rpios::console::{Read, Statistics, Write};
use rpios::driver::{kernel_init, BootStage, DeviceDriver, DeviceManager, InitError, KernelInit};

struct Probe {
    name: &'static str,
    needs: Vec<Access>,
    fails: Option<&'static str>,
    asked: usize,
    calls: usize,
}

impl Probe {
    fn new(name: &'static str, needs: Vec<Access>, fails: Option<&'static str>) -> Self {
        Probe { name, needs, fails, asked: 0, calls: 0 }
    }
}

impl DeviceDriver for Probe {
    fn compatible(&self) -> &'static str {
        self.name
    }

    fn init(&mut self, reply: Option<u32>) -> Poll<Result<(), &'static str>> {
        self.calls += 1;
        if reply.is_none() {
            self.asked = 0;
        }
        if self.asked < self.needs.len() {
            self.asked += 1;
            return Poll::Pending(self.needs[self.asked - 1]);
        }
        match self.fails {
            Some(reason) => Poll::Ready(Err(reason)),
            None => Poll::Ready(Ok(())),
        }
    }
}

struct Quiet;

impl DeviceDriver for Quiet {
    fn compatible(&self) -> &'static str {
        "quiet"
    }
}

struct Board {
    drivers: Vec<Probe>,
    after: Vec<Access>,
    asked: usize,
    post_calls: usize,
}

impl Board {
    fn new(drivers: Vec<Probe>, after: Vec<Access>) -> Self {
        Board { drivers, after, asked: 0, post_calls: 0 }
    }
}

impl DeviceManager for Board {
    fn all_device_drivers(&self) -> Vec<&dyn DeviceDriver> {
        self.drivers.iter().map(|driver| driver as &dyn DeviceDriver).collect()
    }

    fn init_device_driver(&mut self, index: usize, reply: Option<u32>) -> Poll<Result<(), &'static str>> {
        self.drivers[index].init(reply)
    }

    fn post_device_driver_init(&mut self, reply: Option<u32>) -> Poll<()> {
        self.post_calls += 1;
        if reply.is_none() {
            self.asked = 0;
        }
        if self.asked < self.after.len() {
            self.asked += 1;
            return Poll::Pending(self.after[self.asked - 1]);
        }
        Poll::Ready(())
    }
}

fn run(boot: &mut KernelInit<Board>, board: &mut Board) -> (Vec<Access>, Result<(), InitError>) {
    let mut log = Vec::new();
    let mut reply = None;
    for _ in 0..1000 {
        match kernel_init(boot, board, reply) {
            Poll::Ready(result) => return (log, result),
            Poll::Pending(access) => {
                log.push(access);
                reply = Some(0);
            }
        }
    }
    panic!("the bring-up did not come to an end");
}

#[test]
fn first_failure_ends_the_bring_up() {
    let mut board = Board::new(
        vec![
            Probe::new("A", vec![Access::Store { addr: 0xA0, value: 1 }], None),
            Probe::new("B", vec![Access::Load { addr: 0xB0 }], Some("x")),
            Probe::new("C", vec![Access::Store { addr: 0xC0, value: 3 }], None),
        ],
        vec![Access::Store { addr: 0xD0, value: 4 }],
    );
    let mut boot = KernelInit::new();
    let (log, result) = run(&mut boot, &mut board);
    let error = InitError { index: 1, driver: "B", reason: "x" };
    assert_eq!(result, Err(error));
    assert_eq!(
        log,
        vec![Access::Store { addr: 0xA0, value: 1 }, Access::Load { addr: 0xB0 }]
    );
    assert_eq!(board.drivers[0].calls, 2);
    assert_eq!(board.drivers[1].calls, 2);
    assert_eq!(board.drivers[2].calls, 0);
    assert_eq!(board.post_calls, 0);
    assert_eq!(boot.stage(), BootStage::Failed { error });

    assert_eq!(kernel_init(&mut boot, &mut board, None), Poll::Ready(Err(error)));
    assert_eq!(kernel_init(&mut boot, &mut board, Some(7)), Poll::Ready(Err(error)));
    assert_eq!(board.drivers[0].calls, 2);
    assert_eq!(board.drivers[1].calls, 2);
    assert_eq!(board.drivers[2].calls, 0);
    assert_eq!(board.post_calls, 0);
}

#[test]
fn drivers_come_up_in_the_order_of_the_registry() {
    let mut board = Board::new(
        vec![
            Probe::new("A", vec![Access::Store { addr: 0xA0, value: 1 }], None),
            Probe::new("B", vec![], None),
            Probe::new("C", vec![Access::Store { addr: 0xC0, value: 3 }, Access::Spin { cycles: 5 }], None),
        ],
        vec![Access::Store { addr: 0xD0, value: 4 }],
    );
    let mut boot = KernelInit::new();
    assert_eq!(boot.stage(), BootStage::Drivers { next: 0 });
    let (log, result) = run(&mut boot, &mut board);
    assert_eq!(result, Ok(()));
    assert_eq!(
        log,
        vec![
            Access::Store { addr: 0xA0, value: 1 },
            Access::Store { addr: 0xC0, value: 3 },
            Access::Spin { cycles: 5 },
            Access::Store { addr: 0xD0, value: 4 },
        ]
    );
    assert_eq!(board.drivers[0].calls, 2);
    assert_eq!(board.drivers[1].calls, 1);
    assert_eq!(board.drivers[2].calls, 3);
    assert_eq!(board.post_calls, 2);
    assert_eq!(boot.stage(), BootStage::Up);

    assert_eq!(kernel_init(&mut boot, &mut board, None), Poll::Ready(Ok(())));
    assert_eq!(board.post_calls, 2);
}

#[test]
fn bring_up_stays_at_the_driver_that_needs_the_bus() {
    let mut board = Board::new(
        vec![
            Probe::new("A", vec![], None),
            Probe::new("B", vec![Access::Load { addr: 0xB0 }], None),
        ],
        vec![],
    );
    let mut boot = KernelInit::new();
    assert_eq!(
        kernel_init(&mut boot, &mut board, None),
        Poll::Pending(Access::Load { addr: 0xB0 })
    );
    assert_eq!(boot.stage(), BootStage::Drivers { next: 1 });
    assert_eq!(board.drivers[0].calls, 1);
    assert_eq!(kernel_init(&mut boot, &mut board, Some(1)), Poll::Ready(Ok(())));
    assert_eq!(board.drivers[0].calls, 1);
    assert_eq!(board.drivers[1].calls, 2);
    assert_eq!(board.post_calls, 1);
}

#[test]
fn board_without_drivers_runs_what_is_left() {
    let mut board = Board::new(vec![], vec![Access::Spin { cycles: 9 }]);
    let mut boot = KernelInit::new();
    assert_eq!(
        kernel_init(&mut boot, &mut board, None),
        Poll::Pending(Access::Spin { cycles: 9 })
    );
    assert_eq!(boot.stage(), BootStage::PostInit);
    assert_eq!(kernel_init(&mut boot, &mut board, Some(0)), Poll::Ready(Ok(())));
    assert_eq!(boot.stage(), BootStage::Up);
}

#[test]
fn driver_with_nothing_to_bring_up_is_done_at_once() {
    let mut quiet = Quiet;
    assert_eq!(quiet.init(None), Poll::Ready(Ok(())));
    assert_eq!(quiet.init(Some(3)), Poll::Ready(Ok(())));
}

struct Sink {
    taken: Vec<char>,
}

impl Write for Sink {
    fn write_char(&mut self, c: char, _reply: Option<u32>) -> Poll<()> {
        self.taken.push(c);
        Poll::Ready(())
    }

    fn write_str(&mut self, s: &str, _reply: Option<u32>) -> Poll<()> {
        self.taken.extend(s.chars());
        Poll::Ready(())
    }

    fn flush(&mut self, _reply: Option<u32>) -> Poll<()> {
        Poll::Ready(())
    }
}

impl Read for Sink {
    fn clear_rx(&mut self, _reply: Option<u32>) -> Poll<()> {
        Poll::Ready(())
    }
}

impl Statistics for Sink {

}

#[test]
fn console_that_offers_less_falls_back_on_blanks_and_zeros() {
    let mut sink = Sink { taken: Vec::new() };
    assert_eq!(sink.write_str("ab", None), Poll::Ready(()));
    assert_eq!(sink.write_char('c', None), Poll::Ready(()));
    assert_eq!(sink.flush(None), Poll::Ready(()));
    assert_eq!(sink.taken, vec!['a', 'b', 'c']);
    assert_eq!(sink.read_char(None), Poll::Ready(' '));
    assert_eq!(sink.clear_rx(None), Poll::Ready(()));
    assert_eq!(sink.chars_written(), 0);
    assert_eq!(sink.chars_read(), 0);
}
