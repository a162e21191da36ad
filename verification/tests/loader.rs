//! The loader's conversation with the other side.

use rpios::loader::{kernel_main, Command, Event, Loader, LOADER_LOGO, REQUEST};

fn converse(loader: &mut Loader, incoming: &[u8]) -> (Vec<Command>, String, Vec<(u64, u8)>) {
    let mut incoming = incoming.iter();
    let mut commands = Vec::new();
    let mut printed = String::new();
    let mut memory = Vec::new();
    let mut event = Event::Begin;
    for _ in 0..10_000 {
        let command = kernel_main(loader, event);
        commands.push(command);
        event = match command {
            Command::Print(text) => {
                printed.push_str(text);
                Event::Done
            }
            Command::Send(c) => {
                printed.push(c);
                Event::Done
            }
            Command::Receive => Event::Received(char::from(*incoming.next().unwrap())),
            Command::Put { addr, byte } => {
                memory.push((addr, byte));
                Event::Done
            }
            Command::Start { .. } => return (commands, printed, memory),
            Command::Flush | Command::ClearRx => Event::Done,
        };
    }
    panic!("the loader did not start the kernel");
}

#[test]
fn loader_takes_a_kernel_and_starts_it() {
    let mut loader = Loader::new("Raspberry pi 3", 0x8_0000);
    let (commands, printed, memory) = converse(&mut loader, &[3, 0, 0, 0, 0xAA, 0xBB, 0xCC]);
    assert_eq!(
        commands,
        vec![
            Command::Print(LOADER_LOGO),
            Command::Print("\nRunning on: "),
            Command::Print("Raspberry pi 3"),
            Command::Print("\n\nRequesting binary!\n"),
            Command::Flush,
            Command::ClearRx,
            Command::Send('\u{3}'),
            Command::Send('\u{3}'),
            Command::Send('\u{3}'),
            Command::Receive,
            Command::Receive,
            Command::Receive,
            Command::Receive,
            Command::Send('O'),
            Command::Send('K'),
            Command::Receive,
            Command::Put { addr: 0x8_0000, byte: 0xAA },
            Command::Receive,
            Command::Put { addr: 0x8_0001, byte: 0xBB },
            Command::Receive,
            Command::Put { addr: 0x8_0002, byte: 0xCC },
            Command::Print("Received kernel, executing now!\n"),
            Command::Flush,
            Command::Start { addr: 0x8_0000 },
        ]
    );
    assert_eq!(loader.size(), 3);
    assert_eq!(memory, vec![(0x8_0000, 0xAA), (0x8_0001, 0xBB), (0x8_0002, 0xCC)]);
    assert!(printed.starts_with("\n.____"));
    assert!(printed.ends_with(
        "|   \n        \\/         \\/      \\/    \\/\n\nRunning on: Raspberry pi 3\n\nRequesting binary!\n\u{3}\u{3}\u{3}OKReceived kernel, executing now!\n"
    ));
    assert_eq!(REQUEST, '\u{3}');
}

#[test]
fn loader_logo_is_seven_lines() {
    assert_eq!(LOADER_LOGO.len(), 252);
    assert_eq!(LOADER_LOGO.lines().count(), 7);
    assert_eq!(LOADER_LOGO.lines().nth(1), Some(".____                     .___            "));
    assert_eq!(LOADER_LOGO.lines().nth(6), Some("        \\/         \\/      \\/    \\/"));
}

#[test]
fn loader_takes_the_size_lowest_byte_first() {
    let mut kernel = vec![0x02, 0x01, 0x00, 0x00];
    kernel.extend(std::iter::repeat(0x5A).take(0x0102));
    let mut loader = Loader::new("Raspberry pi 4", 0x8_0000);
    let (commands, _, memory) = converse(&mut loader, &kernel);
    assert_eq!(loader.size(), 0x0102);
    assert_eq!(memory.len(), 0x0102);
    assert_eq!(memory[0x0101], (0x8_0101, 0x5A));
    assert_eq!(commands.len(), 15 + 2 * 0x0102 + 3);
}

#[test]
fn loader_puts_all_four_bytes_of_the_size_in_their_places() {
    let mut loader = Loader::new("Raspberry pi 3", 0x8_0000);
    let mut event = Event::Begin;
    for _ in 0..9 {
        kernel_main(&mut loader, event);
        event = Event::Done;
    }
    for byte in [0x78u8, 0x56, 0x34, 0x12] {
        assert_eq!(kernel_main(&mut loader, event), Command::Receive);
        event = Event::Received(char::from(byte));
    }
    assert_eq!(kernel_main(&mut loader, event), Command::Send('O'));
    assert_eq!(loader.size(), 0x1234_5678);
}

#[test]
fn loader_without_a_kernel_to_take_starts_at_once() {
    let mut loader = Loader::new("Raspberry pi 3", 0x8_0000);
    let (commands, _, memory) = converse(&mut loader, &[0, 0, 0, 0]);
    assert!(memory.is_empty());
    assert_eq!(commands.len(), 18);
    assert_eq!(commands[15], Command::Print("Received kernel, executing now!\n"));
    assert_eq!(kernel_main(&mut loader, Event::Done), Command::Start { addr: 0x8_0000 });
    assert_eq!(kernel_main(&mut loader, Event::Begin), Command::Start { addr: 0x8_0000 });
}

#[test]
fn loader_keeps_the_low_byte_of_what_it_receives() {
    let mut loader = Loader::new("Raspberry pi 3", 0x8_0000);
    let mut event = Event::Begin;
    for _ in 0..9 {
        kernel_main(&mut loader, event);
        event = Event::Done;
    }
    kernel_main(&mut loader, event);
    kernel_main(&mut loader, Event::Received('\u{20AC}'));
    assert_eq!(loader.size(), 0xAC);
    kernel_main(&mut loader, Event::Done);
    assert_eq!(loader.size(), 0xAC);
}
