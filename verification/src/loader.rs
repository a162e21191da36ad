//! The loader: it announces itself on the console, asks the other side for
//! a kernel, takes the kernel's size and then its bytes, puts them where the
//! board wants a kernel, and starts it.
//!
//! The loader decides and the kernel around it performs: each call of
//! [`kernel_main`] answers with the one thing to do next, and is called
//! again with what came of it.

use vstd::prelude::*;

verus! {

/// What the loader shows first.
pub const LOADER_LOGO: &'static str = "\n.____                     .___            \n|    |    _________     __| _/___________ \n|    |   /  _ \\__  \\   / __ |/ __ \\_  __ \\\n|    |__(  <_> ) __ \\_/ /_/ \\  ___/|  | \\/\n|_______ \\____(____  /\\____ |\\___  >__|   \n        \\/         \\/      \\/    \\/\n";

/// The byte that, sent three times, asks the other side for the kernel.
pub const REQUEST: char = '\u{3}';

/// One thing for the kernel to do.
#[derive(Clone, Copy, PartialEq, Eq, Debug)]
pub enum Command {
    /// Write the text to the console.
    Print(&'static str),
    /// Wait until the console has sent all that was written.
    Flush,
    /// Discard what the console has received and not handed on.
    ClearRx,
    /// Write the character to the console.
    Send(char),
    /// Read a character from the console, waiting for it.
    Receive,
    /// Write the byte to memory at the address.
    Put { addr: u64, byte: u8 },
    /// Start the kernel that lies at the address. The loader is done.
    Start { addr: u64 },
}

/// What came of the last command.
#[derive(Clone, Copy, PartialEq, Eq, Debug)]
pub enum Event {
    /// There was no command yet.
    Begin,
    /// The command has been carried out.
    Done,
    /// The character that [`Command::Receive`] has read.
    Received(char),
}

/// What a loader holds.
pub struct LoaderState {
    /// The board's name.
    pub board: &'static str,
    /// Where the kernel is put and started.
    pub load_address: u64,
    /// How many commands the loader has given.
    pub given: nat,
    /// The kernel's size, as far as it has been received.
    pub size: u32,
}

/// A loader.
pub struct Loader {
    board: &'static str,
    load_address: usize,
    given: u64,
    size: u32,
}

impl View for Loader {
    type V = LoaderState;

    closed spec fn view(&self) -> LoaderState {
        LoaderState {
            board: self.board,
            load_address: self.load_address as u64,
            given: self.given as nat,
            size: self.size,
        }
    }
}

/// How many commands come before the kernel's size is asked for: four
/// prints, the flush, the clearing, and the request three times.
pub const OPENING: u64 = 9;

/// How many commands come before the kernel's bytes are asked for: the
/// opening, the four bytes of the size, and the two characters that
/// acknowledge it.
pub const HEADER: u64 = 15;

/// The byte that an event brings: the low byte of the character received,
/// and zero where none was.
pub open spec fn byte_of(event: Event) -> u8 {
    match event {
        Event::Received(c) => ((c as u32) & 0xFF) as u8,
        _ => 0,
    }
}

/// A size with the byte that comes at place `k` of its four bytes, the
/// lowest first.
pub open spec fn with_byte(size: u32, k: nat, byte: u8) -> u32 {
    size | ((byte as u32) << ((8 * k) as u32))
}

/// How many commands the loader gives in all for a kernel of `size` bytes:
/// the header, two for each byte, the announcement, the flush and the start.
pub open spec fn total(size: u32) -> nat {
    (HEADER + 2 * size + 3) as nat
}

impl LoaderState {

    /// The size once `event` has been taken in: where the event answers one
    /// of the four commands that ask for the size, its byte is put in its
    /// place; else the size stays.
    pub open spec fn taken_in(self, event: Event) -> u32 {
        if OPENING < self.given <= OPENING + 4 {
            with_byte(
                if self.given == OPENING + 1 {
                    0
                } else {
                    self.size
                },
                (self.given - OPENING - 1) as nat,
                byte_of(event),
            )
        } else {
            self.size
        }
    }

    /// The command at place `k` for a kernel of `size` bytes, when `event` is
    /// what came of the command before it.
    ///
    /// The loader shows its logo and names the board, says that it asks for
    /// the kernel, lets the console send that and discards what has come in
    /// meanwhile. It sends the request three times and receives the four
    /// bytes of the size, the lowest first, which it acknowledges with `OK`.
    /// It receives the kernel byte by byte and puts each byte behind the one
    /// before, from the load address on. It says that it has the kernel, lets
    /// the console send that, and starts the kernel at the load address.
    pub open spec fn command(self, k: nat, size: u32, event: Event) -> Command {
        let body = (k - HEADER) as nat;
        if k == 0 {
            Command::Print(LOADER_LOGO)
        } else if k == 1 {
            Command::Print("\nRunning on: ")
        } else if k == 2 {
            Command::Print(self.board)
        } else if k == 3 {
            Command::Print("\n\nRequesting binary!\n")
        } else if k == 4 {
            Command::Flush
        } else if k == 5 {
            Command::ClearRx
        } else if k < OPENING {
            Command::Send(REQUEST)
        } else if k < OPENING + 4 {
            Command::Receive
        } else if k == OPENING + 4 {
            Command::Send('O')
        } else if k == OPENING + 5 {
            Command::Send('K')
        } else if body < 2 * size {
            if body % 2 == 0 {
                Command::Receive
            } else {
                Command::Put { addr: (self.load_address + body / 2) as u64, byte: byte_of(event) }
            }
        } else if body == 2 * size {
            Command::Print("Received kernel, executing now!\n")
        } else if body == 2 * size + 1 {
            Command::Flush
        } else {
            Command::Start { addr: self.load_address }
        }
    }

    /// One call of `kernel_main`: the event is taken in, the next command is
    /// given and counted. Once the kernel has been started, the loader only
    /// repeats that.
    pub open spec fn next(self, event: Event) -> (LoaderState, Command) {
        let size = self.taken_in(event);
        let after = LoaderState {
            size,
            given: if self.given < total(size) {
                self.given + 1
            } else {
                self.given
            },
            ..self
        };
        (after, self.command(self.given, size, event))
    }
}

impl Loader {
    /// What holds of every loader: a kernel of any size that the loader can
    /// be told lies within the address space, and the loader has given no
    /// more commands than there are.
    #[verifier::type_invariant]
    pub open spec fn inv(&self) -> bool {
        &&& self@.load_address + u32::MAX <= u64::MAX
        &&& self@.given <= total(u32::MAX)
    }

    /// A loader for the board named `board`, which puts the kernel at
    /// `load_address`. It has given no command yet. Behind the load address
    /// there has to be room for a kernel of any size that the loader can be
    /// told.
    pub fn new(board: &'static str, load_address: usize) -> (loader: Self)
        requires
            load_address + u32::MAX <= u64::MAX,
        ensures
            loader@ == (LoaderState { board, load_address: load_address as u64, given: 0, size: 0 }),
    {
        Loader { board, load_address, given: 0, size: 0 }
    }

    /// The size of the kernel, as far as it has been received.
    pub fn size(&self) -> (size: u32)
        ensures
            size == self@.size,
    {
        self.size
    }
}

/// The low byte of the character that an event brings.
fn take_byte(event: Event) -> (byte: u8)
    ensures
        byte == byte_of(event),
{
    match event {
        Event::Received(c) => ((c as u32) & 0xFF) as u8,
        _ => 0,
    }
}

/// Gives the next command of the loader, after `event` has come of the last
/// one.
pub fn kernel_main(loader: &mut Loader, event: Event) -> (command: Command)
    ensures
        (final(loader)@, command) == old(loader)@.next(event),
{
    proof {
        use_type_invariant(&*loader);
    }
    let k = loader.given;
    let byte = take_byte(event);
    if OPENING < k && k <= OPENING + 4 {
        let so_far: u32 = if k == OPENING + 1 {
            0
        } else {
            loader.size
        };
        let place: u32 = (k - OPENING - 1) as u32;
        loader.size = so_far | ((byte as u32) << (8 * place));
    }
    let size = loader.size;
    let bytes: u64 = 2 * (size as u64);
    if k < HEADER + bytes + 3 {
        loader.given = k + 1;
    }
    if k == 0 {
        Command::Print(LOADER_LOGO)
    } else if k == 1 {
        Command::Print("\nRunning on: ")
    } else if k == 2 {
        Command::Print(loader.board)
    } else if k == 3 {
        Command::Print("\n\nRequesting binary!\n")
    } else if k == 4 {
        Command::Flush
    } else if k == 5 {
        Command::ClearRx
    } else if k < OPENING {
        Command::Send(REQUEST)
    } else if k < OPENING + 4 {
        Command::Receive
    } else if k == OPENING + 4 {
        Command::Send('O')
    } else if k == OPENING + 5 {
        Command::Send('K')
    } else {
        let body: u64 = k - HEADER;
        if body < bytes {
            if body % 2 == 0 {
                Command::Receive
            } else {
                Command::Put { addr: loader.load_address as u64 + body / 2, byte }
            }
        } else if body == bytes {
            Command::Print("Received kernel, executing now!\n")
        } else if body == bytes + 1 {
            Command::Flush
        } else {
            Command::Start { addr: loader.load_address as u64 }
        }
    }
}

/// The size is taken lowest byte first: after the four events that answer
/// the commands which ask for it, the size is the first byte, the second in
/// the next eight bits, the third and the fourth in theirs.
pub proof fn lemma_size_comes_lowest_byte_first(loader: LoaderState, first: Event, second: Event, third: Event, fourth: Event)
    requires
        loader.given == OPENING + 1,
    ensures
        ({
            let told = loader.next(first).0.next(second).0.next(third).0.next(fourth).0;
            &&& told.given == HEADER - 1
            &&& told.size == byte_of(first) as u32 | (byte_of(second) as u32) << 8 | (byte_of(third) as u32) << 16
                | (byte_of(fourth) as u32) << 24
        }),
{
    let a = byte_of(first);
    let b = byte_of(second);
    let c = byte_of(third);
    let d = byte_of(fourth);
    assert((((0u32 | ((a as u32) << 0u32)) | ((b as u32) << 8u32)) | ((c as u32) << 16u32)) | ((d as u32) << 24u32)
        == a as u32 | (b as u32) << 8 | (c as u32) << 16 | (d as u32) << 24) by (bit_vector);
}

} // verus!
