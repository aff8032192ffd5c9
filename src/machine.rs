//! The machine's data model: memory, registers, call stack, timers and
//! framebuffer, with the operations that set them up.
use vstd::prelude::*;

verus! {

/// Bytes of addressable memory.
pub const MEMORY_SIZE: usize = 4096;

/// Framebuffer width in pixels.
pub const WIDTH: usize = 64;

/// Framebuffer height in pixels.
pub const HEIGHT: usize = 32;

/// Pixels in the framebuffer.
pub const DISPLAY_SIZE: usize = 2048;

/// Address of the first program byte, and the initial program counter.
pub const PROGRAM_START: usize = 0x200;

/// Longest program that fits between `PROGRAM_START` and the end of memory.
pub const MAX_PROGRAM_LEN: usize = 3584;

/// Address of the built-in font.
pub const FONT_START: usize = 0x50;

/// Number of general-purpose registers.
pub const NUM_REGISTERS: usize = 16;

/// Deepest nesting of subroutine calls the machine accepts.
pub const MAX_STACK_DEPTH: usize = 16;

/// The built-in font: one 8x5 sprite for each hexadecimal digit.
pub open spec fn font() -> Seq<u8> {
    seq![
        0xF0u8, 0x90, 0x90, 0x90, 0xF0, 0x20, 0x60, 0x20, 0x20, 0x70,
        0xF0, 0x10, 0xF0, 0x80, 0xF0, 0xF0, 0x10, 0xF0, 0x10, 0xF0,
        0x90, 0x90, 0xF0, 0x10, 0x10, 0xF0, 0x80, 0xF0, 0x10, 0xF0,
        0xF0, 0x80, 0xF0, 0x90, 0xF0, 0xF0, 0x10, 0x20, 0x40, 0x40,
        0xF0, 0x90, 0xF0, 0x90, 0xF0, 0xF0, 0x90, 0xF0, 0x10, 0xF0,
        0xF0, 0x90, 0xF0, 0x90, 0x90, 0xE0, 0x90, 0xE0, 0x90, 0xE0,
        0xF0, 0x80, 0x80, 0x80, 0xF0, 0xE0, 0x90, 0x90, 0x90, 0xE0,
        0xF0, 0x80, 0xF0, 0x80, 0xF0, 0xF0, 0x80, 0xF0, 0x80, 0x80,
    ]
}

/// Memory as it is right after initialization: zero but for the font.
pub open spec fn initial_memory() -> Seq<u8> {
    Seq::new(
        MEMORY_SIZE as nat,
        |a: int|
            if FONT_START <= a < FONT_START + 80 {
                font()[a - FONT_START]
            } else {
                0u8
            },
    )
}

/// The mathematical model of a machine.
pub struct Chip8Model {
    pub memory: Seq<u8>,
    /// Row-major pixels: pixel (x, y) is at index `y * 64 + x`.
    pub display: Seq<bool>,
    pub pc: u16,
    pub ri: u16,
    pub delay_timer: u8,
    pub sound_timer: u8,
    pub registers: Seq<u8>,
    /// Return addresses, the most recent call last.
    pub stack: Seq<u16>,
}

impl Chip8Model {
    /// The sizes that every machine keeps.
    pub open spec fn wf(self) -> bool {
        &&& self.memory.len() == MEMORY_SIZE
        &&& self.display.len() == DISPLAY_SIZE
        &&& self.registers.len() == NUM_REGISTERS
        &&& self.stack.len() <= MAX_STACK_DEPTH
    }

    /// The state of a freshly initialized machine.
    pub open spec fn initial() -> Chip8Model {
        Chip8Model {
            memory: initial_memory(),
            display: Seq::new(DISPLAY_SIZE as nat, |i: int| false),
            pc: PROGRAM_START as u16,
            ri: 0,
            delay_timer: 0,
            sound_timer: 0,
            registers: Seq::new(NUM_REGISTERS as nat, |i: int| 0u8),
            stack: Seq::empty(),
        }
    }
}

/// One timer tick applied to a counter: down by one, never below zero.
pub open spec fn timer_tick(t: u8) -> u8 {
    if t > 0 {
        (t - 1) as u8
    } else {
        0
    }
}

impl Chip8Model {
    /// The state after one timer-clock tick.
    pub open spec fn timers_ticked(self) -> Chip8Model {
        Chip8Model {
            delay_timer: timer_tick(self.delay_timer),
            sound_timer: timer_tick(self.sound_timer),
            ..self
        }
    }
}

/// A CHIP-8 machine.
pub struct Chip8 {
    pub(crate) memory: Vec<u8>,
    pub(crate) display: Vec<bool>,
    pub(crate) pc: u16,
    pub(crate) ri: u16,
    pub(crate) delay_timer: u8,
    pub(crate) sound_timer: u8,
    pub(crate) rv: Vec<u8>,
    pub(crate) stack: Vec<u16>,
}

impl View for Chip8 {
    type V = Chip8Model;

    open(crate) spec fn view(&self) -> Chip8Model {
        Chip8Model {
            memory: self.memory@,
            display: self.display@,
            pc: self.pc,
            ri: self.ri,
            delay_timer: self.delay_timer,
            sound_timer: self.sound_timer,
            registers: self.rv@,
            stack: self.stack@,
        }
    }
}

impl Chip8 {
    /// A machine with zeroed memory but for the font at `FONT_START`, the
    /// program counter at `PROGRAM_START`, and everything else zero, empty
    /// or off.
    pub fn new() -> (r: Chip8)
        ensures
            r@ == Chip8Model::initial(),
            r@.wf(),
    {
        let font_data: [u8; 80] = [
            0xF0, 0x90, 0x90, 0x90, 0xF0, // 0
            0x20, 0x60, 0x20, 0x20, 0x70, // 1
            0xF0, 0x10, 0xF0, 0x80, 0xF0, // 2
            0xF0, 0x10, 0xF0, 0x10, 0xF0, // 3
            0x90, 0x90, 0xF0, 0x10, 0x10, // 4
            0xF0, 0x80, 0xF0, 0x10, 0xF0, // 5
            0xF0, 0x80, 0xF0, 0x90, 0xF0, // 6
            0xF0, 0x10, 0x20, 0x40, 0x40, // 7
            0xF0, 0x90, 0xF0, 0x90, 0xF0, // 8
            0xF0, 0x90, 0xF0, 0x10, 0xF0, // 9
            0xF0, 0x90, 0xF0, 0x90, 0x90, // A
            0xE0, 0x90, 0xE0, 0x90, 0xE0, // B
            0xF0, 0x80, 0x80, 0x80, 0xF0, // C
            0xE0, 0x90, 0x90, 0x90, 0xE0, // D
            0xF0, 0x80, 0xF0, 0x80, 0xF0, // E
            0xF0, 0x80, 0xF0, 0x80, 0x80, // F
        ];
        assert(font_data@ == font());
        let mut memory: Vec<u8> = Vec::new();
        let mut a: usize = 0;
        while a < MEMORY_SIZE
            invariant
                a <= MEMORY_SIZE,
                font_data@ == font(),
                memory@ == initial_memory().subrange(0, a as int),
            decreases MEMORY_SIZE - a,
        {
            if FONT_START <= a && a < FONT_START + 80 {
                memory.push(font_data[a - FONT_START]);
            } else {
                memory.push(0);
            }
            assert(memory@ =~= initial_memory().subrange(0, a + 1));
            a += 1;
        }
        assert(memory@ =~= initial_memory());
        let mut display: Vec<bool> = Vec::new();
        let mut k: usize = 0;
        while k < DISPLAY_SIZE
            invariant
                k <= DISPLAY_SIZE,
                display@ =~= Seq::new(k as nat, |i: int| false),
            decreases DISPLAY_SIZE - k,
        {
            display.push(false);
            k += 1;
        }
        let mut rv: Vec<u8> = Vec::new();
        let mut i: usize = 0;
        while i < NUM_REGISTERS
            invariant
                i <= NUM_REGISTERS,
                rv@ =~= Seq::new(i as nat, |j: int| 0u8),
            decreases NUM_REGISTERS - i,
        {
            rv.push(0);
            i += 1;
        }
        let r = Chip8 {
            memory,
            display,
            pc: PROGRAM_START as u16,
            ri: 0,
            delay_timer: 0,
            sound_timer: 0,
            rv,
            stack: Vec::new(),
        };
        assert(r@ =~= Chip8Model::initial());
        r
    }

    /// Copies `rom` into memory from `PROGRAM_START` on; every other byte
    /// and all other state stay as they were.
    pub fn load_rom(&mut self, rom: &[u8])
        requires
            old(self)@.wf(),
            rom@.len() <= MAX_PROGRAM_LEN,
        ensures
            final(self)@ == (Chip8Model {
                memory: old(self)@.memory.subrange(0, PROGRAM_START as int) + rom@
                    + old(self)@.memory.subrange(
                    PROGRAM_START + rom@.len(),
                    MEMORY_SIZE as int,
                ),
                ..old(self)@
            }),
            final(self)@.wf(),
    {
        let mut i: usize = 0;
        assert(self.memory@ =~= old(self)@.memory.subrange(0, PROGRAM_START as int) + rom@.subrange(
            0,
            0,
        ) + old(self)@.memory.subrange(PROGRAM_START as int, MEMORY_SIZE as int));
        while i < rom.len()
            invariant
                i <= rom@.len() <= MAX_PROGRAM_LEN,
                old(self)@.wf(),
                self@ == (Chip8Model {
                    memory: old(self)@.memory.subrange(0, PROGRAM_START as int) + rom@.subrange(
                        0,
                        i as int,
                    ) + old(self)@.memory.subrange(PROGRAM_START + i, MEMORY_SIZE as int),
                    ..old(self)@
                }),
                self@.wf(),
            decreases rom@.len() - i,
        {
            let ghost before = self.memory@;
            self.memory.set(PROGRAM_START + i, rom[i]);
            assert(self.memory@ == before.update(PROGRAM_START + i, rom@[i as int]));
            assert(self.memory@ =~= old(self)@.memory.subrange(0, PROGRAM_START as int)
                + rom@.subrange(0, i + 1) + old(self)@.memory.subrange(
                PROGRAM_START + i + 1,
                MEMORY_SIZE as int,
            ));
            i += 1;
        }
        assert(rom@.subrange(0, rom@.len() as int) =~= rom@);
    }

    /// One timer-clock tick: each timer drops by one unless already zero.
    pub fn tick_timers(&mut self)
        requires
            old(self)@.wf(),
        ensures
            final(self)@ == old(self)@.timers_ticked(),
            final(self)@.wf(),
    {
        self.delay_timer = self.delay_timer.saturating_sub(1);
        self.sound_timer = self.sound_timer.saturating_sub(1);
    }
    /// The program counter.
    pub fn pc(&self) -> (r: u16)
        ensures
            r == self@.pc,
    {
        self.pc
    }

    /// The index register.
    pub fn index_register(&self) -> (r: u16)
        ensures
            r == self@.ri,
    {
        self.ri
    }

    /// General-purpose register `i`.
    pub fn register(&self, i: usize) -> (r: u8)
        requires
            self@.wf(),
            i < NUM_REGISTERS,
        ensures
            r == self@.registers[i as int],
    {
        self.rv[i]
    }

    /// The delay timer.
    pub fn delay_timer(&self) -> (r: u8)
        ensures
            r == self@.delay_timer,
    {
        self.delay_timer
    }

    /// The sound timer.
    pub fn sound_timer(&self) -> (r: u8)
        ensures
            r == self@.sound_timer,
    {
        self.sound_timer
    }

    /// The number of subroutine calls not yet returned from.
    pub fn stack_depth(&self) -> (r: usize)
        ensures
            r == self@.stack.len(),
    {
        self.stack.len()
    }

    /// The byte at `address`.
    pub fn memory_byte(&self, address: usize) -> (r: u8)
        requires
            self@.wf(),
            address < MEMORY_SIZE,
        ensures
            r == self@.memory[address as int],
    {
        self.memory[address]
    }

    /// Whether pixel `(x, y)` is on.
    pub fn pixel(&self, x: usize, y: usize) -> (r: bool)
        requires
            self@.wf(),
            x < WIDTH,
            y < HEIGHT,
        ensures
            r == self@.display[y * WIDTH + x],
    {
        self.display[y * WIDTH + x]
    }

    /// A copy of the framebuffer, row-major, for the presentation layer.
    pub fn frame(&self) -> (r: Vec<bool>)
        requires
            self@.wf(),
        ensures
            r@ == self@.display,
    {
        let mut r: Vec<bool> = Vec::new();
        let mut k: usize = 0;
        while k < DISPLAY_SIZE
            invariant
                self@.wf(),
                k <= DISPLAY_SIZE,
                r@ == self@.display.subrange(0, k as int),
            decreases DISPLAY_SIZE - k,
        {
            r.push(self.display[k]);
            assert(r@ =~= self@.display.subrange(0, k + 1));
            k += 1;
        }
        assert(r@ =~= self@.display);
        r
    }
}

} // verus!
