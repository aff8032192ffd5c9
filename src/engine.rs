//! The fetch-decode-execute cycle.
//!
//! Design choices where the instruction set leaves room:
//! - `8XYn` reads both operands first, writes register X, then writes the
//!   flag to register F, so the flag wins when X is F.
//! - `DXYN` clips the sprite at the right and bottom edges of the screen and
//!   sets register F to 1 when some lit pixel is turned off, else to 0.
//! - A fault leaves the machine exactly as it was before the step.
use vstd::prelude::*;
use crate::lfsr::{Lfsr, lfsr_step};
use crate::machine::{
    Chip8, Chip8Model, DISPLAY_SIZE, HEIGHT, MAX_STACK_DEPTH, MEMORY_SIZE, WIDTH,
};

verus! {

/// Why a step could not be carried out.
#[derive(Clone, Copy, Debug, PartialEq, Eq, Structural)]
pub enum MachineFault {
    /// `00EE` with an empty call stack.
    StackUnderflow { pc: u16 },
    /// `2NNN` with `MAX_STACK_DEPTH` calls already open.
    StackOverflow { pc: u16 },
    /// An instruction word outside the supported set.
    UnknownOpcode { opcode: u16, pc: u16 },
    /// An instruction fetch or sprite read that reaches past the end of
    /// memory; `address` is the first byte out of range.
    AddressOutOfRange { address: u32, pc: u16 },
}

/// What a successful step means for the presentation layer.
#[derive(Clone, Copy, Debug, PartialEq, Eq, Structural)]
pub enum StepEffect {
    /// The framebuffer is as it was.
    Continue,
    /// The framebuffer was cleared or drawn on and should be published.
    FrameChanged,
}

/// The big-endian instruction word at address `a`.
pub open spec fn opcode_at(memory: Seq<u8>, a: int) -> u16 {
    (memory[a] as int * 256 + memory[a + 1] as int) as u16
}

/// Bits 15-12: the instruction family.
pub open spec fn op_family(op: u16) -> int {
    op as int / 4096
}

/// Bits 11-8: the register X operand.
pub open spec fn op_x(op: u16) -> int {
    (op as int / 256) % 16
}

/// Bits 7-4: the register Y operand.
pub open spec fn op_y(op: u16) -> int {
    (op as int / 16) % 16
}

/// Bits 3-0: the 4-bit immediate N.
pub open spec fn op_n(op: u16) -> int {
    op as int % 16
}

/// Bits 7-0: the 8-bit immediate NN.
pub open spec fn op_nn(op: u16) -> u8 {
    (op as int % 256) as u8
}

/// Bits 11-0: the 12-bit address NNN.
pub open spec fn op_nnn(op: u16) -> u16 {
    (op as int % 4096) as u16
}

/// The first address at or past the end of memory, from `start` on.
pub open spec fn first_out_of_range(start: int) -> u32 {
    if start >= MEMORY_SIZE {
        start as u32
    } else {
        MEMORY_SIZE as u32
    }
}

/// Bit `i` of a sprite row, counting from the most significant bit.
pub open spec fn sprite_bit(row: u8, i: int) -> bool {
    (row >> ((7 - i) as u8)) & 1u8 == 1u8
}

/// Whether pixel `k` lies under an `n`-row sprite placed at `(x0, y0)`.
pub open spec fn sprite_covers(k: int, x0: int, y0: int, n: int) -> bool {
    &&& x0 <= k % (WIDTH as int) < x0 + 8
    &&& y0 <= k / (WIDTH as int) < y0 + n
}

/// The sprite's bit over pixel `k`, its rows read from `ri` on.
pub open spec fn sprite_pixel(memory: Seq<u8>, ri: int, x0: int, y0: int, k: int) -> bool {
    sprite_bit(memory[ri + k / (WIDTH as int) - y0], k % (WIDTH as int) - x0)
}

/// The framebuffer after XORing the sprite into it.
pub open spec fn drawn_display(
    display: Seq<bool>,
    memory: Seq<u8>,
    ri: int,
    x0: int,
    y0: int,
    n: int,
) -> Seq<bool> {
    Seq::new(
        display.len(),
        |k: int|
            if sprite_covers(k, x0, y0, n) {
                display[k] != sprite_pixel(memory, ri, x0, y0, k)
            } else {
                display[k]
            },
    )
}

/// Whether the sprite turns off some pixel that was lit.
pub open spec fn draw_collides(
    display: Seq<bool>,
    memory: Seq<u8>,
    ri: int,
    x0: int,
    y0: int,
    n: int,
) -> bool {
    exists|k: int|
        0 <= k < display.len() && sprite_covers(k, x0, y0, n) && #[trigger] display[k]
            && sprite_pixel(memory, ri, x0, y0, k)
}

/// `8XYn`: the new value of register X and, for the operations that set
/// one, the flag for register F; `None` for an unknown `n`.
pub open spec fn alu_result(vx: u8, vy: u8, n: int) -> Option<(u8, Option<u8>)> {
    if n == 0x0 {
        Some((vy, None))
    } else if n == 0x1 {
        Some((vx | vy, None))
    } else if n == 0x2 {
        Some((vx & vy, None))
    } else if n == 0x3 {
        Some((vx ^ vy, None))
    } else if n == 0x4 {
        Some((((vx + vy) % 256) as u8, Some(if vx + vy > 255 { 1u8 } else { 0u8 })))
    } else if n == 0x5 {
        Some((((vx - vy) % 256) as u8, Some(if vy > vx { 1u8 } else { 0u8 })))
    } else if n == 0x6 {
        Some(((vx / 2) as u8, Some((vx % 2) as u8)))
    } else if n == 0x7 {
        Some((((vy - vx) % 256) as u8, Some(if vx > vy { 1u8 } else { 0u8 })))
    } else if n == 0xE {
        Some((((vx * 2) % 256) as u8, Some(if vx >= 128 { 1u8 } else { 0u8 })))
    } else {
        None
    }
}

/// The program counter moved past the current instruction, and past the
/// next one too when `skip` holds.
pub open spec fn next_pc(m: Chip8Model, skip: bool) -> u16 {
    if skip {
        (m.pc + 4) as u16
    } else {
        (m.pc + 2) as u16
    }
}

/// Executes instruction word `op`, fetched at `m.pc`; `rnd` is the
/// pseudo-random byte that `CXNN` uses.
pub open spec fn execute_spec(m: Chip8Model, op: u16, rnd: u8) -> Result<
    (Chip8Model, StepEffect),
    MachineFault,
> {
    let x = op_x(op);
    let y = op_y(op);
    let n = op_n(op);
    let nn = op_nn(op);
    let nnn = op_nnn(op);
    let vx = m.registers[x];
    let vy = m.registers[y];
    let next = next_pc(m, false);
    let unknown = MachineFault::UnknownOpcode { opcode: op, pc: m.pc };
    let cont = StepEffect::Continue;
    if op == 0x00E0 {
        Ok(
            (
                Chip8Model { display: Seq::new(DISPLAY_SIZE as nat, |i: int| false), pc: next, ..m },
                StepEffect::FrameChanged,
            ),
        )
    } else if op == 0x00EE {
        if m.stack.len() == 0 {
            Err(MachineFault::StackUnderflow { pc: m.pc })
        } else {
            Ok((Chip8Model { pc: m.stack.last(), stack: m.stack.drop_last(), ..m }, cont))
        }
    } else if op_family(op) == 0x0 {
        Err(unknown)
    } else if op_family(op) == 0x1 {
        Ok((Chip8Model { pc: nnn, ..m }, cont))
    } else if op_family(op) == 0x2 {
        if m.stack.len() >= MAX_STACK_DEPTH {
            Err(MachineFault::StackOverflow { pc: m.pc })
        } else {
            Ok((Chip8Model { pc: nnn, stack: m.stack.push(next), ..m }, cont))
        }
    } else if op_family(op) == 0x3 {
        Ok((Chip8Model { pc: next_pc(m, vx == nn), ..m }, cont))
    } else if op_family(op) == 0x4 {
        Ok((Chip8Model { pc: next_pc(m, vx != nn), ..m }, cont))
    } else if op_family(op) == 0x5 {
        if n != 0 {
            Err(unknown)
        } else {
            Ok((Chip8Model { pc: next_pc(m, vx == vy), ..m }, cont))
        }
    } else if op_family(op) == 0x6 {
        Ok((Chip8Model { registers: m.registers.update(x, nn), pc: next, ..m }, cont))
    } else if op_family(op) == 0x7 {
        Ok(
            (
                Chip8Model {
                    registers: m.registers.update(x, ((vx + nn) % 256) as u8),
                    pc: next,
                    ..m
                },
                cont,
            ),
        )
    } else if op_family(op) == 0x8 {
        match alu_result(vx, vy, n) {
            None => Err(unknown),
            Some((v, None)) => Ok(
                (Chip8Model { registers: m.registers.update(x, v), pc: next, ..m }, cont),
            ),
            Some((v, Some(f))) => Ok(
                (
                    Chip8Model {
                        registers: m.registers.update(x, v).update(0xF, f),
                        pc: next,
                        ..m
                    },
                    cont,
                ),
            ),
        }
    } else if op_family(op) == 0x9 {
        if n != 0 {
            Err(unknown)
        } else {
            Ok((Chip8Model { pc: next_pc(m, vx != vy), ..m }, cont))
        }
    } else if op_family(op) == 0xA {
        Ok((Chip8Model { ri: nnn, pc: next, ..m }, cont))
    } else if op_family(op) == 0xB {
        Ok((Chip8Model { pc: (m.registers[0] + nnn) as u16, ..m }, cont))
    } else if op_family(op) == 0xC {
        Ok((Chip8Model { registers: m.registers.update(x, rnd & nn), pc: next, ..m }, cont))
    } else if op_family(op) == 0xD {
        let x0 = vx as int % (WIDTH as int);
        let y0 = vy as int % (HEIGHT as int);
        if n > 0 && m.ri + n > MEMORY_SIZE {
            Err(MachineFault::AddressOutOfRange { address: first_out_of_range(m.ri as int), pc: m.pc })
        } else {
            let hit = draw_collides(m.display, m.memory, m.ri as int, x0, y0, n);
            Ok(
                (
                    Chip8Model {
                        display: drawn_display(m.display, m.memory, m.ri as int, x0, y0, n),
                        registers: m.registers.update(0xF, if hit { 1u8 } else { 0u8 }),
                        pc: next,
                        ..m
                    },
                    StepEffect::FrameChanged,
                ),
            )
        }
    } else if op_family(op) == 0xF {
        if nn == 0x07 {
            Ok(
                (
                    Chip8Model { registers: m.registers.update(x, m.delay_timer), pc: next, ..m },
                    cont,
                ),
            )
        } else if nn == 0x15 {
            Ok((Chip8Model { delay_timer: vx, pc: next, ..m }, cont))
        } else if nn == 0x18 {
            Ok((Chip8Model { sound_timer: vx, pc: next, ..m }, cont))
        } else {
            Err(unknown)
        }
    } else {
        Err(unknown)
    }
}

/// Whether the next step fetches successfully.
pub open spec fn can_fetch(m: Chip8Model) -> bool {
    m.pc + 1 < MEMORY_SIZE
}

/// Whether the next step executes a `CXNN` and so draws a random byte.
pub open spec fn draws_random(m: Chip8Model) -> bool {
    can_fetch(m) && op_family(opcode_at(m.memory, m.pc as int)) == 0xC
}

/// One fetch-decode-execute step; `rnd` is the pseudo-random byte drawn
/// when the instruction is a `CXNN`.
pub open spec fn step_spec(m: Chip8Model, rnd: u8) -> Result<(Chip8Model, StepEffect), MachineFault> {
    if !can_fetch(m) {
        Err(MachineFault::AddressOutOfRange { address: first_out_of_range(m.pc as int), pc: m.pc })
    } else {
        execute_spec(m, opcode_at(m.memory, m.pc as int), rnd)
    }
}

/// Pixels already drawn once `j` full rows, and `i` pixels of row `j`,
/// of the sprite have been processed.
spec fn sprite_covers_partial(k: int, x0: int, y0: int, j: int, i: int) -> bool {
    ||| sprite_covers(k, x0, y0, j)
    ||| (k / (WIDTH as int) == y0 + j && x0 <= k % (WIDTH as int) < x0 + i)
}

proof fn lemma_pixel_index(x: int, y: int)
    requires
        0 <= x < WIDTH,
        0 <= y,
    ensures
        (y * WIDTH + x) / (WIDTH as int) == y,
        (y * WIDTH + x) % (WIDTH as int) == x,
{
    assert((y * 64 + x) / 64 == y && (y * 64 + x) % 64 == x) by (nonlinear_arith)
        requires
            0 <= x < 64,
            0 <= y,
    ;
}

impl Chip8 {
    /// XORs the `n`-row sprite at `ri` into the framebuffer at `(x0, y0)`,
    /// clipped at the screen's edges; returns whether a lit pixel went off.
    fn draw_sprite(&mut self, x0: usize, y0: usize, n: usize) -> (hit: bool)
        requires
            old(self)@.wf(),
            x0 < WIDTH,
            y0 < HEIGHT,
            n < 16,
            n == 0 || old(self)@.ri + n <= MEMORY_SIZE,
        ensures
            final(self)@ == (Chip8Model {
                display: drawn_display(
                    old(self)@.display,
                    old(self)@.memory,
                    old(self)@.ri as int,
                    x0 as int,
                    y0 as int,
                    n as int,
                ),
                ..old(self)@
            }),
            hit == draw_collides(
                old(self)@.display,
                old(self)@.memory,
                old(self)@.ri as int,
                x0 as int,
                y0 as int,
                n as int,
            ),
    {
        let ghost d0 = self.display@;
        let ghost mem = self.memory@;
        let ri = self.ri as usize;
        let mut hit = false;
        let mut j: usize = 0;
        while j < n
            invariant
                old(self)@.wf(),
                x0 < WIDTH,
                y0 < HEIGHT,
                n < 16,
                n == 0 || ri + n <= MEMORY_SIZE,
                ri == old(self)@.ri,
                d0 == old(self)@.display,
                mem == old(self)@.memory,
                j <= n,
                self@ == (Chip8Model { display: self.display@, ..old(self)@ }),
                self.display@.len() == DISPLAY_SIZE,
                forall|k: int|
                    0 <= k < DISPLAY_SIZE ==> #[trigger] self.display@[k] == if sprite_covers_partial(
                        k,
                        x0 as int,
                        y0 as int,
                        j as int,
                        0,
                    ) {
                        d0[k] != sprite_pixel(mem, ri as int, x0 as int, y0 as int, k)
                    } else {
                        d0[k]
                    },
                hit == exists|k: int|
                    0 <= k < DISPLAY_SIZE && sprite_covers_partial(
                        k,
                        x0 as int,
                        y0 as int,
                        j as int,
                        0,
                    ) && #[trigger] d0[k] && sprite_pixel(mem, ri as int, x0 as int, y0 as int, k),
            decreases n - j,
        {
            let y = y0 + j;
            if y < HEIGHT {
                let row = self.memory[ri + j];
                let mut i: usize = 0;
                while i < 8
                    invariant
                        old(self)@.wf(),
                        x0 < WIDTH,
                        y0 < HEIGHT,
                        n < 16,
                        ri + n <= MEMORY_SIZE,
                        ri == old(self)@.ri,
                        d0 == old(self)@.display,
                        mem == old(self)@.memory,
                        j < n,
                        y == y0 + j,
                        y < HEIGHT,
                        row == mem[ri + j],
                        i <= 8,
                        self@ == (Chip8Model { display: self.display@, ..old(self)@ }),
                        self.display@.len() == DISPLAY_SIZE,
                        forall|k: int|
                            0 <= k < DISPLAY_SIZE ==> #[trigger] self.display@[k]
                                == if sprite_covers_partial(
                                k,
                                x0 as int,
                                y0 as int,
                                j as int,
                                i as int,
                            ) {
                                d0[k] != sprite_pixel(mem, ri as int, x0 as int, y0 as int, k)
                            } else {
                                d0[k]
                            },
                        hit == exists|k: int|
                            0 <= k < DISPLAY_SIZE && sprite_covers_partial(
                                k,
                                x0 as int,
                                y0 as int,
                                j as int,
                                i as int,
                            ) && #[trigger] d0[k] && sprite_pixel(
                                mem,
                                ri as int,
                                x0 as int,
                                y0 as int,
                                k,
                            ),
                    decreases 8 - i,
                {
                    let x = x0 + i;
                    if x < WIDTH {
                        let k = y * WIDTH + x;
                        proof {
                            lemma_pixel_index(x as int, y as int);
                        }
                        let shift = (7 - i) as u8;
                        let bit = (row >> shift) & 1u8 == 1u8;
                        assert(bit == sprite_pixel(mem, ri as int, x0 as int, y0 as int, k as int));
                        let ghost before_hit = hit;
                        if bit {
                            let lit = self.display[k];
                            if lit {
                                hit = true;
                            }
                            self.display.set(k, !lit);
                        }
                        assert forall|k2: int|
                            0 <= k2 < DISPLAY_SIZE && sprite_covers_partial(
                                k2,
                                x0 as int,
                                y0 as int,
                                j as int,
                                i + 1,
                            ) && !sprite_covers_partial(
                                k2,
                                x0 as int,
                                y0 as int,
                                j as int,
                                i as int,
                            ) implies k2 == k by {
                            assert(k2 == (k2 / 64) * 64 + k2 % 64);
                        }
                        proof {
                            if !before_hit && hit {
                                assert(sprite_covers_partial(
                                    k as int,
                                    x0 as int,
                                    y0 as int,
                                    j as int,
                                    i + 1,
                                ) && d0[k as int]);
                            }
                        }
                    } else {
                        assert forall|k2: int|
                            0 <= k2 < DISPLAY_SIZE implies sprite_covers_partial(
                            k2,
                            x0 as int,
                            y0 as int,
                            j as int,
                            i + 1,
                        ) == sprite_covers_partial(
                            k2,
                            x0 as int,
                            y0 as int,
                            j as int,
                            i as int,
                        ) by {}
                    }
                    i += 1;
                }
            }
            assert forall|k2: int|
                0 <= k2 < DISPLAY_SIZE implies sprite_covers_partial(
                k2,
                x0 as int,
                y0 as int,
                j + 1,
                0,
            ) == sprite_covers_partial(k2, x0 as int, y0 as int, j as int, 8) by {}
            j += 1;
        }
        assert(self.display@ =~= drawn_display(d0, mem, ri as int, x0 as int, y0 as int, n as int));
        hit
    }
}

/// `8XYn` on register values `vx` and `vy`.
fn alu(vx: u8, vy: u8, n: u16) -> (r: Option<(u8, Option<u8>)>)
    requires
        n < 16,
    ensures
        r == alu_result(vx, vy, n as int),
{
    if n == 0x0 {
        Some((vy, None))
    } else if n == 0x1 {
        Some((vx | vy, None))
    } else if n == 0x2 {
        Some((vx & vy, None))
    } else if n == 0x3 {
        Some((vx ^ vy, None))
    } else if n == 0x4 {
        let sum: u16 = vx as u16 + vy as u16;
        Some(((sum % 256) as u8, Some(if sum > 255 { 1u8 } else { 0u8 })))
    } else if n == 0x5 {
        let diff: u8 = if vx >= vy { vx - vy } else { (256u16 + vx as u16 - vy as u16) as u8 };
        Some((diff, Some(if vy > vx { 1u8 } else { 0u8 })))
    } else if n == 0x6 {
        Some((vx / 2, Some(vx % 2)))
    } else if n == 0x7 {
        let diff: u8 = if vy >= vx { vy - vx } else { (256u16 + vy as u16 - vx as u16) as u8 };
        Some((diff, Some(if vx > vy { 1u8 } else { 0u8 })))
    } else if n == 0xE {
        let doubled: u16 = vx as u16 * 2;
        Some(((doubled % 256) as u8, Some(if vx >= 128 { 1u8 } else { 0u8 })))
    } else {
        None
    }
}

impl Chip8 {
    /// Carries out instruction word `op`, fetched at the program counter.
    fn execute(&mut self, op: u16, rng: &mut Lfsr) -> (r: Result<StepEffect, MachineFault>)
        requires
            old(self)@.wf(),
            can_fetch(old(self)@),
        ensures
            final(rng)@ == if op_family(op) == 0xC {
                lfsr_step(old(rng)@)
            } else {
                old(rng)@
            },
            match execute_spec(old(self)@, op, final(rng)@) {
                Ok((m, e)) => final(self)@ == m && r == Ok::<StepEffect, MachineFault>(e),
                Err(f) => final(self)@ == old(self)@ && r == Err::<StepEffect, MachineFault>(f),
            },
    {
        let at = self.pc;
        let next = self.pc + 2;
        let family = op / 4096;
        let x = ((op / 256) % 16) as usize;
        let y = ((op / 16) % 16) as usize;
        let n = op % 16;
        let nn = (op % 256) as u8;
        let nnn = op % 4096;
        let vx = self.rv[x];
        let vy = self.rv[y];
        let unknown = MachineFault::UnknownOpcode { opcode: op, pc: at };
        if op == 0x00E0 {
            let mut k: usize = 0;
            while k < DISPLAY_SIZE
                invariant
                    old(self)@.wf(),
                    self@ == (Chip8Model { display: self.display@, ..old(self)@ }),
                    self.display@.len() == DISPLAY_SIZE,
                    k <= DISPLAY_SIZE,
                    forall|i: int| 0 <= i < k ==> !#[trigger] self.display@[i],
                decreases DISPLAY_SIZE - k,
            {
                self.display.set(k, false);
                k += 1;
            }
            self.pc = next;
            assert(self.display@ =~= Seq::new(DISPLAY_SIZE as nat, |i: int| false));
            Ok(StepEffect::FrameChanged)
        } else if op == 0x00EE {
            match self.stack.pop() {
                None => Err(MachineFault::StackUnderflow { pc: at }),
                Some(ret) => {
                    self.pc = ret;
                    Ok(StepEffect::Continue)
                },
            }
        } else if family == 0x0 {
            Err(unknown)
        } else if family == 0x1 {
            self.pc = nnn;
            Ok(StepEffect::Continue)
        } else if family == 0x2 {
            if self.stack.len() >= MAX_STACK_DEPTH {
                Err(MachineFault::StackOverflow { pc: at })
            } else {
                self.stack.push(next);
                self.pc = nnn;
                Ok(StepEffect::Continue)
            }
        } else if family == 0x3 {
            self.pc = if vx == nn { next + 2 } else { next };
            Ok(StepEffect::Continue)
        } else if family == 0x4 {
            self.pc = if vx != nn { next + 2 } else { next };
            Ok(StepEffect::Continue)
        } else if family == 0x5 {
            if n != 0 {
                Err(unknown)
            } else {
                self.pc = if vx == vy { next + 2 } else { next };
                Ok(StepEffect::Continue)
            }
        } else if family == 0x6 {
            self.rv.set(x, nn);
            self.pc = next;
            Ok(StepEffect::Continue)
        } else if family == 0x7 {
            self.rv.set(x, ((vx as u16 + nn as u16) % 256) as u8);
            self.pc = next;
            Ok(StepEffect::Continue)
        } else if family == 0x8 {
            match alu(vx, vy, n) {
                None => Err(unknown),
                Some((v, flag)) => {
                    self.rv.set(x, v);
                    match flag {
                        Some(f) => self.rv.set(0xF, f),
                        None => {},
                    }
                    self.pc = next;
                    Ok(StepEffect::Continue)
                },
            }
        } else if family == 0x9 {
            if n != 0 {
                Err(unknown)
            } else {
                self.pc = if vx != vy { next + 2 } else { next };
                Ok(StepEffect::Continue)
            }
        } else if family == 0xA {
            self.ri = nnn;
            self.pc = next;
            Ok(StepEffect::Continue)
        } else if family == 0xB {
            self.pc = self.rv[0] as u16 + nnn;
            Ok(StepEffect::Continue)
        } else if family == 0xC {
            let rnd = rng.next();
            self.rv.set(x, rnd & nn);
            self.pc = next;
            Ok(StepEffect::Continue)
        } else if family == 0xD {
            let ri = self.ri as u32;
            if n > 0 && ri + n as u32 > MEMORY_SIZE as u32 {
                let address = if ri >= MEMORY_SIZE as u32 { ri } else { MEMORY_SIZE as u32 };
                Err(MachineFault::AddressOutOfRange { address, pc: at })
            } else {
                let hit = self.draw_sprite(vx as usize % WIDTH, vy as usize % HEIGHT, n as usize);
                self.rv.set(0xF, if hit { 1u8 } else { 0u8 });
                self.pc = next;
                Ok(StepEffect::FrameChanged)
            }
        } else if family == 0xF {
            if nn == 0x07 {
                self.rv.set(x, self.delay_timer);
                self.pc = next;
                Ok(StepEffect::Continue)
            } else if nn == 0x15 {
                self.delay_timer = vx;
                self.pc = next;
                Ok(StepEffect::Continue)
            } else if nn == 0x18 {
                self.sound_timer = vx;
                self.pc = next;
                Ok(StepEffect::Continue)
            } else {
                Err(unknown)
            }
        } else {
            Err(unknown)
        }
    }

    /// One fetch-decode-execute step: fetches the big-endian word at the
    /// program counter and carries it out. `rng` is advanced only by a
    /// `CXNN`. On a fault the machine is left as it was.
    pub fn step(&mut self, rng: &mut Lfsr) -> (r: Result<StepEffect, MachineFault>)
        requires
            old(self)@.wf(),
        ensures
            final(self)@.wf(),
            final(self)@.memory == old(self)@.memory,
            final(rng)@ == if draws_random(old(self)@) {
                lfsr_step(old(rng)@)
            } else {
                old(rng)@
            },
            match step_spec(old(self)@, final(rng)@) {
                Ok((m, e)) => final(self)@ == m && r == Ok::<StepEffect, MachineFault>(e),
                Err(f) => final(self)@ == old(self)@ && r == Err::<StepEffect, MachineFault>(f),
            },
    {
        let at = self.pc;
        if at as usize + 1 >= MEMORY_SIZE {
            let address = if at as usize >= MEMORY_SIZE { at as u32 } else { MEMORY_SIZE as u32 };
            return Err(MachineFault::AddressOutOfRange { address, pc: at });
        }
        let op: u16 = self.memory[at as usize] as u16 * 256 + self.memory[at as usize + 1] as u16;
        self.execute(op, rng)
    }
}

impl Chip8 {
    /// One iteration of the coordinating loop: applies a pending timer-clock
    /// tick, then a pending CPU-clock tick, at most one of each. Without a
    /// CPU tick the result is `Ok(StepEffect::Continue)`; a fault from the
    /// step leaves the timer tick applied.
    pub fn advance(&mut self, rng: &mut Lfsr, timer_tick: bool, cpu_tick: bool) -> (r: Result<
        StepEffect,
        MachineFault,
    >)
        requires
            old(self)@.wf(),
        ensures
            final(self)@.wf(),
            ({
                let t = if timer_tick {
                    old(self)@.timers_ticked()
                } else {
                    old(self)@
                };
                &&& final(rng)@ == if cpu_tick && draws_random(t) {
                    lfsr_step(old(rng)@)
                } else {
                    old(rng)@
                }
                &&& if !cpu_tick {
                    final(self)@ == t && r == Ok::<StepEffect, MachineFault>(StepEffect::Continue)
                } else {
                    match step_spec(t, final(rng)@) {
                        Ok((m, e)) => final(self)@ == m && r == Ok::<StepEffect, MachineFault>(e),
                        Err(f) => final(self)@ == t && r == Err::<StepEffect, MachineFault>(f),
                    }
                }
            }),
    {
        if timer_tick {
            self.tick_timers();
        }
        if cpu_tick {
            self.step(rng)
        } else {
            Ok(StepEffect::Continue)
        }
    }
}

} // verus!
