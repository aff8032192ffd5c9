//! Properties that relate several steps of the machine.
use vstd::prelude::*;
use crate::engine::{can_fetch, drawn_display, op_family, op_n, op_x, op_y, opcode_at, step_spec};
use crate::machine::{Chip8Model, MAX_STACK_DEPTH, MEMORY_SIZE};

verus! {

/// XORing a sprite into the framebuffer twice gives back the framebuffer.
pub proof fn lemma_drawn_display_involution(
    display: Seq<bool>,
    memory: Seq<u8>,
    ri: int,
    x0: int,
    y0: int,
    n: int,
)
    ensures
        drawn_display(drawn_display(display, memory, ri, x0, y0, n), memory, ri, x0, y0, n)
            == display,
{
    let once = drawn_display(display, memory, ri, x0, y0, n);
    let twice = drawn_display(once, memory, ri, x0, y0, n);
    assert(twice =~= display);
}

/// A subroutine call (`2NNN`) pushes the address right after itself and
/// jumps; a later return (`00EE`) from any state whose call stack is the one
/// the call left behind resumes right after the call, with the stack as it
/// was before the call.
pub proof fn lemma_call_then_return(m: Chip8Model, rnd: u8, later: Chip8Model, rnd2: u8)
    requires
        m.wf(),
        can_fetch(m),
        op_family(opcode_at(m.memory, m.pc as int)) == 0x2,
        m.stack.len() < MAX_STACK_DEPTH,
        later.wf(),
        later.stack == m.stack.push((m.pc + 2) as u16),
        can_fetch(later),
        opcode_at(later.memory, later.pc as int) == 0x00EE,
    ensures
        match step_spec(m, rnd) {
            Ok((after_call, _)) => after_call.stack == later.stack && after_call.pc == opcode_at(
                m.memory,
                m.pc as int,
            ) % 4096,
            Err(_) => false,
        },
        match step_spec(later, rnd2) {
            Ok((after_return, _)) => after_return.pc == m.pc + 2 && after_return.stack
                == m.stack,
            Err(_) => false,
        },
{
    assert(later.stack.drop_last() =~= m.stack);
}

/// Executing the same `DXYN` twice in a row, with neither X nor Y naming the
/// flag register F, leaves the framebuffer as it was before the first draw.
pub proof fn lemma_draw_twice_restores(m: Chip8Model, rnd: u8, rnd2: u8)
    requires
        m.wf(),
        m.pc + 3 < MEMORY_SIZE,
        op_family(opcode_at(m.memory, m.pc as int)) == 0xD,
        opcode_at(m.memory, m.pc + 2) == opcode_at(m.memory, m.pc as int),
        op_x(opcode_at(m.memory, m.pc as int)) != 0xF,
        op_y(opcode_at(m.memory, m.pc as int)) != 0xF,
        m.ri + op_n(opcode_at(m.memory, m.pc as int)) <= MEMORY_SIZE,
    ensures
        match step_spec(m, rnd) {
            Ok((m1, _)) => match step_spec(m1, rnd2) {
                Ok((m2, _)) => m2.display == m.display && m2.pc == m.pc + 4,
                Err(_) => false,
            },
            Err(_) => false,
        },
{
    let op = opcode_at(m.memory, m.pc as int);
    let x0 = m.registers[op_x(op)] as int % 64;
    let y0 = m.registers[op_y(op)] as int % 32;
    lemma_drawn_display_involution(m.display, m.memory, m.ri as int, x0, y0, op_n(op));
}

} // verus!
