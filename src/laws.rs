use vstd::prelude::*;

use crate::instruction::{family, field_nnn, Instruction};
use crate::machine::{
    collides, draw_at, execute_spec, sprite_over, stored_registers, tick_spec, word_at,
    EmulatorError, Machine, FLAG_REGISTER, MEMORY_SIZE, PROGRAM_START, SCREEN_PIXELS, STACK_LIMIT,
};

verus! {

/// `7XNN` adds modulo 256: the sum wraps past 0xFF (0xFF plus 0x02 gives
/// 0x01), and no other register changes, VF included unless it is the target.
pub proof fn lemma_add_wraps(m: Machine, x: u8, value: u8)
    requires
        m.wf(),
        x < 16,
    ensures
        execute_spec(m, Instruction::AddToRegister { x, value }) is Ok,
        ({
            let m1 = execute_spec(m, Instruction::AddToRegister { x, value })->Ok_0;
            &&& m1.v[x as int] as int == (m.v[x as int] + value) % 256
            &&& m.v[x as int] == 0xFF && value == 0x02 ==> m1.v[x as int] == 0x01
            &&& forall|i: int| 0 <= i < 16 && i != x ==> #[trigger] m1.v[i] == m.v[i]
            &&& x != FLAG_REGISTER ==> m1.v[FLAG_REGISTER as int] == m.v[FLAG_REGISTER as int]
            &&& m1 == (Machine { v: m1.v, ..m })
        }),
{
}

/// `00E0` leaves every pixel off, whatever was drawn before.
pub proof fn lemma_clear_blanks_screen(m: Machine)
    requires
        m.wf(),
    ensures
        execute_spec(m, Instruction::ClearScreen) is Ok,
        forall|p: int|
            0 <= p < SCREEN_PIXELS ==> #[trigger] execute_spec(m, Instruction::ClearScreen)->Ok_0.screen[p] == 0,
        execute_spec(m, Instruction::ClearScreen)->Ok_0.redraw,
{
}

/// A call followed at once by a return restores the program counter and the
/// stack to what they were before the call.
pub proof fn lemma_call_then_return(m: Machine, addr: u16)
    requires
        m.wf(),
        m.stack.len() < STACK_LIMIT,
    ensures
        execute_spec(m, Instruction::Call { addr }) is Ok,
        execute_spec(execute_spec(m, Instruction::Call { addr })->Ok_0, Instruction::Return)
            == Ok::<Machine, EmulatorError>(m),
{
    let m1 = execute_spec(m, Instruction::Call { addr })->Ok_0;
    assert(m1.stack.drop_last() =~= m.stack);
    assert(m1 == (Machine { pc: addr, stack: m.stack.push(m.pc), ..m }));
}

/// Running a `2NNN` word and then the `00EE` word at its target returns to the
/// instruction after the call, with the stack as it was.
pub proof fn lemma_tick_call_then_return(m: Machine)
    requires
        m.wf(),
        m.rom_loaded,
        m.pc + 1 < MEMORY_SIZE,
        family(word_at(m.ram, m.pc as int)) == 0x2,
        m.stack.len() < STACK_LIMIT,
        field_nnn(word_at(m.ram, m.pc as int)) + 1 < MEMORY_SIZE,
        word_at(m.ram, field_nnn(word_at(m.ram, m.pc as int)) as int) == 0x00EE,
    ensures
        tick_spec(m) is Ok,
        tick_spec(tick_spec(m)->Ok_0) is Ok,
        tick_spec(tick_spec(m)->Ok_0)->Ok_0.pc == m.pc + 2,
        tick_spec(tick_spec(m)->Ok_0)->Ok_0.stack == m.stack,
{
    let w = word_at(m.ram, m.pc as int);
    assert(w != 0x00E0u16 && w != 0x00EEu16) by (bit_vector)
        requires
            (w >> 12u16) & 0xFu16 == 0x2,
    ;
    let m1 = tick_spec(m)->Ok_0;
    assert(m1.stack.drop_last() =~= m.stack);
}

/// Drawing the same sprite twice at the same place restores the screen, and
/// the second draw reports a collision exactly when the first one lit a pixel.
pub proof fn lemma_draw_twice(m: Machine, x0: int, y0: int, height: int)
    requires
        m.wf(),
        0 <= x0 < 64,
        0 <= y0 < 32,
        0 <= height < 16,
        m.index + height <= MEMORY_SIZE,
    ensures
        draw_at(draw_at(m, x0, y0, height), x0, y0, height).screen == m.screen,
        collides(draw_at(m, x0, y0, height), x0, y0, height)
            == exists|p: int| #[trigger] sprite_over(m, x0, y0, height, p) && m.screen[p] == 0,
        draw_at(draw_at(m, x0, y0, height), x0, y0, height).v[FLAG_REGISTER as int] == if exists|p: int|
            #[trigger] sprite_over(m, x0, y0, height, p) && m.screen[p] == 0 {
            1u8
        } else {
            0u8
        },
{
    let m1 = draw_at(m, x0, y0, height);
    assert forall|p: int| #[trigger] sprite_over(m1, x0, y0, height, p) == sprite_over(m, x0, y0, height, p) by {}
    assert(draw_at(m1, x0, y0, height).screen =~= m.screen);
    if collides(m1, x0, y0, height) {
        let p = choose|p: int| #[trigger] sprite_over(m1, x0, y0, height, p) && m1.screen[p] == 1;
        assert(sprite_over(m, x0, y0, height, p) && m.screen[p] == 0);
    }
    if exists|p: int| #[trigger] sprite_over(m, x0, y0, height, p) && m.screen[p] == 0 {
        let p = choose|p: int| #[trigger] sprite_over(m, x0, y0, height, p) && m.screen[p] == 0;
        assert(sprite_over(m1, x0, y0, height, p) && m1.screen[p] == 1);
    }
}

/// No instruction writes below `PROGRAM_START`: the glyphs and the reserved
/// area stay as they were through any cycle.
pub proof fn lemma_tick_keeps_low_memory(m: Machine)
    requires
        m.wf(),
        tick_spec(m) is Ok,
    ensures
        tick_spec(m)->Ok_0.ram.subrange(0, PROGRAM_START as int) == m.ram.subrange(0, PROGRAM_START as int),
{
    let m1 = tick_spec(m)->Ok_0;
    assert forall|a: int| 0 <= a < PROGRAM_START implies #[trigger] m1.ram[a] == m.ram[a] by {
        let word = word_at(m.ram, m.pc as int);
        match crate::instruction::decode_spec(word) {
            Some(Instruction::StoreRegisters { x }) => {
                assert(m1.ram == stored_registers(m.ram, m.v, m.index as int, x as int));
            },
            _ => {},
        }
    }
    assert(m1.ram.subrange(0, PROGRAM_START as int) =~= m.ram.subrange(0, PROGRAM_START as int));
}

} // verus!
