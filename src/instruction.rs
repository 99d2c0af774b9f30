use vstd::prelude::*;

verus! {

/// One decoded CHIP-8 instruction, with its operand fields extracted.
#[derive(Debug, Clone, Copy, PartialEq, Eq, Structural)]
pub enum Instruction {
    /// `00E0`: clear the framebuffer.
    ClearScreen,
    /// `00EE`: return from a subroutine.
    Return,
    /// `1NNN`: jump to `addr`.
    Jump { addr: u16 },
    /// `2NNN`: call the subroutine at `addr`.
    Call { addr: u16 },
    /// `6XNN`: set register `x` to `value`.
    SetRegister { x: u8, value: u8 },
    /// `7XNN`: add `value` to register `x`, wrapping, without touching VF.
    AddToRegister { x: u8, value: u8 },
    /// `ANNN`: set the index register to `addr`.
    SetIndex { addr: u16 },
    /// `DXYN`: draw a `height`-row sprite at (V[x], V[y]).
    Draw { x: u8, y: u8, height: u8 },
    /// `3XNN`: skip the next instruction if V[x] equals `value`.
    SkipIfEqual { x: u8, value: u8 },
    /// `4XNN`: skip the next instruction if V[x] differs from `value`.
    SkipIfNotEqual { x: u8, value: u8 },
    /// `5XY0`: skip the next instruction if V[x] equals V[y].
    SkipIfRegistersEqual { x: u8, y: u8 },
    /// `9XY0`: skip the next instruction if V[x] differs from V[y].
    SkipIfRegistersNotEqual { x: u8, y: u8 },
    /// `8XY_`: register-to-register arithmetic and logic, V[x] op= V[y].
    Arithmetic { op: AluOp, x: u8, y: u8 },
    /// `BNNN`: jump to `addr` plus V0.
    JumpWithOffset { addr: u16 },
    /// `CXNN`: set V[x] to a random byte masked with `mask`.
    Random { x: u8, mask: u8 },
    /// `EX9E`: skip the next instruction if the key named by V[x] is down.
    SkipIfKeyDown { x: u8 },
    /// `EXA1`: skip the next instruction if the key named by V[x] is up.
    SkipIfKeyUp { x: u8 },
    /// `FX07`: set V[x] to the delay timer.
    ReadDelayTimer { x: u8 },
    /// `FX0A`: wait until a key is down and store its number in V[x].
    WaitForKey { x: u8 },
    /// `FX15`: set the delay timer to V[x].
    SetDelayTimer { x: u8 },
    /// `FX18`: set the sound timer to V[x].
    SetSoundTimer { x: u8 },
    /// `FX1E`: add V[x] to the index register.
    AddToIndex { x: u8 },
    /// `FX29`: point the index register at the glyph of the low nibble of V[x].
    FontCharacter { x: u8 },
    /// `FX33`: store the three decimal digits of V[x] at I, I+1 and I+2.
    StoreDecimal { x: u8 },
    /// `FX55`: store V0 to V[x] in memory from I on.
    StoreRegisters { x: u8 },
    /// `FX65`: load V0 to V[x] from memory from I on.
    LoadRegisters { x: u8 },
}

/// The operations of the `8XY_` family, selected by the lowest nibble.
#[derive(Debug, Clone, Copy, PartialEq, Eq, Structural)]
pub enum AluOp {
    /// `8XY0`: V[x] = V[y].
    Copy,
    /// `8XY1`: V[x] |= V[y].
    Or,
    /// `8XY2`: V[x] &= V[y].
    And,
    /// `8XY3`: V[x] ^= V[y].
    Xor,
    /// `8XY4`: V[x] += V[y]; VF = carry.
    Add,
    /// `8XY5`: V[x] -= V[y]; VF = 1 when no borrow.
    Subtract,
    /// `8XY6`: V[x] >>= 1; VF = the bit shifted out.
    ShiftRight,
    /// `8XY7`: V[x] = V[y] - V[x]; VF = 1 when no borrow.
    SubtractReversed,
    /// `8XYE`: V[x] <<= 1; VF = the bit shifted out.
    ShiftLeft,
}

/// Bits 15-12 of an instruction word: the opcode family.
pub open spec fn family(w: u16) -> u16 {
    (w >> 12u16) & 0xFu16
}

/// Bits 11-8: the `X` register field.
pub open spec fn field_x(w: u16) -> u8 {
    ((w >> 8u16) & 0xFu16) as u8
}

/// Bits 7-4: the `Y` register field.
pub open spec fn field_y(w: u16) -> u8 {
    ((w >> 4u16) & 0xFu16) as u8
}

/// Bits 3-0: the 4-bit immediate `N`.
pub open spec fn field_n(w: u16) -> u8 {
    (w & 0xFu16) as u8
}

/// Bits 7-0: the 8-bit immediate `NN`.
pub open spec fn field_nn(w: u16) -> u8 {
    (w & 0xFFu16) as u8
}

/// Bits 11-0: the 12-bit address `NNN`.
pub open spec fn field_nnn(w: u16) -> u16 {
    w & 0x0FFFu16
}

/// The instruction that a word encodes, or `None` for a pattern with no handler.
pub open spec fn decode_spec(w: u16) -> Option<Instruction> {
    if w == 0x00E0u16 {
        Some(Instruction::ClearScreen)
    } else if w == 0x00EEu16 {
        Some(Instruction::Return)
    } else if family(w) == 0x1 {
        Some(Instruction::Jump { addr: field_nnn(w) })
    } else if family(w) == 0x2 {
        Some(Instruction::Call { addr: field_nnn(w) })
    } else if family(w) == 0x6 {
        Some(Instruction::SetRegister { x: field_x(w), value: field_nn(w) })
    } else if family(w) == 0x7 {
        Some(Instruction::AddToRegister { x: field_x(w), value: field_nn(w) })
    } else if family(w) == 0xA {
        Some(Instruction::SetIndex { addr: field_nnn(w) })
    } else if family(w) == 0xD {
        Some(Instruction::Draw { x: field_x(w), y: field_y(w), height: field_n(w) })
    } else if family(w) == 0x3 {
        Some(Instruction::SkipIfEqual { x: field_x(w), value: field_nn(w) })
    } else if family(w) == 0x4 {
        Some(Instruction::SkipIfNotEqual { x: field_x(w), value: field_nn(w) })
    } else if family(w) == 0x5 && field_n(w) == 0 {
        Some(Instruction::SkipIfRegistersEqual { x: field_x(w), y: field_y(w) })
    } else if family(w) == 0x9 && field_n(w) == 0 {
        Some(Instruction::SkipIfRegistersNotEqual { x: field_x(w), y: field_y(w) })
    } else if family(w) == 0x8 {
        match alu_op_spec(field_n(w)) {
            Some(op) => Some(Instruction::Arithmetic { op, x: field_x(w), y: field_y(w) }),
            None => None,
        }
    } else if family(w) == 0xB {
        Some(Instruction::JumpWithOffset { addr: field_nnn(w) })
    } else if family(w) == 0xC {
        Some(Instruction::Random { x: field_x(w), mask: field_nn(w) })
    } else if family(w) == 0xE && field_nn(w) == 0x9E {
        Some(Instruction::SkipIfKeyDown { x: field_x(w) })
    } else if family(w) == 0xE && field_nn(w) == 0xA1 {
        Some(Instruction::SkipIfKeyUp { x: field_x(w) })
    } else if family(w) == 0xF && field_nn(w) == 0x07 {
        Some(Instruction::ReadDelayTimer { x: field_x(w) })
    } else if family(w) == 0xF && field_nn(w) == 0x0A {
        Some(Instruction::WaitForKey { x: field_x(w) })
    } else if family(w) == 0xF && field_nn(w) == 0x15 {
        Some(Instruction::SetDelayTimer { x: field_x(w) })
    } else if family(w) == 0xF && field_nn(w) == 0x18 {
        Some(Instruction::SetSoundTimer { x: field_x(w) })
    } else if family(w) == 0xF && field_nn(w) == 0x1E {
        Some(Instruction::AddToIndex { x: field_x(w) })
    } else if family(w) == 0xF && field_nn(w) == 0x29 {
        Some(Instruction::FontCharacter { x: field_x(w) })
    } else if family(w) == 0xF && field_nn(w) == 0x33 {
        Some(Instruction::StoreDecimal { x: field_x(w) })
    } else if family(w) == 0xF && field_nn(w) == 0x55 {
        Some(Instruction::StoreRegisters { x: field_x(w) })
    } else if family(w) == 0xF && field_nn(w) == 0x65 {
        Some(Instruction::LoadRegisters { x: field_x(w) })
    } else {
        None
    }
}

/// The `8XY_` operation that the lowest nibble selects.
pub open spec fn alu_op_spec(n: u8) -> Option<AluOp> {
    if n == 0x0 {
        Some(AluOp::Copy)
    } else if n == 0x1 {
        Some(AluOp::Or)
    } else if n == 0x2 {
        Some(AluOp::And)
    } else if n == 0x3 {
        Some(AluOp::Xor)
    } else if n == 0x4 {
        Some(AluOp::Add)
    } else if n == 0x5 {
        Some(AluOp::Subtract)
    } else if n == 0x6 {
        Some(AluOp::ShiftRight)
    } else if n == 0x7 {
        Some(AluOp::SubtractReversed)
    } else if n == 0xE {
        Some(AluOp::ShiftLeft)
    } else {
        None
    }
}

/// Selects the `8XY_` operation from the lowest nibble.
fn decode_alu_op(n: u8) -> (r: Option<AluOp>)
    ensures
        r == alu_op_spec(n),
{
    match n {
        0x0 => Some(AluOp::Copy),
        0x1 => Some(AluOp::Or),
        0x2 => Some(AluOp::And),
        0x3 => Some(AluOp::Xor),
        0x4 => Some(AluOp::Add),
        0x5 => Some(AluOp::Subtract),
        0x6 => Some(AluOp::ShiftRight),
        0x7 => Some(AluOp::SubtractReversed),
        0xE => Some(AluOp::ShiftLeft),
        _ => None,
    }
}

/// Register fields of a decoded instruction name one of the sixteen registers,
/// addresses fit in twelve bits and sprite heights in four.
pub open spec fn operands_in_range(ins: Instruction) -> bool {
    match ins {
        Instruction::Jump { addr } => addr < 0x1000,
        Instruction::Call { addr } => addr < 0x1000,
        Instruction::SetRegister { x, .. } => x < 16,
        Instruction::AddToRegister { x, .. } => x < 16,
        Instruction::SetIndex { addr } => addr < 0x1000,
        Instruction::Draw { x, y, height } => x < 16 && y < 16 && height < 16,
        Instruction::SkipIfEqual { x, .. } => x < 16,
        Instruction::SkipIfNotEqual { x, .. } => x < 16,
        Instruction::SkipIfRegistersEqual { x, y } => x < 16 && y < 16,
        Instruction::SkipIfRegistersNotEqual { x, y } => x < 16 && y < 16,
        Instruction::Arithmetic { x, y, .. } => x < 16 && y < 16,
        Instruction::JumpWithOffset { addr } => addr < 0x1000,
        Instruction::Random { x, .. } => x < 16,
        Instruction::SkipIfKeyDown { x } => x < 16,
        Instruction::SkipIfKeyUp { x } => x < 16,
        Instruction::ReadDelayTimer { x } => x < 16,
        Instruction::WaitForKey { x } => x < 16,
        Instruction::SetDelayTimer { x } => x < 16,
        Instruction::SetSoundTimer { x } => x < 16,
        Instruction::AddToIndex { x } => x < 16,
        Instruction::FontCharacter { x } => x < 16,
        Instruction::StoreDecimal { x } => x < 16,
        Instruction::StoreRegisters { x } => x < 16,
        Instruction::LoadRegisters { x } => x < 16,
        _ => true,
    }
}

/// Classifies an instruction word by its nibbles and extracts its operands.
pub fn decode(word: u16) -> (r: Option<Instruction>)
    ensures
        r == decode_spec(word),
        r matches Some(ins) ==> operands_in_range(ins),
{
    let x = ((word >> 8u16) & 0xFu16) as u8;
    let y = ((word >> 4u16) & 0xFu16) as u8;
    let n = (word & 0xFu16) as u8;
    let nn = (word & 0xFFu16) as u8;
    let nnn = word & 0x0FFFu16;
    proof {
        assert(((word >> 8u16) & 0xFu16) < 16) by (bit_vector);
        assert(((word >> 4u16) & 0xFu16) < 16) by (bit_vector);
        assert((word & 0xFu16) < 16) by (bit_vector);
        assert((word & 0x0FFFu16) < 0x1000) by (bit_vector);
    }
    if word == 0x00E0u16 {
        Some(Instruction::ClearScreen)
    } else if word == 0x00EEu16 {
        Some(Instruction::Return)
    } else {
        match (word >> 12u16) & 0xFu16 {
            0x1 => Some(Instruction::Jump { addr: nnn }),
            0x2 => Some(Instruction::Call { addr: nnn }),
            0x6 => Some(Instruction::SetRegister { x, value: nn }),
            0x7 => Some(Instruction::AddToRegister { x, value: nn }),
            0xA => Some(Instruction::SetIndex { addr: nnn }),
            0xD => Some(Instruction::Draw { x, y, height: n }),
            0x3 => Some(Instruction::SkipIfEqual { x, value: nn }),
            0x4 => Some(Instruction::SkipIfNotEqual { x, value: nn }),
            0x5 => if n == 0 {
                Some(Instruction::SkipIfRegistersEqual { x, y })
            } else {
                None
            },
            0x9 => if n == 0 {
                Some(Instruction::SkipIfRegistersNotEqual { x, y })
            } else {
                None
            },
            0x8 => match decode_alu_op(n) {
                Some(op) => Some(Instruction::Arithmetic { op, x, y }),
                None => None,
            },
            0xB => Some(Instruction::JumpWithOffset { addr: nnn }),
            0xC => Some(Instruction::Random { x, mask: nn }),
            0xE => match nn {
                0x9E => Some(Instruction::SkipIfKeyDown { x }),
                0xA1 => Some(Instruction::SkipIfKeyUp { x }),
                _ => None,
            },
            0xF => match nn {
                0x07 => Some(Instruction::ReadDelayTimer { x }),
                0x0A => Some(Instruction::WaitForKey { x }),
                0x15 => Some(Instruction::SetDelayTimer { x }),
                0x18 => Some(Instruction::SetSoundTimer { x }),
                0x1E => Some(Instruction::AddToIndex { x }),
                0x29 => Some(Instruction::FontCharacter { x }),
                0x33 => Some(Instruction::StoreDecimal { x }),
                0x55 => Some(Instruction::StoreRegisters { x }),
                0x65 => Some(Instruction::LoadRegisters { x }),
                _ => None,
            },
            _ => None,
        }
    }
}

} // verus!
