use vstd::prelude::*;

use crate::font::font_spec;
use crate::instruction::{decode_spec, AluOp, Instruction};

verus! {

/// Size of the addressable memory in bytes.
pub const MEMORY_SIZE: usize = 4096;

/// Address at which a program is loaded and execution starts.
pub const PROGRAM_START: u16 = 0x200;

/// Largest program that fits between `PROGRAM_START` and the end of memory.
pub const MAX_ROM_SIZE: usize = 0xE00;

/// Framebuffer width in pixels.
pub const SCREEN_WIDTH: u32 = 64;

/// Framebuffer height in pixels.
pub const SCREEN_HEIGHT: u32 = 32;

/// Number of pixels in the framebuffer.
pub const SCREEN_PIXELS: usize = 2048;

/// Number of general registers V0-VF.
pub const REGISTER_COUNT: usize = 16;

/// Index of VF, the carry and collision flag.
pub const FLAG_REGISTER: usize = 15;

/// Deepest nesting of subroutine calls.
pub const STACK_LIMIT: usize = 16;

/// Number of keys on the hexadecimal keypad.
pub const KEY_COUNT: usize = 16;

/// A fatal condition that halts the interpreter.
#[derive(Debug, Clone, Copy, PartialEq, Eq, Structural)]
pub enum EmulatorError {
    /// `tick` was called before any program was loaded.
    RomNotLoaded,
    /// The program does not fit between the load address and the end of memory.
    RomTooLarge { len: usize },
    /// The program counter does not point at two bytes of memory.
    FetchOutOfBounds { pc: u16 },
    /// The fetched word matches no instruction.
    UnknownInstruction { word: u16 },
    /// A return was executed with an empty call stack.
    StackUnderflow,
    /// A call was executed with a full call stack.
    StackOverflow,
    /// A sprite's rows reach past the end of memory.
    SpriteOutOfBounds { index: u16, height: u8 },
    /// A key number outside the keypad.
    InvalidKey { key: u8 },
    /// A block of `count` bytes from `index` reaches past the end of memory.
    MemoryOutOfBounds { index: u16, count: u8 },
    /// A store below `PROGRAM_START`, where the glyphs and the reserved area lie.
    ProtectedWrite { index: u16 },
}

/// The seed of the random-number generator after construction.
pub const RANDOM_SEED: u16 = 0xACE1;

/// The abstract state of the interpreter.
pub struct Machine {
    pub ram: Seq<u8>,
    pub pc: u16,
    pub index: u16,
    pub stack: Seq<u16>,
    pub delay_timer: u8,
    pub sound_timer: u8,
    pub v: Seq<u8>,
    pub op_code: u16,
    pub screen: Seq<u8>,
    pub rom_loaded: bool,
    pub redraw: bool,
    pub keys: Seq<bool>,
    pub rng: u16,
}

impl Machine {
    /// Sizes of memory, registers, screen and keypad; pixels are 0 or 1; the
    /// stack within its bound; the glyphs in place at the bottom of memory.
    pub open spec fn wf(self) -> bool {
        &&& self.ram.len() == MEMORY_SIZE
        &&& self.v.len() == REGISTER_COUNT
        &&& self.screen.len() == SCREEN_PIXELS
        &&& self.keys.len() == KEY_COUNT
        &&& self.stack.len() <= STACK_LIMIT
        &&& forall|p: int| 0 <= p < SCREEN_PIXELS ==> #[trigger] self.screen[p] <= 1
        &&& self.ram.subrange(0, font_spec().len() as int) == font_spec()
    }
}

/// The state right after construction.
pub open spec fn initial_machine() -> Machine {
    Machine {
        ram: Seq::new(
            MEMORY_SIZE as nat,
            |i: int|
                if i < font_spec().len() {
                    font_spec()[i]
                } else {
                    0u8
                },
        ),
        pc: PROGRAM_START,
        index: 0,
        stack: Seq::empty(),
        delay_timer: 0,
        sound_timer: 0,
        v: Seq::new(REGISTER_COUNT as nat, |i: int| 0u8),
        op_code: 0,
        screen: Seq::new(SCREEN_PIXELS as nat, |i: int| 0u8),
        rom_loaded: false,
        redraw: true,
        keys: Seq::new(KEY_COUNT as nat, |i: int| false),
        rng: RANDOM_SEED,
    }
}

/// Memory after a program is copied to `PROGRAM_START`.
pub open spec fn with_rom(ram: Seq<u8>, rom: Seq<u8>) -> Seq<u8> {
    Seq::new(
        ram.len(),
        |i: int|
            if PROGRAM_START <= i < PROGRAM_START + rom.len() {
                rom[i - PROGRAM_START]
            } else {
                ram[i]
            },
    )
}

/// The big-endian word stored at `addr` and `addr + 1`.
pub open spec fn word_at(ram: Seq<u8>, addr: int) -> u16 {
    (ram[addr] * 256 + ram[addr + 1]) as u16
}

/// Whether bit `k` of a sprite row, counted from the most significant, is set.
pub open spec fn sprite_bit(byte: u8, k: int) -> bool {
    byte & (0x80u8 >> (k as u8)) != 0
}

/// Whether the sprite of `height` rows read from memory at `m.index`, placed
/// with its top-left corner at (x0, y0), has a set bit over pixel `p`.
/// Columns past the right edge and rows past the bottom edge cover nothing.
pub open spec fn sprite_over(m: Machine, x0: int, y0: int, height: int, p: int) -> bool {
    let col = p % (SCREEN_WIDTH as int);
    let row = p / (SCREEN_WIDTH as int);
    &&& 0 <= p < SCREEN_PIXELS
    &&& x0 <= col < x0 + 8
    &&& y0 <= row < y0 + height
    &&& sprite_bit(m.ram[m.index + (row - y0)], col - x0)
}

/// Whether drawing the sprite turns some lit pixel off.
pub open spec fn collides(m: Machine, x0: int, y0: int, height: int) -> bool {
    exists|p: int| #[trigger] sprite_over(m, x0, y0, height, p) && m.screen[p] == 1
}

/// The state after XOR-drawing the sprite at (x0, y0): each covered pixel is
/// flipped, VF tells whether a lit pixel went out, and a redraw is due.
pub open spec fn draw_at(m: Machine, x0: int, y0: int, height: int) -> Machine {
    Machine {
        screen: Seq::new(
            SCREEN_PIXELS as nat,
            |p: int|
                if sprite_over(m, x0, y0, height, p) {
                    (1 - m.screen[p]) as u8
                } else {
                    m.screen[p]
                },
        ),
        v: m.v.update(
            FLAG_REGISTER as int,
            if collides(m, x0, y0, height) {
                1u8
            } else {
                0u8
            },
        ),
        redraw: true,
        ..m
    }
}

/// The next state of the xorshift generator behind `CXNN`.
pub open spec fn next_random(s: u16) -> u16 {
    let a = s ^ (s << 7u16);
    let b = a ^ (a >> 9u16);
    b ^ (b << 8u16)
}

/// Skips the next instruction when `cond` holds.
pub open spec fn skip_if(m: Machine, cond: bool) -> Machine {
    if cond {
        Machine { pc: ((m.pc + 2) % 0x10000) as u16, ..m }
    } else {
        m
    }
}

/// The result of an `8XY_` operation on V[x] = `a` and V[y] = `b`, and the
/// value it leaves in VF, if it sets VF.
pub open spec fn alu_spec(op: AluOp, a: u8, b: u8) -> (u8, Option<u8>) {
    match op {
        AluOp::Copy => (b, None),
        AluOp::Or => (a | b, None),
        AluOp::And => (a & b, None),
        AluOp::Xor => (a ^ b, None),
        AluOp::Add => (((a + b) % 256) as u8, Some(if a + b > 255 { 1u8 } else { 0u8 })),
        AluOp::Subtract => (((a - b + 256) % 256) as u8, Some(if a >= b { 1u8 } else { 0u8 })),
        AluOp::ShiftRight => ((a / 2) as u8, Some((a % 2) as u8)),
        AluOp::SubtractReversed => (((b - a + 256) % 256) as u8, Some(if b >= a { 1u8 } else { 0u8 })),
        AluOp::ShiftLeft => (((a * 2) % 256) as u8, Some((a / 128) as u8)),
    }
}

/// The registers after an `8XY_` operation: the result goes to V[x], then
/// the flag, where the operation sets one, to VF.
pub open spec fn alu_registers(v: Seq<u8>, op: AluOp, x: u8, y: u8) -> Seq<u8> {
    let (result, flag) = alu_spec(op, v[x as int], v[y as int]);
    let v1 = v.update(x as int, result);
    match flag {
        Some(f) => v1.update(FLAG_REGISTER as int, f),
        None => v1,
    }
}

/// The lowest key at or above `k` that is down.
pub open spec fn first_key_down(keys: Seq<bool>, k: int) -> Option<int>
    decreases KEY_COUNT - k,
{
    if k < 0 || k >= KEY_COUNT || k >= keys.len() {
        None
    } else if keys[k] {
        Some(k)
    } else {
        first_key_down(keys, k + 1)
    }
}

/// Memory after storing V0 to V[x] from `index` on.
pub open spec fn stored_registers(ram: Seq<u8>, v: Seq<u8>, index: int, x: int) -> Seq<u8> {
    Seq::new(ram.len(), |a: int| if index <= a <= index + x { v[a - index] } else { ram[a] })
}

/// Registers after loading V0 to V[x] from memory at `index` on.
pub open spec fn loaded_registers(ram: Seq<u8>, v: Seq<u8>, index: int, x: int) -> Seq<u8> {
    Seq::new(v.len(), |r: int| if r <= x { ram[index + r] } else { v[r] })
}

/// The result of executing one decoded instruction on a state whose program
/// counter already points past it. A fatal condition leaves no new state.
pub open spec fn execute_spec(m: Machine, ins: Instruction) -> Result<Machine, EmulatorError> {
    match ins {
        Instruction::ClearScreen => Ok(
            Machine { screen: Seq::new(SCREEN_PIXELS as nat, |p: int| 0u8), redraw: true, ..m },
        ),
        Instruction::Return => if m.stack.len() == 0 {
            Err(EmulatorError::StackUnderflow)
        } else {
            Ok(Machine { pc: m.stack.last(), stack: m.stack.drop_last(), ..m })
        },
        Instruction::Jump { addr } => Ok(Machine { pc: addr, ..m }),
        Instruction::Call { addr } => if m.stack.len() >= STACK_LIMIT {
            Err(EmulatorError::StackOverflow)
        } else {
            Ok(Machine { pc: addr, stack: m.stack.push(m.pc), ..m })
        },
        Instruction::SetRegister { x, value } => Ok(Machine { v: m.v.update(x as int, value), ..m }),
        Instruction::AddToRegister { x, value } => Ok(
            Machine { v: m.v.update(x as int, ((m.v[x as int] + value) % 256) as u8), ..m },
        ),
        Instruction::SetIndex { addr } => Ok(Machine { index: addr, ..m }),
        Instruction::Draw { x, y, height } => if m.index + height > MEMORY_SIZE {
            Err(EmulatorError::SpriteOutOfBounds { index: m.index, height })
        } else {
            Ok(
                draw_at(
                    m,
                    (m.v[x as int] as int) % (SCREEN_WIDTH as int),
                    (m.v[y as int] as int) % (SCREEN_HEIGHT as int),
                    height as int,
                ),
            )
        },
        Instruction::SkipIfEqual { x, value } => Ok(skip_if(m, m.v[x as int] == value)),
        Instruction::SkipIfNotEqual { x, value } => Ok(skip_if(m, m.v[x as int] != value)),
        Instruction::SkipIfRegistersEqual { x, y } => Ok(skip_if(m, m.v[x as int] == m.v[y as int])),
        Instruction::SkipIfRegistersNotEqual { x, y } => Ok(
            skip_if(m, m.v[x as int] != m.v[y as int]),
        ),
        Instruction::Arithmetic { op, x, y } => Ok(Machine { v: alu_registers(m.v, op, x, y), ..m }),
        Instruction::JumpWithOffset { addr } => Ok(
            Machine { pc: ((addr + m.v[0]) % 0x10000) as u16, ..m },
        ),
        Instruction::Random { x, mask } => Ok(
            Machine {
                v: m.v.update(x as int, ((next_random(m.rng) & 0xFFu16) as u8) & mask),
                rng: next_random(m.rng),
                ..m
            },
        ),
        Instruction::SkipIfKeyDown { x } => if m.v[x as int] >= KEY_COUNT {
            Err(EmulatorError::InvalidKey { key: m.v[x as int] })
        } else {
            Ok(skip_if(m, m.keys[m.v[x as int] as int]))
        },
        Instruction::SkipIfKeyUp { x } => if m.v[x as int] >= KEY_COUNT {
            Err(EmulatorError::InvalidKey { key: m.v[x as int] })
        } else {
            Ok(skip_if(m, !m.keys[m.v[x as int] as int]))
        },
        Instruction::ReadDelayTimer { x } => Ok(Machine { v: m.v.update(x as int, m.delay_timer), ..m }),
        Instruction::WaitForKey { x } => match first_key_down(m.keys, 0) {
            Some(k) => Ok(Machine { v: m.v.update(x as int, k as u8), ..m }),
            None => Ok(Machine { pc: ((m.pc + 0xFFFE) % 0x10000) as u16, ..m }),
        },
        Instruction::SetDelayTimer { x } => Ok(Machine { delay_timer: m.v[x as int], ..m }),
        Instruction::SetSoundTimer { x } => Ok(Machine { sound_timer: m.v[x as int], ..m }),
        Instruction::AddToIndex { x } => Ok(
            Machine { index: ((m.index + m.v[x as int]) % 0x10000) as u16, ..m },
        ),
        Instruction::FontCharacter { x } => Ok(
            Machine { index: ((m.v[x as int] % 16) * 5) as u16, ..m },
        ),
        Instruction::StoreDecimal { x } => if m.index < PROGRAM_START {
            Err(EmulatorError::ProtectedWrite { index: m.index })
        } else if m.index + 3 > MEMORY_SIZE {
            Err(EmulatorError::MemoryOutOfBounds { index: m.index, count: 3 })
        } else {
            let value = m.v[x as int];
            Ok(
                Machine {
                    ram: m.ram.update(m.index as int, (value / 100) as u8).update(
                        m.index + 1,
                        ((value / 10) % 10) as u8,
                    ).update(m.index + 2, (value % 10) as u8),
                    ..m
                },
            )
        },
        Instruction::StoreRegisters { x } => if m.index < PROGRAM_START {
            Err(EmulatorError::ProtectedWrite { index: m.index })
        } else if m.index + x + 1 > MEMORY_SIZE {
            Err(EmulatorError::MemoryOutOfBounds { index: m.index, count: (x + 1) as u8 })
        } else {
            Ok(Machine { ram: stored_registers(m.ram, m.v, m.index as int, x as int), ..m })
        },
        Instruction::LoadRegisters { x } => if m.index + x + 1 > MEMORY_SIZE {
            Err(EmulatorError::MemoryOutOfBounds { index: m.index, count: (x + 1) as u8 })
        } else {
            Ok(Machine { v: loaded_registers(m.ram, m.v, m.index as int, x as int), ..m })
        },
    }
}

/// The result of one fetch-decode-execute cycle.
pub open spec fn tick_spec(m: Machine) -> Result<Machine, EmulatorError> {
    if !m.rom_loaded {
        Err(EmulatorError::RomNotLoaded)
    } else if m.pc + 1 >= MEMORY_SIZE {
        Err(EmulatorError::FetchOutOfBounds { pc: m.pc })
    } else {
        let word = word_at(m.ram, m.pc as int);
        match decode_spec(word) {
            None => Err(EmulatorError::UnknownInstruction { word }),
            Some(ins) => execute_spec(Machine { pc: (m.pc + 2) as u16, op_code: word, ..m }, ins),
        }
    }
}

/// Both timers after one tick of the 60 Hz clock: each nonzero one drops by one.
pub open spec fn timers_ticked(m: Machine) -> Machine {
    Machine {
        delay_timer: if m.delay_timer > 0 {
            (m.delay_timer - 1) as u8
        } else {
            0
        },
        sound_timer: if m.sound_timer > 0 {
            (m.sound_timer - 1) as u8
        } else {
            0
        },
        ..m
    }
}

} // verus!
