use vstd::prelude::*;

use crate::font::{font_spec, font_table, FONT_SIZE};
use crate::instruction::{decode, operands_in_range, AluOp, Instruction};
use crate::machine::{
    alu_registers, alu_spec, collides, draw_at, execute_spec, first_key_down, initial_machine,
    loaded_registers, next_random, skip_if, sprite_over, stored_registers, tick_spec,
    timers_ticked, with_rom, word_at, EmulatorError, Machine, FLAG_REGISTER, KEY_COUNT,
    MAX_ROM_SIZE, MEMORY_SIZE, PROGRAM_START, RANDOM_SEED, REGISTER_COUNT, SCREEN_HEIGHT,
    SCREEN_PIXELS, SCREEN_WIDTH, STACK_LIMIT,
};

verus! {

/// The complete state of one CHIP-8 interpreter.
pub struct EmulatorState {
    /// 4 KB of memory; the glyphs live at the bottom, programs from 0x200.
    ram: Vec<u8>,
    /// Address of the next instruction to fetch.
    program_counter: u16,
    /// The index register `I`, a memory pointer for sprite reads.
    index_register: u16,
    /// Return addresses of the active subroutine calls.
    stack: Vec<u16>,
    /// Counts down at 60 Hz until it reaches zero.
    delay_timer: u8,
    /// Counts down like the delay timer; a tone sounds while it is nonzero.
    sound_timer: u8,
    /// The general registers V0 to VF.
    general_variable_registers: Vec<u8>,
    /// The word fetched by the most recent tick.
    op_code: u16,
    /// One byte per pixel, 0 or 1, row-major, 64 columns by 32 rows.
    graphics_buffer: Vec<u8>,
    /// Whether a program has been loaded.
    rom_loaded: bool,
    /// Tells the host that the framebuffer changed since it last drew it.
    should_redraw: bool,
    /// Which keys of the keypad are held down.
    keypad: Vec<bool>,
    /// State of the xorshift generator behind `CXNN`.
    random_state: u16,
}

impl View for EmulatorState {
    type V = Machine;

    closed spec fn view(&self) -> Machine {
        Machine {
            ram: self.ram@,
            pc: self.program_counter,
            index: self.index_register,
            stack: self.stack@,
            delay_timer: self.delay_timer,
            sound_timer: self.sound_timer,
            v: self.general_variable_registers@,
            op_code: self.op_code,
            screen: self.graphics_buffer@,
            rom_loaded: self.rom_loaded,
            redraw: self.should_redraw,
            keys: self.keypad@,
            rng: self.random_state,
        }
    }
}

/// A vector of `n` copies of `value`.
fn filled<T: Copy>(value: T, n: usize) -> (r: Vec<T>)
    ensures
        r@ == Seq::new(n as nat, |i: int| value),
{
    let mut r: Vec<T> = Vec::new();
    let mut i: usize = 0;
    while i < n
        invariant
            i <= n,
            r@ == Seq::new(i as nat, |j: int| value),
        decreases n - i,
    {
        r.push(value);
        i = i + 1;
        assert(r@ =~= Seq::new(i as nat, |j: int| value));
    }
    r
}

/// Byte `k` of the RGBA colour of a lit (`on`) or dark pixel: opaque purple
/// or opaque black.
pub open spec fn pixel_color(on: bool, k: int) -> u8 {
    if on {
        seq![0x5Eu8, 0x48u8, 0xE8u8, 0xFFu8][k]
    } else {
        seq![0x00u8, 0x00u8, 0x00u8, 0xFFu8][k]
    }
}

/// Byte `k` of the RGBA colour of a lit (`on`) or dark pixel.
fn color_byte(on: bool, k: usize) -> (r: u8)
    requires
        k < 4,
    ensures
        r == pixel_color(on, k as int),
{
    if k == 3 {
        0xFF
    } else if !on {
        0x00
    } else if k == 0 {
        0x5E
    } else if k == 1 {
        0x48
    } else {
        0xE8
    }
}

/// Computes an `8XY_` operation on V[x] = `a` and V[y] = `b`.
fn alu(op: AluOp, a: u8, b: u8) -> (r: (u8, Option<u8>))
    ensures
        r == alu_spec(op, a, b),
{
    match op {
        AluOp::Copy => (b, None),
        AluOp::Or => (a | b, None),
        AluOp::And => (a & b, None),
        AluOp::Xor => (a ^ b, None),
        AluOp::Add => {
            let sum = a as u16 + b as u16;
            ((sum % 256) as u8, Some(if sum > 255 { 1u8 } else { 0u8 }))
        },
        AluOp::Subtract => (
            ((a as u16 + 256 - b as u16) % 256) as u8,
            Some(if a >= b { 1u8 } else { 0u8 }),
        ),
        AluOp::ShiftRight => (a / 2, Some(a % 2)),
        AluOp::SubtractReversed => (
            ((b as u16 + 256 - a as u16) % 256) as u8,
            Some(if b >= a { 1u8 } else { 0u8 }),
        ),
        AluOp::ShiftLeft => (((a as u16 * 2) % 256) as u8, Some(a / 128)),
    }
}

/// `r` and the state `m1` are what executing `ins` on `m0` gives: the next
/// state on success, and on a fatal condition its error with `m0` unchanged.
pub open spec fn executed(m0: Machine, ins: Instruction, r: Result<(), EmulatorError>, m1: Machine) -> bool {
    match r {
        Ok(()) => execute_spec(m0, ins) == Ok::<Machine, EmulatorError>(m1),
        Err(e) => execute_spec(m0, ins) == Err::<Machine, EmulatorError>(e) && m1 == m0,
    }
}

impl EmulatorState {
    /// The invariant of every reachable state.
    pub open spec fn well_formed(&self) -> bool {
        self@.wf()
    }

    /// A fresh interpreter: memory zeroed but for the glyphs, registers,
    /// timers and screen cleared, an empty stack, execution to begin at 0x200.
    pub fn new() -> (r: EmulatorState)
        ensures
            r@ == initial_machine(),
            r.well_formed(),
    {
        let mut emulator_state = EmulatorState {
            ram: filled(0u8, MEMORY_SIZE),
            program_counter: PROGRAM_START,
            index_register: 0,
            stack: Vec::new(),
            delay_timer: 0,
            sound_timer: 0,
            general_variable_registers: filled(0u8, REGISTER_COUNT),
            graphics_buffer: filled(0u8, SCREEN_PIXELS),
            op_code: 0,
            rom_loaded: false,
            should_redraw: true,
            keypad: filled(false, KEY_COUNT),
            random_state: RANDOM_SEED,
        };
        emulator_state.set_font_data();
        proof {
            assert(emulator_state@.ram =~= initial_machine().ram);
            assert(emulator_state@.stack =~= initial_machine().stack);
            assert(emulator_state@.ram.subrange(0, font_spec().len() as int) =~= font_spec());
        }
        emulator_state
    }

    /// Copies the glyph table to the bottom of memory.
    fn set_font_data(&mut self)
        requires
            old(self).ram@.len() == MEMORY_SIZE,
        ensures
            final(self).ram@ == Seq::new(
                MEMORY_SIZE as nat,
                |i: int|
                    if i < font_spec().len() {
                        font_spec()[i]
                    } else {
                        old(self).ram@[i]
                    },
            ),
            final(self)@ == (Machine { ram: final(self).ram@, ..old(self)@ }),
    {
        let font = font_table();
        let mut index: usize = 0;
        while index < FONT_SIZE
            invariant
                font@ == font_spec(),
                font@.len() == FONT_SIZE,
                index <= FONT_SIZE,
                self.ram@.len() == MEMORY_SIZE,
                forall|i: int|
                    0 <= i < MEMORY_SIZE ==> #[trigger] self.ram@[i] == if i < index {
                        font_spec()[i]
                    } else {
                        old(self).ram@[i]
                    },
                self@ == (Machine { ram: self.ram@, ..old(self)@ }),
            decreases FONT_SIZE - index,
        {
            self.ram[index] = font[index];
            index = index + 1;
        }
        assert(self.ram@ =~= Seq::new(
            MEMORY_SIZE as nat,
            |i: int|
                if i < font_spec().len() {
                    font_spec()[i]
                } else {
                    old(self).ram@[i]
                },
        ));
    }
    /// Pixels of the sprite that the first `row` rows, and the first `bit`
    /// bits of row `row`, have already reached.
    spec fn drawn_before(m: Machine, x0: int, y0: int, height: int, p: int, row: int, bit: int) -> bool {
        &&& sprite_over(m, x0, y0, height, p)
        &&& (p / 64 - y0 < row || (p / 64 - y0 == row && p % 64 - x0 < bit))
    }

    /// Two stages of a draw that have reached the same pixels have met the same collisions.
    proof fn lemma_same_collisions(m0: Machine, gx: int, gy: int, h: int, r1: int, b1: int, r2: int, b2: int)
        requires
            forall|q: int| 0 <= q < SCREEN_PIXELS ==> Self::drawn_before(m0, gx, gy, h, q, r1, b1) == Self::drawn_before(m0, gx, gy, h, q, r2, b2),
        ensures
            (exists|q: int| 0 <= q < SCREEN_PIXELS && #[trigger] Self::drawn_before(m0, gx, gy, h, q, r1, b1) && m0.screen[q] == 1)
            == (exists|q: int| 0 <= q < SCREEN_PIXELS && #[trigger] Self::drawn_before(m0, gx, gy, h, q, r2, b2) && m0.screen[q] == 1),
    {
        if exists|q: int| 0 <= q < SCREEN_PIXELS && #[trigger] Self::drawn_before(m0, gx, gy, h, q, r1, b1) && m0.screen[q] == 1 {
            let q = choose|q: int| 0 <= q < SCREEN_PIXELS && #[trigger] Self::drawn_before(m0, gx, gy, h, q, r1, b1) && m0.screen[q] == 1;
            assert(Self::drawn_before(m0, gx, gy, h, q, r2, b2));
        }
        if exists|q: int| 0 <= q < SCREEN_PIXELS && #[trigger] Self::drawn_before(m0, gx, gy, h, q, r2, b2) && m0.screen[q] == 1 {
            let q = choose|q: int| 0 <= q < SCREEN_PIXELS && #[trigger] Self::drawn_before(m0, gx, gy, h, q, r2, b2) && m0.screen[q] == 1;
            assert(Self::drawn_before(m0, gx, gy, h, q, r1, b1));
        }
    }

    /// `DXYN`: XOR-draws `height` rows read from memory at `I` with the
    /// top-left corner at (V[x] mod 64, V[y] mod 32), clipping at the edges.
    fn draw(&mut self, x: u8, y: u8, height: u8)
        requires
            old(self).well_formed(),
            x < 16,
            y < 16,
            height < 16,
            old(self).index_register + height <= MEMORY_SIZE,
        ensures
            final(self)@ == draw_at(
                old(self)@,
                (old(self)@.v[x as int] as int) % 64,
                (old(self)@.v[y as int] as int) % 32,
                height as int,
            ),
    {
        let ghost m0 = self@;
        let x0: u8 = self.general_variable_registers[x as usize] % 64;
        let y0: u8 = self.general_variable_registers[y as usize] % 32;
        let ghost gx = x0 as int;
        let ghost gy = y0 as int;
        let ghost h = height as int;
        let index = self.index_register;
        let mut collided = false;
        let mut row: u8 = 0;
        while row < height
            invariant
                m0.wf(),
                row <= height,
                height < 16,
                index == m0.index,
                index + height <= MEMORY_SIZE,
                x0 < 64,
                y0 < 32,
                gx == x0,
                gy == y0,
                h == height,
                self@ == (Machine { screen: self.graphics_buffer@, ..m0 }),
                self.graphics_buffer@.len() == SCREEN_PIXELS,
                forall|p: int|
                    0 <= p < SCREEN_PIXELS ==> #[trigger] self.graphics_buffer@[p] == if Self::drawn_before(m0, gx, gy, h, p, row as int, 0) {
                        (1 - m0.screen[p]) as u8
                    } else {
                        m0.screen[p]
                    },
                collided == exists|p: int|
                    0 <= p < SCREEN_PIXELS && #[trigger] Self::drawn_before(m0, gx, gy, h, p, row as int, 0) && m0.screen[p] == 1,
            decreases height - row,
        {
            let sprite_data = self.ram[index as usize + row as usize];
            let mut bit: u8 = 0;
            while bit < 8
                invariant
                    m0.wf(),
                    row < height,
                    height < 16,
                    bit <= 8,
                    index == m0.index,
                    index + height <= MEMORY_SIZE,
                    sprite_data == m0.ram[index + row],
                    x0 < 64,
                    y0 < 32,
                    gx == x0,
                    gy == y0,
                    h == height,
                    self@ == (Machine { screen: self.graphics_buffer@, ..m0 }),
                    self.graphics_buffer@.len() == SCREEN_PIXELS,
                    forall|p: int|
                        0 <= p < SCREEN_PIXELS ==> #[trigger] self.graphics_buffer@[p] == if Self::drawn_before(m0, gx, gy, h, p, row as int, bit as int) {
                            (1 - m0.screen[p]) as u8
                        } else {
                            m0.screen[p]
                        },
                    collided == exists|p: int|
                        0 <= p < SCREEN_PIXELS && #[trigger] Self::drawn_before(m0, gx, gy, h, p, row as int, bit as int) && m0.screen[p] == 1,
                decreases 8 - bit,
            {
                let col = x0 as usize + bit as usize;
                let line = y0 as usize + row as usize;
                let ghost old_buf = self.graphics_buffer@;
                let ghost old_collided = collided;
                if col < 64 && line < 32 && sprite_data & (0x80u8 >> bit) != 0 {
                    let p = line * 64 + col;
                    proof {
                        vstd::arithmetic::div_mod::lemma_fundamental_div_mod_converse(
                            p as int, 64, line as int, col as int);
                        assert(sprite_over(m0, gx, gy, h, p as int));
                    }
                    let lit = self.graphics_buffer[p];
                    if lit == 1 {
                        collided = true;
                    }
                    self.graphics_buffer[p] = 1 - lit;
                    proof {
                        assert forall|q: int| 0 <= q < SCREEN_PIXELS implies
                            Self::drawn_before(m0, gx, gy, h, q, row as int, bit + 1)
                            == (Self::drawn_before(m0, gx, gy, h, q, row as int, bit as int) || q == p) by {
                            if q / 64 - gy == row && q % 64 - gx == bit {
                                assert(q == (q / 64) * 64 + q % 64);
                            }
                        }
                        assert(!Self::drawn_before(m0, gx, gy, h, p as int, row as int, bit as int));
                        assert(lit == m0.screen[p as int]);
                        assert(Self::drawn_before(m0, gx, gy, h, p as int, row as int, bit + 1));
                        if old_collided {
                            let q = choose|q: int| 0 <= q < SCREEN_PIXELS && #[trigger] Self::drawn_before(m0, gx, gy, h, q, row as int, bit as int) && m0.screen[q] == 1;
                            assert(Self::drawn_before(m0, gx, gy, h, q, row as int, bit + 1));
                        }
                        if exists|q: int| 0 <= q < SCREEN_PIXELS && #[trigger] Self::drawn_before(m0, gx, gy, h, q, row as int, bit + 1) && m0.screen[q] == 1 {
                            let q = choose|q: int| 0 <= q < SCREEN_PIXELS && #[trigger] Self::drawn_before(m0, gx, gy, h, q, row as int, bit + 1) && m0.screen[q] == 1;
                            if q != p {
                                assert(Self::drawn_before(m0, gx, gy, h, q, row as int, bit as int));
                            }
                        }
                    }
                } else {
                    proof {
                        assert forall|q: int| 0 <= q < SCREEN_PIXELS implies
                            Self::drawn_before(m0, gx, gy, h, q, row as int, bit + 1)
                            == Self::drawn_before(m0, gx, gy, h, q, row as int, bit as int) by {
                            if q / 64 - gy == row && q % 64 - gx == bit
                                && Self::drawn_before(m0, gx, gy, h, q, row as int, bit + 1) {
                                assert(q % 64 < 64);
                                assert(q / 64 < 32) by {
                                    vstd::arithmetic::div_mod::lemma_div_is_ordered(q, 2047, 64);
                                }
                            }
                        }
                        Self::lemma_same_collisions(m0, gx, gy, h, row as int, bit as int, row as int, bit + 1);
                    }
                }
                bit = bit + 1;
            }
            proof {
                assert forall|q: int| 0 <= q < SCREEN_PIXELS implies
                    Self::drawn_before(m0, gx, gy, h, q, row + 1, 0)
                    == Self::drawn_before(m0, gx, gy, h, q, row as int, 8) by {}
                Self::lemma_same_collisions(m0, gx, gy, h, row as int, 8, row + 1, 0);
            }
            row = row + 1;
        }
        proof {
            assert forall|q: int| 0 <= q < SCREEN_PIXELS implies
                Self::drawn_before(m0, gx, gy, h, q, h, 0) == sprite_over(m0, gx, gy, h, q) by {}
            if collided {
                let q = choose|q: int| 0 <= q < SCREEN_PIXELS && #[trigger] Self::drawn_before(m0, gx, gy, h, q, h, 0) && m0.screen[q] == 1;
                assert(sprite_over(m0, gx, gy, h, q));
            }
            if collides(m0, gx, gy, h) {
                let q = choose|q: int| #[trigger] sprite_over(m0, gx, gy, h, q) && m0.screen[q] == 1;
                assert(Self::drawn_before(m0, gx, gy, h, q, h, 0));
            }
        }
        let flag: u8 = if collided { 1 } else { 0 };
        self.general_variable_registers[FLAG_REGISTER] = flag;
        self.should_redraw = true;
        proof {
            let target = draw_at(m0, gx, gy, h);
            assert(self.graphics_buffer@ =~= target.screen);
            assert(self.general_variable_registers@ =~= target.v);
        }
    }
    /// `00E0`: turns every pixel off and asks for a redraw.
    fn clear_screen(&mut self)
        requires
            old(self).well_formed(),
        ensures
            final(self)@ == (Machine {
                screen: Seq::new(SCREEN_PIXELS as nat, |p: int| 0u8),
                redraw: true,
                ..old(self)@
            }),
    {
        self.graphics_buffer = filled(0u8, SCREEN_PIXELS);
        self.should_redraw = true;
    }

    /// `00EE`: pops the return address into the program counter.
    fn return_from_subroutine(&mut self) -> (r: Result<(), EmulatorError>)
        requires
            old(self).well_formed(),
        ensures
            old(self)@.stack.len() == 0 ==> r == Err::<(), EmulatorError>(EmulatorError::StackUnderflow)
                && final(self)@ == old(self)@,
            old(self)@.stack.len() > 0 ==> r is Ok && final(self)@ == (Machine {
                pc: old(self)@.stack.last(),
                stack: old(self)@.stack.drop_last(),
                ..old(self)@
            }),
    {
        match self.stack.pop() {
            Some(t) => {
                self.program_counter = t;
                Ok(())
            },
            None => Err(EmulatorError::StackUnderflow),
        }
    }

    /// `1NNN`: continues execution at `addr`.
    fn jump(&mut self, addr: u16)
        ensures
            final(self)@ == (Machine { pc: addr, ..old(self)@ }),
    {
        self.program_counter = addr;
    }

    /// `2NNN`: pushes the program counter and continues at `addr`.
    fn call_subroutine(&mut self, addr: u16) -> (r: Result<(), EmulatorError>)
        requires
            old(self).well_formed(),
        ensures
            old(self)@.stack.len() >= STACK_LIMIT ==> r == Err::<(), EmulatorError>(EmulatorError::StackOverflow)
                && final(self)@ == old(self)@,
            old(self)@.stack.len() < STACK_LIMIT ==> r is Ok && final(self)@ == (Machine {
                pc: addr,
                stack: old(self)@.stack.push(old(self)@.pc),
                ..old(self)@
            }),
    {
        if self.stack.len() >= STACK_LIMIT {
            return Err(EmulatorError::StackOverflow);
        }
        self.stack.push(self.program_counter);
        self.program_counter = addr;
        Ok(())
    }

    /// `6XNN`: stores `value` in register `x`.
    fn set_register(&mut self, x: u8, value: u8)
        requires
            old(self).well_formed(),
            x < 16,
        ensures
            final(self)@ == (Machine { v: old(self)@.v.update(x as int, value), ..old(self)@ }),
    {
        self.general_variable_registers[x as usize] = value;
    }

    /// `7XNN`: adds `value` to register `x` modulo 256; VF is left alone.
    fn add_value_to_register(&mut self, x: u8, value: u8)
        requires
            old(self).well_formed(),
            x < 16,
        ensures
            final(self)@ == (Machine {
                v: old(self)@.v.update(x as int, ((old(self)@.v[x as int] + value) % 256) as u8),
                ..old(self)@
            }),
    {
        let sum = self.general_variable_registers[x as usize].wrapping_add(value);
        self.general_variable_registers[x as usize] = sum;
    }

    /// `ANNN`: points the index register at `addr`.
    fn set_index_register(&mut self, addr: u16)
        ensures
            final(self)@ == (Machine { index: addr, ..old(self)@ }),
    {
        self.index_register = addr;
    }

    /// Skips the next instruction when `cond` holds.
    fn skip_next_if(&mut self, cond: bool)
        ensures
            final(self)@ == skip_if(old(self)@, cond),
    {
        if cond {
            self.program_counter = ((self.program_counter as u32 + 2) % 0x10000) as u16;
        }
    }

    /// `8XY_`: applies `op` to V[x] and V[y], storing into V[x] and VF.
    fn arithmetic(&mut self, op: AluOp, x: u8, y: u8)
        requires
            old(self).well_formed(),
            x < 16,
            y < 16,
        ensures
            final(self)@ == (Machine { v: alu_registers(old(self)@.v, op, x, y), ..old(self)@ }),
    {
        let a = self.general_variable_registers[x as usize];
        let b = self.general_variable_registers[y as usize];
        let (result, flag) = alu(op, a, b);
        self.general_variable_registers[x as usize] = result;
        match flag {
            Some(f) => {
                self.general_variable_registers[FLAG_REGISTER] = f;
            },
            None => {},
        }
    }

    /// `CXNN`: advances the generator and stores its low byte, masked, in V[x].
    fn random(&mut self, x: u8, mask: u8)
        requires
            old(self).well_formed(),
            x < 16,
        ensures
            final(self)@ == (Machine {
                v: old(self)@.v.update(x as int, ((next_random(old(self)@.rng) & 0xFFu16) as u8) & mask),
                rng: next_random(old(self)@.rng),
                ..old(self)@
            }),
    {
        let s = self.random_state;
        let a = s ^ (s << 7u16);
        let b = a ^ (a >> 9u16);
        let next = b ^ (b << 8u16);
        self.random_state = next;
        self.general_variable_registers[x as usize] = ((next & 0xFFu16) as u8) & mask;
    }

    /// `EX9E` (`down`) and `EXA1`: skips the next instruction when the key
    /// named by V[x] is in the given position.
    fn skip_if_key(&mut self, x: u8, down: bool) -> (r: Result<(), EmulatorError>)
        requires
            old(self).well_formed(),
            x < 16,
        ensures
            old(self)@.v[x as int] >= KEY_COUNT ==> r == Err::<(), EmulatorError>(
                EmulatorError::InvalidKey { key: old(self)@.v[x as int] },
            ) && final(self)@ == old(self)@,
            old(self)@.v[x as int] < KEY_COUNT ==> r is Ok && final(self)@ == skip_if(
                old(self)@,
                old(self)@.keys[old(self)@.v[x as int] as int] == down,
            ),
    {
        let key = self.general_variable_registers[x as usize];
        if key as usize >= KEY_COUNT {
            return Err(EmulatorError::InvalidKey { key });
        }
        let pressed = self.keypad[key as usize];
        self.skip_next_if(pressed == down);
        Ok(())
    }

    /// `FX0A`: stores the lowest key that is down in V[x]; with no key down,
    /// steps back so that the same instruction runs again on the next tick.
    fn wait_for_key(&mut self, x: u8)
        requires
            old(self).well_formed(),
            x < 16,
        ensures
            executed(old(self)@, Instruction::WaitForKey { x }, Ok(()), final(self)@),
    {
        let mut k: usize = 0;
        while k < KEY_COUNT
            invariant
                self.well_formed(),
                x < 16,
                k <= KEY_COUNT,
                first_key_down(self@.keys, 0) == first_key_down(self@.keys, k as int),
                self@ == old(self)@,
            decreases KEY_COUNT - k,
        {
            if self.keypad[k] {
                self.general_variable_registers[x as usize] = k as u8;
                return;
            }
            k = k + 1;
        }
        self.program_counter = ((self.program_counter as u32 + 0xFFFE) % 0x10000) as u16;
    }

    /// `FX33`: stores the hundreds, tens and units of V[x] at I, I+1, I+2.
    fn store_decimal(&mut self, x: u8) -> (r: Result<(), EmulatorError>)
        requires
            old(self).well_formed(),
            x < 16,
        ensures
            final(self).well_formed(),
            executed(old(self)@, Instruction::StoreDecimal { x }, r, final(self)@),
    {
        let index = self.index_register;
        if index < PROGRAM_START {
            return Err(EmulatorError::ProtectedWrite { index });
        }
        if index as usize + 3 > MEMORY_SIZE {
            return Err(EmulatorError::MemoryOutOfBounds { index, count: 3 });
        }
        let ghost m0 = self@;
        let value = self.general_variable_registers[x as usize];
        let at = index as usize;
        self.ram[at] = value / 100;
        self.ram[at + 1] = (value / 10) % 10;
        self.ram[at + 2] = value % 10;
        assert(self@.ram.subrange(0, font_spec().len() as int) =~= m0.ram.subrange(0, font_spec().len() as int));
        Ok(())
    }

    /// `FX55`: stores V0 to V[x] in memory from I on.
    fn store_registers(&mut self, x: u8) -> (r: Result<(), EmulatorError>)
        requires
            old(self).well_formed(),
            x < 16,
        ensures
            final(self).well_formed(),
            executed(old(self)@, Instruction::StoreRegisters { x }, r, final(self)@),
    {
        let index = self.index_register;
        if index < PROGRAM_START {
            return Err(EmulatorError::ProtectedWrite { index });
        }
        if index as usize + x as usize + 1 > MEMORY_SIZE {
            return Err(EmulatorError::MemoryOutOfBounds { index, count: x + 1 });
        }
        let ghost m0 = self@;
        let at = index as usize;
        let mut r: usize = 0;
        while r <= x as usize
            invariant
                m0.wf(),
                at == m0.index,
                PROGRAM_START <= at,
                at + x + 1 <= MEMORY_SIZE,
                x < 16,
                r <= x + 1,
                self@ == (Machine { ram: self.ram@, ..m0 }),
                self.ram@.len() == MEMORY_SIZE,
                forall|a: int|
                    0 <= a < MEMORY_SIZE ==> #[trigger] self.ram@[a] == if at <= a < at + r {
                        m0.v[a - at]
                    } else {
                        m0.ram[a]
                    },
            decreases x + 1 - r,
        {
            self.ram[at + r] = self.general_variable_registers[r];
            r = r + 1;
        }
        assert(self.ram@ =~= stored_registers(m0.ram, m0.v, at as int, x as int));
        assert(self@.ram.subrange(0, font_spec().len() as int) =~= m0.ram.subrange(0, font_spec().len() as int));
        Ok(())
    }

    /// `FX65`: loads V0 to V[x] from memory from I on.
    fn load_registers(&mut self, x: u8) -> (r: Result<(), EmulatorError>)
        requires
            old(self).well_formed(),
            x < 16,
        ensures
            final(self).well_formed(),
            executed(old(self)@, Instruction::LoadRegisters { x }, r, final(self)@),
    {
        let index = self.index_register;
        if index as usize + x as usize + 1 > MEMORY_SIZE {
            return Err(EmulatorError::MemoryOutOfBounds { index, count: x + 1 });
        }
        let ghost m0 = self@;
        let at = index as usize;
        let mut r: usize = 0;
        while r <= x as usize
            invariant
                m0.wf(),
                at == m0.index,
                at + x + 1 <= MEMORY_SIZE,
                x < 16,
                r <= x + 1,
                self@ == (Machine { v: self.general_variable_registers@, ..m0 }),
                self.general_variable_registers@.len() == REGISTER_COUNT,
                forall|i: int|
                    0 <= i < REGISTER_COUNT ==> #[trigger] self.general_variable_registers@[i] == if i < r {
                        m0.ram[at + i]
                    } else {
                        m0.v[i]
                    },
            decreases x + 1 - r,
        {
            self.general_variable_registers[r] = self.ram[at + r];
            r = r + 1;
        }
        assert(self.general_variable_registers@ =~= loaded_registers(m0.ram, m0.v, at as int, x as int));
        Ok(())
    }

    /// Executes one decoded instruction against a state whose program counter
    /// already points past it. On a fatal condition the state is left as it was.
    pub fn execute(&mut self, ins: Instruction) -> (r: Result<(), EmulatorError>)
        requires
            old(self).well_formed(),
            operands_in_range(ins),
        ensures
            final(self).well_formed(),
            executed(old(self)@, ins, r, final(self)@),
    {
        let ghost m0 = self@;
        let r = match ins {
            Instruction::ClearScreen => {
                self.clear_screen();
                Ok(())
            },
            Instruction::Return => self.return_from_subroutine(),
            Instruction::Jump { addr } => {
                self.jump(addr);
                Ok(())
            },
            Instruction::Call { addr } => self.call_subroutine(addr),
            Instruction::SetRegister { x, value } => {
                self.set_register(x, value);
                Ok(())
            },
            Instruction::AddToRegister { x, value } => {
                self.add_value_to_register(x, value);
                Ok(())
            },
            Instruction::SetIndex { addr } => {
                self.set_index_register(addr);
                Ok(())
            },
            Instruction::Draw { x, y, height } => {
                if self.index_register as usize + height as usize > MEMORY_SIZE {
                    Err(EmulatorError::SpriteOutOfBounds { index: self.index_register, height })
                } else {
                    self.draw(x, y, height);
                    Ok(())
                }
            },
            Instruction::SkipIfEqual { x, value } => {
                let cond = self.general_variable_registers[x as usize] == value;
                self.skip_next_if(cond);
                Ok(())
            },
            Instruction::SkipIfNotEqual { x, value } => {
                let cond = self.general_variable_registers[x as usize] != value;
                self.skip_next_if(cond);
                Ok(())
            },
            Instruction::SkipIfRegistersEqual { x, y } => {
                let cond = self.general_variable_registers[x as usize]
                    == self.general_variable_registers[y as usize];
                self.skip_next_if(cond);
                Ok(())
            },
            Instruction::SkipIfRegistersNotEqual { x, y } => {
                let cond = self.general_variable_registers[x as usize]
                    != self.general_variable_registers[y as usize];
                self.skip_next_if(cond);
                Ok(())
            },
            Instruction::Arithmetic { op, x, y } => {
                self.arithmetic(op, x, y);
                Ok(())
            },
            Instruction::JumpWithOffset { addr } => {
                let target = (addr as u32 + self.general_variable_registers[0] as u32) % 0x10000;
                self.program_counter = target as u16;
                Ok(())
            },
            Instruction::Random { x, mask } => {
                self.random(x, mask);
                Ok(())
            },
            Instruction::SkipIfKeyDown { x } => self.skip_if_key(x, true),
            Instruction::SkipIfKeyUp { x } => self.skip_if_key(x, false),
            Instruction::ReadDelayTimer { x } => {
                self.general_variable_registers[x as usize] = self.delay_timer;
                Ok(())
            },
            Instruction::WaitForKey { x } => {
                self.wait_for_key(x);
                Ok(())
            },
            Instruction::SetDelayTimer { x } => {
                self.delay_timer = self.general_variable_registers[x as usize];
                Ok(())
            },
            Instruction::SetSoundTimer { x } => {
                self.sound_timer = self.general_variable_registers[x as usize];
                Ok(())
            },
            Instruction::AddToIndex { x } => {
                let sum = (self.index_register as u32 + self.general_variable_registers[x as usize] as u32) % 0x10000;
                self.index_register = sum as u16;
                Ok(())
            },
            Instruction::FontCharacter { x } => {
                self.index_register = (self.general_variable_registers[x as usize] % 16) as u16 * 5;
                Ok(())
            },
            Instruction::StoreDecimal { x } => self.store_decimal(x),
            Instruction::StoreRegisters { x } => self.store_registers(x),
            Instruction::LoadRegisters { x } => self.load_registers(x),
        };
        proof {
            if r is Ok {
                let m1 = execute_spec(m0, ins)->Ok_0;
                match ins {
                    Instruction::Draw { x, y, height } => {
                        assert forall|p: int| 0 <= p < SCREEN_PIXELS implies #[trigger] m1.screen[p] <= 1 by {}
                        assert(m1.ram.subrange(0, font_spec().len() as int) == m0.ram.subrange(0, font_spec().len() as int));
                    },
                    _ => {},
                }
            }
        }
        r
    }

    /// Reads the big-endian word at the program counter.
    fn fetch(&self) -> (r: Result<u16, EmulatorError>)
        requires
            self.well_formed(),
        ensures
            self@.pc + 1 >= MEMORY_SIZE ==> r == Err::<u16, EmulatorError>(EmulatorError::FetchOutOfBounds { pc: self@.pc }),
            self@.pc + 1 < MEMORY_SIZE ==> r == Ok::<u16, EmulatorError>(word_at(self@.ram, self@.pc as int)),
    {
        let program_counter = self.program_counter as usize;
        if program_counter + 1 < MEMORY_SIZE {
            let hi = self.ram[program_counter];
            let lo = self.ram[program_counter + 1];
            assert((((hi as u16) << 8u16) | (lo as u16)) == (hi as u16) * 256 + (lo as u16)) by (bit_vector);
            Ok(((hi as u16) << 8u16) | (lo as u16))
        } else {
            Err(EmulatorError::FetchOutOfBounds { pc: self.program_counter })
        }
    }

    /// Runs one fetch-decode-execute cycle. A fatal condition is returned and
    /// leaves the state as it was before the call.
    pub fn tick(&mut self) -> (r: Result<(), EmulatorError>)
        requires
            old(self).well_formed(),
        ensures
            final(self).well_formed(),
            match r {
                Ok(()) => tick_spec(old(self)@) == Ok::<Machine, EmulatorError>(final(self)@),
                Err(e) => tick_spec(old(self)@) == Err::<Machine, EmulatorError>(e)
                    && final(self)@ == old(self)@,
            },
    {
        if !self.rom_loaded {
            return Err(EmulatorError::RomNotLoaded);
        }
        let word = match self.fetch() {
            Ok(word) => word,
            Err(e) => return Err(e),
        };
        match decode(word) {
            None => Err(EmulatorError::UnknownInstruction { word }),
            Some(ins) => {
                let saved_pc = self.program_counter;
                let saved_op_code = self.op_code;
                self.program_counter = saved_pc + 2;
                self.op_code = word;
                let r = self.execute(ins);
                if r.is_err() {
                    self.program_counter = saved_pc;
                    self.op_code = saved_op_code;
                }
                r
            },
        }
    }
    /// Copies a program image verbatim to memory from 0x200 on. An image
    /// longer than the space up to the end of memory is refused.
    pub fn load_rom(&mut self, rom: &[u8]) -> (r: Result<(), EmulatorError>)
        requires
            old(self).well_formed(),
        ensures
            final(self).well_formed(),
            rom@.len() > MAX_ROM_SIZE ==> r == Err::<(), EmulatorError>(EmulatorError::RomTooLarge { len: rom@.len() as usize })
                && final(self)@ == old(self)@,
            rom@.len() <= MAX_ROM_SIZE ==> r is Ok && final(self)@ == (Machine {
                ram: with_rom(old(self)@.ram, rom@),
                rom_loaded: true,
                ..old(self)@
            }),
    {
        let len = rom.len();
        if len > MAX_ROM_SIZE {
            return Err(EmulatorError::RomTooLarge { len });
        }
        let ghost m0 = self@;
        let start = PROGRAM_START as usize;
        let mut i: usize = 0;
        while i < len
            invariant
                m0.wf(),
                len == rom@.len(),
                len <= MAX_ROM_SIZE,
                start == PROGRAM_START,
                i <= len,
                self@ == (Machine { ram: self.ram@, ..m0 }),
                self.ram@.len() == MEMORY_SIZE,
                forall|a: int|
                    0 <= a < MEMORY_SIZE ==> #[trigger] self.ram@[a] == if start <= a < start + i {
                        rom@[a - start]
                    } else {
                        m0.ram[a]
                    },
            decreases len - i,
        {
            self.ram[start + i] = rom[i];
            i = i + 1;
        }
        self.rom_loaded = true;
        proof {
            assert(self.ram@ =~= with_rom(m0.ram, rom@));
            assert(self.ram@.subrange(0, font_spec().len() as int) =~= m0.ram.subrange(0, font_spec().len() as int));
        }
        Ok(())
    }

    /// Writes the framebuffer into an RGBA frame, four bytes per pixel in
    /// row-major order: lit pixels purple, dark ones black, both opaque.
    /// Whole pixels that the frame has room for are written; a tail of fewer
    /// than four bytes is left alone.
    pub fn draw_screen(&self, frame: &mut [u8])
        requires
            self.well_formed(),
            old(frame)@.len() / 4 <= SCREEN_PIXELS,
        ensures
            final(frame)@.len() == old(frame)@.len(),
            forall|i: int|
                0 <= i < old(frame)@.len() ==> #[trigger] final(frame)@[i] == if i < old(frame)@.len() / 4 * 4 {
                    pixel_color(self@.screen[i / 4] == 1, i % 4)
                } else {
                    old(frame)@[i]
                },
    {
        let n = frame.len() / 4;
        let mut i: usize = 0;
        while i < n
            invariant
                self.well_formed(),
                n == old(frame)@.len() / 4,
                n <= SCREEN_PIXELS,
                i <= n,
                frame@.len() == old(frame)@.len(),
                forall|j: int|
                    0 <= j < old(frame)@.len() ==> #[trigger] frame@[j] == if j < i * 4 {
                        pixel_color(self@.screen[j / 4] == 1, j % 4)
                    } else {
                        old(frame)@[j]
                    },
            decreases n - i,
        {
            let lit = self.graphics_buffer[i] == 1;
            let mut k: usize = 0;
            while k < 4
                invariant
                    self.well_formed(),
                    n == old(frame)@.len() / 4,
                    n <= SCREEN_PIXELS,
                    i < n,
                    k <= 4,
                    lit == (self@.screen[i as int] == 1),
                    frame@.len() == old(frame)@.len(),
                    forall|j: int|
                        0 <= j < old(frame)@.len() ==> #[trigger] frame@[j] == if j < i * 4 + k {
                            pixel_color(self@.screen[j / 4] == 1, j % 4)
                        } else {
                            old(frame)@[j]
                        },
                decreases 4 - k,
            {
                let at = i * 4 + k;
                proof {
                    vstd::arithmetic::div_mod::lemma_fundamental_div_mod_converse(at as int, 4, i as int, k as int);
                }
                frame[at] = color_byte(lit, k);
                k = k + 1;
            }
            i = i + 1;
        }
    }

    /// Reseeds the generator behind `CXNN`; a zero seed, which would make
    /// every random byte zero, selects the default seed instead.
    pub fn seed_random(&mut self, seed: u16)
        ensures
            final(self)@ == (Machine { rng: if seed == 0 { RANDOM_SEED } else { seed }, ..old(self)@ }),
    {
        self.random_state = if seed == 0 { RANDOM_SEED } else { seed };
    }

    /// Height of the framebuffer in pixels.
    pub fn screen_height(&self) -> (r: u32)
        ensures
            r == SCREEN_HEIGHT,
    {
        SCREEN_HEIGHT
    }

    /// Width of the framebuffer in pixels.
    pub fn screen_width(&self) -> (r: u32)
        ensures
            r == SCREEN_WIDTH,
    {
        SCREEN_WIDTH
    }

    /// Records that keypad key `key` went down (`pressed`) or up.
    pub fn register_keypress(&mut self, key: u8, pressed: bool) -> (r: Result<(), EmulatorError>)
        requires
            old(self).well_formed(),
        ensures
            final(self).well_formed(),
            key >= KEY_COUNT ==> r == Err::<(), EmulatorError>(EmulatorError::InvalidKey { key })
                && final(self)@ == old(self)@,
            key < KEY_COUNT ==> r is Ok && final(self)@ == (Machine {
                keys: old(self)@.keys.update(key as int, pressed),
                ..old(self)@
            }),
    {
        if key as usize >= KEY_COUNT {
            return Err(EmulatorError::InvalidKey { key });
        }
        self.keypad[key as usize] = pressed;
        Ok(())
    }

    /// Whether keypad key `key` is held down.
    pub fn is_key_pressed(&self, key: u8) -> (r: bool)
        requires
            self.well_formed(),
            key < KEY_COUNT,
        ensures
            r == self@.keys[key as int],
    {
        self.keypad[key as usize]
    }

    /// One tick of the 60 Hz clock: each nonzero timer drops by one.
    pub fn decrement_timers(&mut self)
        requires
            old(self).well_formed(),
        ensures
            final(self).well_formed(),
            final(self)@ == timers_ticked(old(self)@),
    {
        if self.delay_timer > 0 {
            self.delay_timer = self.delay_timer - 1;
        }
        if self.sound_timer > 0 {
            self.sound_timer = self.sound_timer - 1;
        }
    }

    /// Whether the tone should sound.
    pub fn sound_active(&self) -> (r: bool)
        ensures
            r == (self@.sound_timer > 0),
    {
        self.sound_timer > 0
    }

    /// Whether the framebuffer changed since the host last took a frame.
    pub fn should_redraw(&self) -> (r: bool)
        ensures
            r == self@.redraw,
    {
        self.should_redraw
    }

    /// The host has taken a frame: clears the redraw request.
    pub fn clear_redraw(&mut self)
        ensures
            final(self)@ == (Machine { redraw: false, ..old(self)@ }),
    {
        self.should_redraw = false;
    }

    /// The framebuffer, one byte per pixel (0 or 1), row-major, 64 by 32.
    pub fn graphics_buffer(&self) -> (r: &[u8])
        ensures
            r@ == self@.screen,
    {
        self.graphics_buffer.as_slice()
    }

    /// Whether the pixel at column `x`, row `y` is lit.
    pub fn pixel(&self, x: u32, y: u32) -> (r: bool)
        requires
            self.well_formed(),
            x < SCREEN_WIDTH,
            y < SCREEN_HEIGHT,
        ensures
            r == (self@.screen[y * 64 + x] == 1),
    {
        self.graphics_buffer[(y * 64 + x) as usize] == 1
    }

    /// The whole 4 KB memory.
    pub fn memory(&self) -> (r: &[u8])
        ensures
            r@ == self@.ram,
    {
        self.ram.as_slice()
    }

    /// The program counter.
    pub fn program_counter(&self) -> (r: u16)
        ensures
            r == self@.pc,
    {
        self.program_counter
    }

    /// The index register `I`.
    pub fn index_register(&self) -> (r: u16)
        ensures
            r == self@.index,
    {
        self.index_register
    }

    /// General register V`x`.
    pub fn register(&self, x: usize) -> (r: u8)
        requires
            self.well_formed(),
            x < REGISTER_COUNT,
        ensures
            r == self@.v[x as int],
    {
        self.general_variable_registers[x]
    }

    /// The return addresses on the call stack, oldest first.
    pub fn stack(&self) -> (r: &[u16])
        ensures
            r@ == self@.stack,
    {
        self.stack.as_slice()
    }

    /// The delay timer.
    pub fn delay_timer(&self) -> (r: u8)
        ensures
            r == self@.delay_timer,
    {
        self.delay_timer
    }

    /// The sound timer.
    pub fn sound_timer(&self) -> (r: u8)
        ensures
            r == self@.sound_timer,
    {
        self.sound_timer
    }

    /// The word fetched by the most recent successful tick.
    pub fn op_code(&self) -> (r: u16)
        ensures
            r == self@.op_code,
    {
        self.op_code
    }

    /// Whether a program has been loaded.
    pub fn rom_loaded(&self) -> (r: bool)
        ensures
            r == self@.rom_loaded,
    {
        self.rom_loaded
    }
}

} // verus!
