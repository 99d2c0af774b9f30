//! A CHIP-8 interpreter core: memory and registers, the fetch-decode-execute
//! cycle, and a 64x32 one-bit framebuffer with XOR sprite drawing.

pub mod font;
pub mod instruction;
pub mod machine;
pub mod emulator;
pub mod laws;

pub use font::{font_table, FONT_SIZE};
pub use instruction::{decode, AluOp, Instruction};
pub use emulator::EmulatorState;
pub use machine::EmulatorError;
