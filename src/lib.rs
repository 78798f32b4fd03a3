//! A CHIP-8 interpreter whose instruction semantics are stated over a
//! mathematical model of the machine and proved by Verus.
mod chip8;
pub mod laws;
pub mod machine;
mod opcode;

pub use chip8::Chip8;
pub use machine::{Fault, Machine};
pub use opcode::Opcode;
