//! An interpreter for the CHIP-8 virtual machine whose behaviour is stated
//! over an abstract machine model and proved.

pub mod error;
pub mod instruction;
pub mod laws;
pub mod machine;
mod rng;
pub mod semantics;
pub mod state;

pub use error::Chip8Error;
pub use instruction::{decode, Instruction};
pub use state::{DISPLAY_HEIGHT, DISPLAY_WIDTH, CYCLES_PER_SECOND};
pub use machine::Chip8;
