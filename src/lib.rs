pub mod chip8;
pub mod keypad;
pub mod opcode;
pub mod reg;
pub mod runner;
pub mod timer;
pub mod video;

pub use runner::{Chip8Runner, RunnerEvent};
