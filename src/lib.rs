//! A CHIP-8 interpreter core: instruction decoding, execution, the draw
//! engine, the call stack and the two 60 Hz timers, with their behaviour
//! stated as contracts over a mathematical model of the machine and proved.

pub mod chip8;
pub mod draw;
pub mod error;
pub mod fontset;
pub mod instruction;
pub mod model;
pub mod stack;
pub mod timer;
pub mod util;

pub use chip8::{dxyn, Chip8, CLOCK_SPEED_HZ};
pub use draw::{draw_sprite, VIDEO_HEIGHT, VIDEO_WIDTH};
pub use error::Error;
pub use instruction::{decode, fields, Fields, Instruction};
pub use model::{MAX_ROM_SIZE, PC_START_ADDRESS};
pub use stack::Stack;
pub use timer::Timers;
pub use util::trim_file_ext;
