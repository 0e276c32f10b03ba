use vstd::prelude::*;

pub mod error;
pub mod instruction;
pub mod laws;
pub mod machine;
pub mod sprite;
pub mod state;

verus! {

/// Width of the framebuffer, in cells.
pub const SCREEN_WIDTH: usize = 64;

/// Height of the framebuffer, in cells.
pub const SCREEN_HEIGHT: usize = 32;

} // verus!

pub use error::EmuError;
pub use instruction::{decode, Instruction};
pub use machine::Emu;
