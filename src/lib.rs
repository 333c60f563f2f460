//! An intcode interpreter: decoding and running programs of add, multiply and
//! halt instructions, and the text commands that submit them.
use vstd::prelude::*;

pub mod client;
pub mod command;
pub mod intcode;
pub mod opcode;
pub mod server;
pub mod text;

pub use crate::command::Command;
pub use crate::intcode::IntCode;
pub use crate::opcode::OpCode;

verus! {

} // verus!
