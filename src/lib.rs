//! A small register machine that drives a sideways-walking crab: a parser for
//! its assembly text and an engine that executes it one instruction at a time.

pub mod text;
pub mod register;
pub mod opcode;
pub mod crab;
pub mod laws;

pub use crate::crab::{Crab, CrabState, RuntimeFault};
pub use crate::opcode::{Op, OpCode};
pub use crate::register::{Register, Registers};
