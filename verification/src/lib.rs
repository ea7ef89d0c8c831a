//! An interpreter for a two-dimensional, stack-based instruction language:
//! a toroidal grid of bytes, an operand stack, and a single instruction
//! pointer that walks the grid.
//!
//! The interpreter reads from and writes to buffers of bytes that it owns.
//! A host that works on live streams drives it tick by tick: it feeds what
//! the next instruction will read and takes what the last one wrote.
//!
//! Every function is verified against a mathematical model of the machine,
//! [`interpreter::Machine`]: what an instruction, a tick and a whole run
//! make of a state is a function of that state and of the directions that
//! random turns draw.

pub mod befunge;
pub mod interpreter;
pub mod text;
pub mod world;
