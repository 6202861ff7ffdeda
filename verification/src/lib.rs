//! A CHIP-8 interpreter core: the machine state, instruction decoding and
//! the fetch/execute engine, with every operation specified against a
//! mathematical model of the machine.

pub mod decode;
pub mod draw;
pub mod entropy;
pub mod execute;
pub mod laws;
pub mod machine;
pub mod semantics;

pub use decode::{decode, split, Fields, Instruction};
pub use machine::{Fault, Machine, CPU};
