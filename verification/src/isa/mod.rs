//! The instruction set which gives a program ordered access to the state of an operation.

pub mod exec;
pub mod instr;
pub mod machine;
