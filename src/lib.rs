//! A compiler back-end whose target machine is the stream editor: it lowers a
//! stack-oriented IR of functions into a single sed script that simulates a
//! call stack, local frames, recursion and conditional branching.

pub mod text;
pub mod ir;
pub mod lowering;
pub mod dispatch;
pub mod assembly;
pub mod code_gen;
pub mod embedded;
