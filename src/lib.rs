//! An interpreter for the eight-instruction tape language (`> < + - . , [ ]`).
//!
//! The execution engine is stated over an abstract machine (`semantics`), the
//! bracket scans are proved against a declarative notion of a loop's partner
//! bracket (`laws`), and the executable interpreter (`machine`) refines the
//! abstract step relation one instruction at a time.
pub mod laws;
pub mod machine;
pub mod scan;
pub mod semantics;

pub use machine::{program_chars, Brainfuck, Run};
pub use scan::{find_close, find_open};
pub use semantics::{Action, Fault, Status, TAPE_LEN};
