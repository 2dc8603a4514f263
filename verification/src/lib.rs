//! Program counter of a stack-based bytecode interpreter.
//!
//! The counter owns the code under execution, knows which offsets are legal
//! jump destinations, and hands out opcodes and immediate operands without
//! ever reading outside the code or wrapping an offset.

pub mod errors;
pub mod m256;
pub mod opcode;
pub mod pc;

pub use errors::{ExecutionError, ExecutionResult};
pub use m256::M256;
pub use opcode::Opcode;
pub use pc::PC;
