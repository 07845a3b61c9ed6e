//! The kernel's error type.

use vstd::prelude::*;

verus! {

/// Why a kernel operation failed.
#[derive(Debug)]
pub enum OcctError {
    /// The WebAssembly runtime refused or trapped; the runtime's message.
    Runtime(String),
    /// A transfer across the WASM boundary failed: allocation, bounds,
    /// decoding or initialization.
    Memory(String),
    /// The kernel reported an error for an operation.
    Operation { operation: String, message: String },
    /// The loaded module lacks an optional export.
    MissingCapability(String),
}

/// The result of a kernel operation.
pub type OcctResult<T> = Result<T, OcctError>;

/// The error is a `Memory` error with message `text`.
pub open spec fn is_memory_error(e: OcctError, text: Seq<char>) -> bool {
    e matches OcctError::Memory(m) && m@ == text
}

} // verus!
