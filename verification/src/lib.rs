//! Host-side logic of the OCCT kernel: the export policy of the minimal
//! kernel profile, and the memory protocol spoken across the WASM boundary.

pub mod text;
pub mod codegen;
pub mod runtime;
pub mod words;
pub mod error;
pub mod types;
pub mod kernel;
pub mod host;
