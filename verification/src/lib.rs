//! The interface of a WebAssembly module as a contract: the bindings that the
//! module imports and those that it exports, and the merge of two contracts
//! into one, which fails where they define one binding in two ways.

pub mod contract;
pub mod export;
pub mod import;
pub mod keyed;
pub mod laws;
pub mod text;
pub mod wasm_type;
