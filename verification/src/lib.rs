//! The core of an AWK implementation: a lexer, a code generator that lowers
//! typed SSA functions to a stream of backend build operations, and the
//! batching protocol of the parallel output writer.
pub mod lexer;
pub mod runtime;
pub mod llvm;
