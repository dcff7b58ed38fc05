//! What a running program needs besides its generated code.
pub mod writers;
