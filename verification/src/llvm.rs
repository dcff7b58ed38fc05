//! The code generator: from typed SSA functions to build operations.
//!
//! A program comes as a list of functions in SSA form ([`ir`]). For each of
//! them the generator emits the steps that build one native function
//! ([`ops`]): every step is one request to the backend, and a value is
//! named by the number of the step that made it. Carrying the steps out is
//! not part of this module.
pub mod generator;
pub mod graph;
pub mod ir;
pub mod laws;
pub mod model;
pub mod names;
pub mod ops;
pub mod plan;
pub mod tables;
pub mod view;
