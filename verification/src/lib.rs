//! Register-access code generation for memory-mapped peripherals.
//!
//! A peripheral description (registers, bit fields, enumerated values) is
//! turned into an abstract description of the types and operations that give
//! bit-exact access to it. Rendering those fragments as source text is left to
//! the caller.

pub mod access;
pub mod expand;
pub mod field;
pub mod fragment;
pub mod layout;
pub mod model;
pub mod peripheral;
pub mod reader;
pub mod register;
pub mod resolve;
pub mod semantics;
pub mod text;
pub mod views;
pub mod width;
pub mod writer;
