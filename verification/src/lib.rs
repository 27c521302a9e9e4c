//! Generates C++-side declarations for the public surface of a Rust module,
//! together with the Rust-side shim functions that bridge calling conventions.
//!
//! The crate works on a plain-value description of the module's surface (item
//! names, signatures, layouts as reported by the compiler's layout oracle) and
//! produces the two output bodies as text: a header-like declaration body for
//! C++ and a shim body for Rust.  Each translation step yields a snippet
//! together with the prerequisites (includes and earlier declarations) that
//! the snippet needs; a dependency orderer then arranges the snippets so that
//! every declaration precedes its uses, isolating dependency cycles.

pub mod aggregate;
pub mod assemble;
pub mod cmdline;
pub mod error;
pub mod order;
pub mod item;
pub mod function;
pub mod model;
pub mod snippet;
pub mod names;
pub mod sample;
pub mod text;
pub mod types;
