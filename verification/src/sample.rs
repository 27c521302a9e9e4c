//! Subject types with simple, known layouts.  The tests and the demonstration
//! driver describe these types to the generator and check the emitted size
//! and alignment assertions against the layouts that the Rust compiler
//! actually gives them; the generated declarations for a surface made of
//! such types are small enough to compare whole.

use vstd::prelude::*;

verus! {

/// A struct with a single 32-bit field: the smallest aggregate with a
/// non-zero size, 4 bytes large and 4-byte aligned.
#[derive(Clone, Copy)]
pub struct Trivial {
    pub trivial_field: i32,
}

/// Like `Trivial`; a second name so that a surface can hold two distinct
/// aggregates of the same shape.
#[derive(Clone, Copy)]
pub struct TrivialWithDefaulted {
    pub trivial_field: i32,
}

/// Like `Trivial`, but deliberately without `Copy`: a subject for the
/// ownership-transfer path of the argument formatting.
#[derive(Clone)]
pub struct TrivialNonfinal {
    pub trivial_field: i32,
}

/// The first of two mutually independent aggregates used by the ordering
/// scenarios.
#[derive(Clone, Copy)]
pub struct FirstStruct {
    pub field: i32,
}

/// The second of two mutually independent aggregates used by the ordering
/// scenarios.
#[derive(Clone, Copy)]
pub struct SecondStruct {
    pub field: i32,
}

/// A one-byte aggregate: the smallest layout the generator accepts.
#[derive(Clone, Copy)]
pub struct S {
    placeholder: u8,
}

impl S {
    /// A fresh value; the single byte of storage carries no information.
    pub fn new() -> S {
        S { placeholder: 0 }
    }
}

} // verus!
