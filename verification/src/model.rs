//! The plain-value description of a module's public surface that the
//! generator works on: type expressions, aggregate descriptions with the
//! layout the oracle reported for them, function signatures, and items.

use vstd::prelude::*;

use crate::names::QualifiedName;

verus! {

/// Size and alignment in bytes, as the layout oracle reports them.
#[derive(Clone, Copy, PartialEq, Eq, Structural)]
pub struct Layout {
    pub size: u64,
    pub align: u64,
}

/// Description of one aggregate (a struct, an enum, or a union), as the
/// surface provider and the layout oracle report it.
pub struct Aggregate {
    /// The aggregate's qualified name.
    pub name: QualifiedName,
    /// Whether the aggregate is defined in the module being translated.
    pub is_local: bool,
    /// For a local aggregate, the position of the item that declares it in
    /// the module's item list.
    pub item: usize,
    /// Whether dropping a value of the aggregate runs any code.
    pub needs_drop: bool,
    /// The aggregate's layout, or the oracle's message when the layout could
    /// not be computed (an under-constrained generic, for example).
    pub layout: Result<Layout, String>,
    /// Whether the source language treats values of the aggregate as
    /// bitwise-copyable.
    pub is_copy: bool,
}

/// A type expression of the source language, reduced to what the mapping
/// reads.  Shapes that the mapping rejects wholesale carry their source
/// spelling, which appears in the error message and nowhere else.
pub enum RsType {
    Bool,
    Char,
    I8,
    I16,
    I32,
    I64,
    I128,
    Isize,
    U8,
    U16,
    U32,
    U64,
    U128,
    Usize,
    F32,
    F64,
    /// The zero-field tuple `()`.
    Unit,
    /// The bottom type `!`.
    Never,
    /// A tuple with at least one field, with its source spelling.
    Tuple { text: String },
    /// A reference to an aggregate: its position in the aggregate table, and
    /// the number of generic arguments applied to it.
    Aggregate { index: usize, generic_args: usize },
    /// A raw pointer.
    Ptr { mutable: bool, pointee: Box<RsType> },
    /// Any other shape (array, slice, reference, function pointer, string
    /// slice, trait object, foreign or opaque type, generic parameter), with
    /// its source spelling.
    Other { text: String },
}

/// The calling convention of a function, as far as the binder distinguishes:
/// the two conventions that both languages understand natively, and all the
/// rest, which force a shim.
#[derive(Clone, Copy, PartialEq, Eq, Structural)]
pub enum Abi {
    C,
    CUnwind,
    Other,
}

/// A function signature.
pub struct FnSig {
    pub inputs: Vec<RsType>,
    pub output: RsType,
    pub c_variadic: bool,
    pub is_unsafe: bool,
    pub abi: Abi,
}

/// The parts of a function item that the binder reads beyond the item's
/// shared fields.
pub struct FnItem {
    /// The linker symbol of the function, as the compiler reports it: the
    /// plain name under `no_mangle`, an explicit export name, or the mangled
    /// symbol.
    pub symbol: String,
    /// One name per parameter; empty for an anonymous or pattern-bound
    /// parameter.
    pub param_names: Vec<String>,
    pub sig: FnSig,
}

/// The kind of an item of the surface.
pub enum ItemKind {
    Fn(FnItem),
    /// A struct, enum or union declaration; the position of its description
    /// in the aggregate table.
    Aggregate { index: usize },
    /// A module: a pure namespacing container.
    Mod,
    /// Any other kind, with a short description for the error comment.
    Other { descr: String },
}

/// One item of the module's surface.
pub struct Item {
    /// The item's qualified name.
    pub qname: QualifiedName,
    /// Where the item is declared, as rendered by the surface provider; used
    /// in comments about failures.
    pub location: String,
    /// Whether the item is part of the public surface.
    pub is_public: bool,
    /// How many generic parameters the item declares.
    pub generic_params: usize,
    /// The item's documentation text, already concatenated; empty if absent.
    pub doc: String,
    pub kind: ItemKind,
}

/// How the module was compiled to behave on a panic.
#[derive(Clone, Copy, PartialEq, Eq, Structural)]
pub enum PanicStrategy {
    Unwind,
    Abort,
}

/// The whole input of one translation run: the module's name, its panic
/// strategy, its items in declaration order, and the table of every
/// aggregate that the items mention.
pub struct ModuleSurface {
    pub name: String,
    pub panic_strategy: PanicStrategy,
    pub items: Vec<Item>,
    pub aggregates: Vec<Aggregate>,
}

/// Every aggregate index in the type lies inside the aggregate table.
pub open spec fn ty_wf(t: RsType, n_aggregates: nat) -> bool
    decreases t,
{
    match t {
        RsType::Aggregate { index, .. } => index < n_aggregates,
        RsType::Ptr { pointee, .. } => ty_wf(*pointee, n_aggregates),
        _ => true,
    }
}

/// Every type of the signature is well-formed.
pub open spec fn sig_wf(s: FnSig, n_aggregates: nat) -> bool {
    &&& ty_wf(s.output, n_aggregates)
    &&& forall|i: int| 0 <= i < s.inputs.len() ==> ty_wf(#[trigger] s.inputs@[i], n_aggregates)
}

/// The item's references into the aggregate table are in bounds, and a
/// function item carries one name slot per parameter.
pub open spec fn item_wf(it: Item, n_aggregates: nat) -> bool {
    match it.kind {
        ItemKind::Fn(f) => sig_wf(f.sig, n_aggregates) && f.param_names.len()
            == f.sig.inputs.len(),
        ItemKind::Aggregate { index } => index < n_aggregates,
        _ => true,
    }
}

/// The surface is internally consistent: items are well-formed, and the
/// aggregate table and the item list point at each other correctly.
pub open spec fn surface_wf(m: ModuleSurface) -> bool {
    &&& forall|i: int|
        0 <= i < m.items.len() ==> item_wf(#[trigger] m.items@[i], m.aggregates.len() as nat)
    &&& forall|i: int|
        0 <= i < m.items.len() ==> (#[trigger] m.items@[i].kind matches ItemKind::Aggregate {
            index,
        } ==> m.aggregates@[index as int].is_local && m.aggregates@[index as int].item == i)
    &&& forall|a: int|
        0 <= a < m.aggregates.len() && (#[trigger] m.aggregates@[a].is_local)
            ==> m.aggregates@[a].item < m.items.len()
}

} // verus!
