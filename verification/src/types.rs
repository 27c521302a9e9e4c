//! The type mapper: converts one type expression into the C++ spelling used
//! in declarations, and separately into the Rust spelling used by the shims.
//!
//! Primitives map to fixed-width equivalents; a reference to an aggregate is
//! exposed only after a read-only probe confirms that the aggregate's own
//! core binding succeeds; raw pointers recurse into the pointee and propagate
//! its prerequisites; everything else is rejected with a message naming the
//! offending spelling.

use vstd::prelude::*;
use vstd::string::StringExecFns;

use crate::aggregate::{aggregate_core_err, aggregate_core_ok, probe_aggregate_core};
use crate::error::Error;
use crate::model::{ty_wf, Aggregate, RsType};
use crate::names::{qname_cc_err, qname_cc_ok, qualified_text};
use crate::snippet::{CcInclude, CcPrerequisites, CcSnippet};

verus! {

/// The Rust-side spelling of a type: what the shims write, and what the
/// error messages quote.
pub open spec fn rs_type_text(t: RsType, aggs: Seq<Aggregate>) -> Seq<char>
    decreases t,
{
    match t {
        RsType::Bool => "bool"@,
        RsType::Char => "char"@,
        RsType::I8 => "i8"@,
        RsType::I16 => "i16"@,
        RsType::I32 => "i32"@,
        RsType::I64 => "i64"@,
        RsType::I128 => "i128"@,
        RsType::Isize => "isize"@,
        RsType::U8 => "u8"@,
        RsType::U16 => "u16"@,
        RsType::U32 => "u32"@,
        RsType::U64 => "u64"@,
        RsType::U128 => "u128"@,
        RsType::Usize => "usize"@,
        RsType::F32 => "f32"@,
        RsType::F64 => "f64"@,
        RsType::Unit => "()"@,
        RsType::Never => "!"@,
        RsType::Tuple { text } => text@,
        RsType::Aggregate { index, .. } => qualified_text(aggs[index as int].name),
        RsType::Ptr { mutable, pointee } => {
            if mutable {
                "*mut "@ + rs_type_text(*pointee, aggs)
            } else {
                "*const "@ + rs_type_text(*pointee, aggs)
            }
        },
        RsType::Other { text } => text@,
    }
}

/// Whether the shim-side mapping accepts the type.
pub open spec fn rs_mappable(t: RsType) -> bool
    decreases t,
{
    match t {
        RsType::Tuple { .. } => false,
        RsType::Other { .. } => false,
        RsType::Aggregate { generic_args, .. } => generic_args == 0,
        RsType::Ptr { pointee, .. } => rs_mappable(*pointee),
        _ => true,
    }
}

/// The message with which the shim-side mapping rejects the type.
pub open spec fn rs_type_err(t: RsType, aggs: Seq<Aggregate>) -> Seq<char>
    decreases t,
{
    match t {
        RsType::Tuple { text } => "Tuples are not supported yet: "@ + text@,
        RsType::Other { text } => "The following Rust type is not supported yet: "@ + text@,
        RsType::Aggregate { .. } => "Generic types are not supported yet"@,
        RsType::Ptr { pointee, .. } => "Failed to format the pointee of the pointer type `"@
            + rs_type_text(*pointee, aggs) + "`"@ + ": "@ + rs_type_err(*pointee, aggs),
        _ => Seq::<char>::empty(),
    }
}

/// Whether the C++-side mapping accepts the type in the position of a
/// parameter or field.
pub open spec fn cc_mappable(t: RsType, aggs: Seq<Aggregate>) -> bool
    decreases t,
{
    match t {
        RsType::Unit => false,
        RsType::Never => false,
        RsType::Tuple { .. } => false,
        RsType::Other { .. } => false,
        RsType::I128 => false,
        RsType::U128 => false,
        RsType::Aggregate { index, generic_args } => {
            &&& generic_args == 0
            &&& aggregate_core_ok(aggs[index as int])
            &&& aggs[index as int].is_local
            &&& qname_cc_ok(aggs[index as int].name)
        },
        RsType::Ptr { pointee, .. } => cc_mappable(*pointee, aggs),
        _ => true,
    }
}

/// The C++ spelling of a mappable type.
pub open spec fn cc_type_text(t: RsType, aggs: Seq<Aggregate>) -> Seq<char>
    decreases t,
{
    match t {
        RsType::Bool => "bool"@,
        RsType::Char => "std::uint32_t"@,
        RsType::I8 => "std::int8_t"@,
        RsType::I16 => "std::int16_t"@,
        RsType::I32 => "std::int32_t"@,
        RsType::I64 => "std::int64_t"@,
        RsType::Isize => "std::intptr_t"@,
        RsType::U8 => "std::uint8_t"@,
        RsType::U16 => "std::uint16_t"@,
        RsType::U32 => "std::uint32_t"@,
        RsType::U64 => "std::uint64_t"@,
        RsType::Usize => "std::uintptr_t"@,
        RsType::F32 => "float"@,
        RsType::F64 => "double"@,
        RsType::Aggregate { index, .. } => qualified_text(aggs[index as int].name),
        RsType::Ptr { mutable, pointee } => {
            if mutable {
                cc_type_text(*pointee, aggs) + "*"@
            } else {
                "const "@ + cc_type_text(*pointee, aggs) + "*"@
            }
        },
        _ => Seq::<char>::empty(),
    }
}

/// Whether the C++ spelling of the type pulls in the include for the
/// fixed-width integer declarations.
pub open spec fn cc_type_needs_cstdint(t: RsType) -> bool
    decreases t,
{
    match t {
        RsType::Char => true,
        RsType::I8 => true,
        RsType::I16 => true,
        RsType::I32 => true,
        RsType::I64 => true,
        RsType::Isize => true,
        RsType::U8 => true,
        RsType::U16 => true,
        RsType::U32 => true,
        RsType::U64 => true,
        RsType::Usize => true,
        RsType::Ptr { pointee, .. } => cc_type_needs_cstdint(*pointee),
        _ => false,
    }
}

/// The includes that the C++ spelling of the type depends on.
pub open spec fn cc_type_includes(t: RsType) -> Seq<CcInclude> {
    if cc_type_needs_cstdint(t) {
        seq![CcInclude::Cstdint]
    } else {
        Seq::<CcInclude>::empty()
    }
}

/// The local declarations that the C++ spelling of the type depends on: the
/// item of the aggregate it mentions, if any.  A pointee's definition is
/// deliberately treated as a full-definition prerequisite; prerequisites
/// that only need a forward declaration are not yet distinguished, and the
/// ordering downstream assumes this.
pub open spec fn cc_type_defs(t: RsType, aggs: Seq<Aggregate>) -> Seq<usize>
    decreases t,
{
    match t {
        RsType::Aggregate { index, .. } => seq![aggs[index as int].item],
        RsType::Ptr { pointee, .. } => cc_type_defs(*pointee, aggs),
        _ => Seq::<usize>::empty(),
    }
}

/// The message with which the C++-side mapping rejects the type.
pub open spec fn cc_type_err(t: RsType, aggs: Seq<Aggregate>) -> Seq<char>
    decreases t,
{
    match t {
        RsType::Never => "The never type `!` is only supported as a return type"@,
        RsType::Unit => "`()` / `void` is only supported as a return type"@,
        RsType::Tuple { text } => "Tuples are not supported yet: "@ + text@,
        RsType::I128 => "C++ doesn't have a standard equivalent of `i128`"@,
        RsType::U128 => "C++ doesn't have a standard equivalent of `u128`"@,
        RsType::Other { text } => "The following Rust type is not supported yet: "@ + text@,
        RsType::Aggregate { index, generic_args } => {
            if generic_args != 0 {
                "Generic types are not supported yet"@
            } else if !aggregate_core_ok(aggs[index as int]) {
                "Failed to generate bindings for the definition of `"@ + rs_type_text(t, aggs)
                    + "`"@ + ": "@ + aggregate_core_err(aggs[index as int])
            } else if !aggs[index as int].is_local {
                "Cross-crate dependencies are not supported yet"@
            } else {
                qname_cc_err(aggs[index as int].name)
            }
        },
        RsType::Ptr { pointee, .. } => "Failed to format the pointee of the pointer type `"@
            + rs_type_text(*pointee, aggs) + "`"@ + ": "@ + cc_type_err(*pointee, aggs),
        _ => Seq::<char>::empty(),
    }
}

/// A snippet holding a fixed-width spelling, with the include it needs.
fn cstdint_snippet(tokens: &str) -> (r: CcSnippet)
    ensures
        r.prereqs.wf(),
        r.tokens@ == tokens@,
        r.prereqs.includes@ =~= seq![CcInclude::Cstdint],
        r.prereqs.defs@ =~= Seq::<usize>::empty(),
{
    CcSnippet::with_include(String::from_str(tokens), CcInclude::Cstdint)
}

/// A snippet holding a C++ keyword, with no prerequisites.
fn keyword_snippet(tokens: &str) -> (r: CcSnippet)
    ensures
        r.prereqs.wf(),
        r.tokens@ == tokens@,
        r.prereqs.includes@ =~= Seq::<CcInclude>::empty(),
        r.prereqs.defs@ =~= Seq::<usize>::empty(),
{
    CcSnippet::new(String::from_str(tokens))
}

/// Maps one type expression to the C++ spelling used in a declaration of a
/// function parameter or field, together with its prerequisites.
pub fn map_type_for_target(t: &RsType, aggs: &Vec<Aggregate>) -> (r: Result<CcSnippet, Error>)
    requires
        ty_wf(*t, aggs@.len() as nat),
    ensures
        r is Ok <==> cc_mappable(*t, aggs@),
        r matches Ok(s) ==> {
            &&& s.tokens@ == cc_type_text(*t, aggs@)
            &&& s.prereqs.wf()
            &&& s.prereqs.includes@ == cc_type_includes(*t)
            &&& s.prereqs.defs@ == cc_type_defs(*t, aggs@)
        },
        r matches Err(e) ==> e@ == cc_type_err(*t, aggs@),
    decreases *t,
{
    match t {
        RsType::Never => Err(
            Error::new(String::from_str("The never type `!` is only supported as a return type")),
        ),
        RsType::Unit => Err(
            Error::new(String::from_str("`()` / `void` is only supported as a return type")),
        ),
        RsType::Tuple { text } => {
            let mut m = String::from_str("Tuples are not supported yet: ");
            m.append(text.as_str());
            Err(Error::new(m))
        },
        RsType::I128 => Err(
            Error::new(String::from_str("C++ doesn't have a standard equivalent of `i128`")),
        ),
        RsType::U128 => Err(
            Error::new(String::from_str("C++ doesn't have a standard equivalent of `u128`")),
        ),
        RsType::Other { text } => {
            let mut m = String::from_str("The following Rust type is not supported yet: ");
            m.append(text.as_str());
            Err(Error::new(m))
        },
        RsType::Bool => Ok(keyword_snippet("bool")),
        RsType::F32 => Ok(keyword_snippet("float")),
        RsType::F64 => Ok(keyword_snippet("double")),
        RsType::Char => Ok(cstdint_snippet("std::uint32_t")),
        RsType::I8 => Ok(cstdint_snippet("std::int8_t")),
        RsType::I16 => Ok(cstdint_snippet("std::int16_t")),
        RsType::I32 => Ok(cstdint_snippet("std::int32_t")),
        RsType::I64 => Ok(cstdint_snippet("std::int64_t")),
        RsType::Isize => Ok(cstdint_snippet("std::intptr_t")),
        RsType::U8 => Ok(cstdint_snippet("std::uint8_t")),
        RsType::U16 => Ok(cstdint_snippet("std::uint16_t")),
        RsType::U32 => Ok(cstdint_snippet("std::uint32_t")),
        RsType::U64 => Ok(cstdint_snippet("std::uint64_t")),
        RsType::Usize => Ok(cstdint_snippet("std::uintptr_t")),
        RsType::Aggregate { index, generic_args } => {
            if *generic_args != 0 {
                return Err(Error::new(String::from_str("Generic types are not supported yet")));
            }
            let a = &aggs[*index];
            if let Err(e) = probe_aggregate_core(a) {
                let mut ctx = String::from_str(
                    "Failed to generate bindings for the definition of `",
                );
                ctx.append(a.name.format_for_rs().as_str());
                ctx.append("`");
                return Err(e.context(ctx.as_str()));
            }
            if !a.is_local {
                return Err(
                    Error::new(
                        String::from_str("Cross-crate dependencies are not supported yet"),
                    ),
                );
            }
            let tokens = match a.name.format_for_cc() {
                Ok(s) => s,
                Err(e) => {
                    return Err(e);
                },
            };
            let mut prereqs = CcPrerequisites::new();
            prereqs.insert_def(a.item);
            Ok(CcSnippet { tokens, prereqs })
        },
        RsType::Ptr { mutable, pointee } => {
            let inner = match map_type_for_target(&**pointee, aggs) {
                Ok(s) => s,
                Err(e) => {
                    let mut ctx = String::from_str(
                        "Failed to format the pointee of the pointer type `",
                    );
                    ctx.append(map_type_for_shim_text(&**pointee, aggs).as_str());
                    ctx.append("`");
                    return Err(e.context(ctx.as_str()));
                },
            };
            let mut tokens = if *mutable {
                String::new()
            } else {
                String::from_str("const ")
            };
            tokens.append(inner.tokens.as_str());
            tokens.append("*");
            proof {
                if *mutable {
                    assert(Seq::<char>::empty() + cc_type_text(**pointee, aggs@) =~= cc_type_text(
                        **pointee,
                        aggs@,
                    ));
                }
            }
            Ok(CcSnippet { tokens, prereqs: inner.prereqs })
        },
    }
}

/// Renders the Rust-side spelling of any type shape, for use inside error
/// messages; total, unlike the shim mapping itself.
pub fn map_type_for_shim_text(t: &RsType, aggs: &Vec<Aggregate>) -> (r: String)
    requires
        ty_wf(*t, aggs@.len() as nat),
    ensures
        r@ == rs_type_text(*t, aggs@),
    decreases *t,
{
    match t {
        RsType::Bool => String::from_str("bool"),
        RsType::Char => String::from_str("char"),
        RsType::I8 => String::from_str("i8"),
        RsType::I16 => String::from_str("i16"),
        RsType::I32 => String::from_str("i32"),
        RsType::I64 => String::from_str("i64"),
        RsType::I128 => String::from_str("i128"),
        RsType::Isize => String::from_str("isize"),
        RsType::U8 => String::from_str("u8"),
        RsType::U16 => String::from_str("u16"),
        RsType::U32 => String::from_str("u32"),
        RsType::U64 => String::from_str("u64"),
        RsType::U128 => String::from_str("u128"),
        RsType::Usize => String::from_str("usize"),
        RsType::F32 => String::from_str("f32"),
        RsType::F64 => String::from_str("f64"),
        RsType::Unit => String::from_str("()"),
        RsType::Never => String::from_str("!"),
        RsType::Tuple { text } => text.clone(),
        RsType::Aggregate { index, .. } => aggs[*index].name.format_for_rs(),
        RsType::Ptr { mutable, pointee } => {
            let mut out = if *mutable {
                String::from_str("*mut ")
            } else {
                String::from_str("*const ")
            };
            out.append(map_type_for_shim_text(&**pointee, aggs).as_str());
            out
        },
        RsType::Other { text } => text.clone(),
    }
}

/// Maps one type expression to the Rust spelling used by the shims.  The
/// shims live in a separate crate, so aggregate names come out fully
/// qualified.
pub fn map_type_for_shim(t: &RsType, aggs: &Vec<Aggregate>) -> (r: Result<String, Error>)
    requires
        ty_wf(*t, aggs@.len() as nat),
    ensures
        r is Ok <==> rs_mappable(*t),
        r matches Ok(s) ==> s@ == rs_type_text(*t, aggs@),
        r matches Err(e) ==> e@ == rs_type_err(*t, aggs@),
    decreases *t,
{
    match t {
        RsType::Tuple { text } => {
            let mut m = String::from_str("Tuples are not supported yet: ");
            m.append(text.as_str());
            Err(Error::new(m))
        },
        RsType::Other { text } => {
            let mut m = String::from_str("The following Rust type is not supported yet: ");
            m.append(text.as_str());
            Err(Error::new(m))
        },
        RsType::Aggregate { index, generic_args } => {
            if *generic_args != 0 {
                return Err(Error::new(String::from_str("Generic types are not supported yet")));
            }
            Ok(aggs[*index].name.format_for_rs())
        },
        RsType::Ptr { mutable, pointee } => {
            let inner = match map_type_for_shim(&**pointee, aggs) {
                Ok(s) => s,
                Err(e) => {
                    let mut ctx = String::from_str(
                        "Failed to format the pointee of the pointer type `",
                    );
                    ctx.append(map_type_for_shim_text(&**pointee, aggs).as_str());
                    ctx.append("`");
                    return Err(e.context(ctx.as_str()));
                },
            };
            let mut out = if *mutable {
                String::from_str("*mut ")
            } else {
                String::from_str("*const ")
            };
            out.append(inner.as_str());
            Ok(out)
        },
        _ => Ok(map_type_for_shim_text(t, aggs)),
    }
}

/// Whether the C++-side mapping accepts the type in return position: `()`
/// and `!` both map to `void` there, and everything else goes through the
/// ordinary mapping.
pub open spec fn cc_ret_mappable(t: RsType, aggs: Seq<Aggregate>) -> bool {
    match t {
        RsType::Unit => true,
        RsType::Never => true,
        _ => cc_mappable(t, aggs),
    }
}

/// The C++ spelling of a return type.
pub open spec fn cc_ret_text(t: RsType, aggs: Seq<Aggregate>) -> Seq<char> {
    match t {
        RsType::Unit => "void"@,
        RsType::Never => "void"@,
        _ => cc_type_text(t, aggs),
    }
}

/// The includes of a C++ return type.
pub open spec fn cc_ret_includes(t: RsType) -> Seq<CcInclude> {
    match t {
        RsType::Unit => Seq::<CcInclude>::empty(),
        RsType::Never => Seq::<CcInclude>::empty(),
        _ => cc_type_includes(t),
    }
}

/// The local-declaration prerequisites of a C++ return type.
pub open spec fn cc_ret_defs(t: RsType, aggs: Seq<Aggregate>) -> Seq<usize> {
    match t {
        RsType::Unit => Seq::<usize>::empty(),
        RsType::Never => Seq::<usize>::empty(),
        _ => cc_type_defs(t, aggs),
    }
}

/// Maps a return type to its C++ spelling: `()` and `!` map to `void`, and
/// every other type is mapped as a parameter type would be.
pub fn map_return_type_for_target(t: &RsType, aggs: &Vec<Aggregate>) -> (r: Result<
    CcSnippet,
    Error,
>)
    requires
        ty_wf(*t, aggs@.len() as nat),
    ensures
        r is Ok <==> cc_ret_mappable(*t, aggs@),
        r matches Ok(s) ==> {
            &&& s.tokens@ == cc_ret_text(*t, aggs@)
            &&& s.prereqs.wf()
            &&& s.prereqs.includes@ == cc_ret_includes(*t)
            &&& s.prereqs.defs@ == cc_ret_defs(*t, aggs@)
        },
        r matches Err(e) ==> e@ == cc_type_err(*t, aggs@),
{
    match t {
        RsType::Unit => Ok(keyword_snippet("void")),
        RsType::Never => Ok(keyword_snippet("void")),
        _ => map_type_for_target(t, aggs),
    }
}

/// Whether the source language treats values of the type as
/// bitwise-copyable.
pub open spec fn ty_is_copy(t: RsType, aggs: Seq<Aggregate>) -> bool {
    match t {
        RsType::Aggregate { index, .. } => aggs[index as int].is_copy,
        _ => true,
    }
}

/// The spelling of one argument in the call from the inline C++ wrapper to
/// the shim.
pub open spec fn thunk_arg_text(t: RsType, aggs: Seq<Aggregate>, value: Seq<char>) -> Seq<char> {
    if ty_is_copy(t, aggs) {
        value
    } else {
        "std::move("@ + value + ")"@
    }
}

/// Formats one argument of the call into a shim: a bitwise-copyable value is
/// passed as it is, and any other value is wrapped in an explicit
/// ownership-transfer move, because the call consumes it.
pub fn thunk_arg_for_target(t: &RsType, aggs: &Vec<Aggregate>, value: &str) -> (r: CcSnippet)
    requires
        ty_wf(*t, aggs@.len() as nat),
    ensures
        r.tokens@ == thunk_arg_text(*t, aggs@, value@),
        r.prereqs.wf(),
        r.prereqs.defs@ =~= Seq::<usize>::empty(),
        r.prereqs.includes@ == (if ty_is_copy(*t, aggs@) {
            Seq::<CcInclude>::empty()
        } else {
            seq![CcInclude::Utility]
        }),
{
    let copy = match t {
        RsType::Aggregate { index, .. } => aggs[*index].is_copy,
        _ => true,
    };
    if copy {
        CcSnippet::new(String::from_str(value))
    } else {
        let mut s = String::from_str("std::move(");
        s.append(value);
        s.append(")");
        CcSnippet::with_include(s, CcInclude::Utility)
    }
}

} // verus!
