//! The aggregate binder: the fallible "core" of a translated struct, enum or
//! union (its declaration header, special member functions and layout
//! assertions), and its infallible "data" (an opaque fixed-size byte buffer).
//!
//! The split matters: the core is computed — and must succeed — before the
//! data is requested, so that a self-referential pointer field cannot force
//! the translation of a type's data in terms of itself.

use vstd::prelude::*;
use vstd::string::StringExecFns;

use crate::error::Error;
use crate::model::Aggregate;
use crate::names::{cc_ident_err, cc_ident_ok, format_cc_ident, qualified_text};
use crate::text::{dec_str, u64_to_dec};

verus! {

/// Whether the core binding of `a` succeeds: the name is usable as a C++
/// identifier, no drop glue is required, and the oracle reported a non-zero
/// layout.
pub open spec fn aggregate_core_ok(a: Aggregate) -> bool {
    &&& cc_ident_ok(a.name.name@)
    &&& !a.needs_drop
    &&& (a.layout matches Ok(l) && l.size != 0)
}

/// The message with which the core binding of `a` fails, when it fails:
/// the first failing check decides, in the order in which the checks run.
pub open spec fn aggregate_core_err(a: Aggregate) -> Seq<char> {
    if !cc_ident_ok(a.name.name@) {
        "Error formatting item name"@ + ": "@ + cc_ident_err(a.name.name@)
    } else if a.needs_drop {
        "`Drop` trait and \"drop glue\" are not supported yet"@
    } else {
        match a.layout {
            Err(m) => "Error computing the layout of #"@ + a.name.name@ + ": "@ + m@,
            Ok(_) => "Zero-sized types (ZSTs) are not supported"@,
        }
    }
}

/// The declaration prologue: the aggregate's name with its alignment fixed
/// explicitly.
pub open spec fn aggregate_header_text(name: Seq<char>, align: nat) -> Seq<char> {
    "struct alignas("@ + dec_str(align) + ") "@ + name + " final"@
}

/// The special member functions: default construction deleted, copying
/// deleted, moving defaulted (all types of the source language are safe to
/// relocate by a raw byte copy once drop glue is excluded), and the
/// destructor defaulted.
pub open spec fn aggregate_members_text(name: Seq<char>) -> Seq<char> {
    "public:\n  "@ + name + "() = delete;\n  "@ + name + "(const "@ + name + "&) = delete;\n  "@
        + name + "& operator=(const "@ + name + "&) = delete;\n  "@ + name + "("@ + name
        + "&&) = default;\n  "@ + name + "& operator=("@ + name + "&&) = default;\n  ~"@ + name
        + "() = default;\n"@
}

/// The compile-time assertions made on the C++ side: size and alignment must
/// match the oracle's numbers exactly.
pub open spec fn aggregate_cc_assertions_text(name: Seq<char>, size: nat, align: nat) -> Seq<
    char,
> {
    "static_assert(sizeof("@ + name + ") == "@ + dec_str(size)
        + ", \"Verify that struct layout didn't change since this header got generated\");\nstatic_assert(alignof("@
        + name + ") == "@ + dec_str(align)
        + ", \"Verify that struct layout didn't change since this header got generated\");\n"@
}

/// The compile-time assertions made reflexively on the Rust side, against the
/// same numbers.
pub open spec fn aggregate_rs_assertions_text(rs_name: Seq<char>, size: nat, align: nat) -> Seq<
    char,
> {
    "const _: () = assert!(::std::mem::size_of::<"@ + rs_name + ">() == "@ + dec_str(size)
        + ");\nconst _: () = assert!(::std::mem::align_of::<"@ + rs_name + ">() == "@ + dec_str(
        align,
    ) + ");\n"@
}

/// The aggregate's storage: an opaque byte buffer of exactly the oracle's
/// size.  Field-level translation is out of scope, so this is the whole data
/// representation.
pub open spec fn aggregate_data_text(size: nat) -> Seq<char> {
    "private:\n  unsigned char opaque_blob_of_bytes["@ + dec_str(size) + "];\n"@
}

/// The core of a translated aggregate, in the pieces that the item
/// translator later arranges around the data.
pub struct AggregateCore {
    /// Declaration prologue: name and alignment.
    pub header: String,
    /// Declarations of the special member functions.
    pub members: String,
    /// Compile-time size and alignment assertions for the C++ side.
    pub cc_assertions: String,
    /// Compile-time size and alignment assertions for the Rust side.
    pub rs_assertions: String,
}

/// Checks whether the core binding of `a` would succeed, without building any
/// output: the read-only probe that the type mapper uses before exposing a
/// reference to an aggregate.
pub fn probe_aggregate_core(a: &Aggregate) -> (r: Result<(), Error>)
    ensures
        r is Ok <==> aggregate_core_ok(*a),
        r matches Err(e) ==> e@ == aggregate_core_err(*a),
{
    if let Err(e) = format_cc_ident(a.name.name.as_str()) {
        return Err(e.context("Error formatting item name"));
    }
    if a.needs_drop {
        return Err(
            Error::new(
                String::from_str("`Drop` trait and \"drop glue\" are not supported yet"),
            ),
        );
    }
    match &a.layout {
        Err(m) => {
            let mut t = String::from_str("Error computing the layout of #");
            t.append(a.name.name.as_str());
            t.append(": ");
            t.append(m.as_str());
            Err(Error::new(t))
        },
        Ok(l) => {
            if l.size == 0 {
                Err(Error::new(String::from_str("Zero-sized types (ZSTs) are not supported")))
            } else {
                Ok(())
            }
        },
    }
}

/// Formats the core of an aggregate: everything that must succeed for the
/// aggregate to have a binding at all.  The assertions carry exactly the
/// size and alignment that the layout oracle reported.
pub fn bind_aggregate_core(a: &Aggregate) -> (r: Result<AggregateCore, Error>)
    ensures
        r is Ok <==> aggregate_core_ok(*a),
        r matches Ok(c) ==> (a.layout matches Ok(l) && {
            &&& c.header@ == aggregate_header_text(a.name.name@, l.align as nat)
            &&& c.members@ == aggregate_members_text(a.name.name@)
            &&& c.cc_assertions@ == aggregate_cc_assertions_text(
                a.name.name@,
                l.size as nat,
                l.align as nat,
            )
            &&& c.rs_assertions@ == aggregate_rs_assertions_text(
                qualified_text(a.name),
                l.size as nat,
                l.align as nat,
            )
        }),
        r matches Err(e) ==> e@ == aggregate_core_err(*a),
{
    if let Err(e) = probe_aggregate_core(a) {
        return Err(e);
    }
    let l = match &a.layout {
        Ok(l) => *l,
        Err(_) => {
            proof {
                assert(false);
            }
            return Err(Error::new(String::new()));
        },
    };
    let name = a.name.name.as_str();
    let size_dec = u64_to_dec(l.size);
    let align_dec = u64_to_dec(l.align);

    let mut header = String::from_str("struct alignas(");
    header.append(align_dec.as_str());
    header.append(") ");
    header.append(name);
    header.append(" final");

    let mut members = String::from_str("public:\n  ");
    members.append(name);
    members.append("() = delete;\n  ");
    members.append(name);
    members.append("(const ");
    members.append(name);
    members.append("&) = delete;\n  ");
    members.append(name);
    members.append("& operator=(const ");
    members.append(name);
    members.append("&) = delete;\n  ");
    members.append(name);
    members.append("(");
    members.append(name);
    members.append("&&) = default;\n  ");
    members.append(name);
    members.append("& operator=(");
    members.append(name);
    members.append("&&) = default;\n  ~");
    members.append(name);
    members.append("() = default;\n");

    let mut cc_assertions = String::from_str("static_assert(sizeof(");
    cc_assertions.append(name);
    cc_assertions.append(") == ");
    cc_assertions.append(size_dec.as_str());
    cc_assertions.append(
        ", \"Verify that struct layout didn't change since this header got generated\");\nstatic_assert(alignof(",
    );
    cc_assertions.append(name);
    cc_assertions.append(") == ");
    cc_assertions.append(align_dec.as_str());
    cc_assertions.append(
        ", \"Verify that struct layout didn't change since this header got generated\");\n",
    );

    let rs_name = a.name.format_for_rs();
    let mut rs_assertions = String::from_str("const _: () = assert!(::std::mem::size_of::<");
    rs_assertions.append(rs_name.as_str());
    rs_assertions.append(">() == ");
    rs_assertions.append(size_dec.as_str());
    rs_assertions.append(");\nconst _: () = assert!(::std::mem::align_of::<");
    rs_assertions.append(rs_name.as_str());
    rs_assertions.append(">() == ");
    rs_assertions.append(align_dec.as_str());
    rs_assertions.append(");\n");

    Ok(AggregateCore { header, members, cc_assertions, rs_assertions })
}

/// Formats the data of an aggregate: the opaque byte buffer.  The core must
/// have been computed, and have succeeded, before the data is requested; the
/// item translator enforces that order.
pub fn bind_aggregate_data(a: &Aggregate) -> (r: String)
    requires
        aggregate_core_ok(*a),
    ensures
        (a.layout matches Ok(l) && r@ == aggregate_data_text(l.size as nat)),
{
    let l = match &a.layout {
        Ok(l) => *l,
        Err(_) => {
            proof {
                assert(false);
            }
            return String::new();
        },
    };
    let mut out = String::from_str("private:\n  unsigned char opaque_blob_of_bytes[");
    out.append(u64_to_dec(l.size).as_str());
    out.append("];\n");
    out
}

/// Every aggregate with a usable name, a computable non-zero layout and no
/// drop glue gets a core binding, and the assertions that the binding emits
/// state exactly the size and alignment that the oracle reported — the
/// ensures of `bind_aggregate_core` pins their text to those numbers.
pub proof fn lemma_clean_aggregate_core_succeeds(a: Aggregate)
    requires
        cc_ident_ok(a.name.name@),
        !a.needs_drop,
        a.layout matches Ok(l) && l.size != 0,
    ensures
        aggregate_core_ok(a),
{
}

/// A zero-sized aggregate that fails no earlier check is rejected, and is
/// rejected with the zero-size message and no other.
pub proof fn lemma_zero_sized_aggregate_rejected(a: Aggregate)
    requires
        cc_ident_ok(a.name.name@),
        !a.needs_drop,
        a.layout matches Ok(l) && l.size == 0,
    ensures
        !aggregate_core_ok(a),
        aggregate_core_err(a) == "Zero-sized types (ZSTs) are not supported"@,
{
}

} // verus!
