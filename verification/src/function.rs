//! The function binder: converts a function signature into either a direct
//! C++ re-declaration (when the calling convention is understood natively by
//! both languages) or a C++ declaration plus a Rust shim that bridges the
//! calling convention.

use vstd::prelude::*;
use vstd::string::StringExecFns;

use crate::error::Error;
use crate::model::{ty_wf, Abi, Aggregate, FnItem, Item, RsType};
use crate::names::{cc_ident_err, cc_ident_ok, format_cc_ident, qualified_text};
use crate::snippet::{CcInclude, CcPrerequisites, CcSnippet};
use crate::text::{dec_str, str_eq, usize_to_dec};
use crate::types::{
    cc_mappable, cc_ret_defs, cc_ret_includes, cc_ret_mappable, cc_ret_text, cc_type_defs,
    cc_type_err, cc_type_includes, cc_type_text, map_return_type_for_target, map_type_for_shim,
    map_type_for_target, rs_mappable, rs_type_text, thunk_arg_for_target, thunk_arg_text,
    ty_is_copy,
};

verus! {

/// One translated item: the C++ snippet for the declaration body, and the
/// Rust code for the shim body (empty when no shim is needed).
#[derive(Debug)]
pub struct TranslatedItem {
    pub cc: CcSnippet,
    pub rs: String,
}

/// Whether the function's calling convention forces a shim: everything but
/// the plain C convention and its unwind-safe variant does.
pub open spec fn fn_needs_thunk(f: FnItem) -> bool {
    f.sig.abi is Other
}

/// The linker symbol under which C++ reaches the function: the function's own
/// symbol when it can be called directly, and a synthesized shim symbol when
/// a shim is required.
pub open spec fn exported_name_text(f: FnItem) -> Seq<char> {
    if fn_needs_thunk(f) {
        "__thunk_"@ + f.symbol@
    } else {
        f.symbol@
    }
}

/// Whether the C++ side needs an internal raw declaration plus an inline
/// wrapper: whenever the exported symbol differs from the function's name.
pub open spec fn fn_needs_wrapper(it: Item, f: FnItem) -> bool {
    exported_name_text(f) != it.qname.name@
}

/// A doc comment rendered above a declaration; empty when there is none.
pub open spec fn doc_prologue_text(doc: Seq<char>) -> Seq<char> {
    if doc.len() == 0 {
        Seq::<char>::empty()
    } else {
        "// "@ + doc + "\n"@
    }
}

/// The C++ name of the parameter at position `i`: the declared name when it
/// is usable, a positional synthetic name otherwise.
pub open spec fn cc_param_name_text(names: Seq<Seq<char>>, i: int) -> Seq<char> {
    if cc_ident_ok(names[i]) {
        names[i]
    } else {
        "__param_"@ + dec_str(i as nat)
    }
}

/// The Rust name of the parameter at position `i`: the declared name when
/// there is one, a positional synthetic name otherwise.
pub open spec fn rs_param_name_text(names: Seq<Seq<char>>, i: int) -> Seq<char> {
    if names[i].len() > 0 {
        names[i]
    } else {
        "__param_"@ + dec_str(i as nat)
    }
}

/// The first `k` parameters as C++ parameter declarations, comma-separated.
pub open spec fn cc_params_upto(f: FnItem, aggs: Seq<Aggregate>, k: int) -> Seq<char>
    decreases k,
{
    if k <= 0 {
        Seq::<char>::empty()
    } else {
        let decl = cc_type_text(f.sig.inputs@[k - 1], aggs) + " "@ + cc_param_name_text(
            f.param_names.deep_view(),
            k - 1,
        );
        if k == 1 {
            decl
        } else {
            cc_params_upto(f, aggs, k - 1) + ", "@ + decl
        }
    }
}

/// The first `k` arguments of the wrapper's call into the shim,
/// comma-separated, with an ownership-transfer move around every value that
/// is not bitwise-copyable.
pub open spec fn thunk_args_upto(f: FnItem, aggs: Seq<Aggregate>, k: int) -> Seq<char>
    decreases k,
{
    if k <= 0 {
        Seq::<char>::empty()
    } else {
        let arg = thunk_arg_text(
            f.sig.inputs@[k - 1],
            aggs,
            cc_param_name_text(f.param_names.deep_view(), k - 1),
        );
        if k == 1 {
            arg
        } else {
            thunk_args_upto(f, aggs, k - 1) + ", "@ + arg
        }
    }
}

/// The first `k` parameters of the Rust shim, comma-separated.
pub open spec fn rs_params_upto(f: FnItem, aggs: Seq<Aggregate>, k: int) -> Seq<char>
    decreases k,
{
    if k <= 0 {
        Seq::<char>::empty()
    } else {
        let decl = rs_param_name_text(f.param_names.deep_view(), k - 1) + ": "@ + rs_type_text(
            f.sig.inputs@[k - 1],
            aggs,
        );
        if k == 1 {
            decl
        } else {
            rs_params_upto(f, aggs, k - 1) + ", "@ + decl
        }
    }
}

/// The first `k` argument names of the shim's call into the original
/// function, comma-separated.
pub open spec fn rs_args_upto(f: FnItem, k: int) -> Seq<char>
    decreases k,
{
    if k <= 0 {
        Seq::<char>::empty()
    } else {
        let name = rs_param_name_text(f.param_names.deep_view(), k - 1);
        if k == 1 {
            name
        } else {
            rs_args_upto(f, k - 1) + ", "@ + name
        }
    }
}

/// The local declarations that the function's C++ declaration depends on:
/// those of the return type and of the first `k` parameter types.
pub open spec fn fn_defs_upto(f: FnItem, aggs: Seq<Aggregate>, k: int) -> Set<usize>
    decreases k,
{
    if k <= 0 {
        cc_ret_defs(f.sig.output, aggs).to_set()
    } else {
        fn_defs_upto(f, aggs, k - 1).union(cc_type_defs(f.sig.inputs@[k - 1], aggs).to_set())
    }
}

/// The includes that the function's C++ declaration depends on: those of the
/// return type and of the first `k` parameter types, plus `<utility>` for
/// every moved argument when an inline wrapper is emitted.
pub open spec fn fn_includes_upto(
    f: FnItem,
    aggs: Seq<Aggregate>,
    wrapper: bool,
    k: int,
) -> Set<CcInclude>
    decreases k,
{
    if k <= 0 {
        cc_ret_includes(f.sig.output).to_set()
    } else {
        let with_ty = fn_includes_upto(f, aggs, wrapper, k - 1).union(
            cc_type_includes(f.sig.inputs@[k - 1]).to_set(),
        );
        if wrapper && !ty_is_copy(f.sig.inputs@[k - 1], aggs) {
            with_ty.insert(CcInclude::Utility)
        } else {
            with_ty
        }
    }
}

/// Whether the binder accepts the function: not variadic, not unsafe, a name
/// usable in C++, a return type usable in return position, and every
/// parameter type usable in parameter position.
pub open spec fn fn_bindable(it: Item, f: FnItem, aggs: Seq<Aggregate>) -> bool {
    &&& !f.sig.c_variadic
    &&& !f.sig.is_unsafe
    &&& cc_ret_mappable(f.sig.output, aggs)
    &&& cc_ident_ok(it.qname.name@)
    &&& forall|i: int|
        0 <= i < f.sig.inputs.len() ==> cc_mappable(#[trigger] f.sig.inputs@[i], aggs)
}

/// The message with which the binder rejects the function: the first failing
/// check decides, in the order in which the checks run.
pub open spec fn fn_bind_err(it: Item, f: FnItem, aggs: Seq<Aggregate>) -> Seq<char> {
    if f.sig.c_variadic {
        "C variadic functions are not supported"@
    } else if f.sig.is_unsafe {
        "Bindings for `unsafe` functions are not fully designed yet"@
    } else if !cc_ret_mappable(f.sig.output, aggs) {
        "Error formatting function return type"@ + ": "@ + cc_type_err(f.sig.output, aggs)
    } else if !cc_ident_ok(it.qname.name@) {
        "Error formatting function name"@ + ": "@ + cc_ident_err(it.qname.name@)
    } else {
        let i = choose|i: int|
            0 <= i < f.sig.inputs.len() && !cc_mappable(#[trigger] f.sig.inputs@[i], aggs) && (
            forall|j: int| 0 <= j < i ==> cc_mappable(#[trigger] f.sig.inputs@[j], aggs));
        "Error formatting the type of parameter #"@ + dec_str(i as nat) + ": "@ + cc_type_err(
            f.sig.inputs@[i],
            aggs,
        )
    }
}

/// The C++ declaration of the function: a direct `extern "C"` declaration
/// when the exported symbol is the function's own name, and otherwise a raw
/// declaration in an internal namespace plus an inline wrapper under the
/// function's name.
pub open spec fn fn_cc_text(it: Item, f: FnItem, aggs: Seq<Aggregate>) -> Seq<char> {
    let ret = cc_ret_text(f.sig.output, aggs);
    let params = cc_params_upto(f, aggs, f.sig.inputs.len() as int);
    let doc = doc_prologue_text(it.doc@);
    let name = it.qname.name@;
    let exported = exported_name_text(f);
    if !fn_needs_wrapper(it, f) {
        doc + "extern \"C\" "@ + ret + " "@ + name + "("@ + params + ");\n"@
    } else {
        "namespace __bindings_internal {\nextern \"C\" "@ + ret + " "@ + exported + "("@ + params
            + ");\n}\n"@ + doc + "inline "@ + ret + " "@ + name + "("@ + params
            + ") {\n  return __bindings_internal::"@ + exported + "("@ + thunk_args_upto(
            f,
            aggs,
            f.sig.inputs.len() as int,
        ) + ");\n}\n"@
    }
}

/// The Rust shim for the function; empty when the calling convention needs
/// no bridging.
pub open spec fn fn_rs_text(it: Item, f: FnItem, aggs: Seq<Aggregate>) -> Seq<char> {
    if !fn_needs_thunk(f) {
        Seq::<char>::empty()
    } else {
        "#[no_mangle]\nextern \"C\" fn "@ + exported_name_text(f) + "("@ + rs_params_upto(
            f,
            aggs,
            f.sig.inputs.len() as int,
        ) + ") -> "@ + rs_type_text(f.sig.output, aggs) + " {\n  "@ + qualified_text(it.qname)
            + "("@ + rs_args_upto(f, f.sig.inputs.len() as int) + ")\n}\n"@
    }
}

/// Every type that the C++ side accepts, the Rust side of the shims accepts
/// as well, so once the C++ declaration of a function is formatted, its shim
/// cannot fail.
pub proof fn lemma_cc_mappable_implies_rs(t: RsType, aggs: Seq<Aggregate>)
    requires
        cc_mappable(t, aggs),
    ensures
        rs_mappable(t),
    decreases t,
{
    match t {
        RsType::Ptr { pointee, .. } => {
            lemma_cc_mappable_implies_rs(*pointee, aggs);
        },
        _ => {},
    }
}

/// Binds one function: checks the signature, decides between a direct
/// declaration and a shim, and renders both sides.
pub fn bind_function(it: &Item, f: &FnItem, aggs: &Vec<Aggregate>) -> (r: Result<
    TranslatedItem,
    Error,
>)
    requires
        ty_wf(f.sig.output, aggs@.len() as nat),
        forall|i: int|
            0 <= i < f.sig.inputs.len() ==> ty_wf(
                #[trigger] f.sig.inputs@[i],
                aggs@.len() as nat,
            ),
        f.param_names.len() == f.sig.inputs.len(),
    ensures
        r is Ok <==> fn_bindable(*it, *f, aggs@),
        r matches Ok(ti) ==> {
            &&& ti.cc.tokens@ == fn_cc_text(*it, *f, aggs@)
            &&& ti.cc.prereqs.wf()
            &&& ti.cc.prereqs.includes_set() == fn_includes_upto(
                *f,
                aggs@,
                fn_needs_wrapper(*it, *f),
                f.sig.inputs.len() as int,
            )
            &&& ti.cc.prereqs.defs_set() == fn_defs_upto(*f, aggs@, f.sig.inputs.len() as int)
            &&& ti.rs@ == fn_rs_text(*it, *f, aggs@)
        },
        r matches Err(e) ==> e@ == fn_bind_err(*it, *f, aggs@),
{
    if f.sig.c_variadic {
        return Err(Error::new(String::from_str("C variadic functions are not supported")));
    }
    if f.sig.is_unsafe {
        return Err(
            Error::new(
                String::from_str("Bindings for `unsafe` functions are not fully designed yet"),
            ),
        );
    }
    let needs_thunk = match f.sig.abi {
        Abi::C => false,
        Abi::CUnwind => false,
        Abi::Other => true,
    };
    let mut prereqs = CcPrerequisites::new();
    let ret_snippet = match map_return_type_for_target(&f.sig.output, aggs) {
        Ok(s) => s,
        Err(e) => {
            return Err(e.context("Error formatting function return type"));
        },
    };
    let ghost ret_includes = ret_snippet.prereqs.includes_set();
    let ghost ret_defs = ret_snippet.prereqs.defs_set();
    let ret_cc = ret_snippet.into_tokens(&mut prereqs);
    proof {
        assert(forall|y: CcInclude| !Seq::<CcInclude>::empty().contains(y));
        assert(forall|y: usize| !Seq::<usize>::empty().contains(y));
        assert(prereqs.includes_set() =~= ret_includes);
        assert(prereqs.defs_set() =~= ret_defs);
    }
    let name = match format_cc_ident(it.qname.name.as_str()) {
        Ok(n) => n,
        Err(e) => {
            return Err(e.context("Error formatting function name"));
        },
    };
    let exported = if needs_thunk {
        let mut e = String::from_str("__thunk_");
        e.append(f.symbol.as_str());
        e
    } else {
        f.symbol.clone()
    };
    let wrapper = !str_eq(name.as_str(), exported.as_str());

    let n = f.sig.inputs.len();
    let mut cc_params = String::new();
    let mut thunk_args = String::new();
    let mut i: usize = 0;
    while i < n
        invariant
            n == f.sig.inputs.len(),
            f.param_names.len() == n,
            i <= n,
            !f.sig.c_variadic,
            !f.sig.is_unsafe,
            cc_ret_mappable(f.sig.output, aggs@),
            cc_ident_ok(it.qname.name@),
            forall|k: int|
                0 <= k < n ==> ty_wf(#[trigger] f.sig.inputs@[k], aggs@.len() as nat),
            forall|j: int| 0 <= j < i ==> cc_mappable(#[trigger] f.sig.inputs@[j], aggs@),
            prereqs.wf(),
            prereqs.includes_set() =~= fn_includes_upto(*f, aggs@, wrapper, i as int),
            prereqs.defs_set() =~= fn_defs_upto(*f, aggs@, i as int),
            cc_params@ == cc_params_upto(*f, aggs@, i as int),
            wrapper ==> thunk_args@ == thunk_args_upto(*f, aggs@, i as int),
            !wrapper ==> thunk_args@ == Seq::<char>::empty(),
            wrapper == fn_needs_wrapper(*it, *f),
        decreases n - i,
    {
        let t = &f.sig.inputs[i];
        let snip = match map_type_for_target(t, aggs) {
            Ok(s) => s,
            Err(e) => {
                let mut ctx = String::from_str("Error formatting the type of parameter #");
                ctx.append(usize_to_dec(i).as_str());
                proof {
                    let bad = i as int;
                    let w = choose|w: int|
                        0 <= w < f.sig.inputs.len() && !cc_mappable(
                            #[trigger] f.sig.inputs@[w],
                            aggs@,
                        ) && (forall|j: int|
                            0 <= j < w ==> cc_mappable(#[trigger] f.sig.inputs@[j], aggs@));
                    assert(!cc_mappable(f.sig.inputs@[bad], aggs@));
                    if w < bad {
                        assert(cc_mappable(f.sig.inputs@[w], aggs@));
                    }
                    if w > bad {
                        assert(cc_mappable(f.sig.inputs@[bad], aggs@));
                    }
                    assert(w == bad);
                }
                return Err(e.context(ctx.as_str()));
            },
        };
        let cc_name = match format_cc_ident(f.param_names[i].as_str()) {
            Ok(p) => p,
            Err(_) => {
                let mut p = String::from_str("__param_");
                p.append(usize_to_dec(i).as_str());
                p
            },
        };
        if i > 0 {
            cc_params.append(", ");
        }
        let ty_cc = snip.into_tokens(&mut prereqs);
        cc_params.append(ty_cc.as_str());
        cc_params.append(" ");
        cc_params.append(cc_name.as_str());
        if wrapper {
            let arg = thunk_arg_for_target(t, aggs, cc_name.as_str());
            if i > 0 {
                thunk_args.append(", ");
            }
            let arg_cc = arg.into_tokens(&mut prereqs);
            thunk_args.append(arg_cc.as_str());
        }
        proof {
            crate::snippet::lemma_empty_to_set::<CcInclude>();
            crate::snippet::lemma_singleton_to_set(CcInclude::Utility);
            assert(cc_params@ =~= cc_params_upto(*f, aggs@, i + 1));
            if wrapper {
                assert(thunk_args@ =~= thunk_args_upto(*f, aggs@, i + 1));
            }
            assert(prereqs.includes_set() =~= fn_includes_upto(*f, aggs@, wrapper, i + 1));
            assert(prereqs.defs_set() =~= fn_defs_upto(*f, aggs@, i + 1));
        }
        i = i + 1;
    }

    let doc = if it.doc.as_str().is_empty() {
        String::new()
    } else {
        let mut d = String::from_str("// ");
        d.append(it.doc.as_str());
        d.append("\n");
        d
    };
    proof {
        assert(it.doc@.len() == 0 ==> doc@ =~= doc_prologue_text(it.doc@));
    }

    let cc_tokens = if !wrapper {
        let mut out = doc;
        out.append("extern \"C\" ");
        out.append(ret_cc.as_str());
        out.append(" ");
        out.append(name.as_str());
        out.append("(");
        out.append(cc_params.as_str());
        out.append(");\n");
        proof {
            assert(out@ =~= fn_cc_text(*it, *f, aggs@));
        }
        out
    } else {
        let mut out = String::from_str("namespace __bindings_internal {\nextern \"C\" ");
        out.append(ret_cc.as_str());
        out.append(" ");
        out.append(exported.as_str());
        out.append("(");
        out.append(cc_params.as_str());
        out.append(");\n}\n");
        out.append(doc.as_str());
        out.append("inline ");
        out.append(ret_cc.as_str());
        out.append(" ");
        out.append(name.as_str());
        out.append("(");
        out.append(cc_params.as_str());
        out.append(") {\n  return __bindings_internal::");
        out.append(exported.as_str());
        out.append("(");
        out.append(thunk_args.as_str());
        out.append(");\n}\n");
        proof {
            assert(out@ =~= fn_cc_text(*it, *f, aggs@));
        }
        out
    };

    let rs_tokens = if !needs_thunk {
        String::new()
    } else {
        proof {
            lemma_cc_mappable_implies_rs_ret(f.sig.output, aggs@);
        }
        let rs_ret = match map_type_for_shim(&f.sig.output, aggs) {
            Ok(s) => s,
            Err(_) => {
                proof {
                    assert(false);
                }
                String::new()
            },
        };
        let mut rs_params = String::new();
        let mut rs_args = String::new();
        let mut j: usize = 0;
        while j < n
            invariant
                n == f.sig.inputs.len(),
                f.param_names.len() == n,
                j <= n,
                forall|k: int|
                    0 <= k < n ==> ty_wf(#[trigger] f.sig.inputs@[k], aggs@.len() as nat),
                forall|k: int| 0 <= k < n ==> cc_mappable(#[trigger] f.sig.inputs@[k], aggs@),
                rs_params@ == rs_params_upto(*f, aggs@, j as int),
                rs_args@ == rs_args_upto(*f, j as int),
            decreases n - j,
        {
            proof {
                lemma_cc_mappable_implies_rs(f.sig.inputs@[j as int], aggs@);
            }
            let rs_ty = match map_type_for_shim(&f.sig.inputs[j], aggs) {
                Ok(s) => s,
                Err(_) => {
                    proof {
                        assert(false);
                    }
                    String::new()
                },
            };
            let rs_name = if f.param_names[j].as_str().is_empty() {
                let mut p = String::from_str("__param_");
                p.append(usize_to_dec(j).as_str());
                p
            } else {
                f.param_names[j].clone()
            };
            if j > 0 {
                rs_params.append(", ");
                rs_args.append(", ");
            }
            rs_params.append(rs_name.as_str());
            rs_params.append(": ");
            rs_params.append(rs_ty.as_str());
            rs_args.append(rs_name.as_str());
            proof {
                assert(rs_params@ =~= rs_params_upto(*f, aggs@, j + 1));
                assert(rs_args@ =~= rs_args_upto(*f, j + 1));
            }
            j = j + 1;
        }
        let target = it.qname.format_for_rs();
        let mut out = String::from_str("#[no_mangle]\nextern \"C\" fn ");
        out.append(exported.as_str());
        out.append("(");
        out.append(rs_params.as_str());
        out.append(") -> ");
        out.append(rs_ret.as_str());
        out.append(" {\n  ");
        out.append(target.as_str());
        out.append("(");
        out.append(rs_args.as_str());
        out.append(")\n}\n");
        proof {
            assert(out@ =~= fn_rs_text(*it, *f, aggs@));
        }
        out
    };

    Ok(TranslatedItem { cc: CcSnippet { tokens: cc_tokens, prereqs }, rs: rs_tokens })
}

/// In return position too, what the C++ side accepts the Rust side accepts.
proof fn lemma_cc_mappable_implies_rs_ret(t: RsType, aggs: Seq<Aggregate>)
    requires
        cc_ret_mappable(t, aggs),
    ensures
        rs_mappable(t),
{
    match t {
        RsType::Unit => {},
        RsType::Never => {},
        _ => {
            lemma_cc_mappable_implies_rs(t, aggs);
        },
    }
}

} // verus!
