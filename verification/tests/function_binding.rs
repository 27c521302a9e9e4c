//! Tests of the function binder through the item translator: direct
//! declarations, inline wrappers with shims, parameter handling, and the
//! rejections.

use cc_bindings_from_rs::function::TranslatedItem;
use cc_bindings_from_rs::model::{
    Abi, Aggregate, FnItem, FnSig, Item, ItemKind, Layout, RsType,
};
use cc_bindings_from_rs::item::translate_item;
use cc_bindings_from_rs::names::QualifiedName;
use cc_bindings_from_rs::snippet::CcInclude;

fn fb_qn(name: &str) -> QualifiedName {
    QualifiedName::new("rust_out".to_string(), vec![], name.to_string())
}

fn fb_fn(
    name: &str,
    symbol: &str,
    abi: Abi,
    params: Vec<(&str, RsType)>,
    output: RsType,
) -> Item {
    let mut names = Vec::new();
    let mut inputs = Vec::new();
    for (n, t) in params {
        names.push(n.to_string());
        inputs.push(t);
    }
    Item {
        qname: fb_qn(name),
        location: "<the_module>:1:1".to_string(),
        is_public: true,
        generic_params: 0,
        doc: String::new(),
        kind: ItemKind::Fn(FnItem {
            symbol: symbol.to_string(),
            param_names: names,
            sig: FnSig { inputs, output, c_variadic: false, is_unsafe: false, abi },
        }),
    }
}

fn fb_translate(it: &Item) -> Result<Option<TranslatedItem>, String> {
    let aggs: Vec<Aggregate> = vec![Aggregate {
        name: fb_qn("S"),
        is_local: true,
        item: 0,
        needs_drop: false,
        layout: Ok(Layout { size: 4, align: 4 }),
        is_copy: false,
    }];
    translate_item(it, &aggs).map_err(|e| e.message())
}

#[test]
fn test_format_def_fn_extern_c_no_mangle_no_params_no_return_type() {
    let it = fb_fn("public_function", "public_function", Abi::C, vec![], RsType::Unit);
    let ti = fb_translate(&it).unwrap().unwrap();
    assert_eq!(ti.cc.tokens, "extern \"C\" void public_function();\n");
    assert!(ti.cc.prereqs.includes.is_empty());
    assert!(ti.cc.prereqs.defs.is_empty());
    assert!(ti.rs.is_empty());
}

#[test]
fn test_format_def_fn_explicit_unit_return_type() {
    let it = fb_fn(
        "explicit_unit_return_type",
        "explicit_unit_return_type",
        Abi::C,
        vec![],
        RsType::Unit,
    );
    let ti = fb_translate(&it).unwrap().unwrap();
    assert_eq!(ti.cc.tokens, "extern \"C\" void explicit_unit_return_type();\n");
    assert!(ti.rs.is_empty());
}

#[test]
fn test_format_def_fn_never_return_type() {
    let it = fb_fn(
        "never_returning_function",
        "never_returning_function",
        Abi::C,
        vec![],
        RsType::Never,
    );
    let ti = fb_translate(&it).unwrap().unwrap();
    assert_eq!(ti.cc.tokens, "extern \"C\" void never_returning_function();\n");
    assert!(ti.rs.is_empty());
}

#[test]
fn test_format_def_fn_mangling() {
    // An `extern "C"` function without an unmangled name: no shim, but the
    // declaration goes through an inline wrapper under the plain name.
    let it = fb_fn(
        "public_function",
        "_ZN8rust_out15public_functionE",
        Abi::C,
        vec![("x", RsType::F64), ("y", RsType::F64)],
        RsType::F64,
    );
    let ti = fb_translate(&it).unwrap().unwrap();
    assert_eq!(
        ti.cc.tokens,
        "namespace __bindings_internal {\n\
         extern \"C\" double _ZN8rust_out15public_functionE(double x, double y);\n\
         }\n\
         inline double public_function(double x, double y) {\n  \
         return __bindings_internal::_ZN8rust_out15public_functionE(x, y);\n\
         }\n"
    );
    assert!(ti.rs.is_empty());
}

#[test]
fn test_format_def_fn_export_name() {
    let it = fb_fn(
        "public_function",
        "export_name",
        Abi::C,
        vec![("x", RsType::F64), ("y", RsType::F64)],
        RsType::F64,
    );
    let ti = fb_translate(&it).unwrap().unwrap();
    assert_eq!(
        ti.cc.tokens,
        "namespace __bindings_internal {\n\
         extern \"C\" double export_name(double x, double y);\n\
         }\n\
         inline double public_function(double x, double y) {\n  \
         return __bindings_internal::export_name(x, y);\n\
         }\n"
    );
    assert!(ti.rs.is_empty());
}

#[test]
fn test_format_def_fn_rust_abi() {
    let it = fb_fn(
        "add",
        "_ZN8rust_out3addE",
        Abi::Other,
        vec![("x", RsType::F64), ("y", RsType::F64)],
        RsType::F64,
    );
    let ti = fb_translate(&it).unwrap().unwrap();
    assert_eq!(
        ti.cc.tokens,
        "namespace __bindings_internal {\n\
         extern \"C\" double __thunk__ZN8rust_out3addE(double x, double y);\n\
         }\n\
         inline double add(double x, double y) {\n  \
         return __bindings_internal::__thunk__ZN8rust_out3addE(x, y);\n\
         }\n"
    );
    assert_eq!(
        ti.rs,
        "#[no_mangle]\n\
         extern \"C\" fn __thunk__ZN8rust_out3addE(x: f64, y: f64) -> f64 {\n  \
         ::rust_out::add(x, y)\n\
         }\n"
    );
}

#[test]
fn test_format_def_fn_vectorcall_abi() {
    // Any convention outside the two C conventions forces a shim.
    let it = fb_fn(
        "add",
        "_ZN8rust_out3vcE",
        Abi::Other,
        vec![("x", RsType::F64), ("y", RsType::F64)],
        RsType::F64,
    );
    let ti = fb_translate(&it).unwrap().unwrap();
    assert!(ti.cc.tokens.contains("inline double add(double x, double y)"));
    assert!(ti.rs.contains("::rust_out::add(x, y)"));
}

#[test]
fn test_format_def_fn_with_c_unwind_abi() {
    let it = fb_fn("may_throw", "may_throw", Abi::CUnwind, vec![], RsType::Unit);
    let ti = fb_translate(&it).unwrap().unwrap();
    assert_eq!(ti.cc.tokens, "extern \"C\" void may_throw();\n");
    assert!(ti.rs.is_empty());
}

#[test]
fn test_format_def_fn_const() {
    // A function with the plain Rust convention and an integer signature:
    // the `const` qualifier of the original declaration is invisible at the
    // signature level, and the binding goes through a shim as usual.
    let it = fb_fn(
        "foo",
        "_ZN8rust_out3fooE",
        Abi::Other,
        vec![("i", RsType::I32)],
        RsType::I32,
    );
    let ti = fb_translate(&it).unwrap().unwrap();
    assert_eq!(ti.cc.prereqs.includes, vec![CcInclude::Cstdint]);
    assert!(ti.cc.tokens.contains(
        "inline std::int32_t foo(std::int32_t i) {\n  \
         return __bindings_internal::__thunk__ZN8rust_out3fooE(i);\n}\n"
    ));
    assert_eq!(
        ti.rs,
        "#[no_mangle]\n\
         extern \"C\" fn __thunk__ZN8rust_out3fooE(i: i32) -> i32 {\n  \
         ::rust_out::foo(i)\n\
         }\n"
    );
}

#[test]
fn test_format_def_fn_with_type_aliased_return_type() {
    // Type aliases disappear before the mapping runs; the binder sees the
    // underlying type.
    let it = fb_fn("type_aliased_return", "type_aliased_return", Abi::C, vec![], RsType::F64);
    let ti = fb_translate(&it).unwrap().unwrap();
    assert_eq!(ti.cc.tokens, "extern \"C\" double type_aliased_return();\n");
    assert!(ti.rs.is_empty());
}

#[test]
fn test_format_def_fn_params() {
    let it = fb_fn(
        "foo",
        "foo",
        Abi::C,
        vec![("b", RsType::Bool), ("f", RsType::F64)],
        RsType::Unit,
    );
    let ti = fb_translate(&it).unwrap().unwrap();
    assert_eq!(ti.cc.tokens, "extern \"C\" void foo(bool b, double f);\n");
}

#[test]
fn test_format_def_fn_param_name_reserved_keyword() {
    let it = fb_fn(
        "some_function",
        "some_function",
        Abi::C,
        vec![("reinterpret_cast", RsType::F64)],
        RsType::Unit,
    );
    let ti = fb_translate(&it).unwrap().unwrap();
    assert_eq!(ti.cc.tokens, "extern \"C\" void some_function(double __param_0);\n");
}

#[test]
fn test_format_def_fn_with_multiple_anonymous_parameter_names() {
    let it = fb_fn(
        "foo",
        "_ZN8rust_out4foo2E",
        Abi::Other,
        vec![("", RsType::F64), ("", RsType::F64)],
        RsType::Unit,
    );
    let ti = fb_translate(&it).unwrap().unwrap();
    assert!(ti.cc.tokens.contains("inline void foo(double __param_0, double __param_1)"));
    assert!(ti.cc.tokens.contains("(__param_0, __param_1);"));
    assert_eq!(
        ti.rs,
        "#[no_mangle]\n\
         extern \"C\" fn __thunk__ZN8rust_out4foo2E(__param_0: f64, __param_1: f64) -> () {\n  \
         ::rust_out::foo(__param_0, __param_1)\n\
         }\n"
    );
}

#[test]
fn test_format_def_fn_with_destructuring_parameter_name() {
    // A pattern-bound parameter has no name of its own and gets a positional
    // one; a struct parameter is moved into the shim call.
    let it = fb_fn(
        "func",
        "_ZN8rust_out4funcE",
        Abi::Other,
        vec![("", RsType::Aggregate { index: 0, generic_args: 0 })],
        RsType::I32,
    );
    let ti = fb_translate(&it).unwrap().unwrap();
    assert!(ti.cc.tokens.contains("inline std::int32_t func(::rust_out::S __param_0)"));
    assert!(ti.cc.tokens.contains("(std::move(__param_0));"));
    assert!(ti.rs.contains("(__param_0: ::rust_out::S) -> i32"));
    assert!(ti.rs.contains("::rust_out::func(__param_0)"));
}

#[test]
fn test_format_def_fn_with_cc_prerequisites() {
    let it = fb_fn(
        "foo",
        "_ZN8rust_out4foo3E",
        Abi::Other,
        vec![("_i", RsType::I32)],
        RsType::Aggregate { index: 0, generic_args: 0 },
    );
    let ti = fb_translate(&it).unwrap().unwrap();
    assert!(ti.cc.tokens.contains("::rust_out::S foo(std::int32_t _i)"));
    assert_eq!(ti.cc.prereqs.includes, vec![CcInclude::Cstdint]);
    assert_eq!(ti.cc.prereqs.defs.len(), 1);
}

#[test]
fn test_format_def_unsupported_fn_unsafe() {
    let mut it = fb_fn("foo", "foo", Abi::C, vec![], RsType::Unit);
    if let ItemKind::Fn(f) = &mut it.kind {
        f.sig.is_unsafe = true;
    }
    let err = fb_translate(&it).unwrap_err();
    assert_eq!(err, "Bindings for `unsafe` functions are not fully designed yet");
}

#[test]
fn test_format_def_unsupported_fn_variadic() {
    let mut it = fb_fn("variadic_function", "variadic_function", Abi::C, vec![], RsType::Unit);
    if let ItemKind::Fn(f) = &mut it.kind {
        f.sig.c_variadic = true;
    }
    let err = fb_translate(&it).unwrap_err();
    assert_eq!(err, "C variadic functions are not supported");
}

#[test]
fn test_format_def_unsupported_fn_name_is_reserved_cpp_keyword() {
    let it = fb_fn("reinterpret_cast", "reinterpret_cast", Abi::C, vec![], RsType::Unit);
    let err = fb_translate(&it).unwrap_err();
    assert_eq!(
        err,
        "Error formatting function name: `reinterpret_cast` is a C++ reserved keyword \
         and can't be used as a C++ identifier"
    );
}

#[test]
fn test_format_def_unsupported_fn_ret_type() {
    let it = fb_fn(
        "foo",
        "foo",
        Abi::C,
        vec![],
        RsType::Tuple { text: "(i32, i32)".to_string() },
    );
    let err = fb_translate(&it).unwrap_err();
    assert_eq!(
        err,
        "Error formatting function return type: Tuples are not supported yet: (i32, i32)"
    );
}

#[test]
fn test_format_def_unsupported_fn_param_type() {
    let it = fb_fn(
        "foo",
        "foo",
        Abi::C,
        vec![("_param", RsType::Tuple { text: "(i32, i32)".to_string() })],
        RsType::Unit,
    );
    let err = fb_translate(&it).unwrap_err();
    assert_eq!(
        err,
        "Error formatting the type of parameter #0: Tuples are not supported yet: (i32, i32)"
    );
}

#[test]
fn test_format_def_unsupported_fn_param_type_unit() {
    let it = fb_fn(
        "fn_with_params",
        "fn_with_params",
        Abi::C,
        vec![("_param", RsType::Unit)],
        RsType::Unit,
    );
    let err = fb_translate(&it).unwrap_err();
    assert_eq!(
        err,
        "Error formatting the type of parameter #0: \
         `()` / `void` is only supported as a return type"
    );
}

#[test]
fn test_format_def_unsupported_fn_param_type_never() {
    let it = fb_fn(
        "fn_with_params",
        "fn_with_params",
        Abi::C,
        vec![("_param", RsType::Never)],
        RsType::Unit,
    );
    let err = fb_translate(&it).unwrap_err();
    assert_eq!(
        err,
        "Error formatting the type of parameter #0: \
         The never type `!` is only supported as a return type"
    );
}

#[test]
fn test_format_def_unsupported_generic_fn() {
    let mut it = fb_fn("generic_function", "generic_function", Abi::C, vec![], RsType::Unit);
    it.generic_params = 1;
    let err = fb_translate(&it).unwrap_err();
    assert_eq!(err, "Generics are not supported yet");
}

#[test]
fn test_format_def_unsupported_fn_with_late_bound_lifetimes() {
    // Lifetime parameters count as generic parameters.
    let mut it = fb_fn("foo", "foo", Abi::C, vec![("arg", RsType::I32)], RsType::I32);
    it.generic_params = 1;
    let err = fb_translate(&it).unwrap_err();
    assert_eq!(err, "Generics are not supported yet");
}

#[test]
fn test_format_def_fn_with_doc_comment_with_unmangled_name() {
    let mut it = fb_fn(
        "fn_with_doc_comment_with_unmangled_name",
        "fn_with_doc_comment_with_unmangled_name",
        Abi::C,
        vec![],
        RsType::Unit,
    );
    it.doc = " Outer line doc.\n\n Outer block doc that spans lines.\n             \n\n\
              Doc comment via doc attribute."
        .to_string();
    let ti = fb_translate(&it).unwrap().unwrap();
    assert!(ti.cc.tokens.starts_with("//  Outer line doc.\n"));
    assert!(ti.cc.tokens.contains(" Outer block doc that spans lines."));
    assert!(ti.cc.tokens.contains("Doc comment via doc attribute."));
    assert!(ti.cc.tokens.ends_with("extern \"C\" void fn_with_doc_comment_with_unmangled_name();\n"));
}

#[test]
fn test_format_def_fn_with_inner_doc_comment_with_unmangled_name() {
    let mut it = fb_fn(
        "fn_with_inner_doc_comment_with_unmangled_name",
        "fn_with_inner_doc_comment_with_unmangled_name",
        Abi::C,
        vec![],
        RsType::Unit,
    );
    it.doc = " Outer doc comment.\n\n Inner doc comment.".to_string();
    let ti = fb_translate(&it).unwrap().unwrap();
    assert!(ti.cc.tokens.contains(" Outer doc comment.\n\n Inner doc comment."));
}

#[test]
fn test_format_def_fn_with_doc_comment_with_mangled_name() {
    let mut it = fb_fn(
        "fn_with_doc_comment_with_mangled_name",
        "_ZN8rust_out4docE",
        Abi::C,
        vec![],
        RsType::Unit,
    );
    it.doc = " Doc comment of a function with mangled name.".to_string();
    let ti = fb_translate(&it).unwrap().unwrap();
    // The doc comment sits on the wrapper under the function's own name, not
    // on the raw internal declaration.
    assert!(ti.cc.tokens.contains(
        "}\n//  Doc comment of a function with mangled name.\n\
         inline void fn_with_doc_comment_with_mangled_name()"
    ));
}
