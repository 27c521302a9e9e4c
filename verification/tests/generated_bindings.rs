//! End-to-end tests: whole surfaces in, whole bodies out, including the
//! ordering of declarations, the include block, and the failure comments.

use cc_bindings_from_rs::assemble::GeneratedBindings;
use cc_bindings_from_rs::model::{
    Abi, Aggregate, FnItem, FnSig, Item, ItemKind, Layout, ModuleSurface, PanicStrategy, RsType,
};
use cc_bindings_from_rs::names::QualifiedName;

fn gb_qn(mods: &[&str], name: &str) -> QualifiedName {
    QualifiedName::new(
        "rust_out".to_string(),
        mods.iter().map(|m| m.to_string()).collect(),
        name.to_string(),
    )
}

fn gb_agg(name: &str, item: usize, size: u64, align: u64) -> Aggregate {
    Aggregate {
        name: gb_qn(&[], name),
        is_local: true,
        item,
        needs_drop: false,
        layout: Ok(Layout { size, align }),
        is_copy: false,
    }
}

fn gb_fn_item(
    qname: QualifiedName,
    symbol: &str,
    abi: Abi,
    params: Vec<(&str, RsType)>,
    output: RsType,
) -> Item {
    let mut names = Vec::new();
    let mut inputs = Vec::new();
    for (n, t) in params {
        names.push(n.to_string());
        inputs.push(t);
    }
    Item {
        qname,
        location: "<the_module>:1:1".to_string(),
        is_public: true,
        generic_params: 0,
        doc: String::new(),
        kind: ItemKind::Fn(FnItem {
            symbol: symbol.to_string(),
            param_names: names,
            sig: FnSig { inputs, output, c_variadic: false, is_unsafe: false, abi },
        }),
    }
}

fn gb_agg_item(name: &str, index: usize) -> Item {
    Item {
        qname: gb_qn(&[], name),
        location: "<the_module>:2:1".to_string(),
        is_public: true,
        generic_params: 0,
        doc: String::new(),
        kind: ItemKind::Aggregate { index },
    }
}

fn gb_surface(items: Vec<Item>, aggregates: Vec<Aggregate>) -> ModuleSurface {
    ModuleSurface {
        name: "rust_out".to_string(),
        panic_strategy: PanicStrategy::Abort,
        items,
        aggregates,
    }
}

#[test]
fn test_generated_bindings_fn_no_mangle_extern_c() {
    let m = gb_surface(
        vec![gb_fn_item(
            gb_qn(&[], "public_function"),
            "public_function",
            Abi::C,
            vec![],
            RsType::Unit,
        )],
        vec![],
    );
    let gb = GeneratedBindings::generate(&m).unwrap();
    assert!(gb.h_body.contains("extern \"C\" void public_function();\n"));
    assert!(!gb.rs_body.contains("public_function"));
}

#[test]
fn test_generated_bindings_fn_export_name() {
    let m = gb_surface(
        vec![gb_fn_item(
            gb_qn(&[], "public_function"),
            "export_name",
            Abi::C,
            vec![("x", RsType::F64), ("y", RsType::F64)],
            RsType::F64,
        )],
        vec![],
    );
    let gb = GeneratedBindings::generate(&m).unwrap();
    assert!(gb.h_body.contains("namespace rust_out {\n"));
    assert!(gb.h_body.contains("extern \"C\" double export_name(double x, double y);\n"));
    assert!(gb.h_body.contains("inline double public_function(double x, double y) {\n"));
    assert!(gb.h_body.contains("return __bindings_internal::export_name(x, y);\n"));
}

#[test]
fn test_generated_bindings_struct() {
    let m = gb_surface(vec![gb_agg_item("Point", 0)], vec![gb_agg("Point", 0, 8, 4)]);
    let gb = GeneratedBindings::generate(&m).unwrap();
    assert!(gb.h_body.contains("namespace rust_out {\nstruct alignas(4) Point final {\n"));
    assert!(gb.h_body.contains("static_assert(sizeof(Point) == 8,"));
    assert!(gb.h_body.contains("static_assert(alignof(Point) == 4,"));
    assert!(gb.rs_body.contains(
        "const _: () = assert!(::std::mem::size_of::<::rust_out::Point>() == 8);\n\
         const _: () = assert!(::std::mem::align_of::<::rust_out::Point>() == 4);\n"
    ));
}

#[test]
fn test_generated_bindings_includes() {
    let m = gb_surface(
        vec![gb_fn_item(
            gb_qn(&[], "public_function"),
            "public_function",
            Abi::C,
            vec![("i", RsType::I32), ("d", RsType::Isize), ("u", RsType::U64)],
            RsType::Unit,
        )],
        vec![],
    );
    let gb = GeneratedBindings::generate(&m).unwrap();
    assert!(gb.h_body.contains("#include <cstdint>\n"));
    assert!(gb.h_body.contains(
        "extern \"C\" void public_function(std::int32_t i, std::intptr_t d, std::uint64_t u);\n"
    ));
}

#[test]
fn test_generated_bindings_prereq_defs_require_different_order() {
    // In the source, `f` comes before `S`; in the generated bindings the
    // declaration of `S` must come first.
    let f = gb_fn_item(
        gb_qn(&[], "f"),
        "_ZN8rust_out1fE",
        Abi::Other,
        vec![("s", RsType::Aggregate { index: 0, generic_args: 0 })],
        RsType::Bool,
    );
    let s = gb_agg_item("S", 0);
    let mut a = gb_agg("S", 1, 1, 1);
    a.item = 1;
    let m = gb_surface(vec![f, s], vec![a]);
    let gb = GeneratedBindings::generate(&m).unwrap();
    let struct_at = gb.h_body.find("struct alignas(1) S final").unwrap();
    let fn_at = gb.h_body.find("inline bool f(::rust_out::S s)").unwrap();
    assert!(struct_at < fn_at);
    let rs_assert_at = gb.rs_body.find("size_of::<::rust_out::S>() == 1").unwrap();
    let rs_thunk_at = gb.rs_body.find("#[no_mangle]").unwrap();
    assert!(rs_assert_at < rs_thunk_at);
}

#[test]
fn test_generated_bindings_module_basics() {
    let m = gb_surface(
        vec![
            Item {
                qname: gb_qn(&[], "some_module"),
                location: "<the_module>:1:1".to_string(),
                is_public: true,
                generic_params: 0,
                doc: String::new(),
                kind: ItemKind::Mod,
            },
            gb_fn_item(
                gb_qn(&["some_module"], "some_func"),
                "_ZN8rust_out11some_module9some_funcE",
                Abi::Other,
                vec![],
                RsType::Unit,
            ),
        ],
        vec![],
    );
    let gb = GeneratedBindings::generate(&m).unwrap();
    assert!(gb.h_body.contains("namespace some_module {\n"));
    assert!(gb.h_body.contains("inline void some_func() {\n"));
    assert!(gb.rs_body.contains("::rust_out::some_module::some_func()\n"));
}

#[test]
fn test_generated_bindings_module_name_is_cpp_reserved_keyword() {
    let m = gb_surface(
        vec![
            gb_fn_item(
                gb_qn(&["working_module"], "working_module_f1"),
                "_ZN1aE",
                Abi::Other,
                vec![],
                RsType::Unit,
            ),
            gb_fn_item(
                gb_qn(&["working_module"], "working_module_f2"),
                "_ZN1bE",
                Abi::Other,
                vec![],
                RsType::Unit,
            ),
            gb_fn_item(
                gb_qn(&["reinterpret_cast"], "broken_module_f1"),
                "_ZN1cE",
                Abi::Other,
                vec![],
                RsType::Unit,
            ),
        ],
        vec![],
    );
    let gb = GeneratedBindings::generate(&m).unwrap();
    assert!(gb.h_body.contains("namespace working_module {\n"));
    assert!(gb.h_body.contains("inline void working_module_f1()"));
    assert!(gb.h_body.contains("inline void working_module_f2()"));
    assert!(!gb.h_body.contains("namespace reinterpret_cast"));
    assert!(!gb.h_body.contains("broken_module_f1"));
    assert!(gb.h_body.contains(
        "// Failed to format namespace name `reinterpret_cast`: `reinterpret_cast` is a \
         C++ reserved keyword and can't be used as a C++ identifier\n"
    ));
}

#[test]
fn test_generated_bindings_non_pub_items() {
    let mut private_fn = gb_fn_item(
        gb_qn(&[], "private_function"),
        "private_function",
        Abi::C,
        vec![],
        RsType::Unit,
    );
    private_fn.is_public = false;
    let mut private_struct = gb_agg_item("PrivateStruct", 0);
    private_struct.is_public = false;
    let m = gb_surface(
        vec![private_fn, private_struct],
        vec![gb_agg("PrivateStruct", 1, 8, 4)],
    );
    let gb = GeneratedBindings::generate(&m).unwrap();
    assert!(!gb.h_body.contains("private_function"));
    assert!(!gb.rs_body.contains("private_function"));
    assert!(!gb.h_body.contains("PrivateStruct"));
    assert!(!gb.rs_body.contains("PrivateStruct"));
}

#[test]
fn test_generated_bindings_top_level_items() {
    let m = gb_surface(
        vec![gb_fn_item(
            gb_qn(&[], "public_function"),
            "_ZN8rust_out15public_functionE",
            Abi::Other,
            vec![],
            RsType::Unit,
        )],
        vec![],
    );
    let gb = GeneratedBindings::generate(&m).unwrap();
    let expected_top =
        "// Automatically @generated C++ bindings for the following Rust crate:\n// rust_out\n\n";
    assert!(gb.h_body.starts_with(expected_top));
    assert!(gb.rs_body.starts_with(expected_top));
    assert!(gb.h_body.contains("#pragma once\n"));
    assert!(gb.h_body.contains("namespace rust_out {\n"));
    assert!(gb.rs_body.contains("#![allow(improper_ctypes_definitions)]\n"));
}

#[test]
fn test_generated_bindings_unsupported_item() {
    let m = gb_surface(
        vec![gb_fn_item(
            gb_qn(&[], "reinterpret_cast"),
            "reinterpret_cast",
            Abi::C,
            vec![],
            RsType::Unit,
        )],
        vec![],
    );
    let gb = GeneratedBindings::generate(&m).unwrap();
    assert!(gb.h_body.contains(
        "// Error generating bindings for `reinterpret_cast` defined at <the_module>:1:1: \
         Error formatting function name: `reinterpret_cast` is a C++ reserved keyword \
         and can't be used as a C++ identifier\n"
    ));
}

#[test]
fn test_generate_rejects_the_unwind_panic_strategy() {
    let mut m = gb_surface(vec![], vec![]);
    m.panic_strategy = PanicStrategy::Unwind;
    let err = GeneratedBindings::generate(&m).unwrap_err();
    assert_eq!(err.message(), "No support for panic=unwind strategy");
}

#[test]
fn test_generate_with_reserved_crate_name_yields_a_failure_comment() {
    let mut m = gb_surface(vec![], vec![]);
    m.name = "switch".to_string();
    let gb = GeneratedBindings::generate(&m).unwrap();
    assert!(gb.h_body.contains(
        "// Failed to generate bindings for the crate: `switch` is a C++ reserved keyword \
         and can't be used as a C++ identifier\n"
    ));
    assert!(gb.rs_body.contains("// Failed to generate bindings for the crate:"));
}

#[test]
fn scenario_direct_declaration_for_a_compatible_convention() {
    // A function taking and returning a 32-bit signed integer under the C
    // convention: a direct declaration, no shim, and no includes beyond the
    // fixed-width integer header.
    let m = gb_surface(
        vec![gb_fn_item(
            gb_qn(&[], "next"),
            "next",
            Abi::C,
            vec![("i", RsType::I32)],
            RsType::I32,
        )],
        vec![],
    );
    let gb = GeneratedBindings::generate(&m).unwrap();
    assert!(gb.h_body.contains("extern \"C\" std::int32_t next(std::int32_t i);\n"));
    assert!(!gb.h_body.contains("inline"));
    assert!(!gb.h_body.contains("#include <utility>"));
    assert!(!gb.rs_body.contains("#[no_mangle]"));
}

#[test]
fn scenario_shim_for_an_incompatible_convention() {
    // A function with an incompatible convention and two floating-point
    // parameters: an internal raw declaration, an inline forwarding wrapper,
    // and a shim in the Rust body.
    let m = gb_surface(
        vec![gb_fn_item(
            gb_qn(&[], "add"),
            "_ZN8rust_out3addE",
            Abi::Other,
            vec![("x", RsType::F64), ("y", RsType::F64)],
            RsType::F64,
        )],
        vec![],
    );
    let gb = GeneratedBindings::generate(&m).unwrap();
    assert!(gb.h_body.contains(
        "namespace __bindings_internal {\n\
         extern \"C\" double __thunk__ZN8rust_out3addE(double x, double y);\n\
         }\n"
    ));
    assert!(gb.h_body.contains("inline double add(double x, double y) {\n"));
    assert!(gb.rs_body.contains(
        "#[no_mangle]\n\
         extern \"C\" fn __thunk__ZN8rust_out3addE(x: f64, y: f64) -> f64 {\n  \
         ::rust_out::add(x, y)\n\
         }\n"
    ));
}

#[test]
fn scenario_struct_with_a_custom_destructor_fails_transitively() {
    // The struct itself yields exactly one comment citing the drop-glue
    // restriction, and a function taking it fails citing the same cause.
    let mut a = gb_agg("DropStruct", 0, 8, 4);
    a.needs_drop = true;
    let m = gb_surface(
        vec![
            gb_agg_item("DropStruct", 0),
            gb_fn_item(
                gb_qn(&[], "takes_drop_struct"),
                "takes_drop_struct",
                Abi::C,
                vec![("v", RsType::Aggregate { index: 0, generic_args: 0 })],
                RsType::Unit,
            ),
        ],
        vec![a],
    );
    let gb = GeneratedBindings::generate(&m).unwrap();
    let own_comment = "// Error generating bindings for `DropStruct` defined at \
                       <the_module>:2:1: `Drop` trait and \"drop glue\" are not supported yet\n";
    assert_eq!(gb.h_body.matches(own_comment).count(), 1);
    assert!(gb.h_body.contains(
        "// Error generating bindings for `takes_drop_struct` defined at <the_module>:1:1: \
         Error formatting the type of parameter #0: Failed to generate bindings for the \
         definition of `::rust_out::DropStruct`: `Drop` trait and \"drop glue\" are not \
         supported yet\n"
    ));
    assert!(!gb.h_body.contains("struct alignas"));
    assert!(!gb.h_body.contains("inline"));
}

#[test]
fn scenario_mutually_independent_items_keep_their_source_order() {
    // Two structs and two functions with no dependencies between them come
    // out exactly in declaration order.
    let m = gb_surface(
        vec![
            gb_agg_item("FirstStruct", 0),
            gb_fn_item(gb_qn(&[], "first_func"), "first_func", Abi::C, vec![], RsType::I32),
            gb_agg_item("SecondStruct", 1),
            gb_fn_item(gb_qn(&[], "second_func"), "second_func", Abi::C, vec![], RsType::I32),
        ],
        vec![
            Aggregate {
                name: gb_qn(&[], "FirstStruct"),
                is_local: true,
                item: 0,
                needs_drop: false,
                layout: Ok(Layout { size: 4, align: 4 }),
                is_copy: true,
            },
            Aggregate {
                name: gb_qn(&[], "SecondStruct"),
                is_local: true,
                item: 2,
                needs_drop: false,
                layout: Ok(Layout { size: 4, align: 4 }),
                is_copy: true,
            },
        ],
    );
    let gb = GeneratedBindings::generate(&m).unwrap();
    let p0 = gb.h_body.find("struct alignas(4) FirstStruct final").unwrap();
    let p1 = gb.h_body.find("first_func").unwrap();
    let p2 = gb.h_body.find("struct alignas(4) SecondStruct final").unwrap();
    let p3 = gb.h_body.find("second_func").unwrap();
    assert!(p0 < p1 && p1 < p2 && p2 < p3);
}

#[test]
fn test_generated_bindings_whole_bodies_for_a_minimal_surface() {
    let m = gb_surface(
        vec![gb_fn_item(
            gb_qn(&[], "public_function"),
            "public_function",
            Abi::C,
            vec![],
            RsType::Unit,
        )],
        vec![],
    );
    let gb = GeneratedBindings::generate(&m).unwrap();
    assert_eq!(
        gb.h_body,
        "// Automatically @generated C++ bindings for the following Rust crate:\n\
         // rust_out\n\
         \n\
         #pragma once\n\
         \n\
         \n\
         namespace rust_out {\n\
         extern \"C\" void public_function();\n\
         }\n"
    );
    assert_eq!(
        gb.rs_body,
        "// Automatically @generated C++ bindings for the following Rust crate:\n\
         // rust_out\n\
         \n\
         #![allow(improper_ctypes_definitions)]\n\
         \n"
    );
}
