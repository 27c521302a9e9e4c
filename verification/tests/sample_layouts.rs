//! Anchors the layout numbers used in the end-to-end scenarios to the
//! layouts that the Rust compiler actually gives the sample subject types,
//! and runs the generator over a surface describing them.

use cc_bindings_from_rs::assemble::GeneratedBindings;
use cc_bindings_from_rs::model::{
    Aggregate, Item, ItemKind, Layout, ModuleSurface, PanicStrategy,
};
use cc_bindings_from_rs::names::QualifiedName;
use cc_bindings_from_rs::sample::{
    FirstStruct, S, SecondStruct, Trivial, TrivialNonfinal, TrivialWithDefaulted,
};

fn sl_qn(name: &str) -> QualifiedName {
    QualifiedName::new("sample".to_string(), vec![], name.to_string())
}

fn sl_described(name: &str, item: usize, size: usize, align: usize) -> Aggregate {
    Aggregate {
        name: sl_qn(name),
        is_local: true,
        item,
        needs_drop: false,
        layout: Ok(Layout { size: size as u64, align: align as u64 }),
        is_copy: false,
    }
}

fn sl_item(name: &str, index: usize) -> Item {
    Item {
        qname: sl_qn(name),
        location: "sample.rs:1:1".to_string(),
        is_public: true,
        generic_params: 0,
        doc: String::new(),
        kind: ItemKind::Aggregate { index },
    }
}

#[test]
fn test_sample_types_have_the_expected_layouts() {
    assert_eq!(std::mem::size_of::<Trivial>(), 4);
    assert_eq!(std::mem::align_of::<Trivial>(), 4);
    assert_eq!(std::mem::size_of::<TrivialWithDefaulted>(), 4);
    assert_eq!(std::mem::align_of::<TrivialWithDefaulted>(), 4);
    assert_eq!(std::mem::size_of::<TrivialNonfinal>(), 4);
    assert_eq!(std::mem::align_of::<TrivialNonfinal>(), 4);
    assert_eq!(std::mem::size_of::<FirstStruct>(), 4);
    assert_eq!(std::mem::size_of::<SecondStruct>(), 4);
    assert_eq!(std::mem::size_of::<S>(), 1);
    let v = Trivial { trivial_field: 7 };
    assert_eq!(v.trivial_field, 7);
    let _ = S::new();
}

#[test]
fn test_generate_over_the_sample_surface() {
    // Describe the sample types with their real layouts and check that the
    // generator emits assertions with exactly those numbers.
    let m = ModuleSurface {
        name: "sample".to_string(),
        panic_strategy: PanicStrategy::Abort,
        items: vec![
            sl_item("Trivial", 0),
            sl_item("TrivialWithDefaulted", 1),
            sl_item("TrivialNonfinal", 2),
        ],
        aggregates: vec![
            sl_described(
                "Trivial",
                0,
                std::mem::size_of::<Trivial>(),
                std::mem::align_of::<Trivial>(),
            ),
            sl_described(
                "TrivialWithDefaulted",
                1,
                std::mem::size_of::<TrivialWithDefaulted>(),
                std::mem::align_of::<TrivialWithDefaulted>(),
            ),
            sl_described(
                "TrivialNonfinal",
                2,
                std::mem::size_of::<TrivialNonfinal>(),
                std::mem::align_of::<TrivialNonfinal>(),
            ),
        ],
    };
    let gb = GeneratedBindings::generate(&m).unwrap();
    assert!(gb.h_body.contains("struct alignas(4) Trivial final {\n"));
    assert!(gb.h_body.contains("unsigned char opaque_blob_of_bytes[4];\n"));
    assert!(gb.h_body.contains("static_assert(sizeof(Trivial) == 4,"));
    assert!(gb.h_body.contains("static_assert(alignof(TrivialWithDefaulted) == 4,"));
    assert!(gb.h_body.contains("static_assert(sizeof(TrivialNonfinal) == 4,"));
    assert!(gb.rs_body.contains("size_of::<::sample::Trivial>() == 4"));
    assert!(gb.rs_body.contains("align_of::<::sample::TrivialNonfinal>() == 4"));
    // Three independent aggregates keep their declaration order.
    let p0 = gb.h_body.find("struct alignas(4) Trivial final").unwrap();
    let p1 = gb.h_body.find("struct alignas(4) TrivialWithDefaulted final").unwrap();
    let p2 = gb.h_body.find("struct alignas(4) TrivialNonfinal final").unwrap();
    assert!(p0 < p1 && p1 < p2);
}
