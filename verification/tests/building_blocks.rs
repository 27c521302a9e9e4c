//! Tests of the shared building blocks: prerequisites, snippets, decimal
//! rendering, identifier checks, and qualified names.

use cc_bindings_from_rs::error::Error;
use cc_bindings_from_rs::names::{format_cc_ident, is_cpp_reserved_word, QualifiedName};
use cc_bindings_from_rs::snippet::{CcInclude, CcPrerequisites, CcSnippet};
use cc_bindings_from_rs::text::{str_eq, u64_to_dec};

#[test]
fn test_prerequisites_merge_is_order_independent() {
    let mut left = CcPrerequisites::new();
    left.insert_include(CcInclude::Utility);
    left.insert_def(5);
    left.insert_def(1);
    let mut right = CcPrerequisites::new();
    right.insert_include(CcInclude::Cstdint);
    right.insert_def(3);
    right.insert_def(5);

    let mut a = CcPrerequisites::new();
    a.insert_include(CcInclude::Utility);
    a.insert_def(5);
    a.insert_def(1);
    a.add_assign(right);

    let mut b = CcPrerequisites::new();
    b.insert_include(CcInclude::Cstdint);
    b.insert_def(3);
    b.insert_def(5);
    b.add_assign(left);

    assert_eq!(a.includes, vec![CcInclude::Cstdint, CcInclude::Utility]);
    assert_eq!(a.includes, b.includes);
    assert_eq!(a.defs, vec![1, 3, 5]);
    assert_eq!(a.defs, b.defs);
}

#[test]
fn test_prerequisites_deduplicate() {
    let mut p = CcPrerequisites::new();
    p.insert_include(CcInclude::Cstdint);
    p.insert_include(CcInclude::Cstdint);
    p.insert_def(4);
    p.insert_def(4);
    assert_eq!(p.includes, vec![CcInclude::Cstdint]);
    assert_eq!(p.defs, vec![4]);
}

#[test]
fn test_snippet_into_tokens_accumulates_prerequisites() {
    let s = CcSnippet::with_include("std::int32_t".to_string(), CcInclude::Cstdint);
    let mut acc = CcPrerequisites::new();
    assert!(acc.is_empty());
    let tokens = s.into_tokens(&mut acc);
    assert_eq!(tokens, "std::int32_t");
    assert_eq!(acc.includes, vec![CcInclude::Cstdint]);
    assert!(!acc.is_empty());
}

#[test]
fn test_u64_to_dec() {
    assert_eq!(u64_to_dec(0), "0");
    assert_eq!(u64_to_dec(7), "7");
    assert_eq!(u64_to_dec(10), "10");
    assert_eq!(u64_to_dec(1234567890), "1234567890");
    assert_eq!(u64_to_dec(u64::MAX), "18446744073709551615");
}

#[test]
fn test_str_eq() {
    assert!(str_eq("", ""));
    assert!(str_eq("abc", "abc"));
    assert!(!str_eq("abc", "abd"));
    assert!(!str_eq("abc", "abcd"));
}

#[test]
fn test_reserved_word_check() {
    for word in ["int", "class", "namespace", "reinterpret_cast", "xor_eq", "alignas"] {
        assert!(is_cpp_reserved_word(word), "{word}");
    }
    for word in ["foo", "int32", "classes", "Namespace", ""] {
        assert!(!is_cpp_reserved_word(word), "{word}");
    }
}

#[test]
fn test_format_cc_ident() {
    assert_eq!(format_cc_ident("foo").unwrap(), "foo");
    assert_eq!(
        format_cc_ident("double").unwrap_err().message(),
        "`double` is a C++ reserved keyword and can't be used as a C++ identifier"
    );
    assert_eq!(
        format_cc_ident("").unwrap_err().message(),
        "An empty string is not a valid C++ identifier"
    );
}

#[test]
fn test_qualified_name_rendering() {
    let q = QualifiedName::new(
        "rust_out".to_string(),
        vec!["foo".to_string(), "bar".to_string()],
        "Baz".to_string(),
    );
    assert_eq!(q.format_for_rs(), "::rust_out::foo::bar::Baz");
    assert_eq!(q.format_for_cc().unwrap(), "::rust_out::foo::bar::Baz");
    assert_eq!(q.display_path(), "foo::bar::Baz");

    let bad = QualifiedName::new(
        "rust_out".to_string(),
        vec!["template".to_string()],
        "Baz".to_string(),
    );
    assert_eq!(
        bad.format_for_cc().unwrap_err().message(),
        "`template` is a C++ reserved keyword and can't be used as a C++ identifier"
    );
}

#[test]
fn test_error_context_chains_messages() {
    let e = Error::new("the root cause".to_string());
    let e = e.context("an inner step");
    let e = e.context("an outer step");
    assert_eq!(e.message(), "an outer step: an inner step: the root cause");
}
