//! Identifier formatting: the C++ reserved-word check, and the rendering of a
//! qualified name for the C++ side and for the Rust side.

use vstd::prelude::*;
use vstd::string::StringExecFns;

use crate::error::Error;
use crate::text::str_eq;

verus! {

pub open spec fn reserved_group_a(s: Seq<char>) -> bool {
    ||| s == "alignas"@
    ||| s == "alignof"@
    ||| s == "and"@
    ||| s == "and_eq"@
    ||| s == "asm"@
    ||| s == "atomic_cancel"@
    ||| s == "atomic_commit"@
    ||| s == "atomic_noexcept"@
    ||| s == "auto"@
    ||| s == "bitand"@
    ||| s == "bitor"@
    ||| s == "bool"@
    ||| s == "break"@
    ||| s == "case"@
    ||| s == "catch"@
    ||| s == "char"@
}

pub open spec fn reserved_group_b(s: Seq<char>) -> bool {
    ||| s == "char8_t"@
    ||| s == "char16_t"@
    ||| s == "char32_t"@
    ||| s == "class"@
    ||| s == "compl"@
    ||| s == "concept"@
    ||| s == "const"@
    ||| s == "consteval"@
    ||| s == "constexpr"@
    ||| s == "constinit"@
    ||| s == "const_cast"@
    ||| s == "continue"@
    ||| s == "co_await"@
    ||| s == "co_return"@
    ||| s == "co_yield"@
    ||| s == "decltype"@
}

pub open spec fn reserved_group_c(s: Seq<char>) -> bool {
    ||| s == "default"@
    ||| s == "delete"@
    ||| s == "do"@
    ||| s == "double"@
    ||| s == "dynamic_cast"@
    ||| s == "else"@
    ||| s == "enum"@
    ||| s == "explicit"@
    ||| s == "export"@
    ||| s == "extern"@
    ||| s == "false"@
    ||| s == "float"@
    ||| s == "for"@
    ||| s == "friend"@
    ||| s == "goto"@
    ||| s == "if"@
}

pub open spec fn reserved_group_d(s: Seq<char>) -> bool {
    ||| s == "inline"@
    ||| s == "int"@
    ||| s == "long"@
    ||| s == "mutable"@
    ||| s == "namespace"@
    ||| s == "new"@
    ||| s == "noexcept"@
    ||| s == "not"@
    ||| s == "not_eq"@
    ||| s == "nullptr"@
    ||| s == "operator"@
    ||| s == "or"@
    ||| s == "or_eq"@
    ||| s == "private"@
    ||| s == "protected"@
    ||| s == "public"@
}

pub open spec fn reserved_group_e(s: Seq<char>) -> bool {
    ||| s == "reflexpr"@
    ||| s == "register"@
    ||| s == "reinterpret_cast"@
    ||| s == "requires"@
    ||| s == "return"@
    ||| s == "short"@
    ||| s == "signed"@
    ||| s == "sizeof"@
    ||| s == "static"@
    ||| s == "static_assert"@
    ||| s == "static_cast"@
    ||| s == "struct"@
    ||| s == "switch"@
    ||| s == "synchronized"@
    ||| s == "template"@
    ||| s == "this"@
}

pub open spec fn reserved_group_f(s: Seq<char>) -> bool {
    ||| s == "thread_local"@
    ||| s == "throw"@
    ||| s == "true"@
    ||| s == "try"@
    ||| s == "typedef"@
    ||| s == "typeid"@
    ||| s == "typename"@
    ||| s == "union"@
    ||| s == "unsigned"@
    ||| s == "using"@
    ||| s == "virtual"@
    ||| s == "void"@
    ||| s == "volatile"@
    ||| s == "wchar_t"@
    ||| s == "while"@
    ||| s == "xor"@
    ||| s == "xor_eq"@
}

/// Whether `s` spells a word that C++ reserves for itself.
pub open spec fn is_cpp_reserved(s: Seq<char>) -> bool {
    ||| reserved_group_a(s)
    ||| reserved_group_b(s)
    ||| reserved_group_c(s)
    ||| reserved_group_d(s)
    ||| reserved_group_e(s)
    ||| reserved_group_f(s)
}

fn check_group_a(s: &str) -> (r: bool)
    ensures
        r == reserved_group_a(s@),
{
    str_eq(s, "alignas") || str_eq(s, "alignof") || str_eq(s, "and") || str_eq(s, "and_eq")
        || str_eq(s, "asm") || str_eq(s, "atomic_cancel") || str_eq(s, "atomic_commit") || str_eq(
        s,
        "atomic_noexcept",
    ) || str_eq(s, "auto") || str_eq(s, "bitand") || str_eq(s, "bitor") || str_eq(s, "bool")
        || str_eq(s, "break") || str_eq(s, "case") || str_eq(s, "catch") || str_eq(s, "char")
}

fn check_group_b(s: &str) -> (r: bool)
    ensures
        r == reserved_group_b(s@),
{
    str_eq(s, "char8_t") || str_eq(s, "char16_t") || str_eq(s, "char32_t") || str_eq(s, "class")
        || str_eq(s, "compl") || str_eq(s, "concept") || str_eq(s, "const") || str_eq(
        s,
        "consteval",
    ) || str_eq(s, "constexpr") || str_eq(s, "constinit") || str_eq(s, "const_cast") || str_eq(
        s,
        "continue",
    ) || str_eq(s, "co_await") || str_eq(s, "co_return") || str_eq(s, "co_yield") || str_eq(
        s,
        "decltype",
    )
}

fn check_group_c(s: &str) -> (r: bool)
    ensures
        r == reserved_group_c(s@),
{
    str_eq(s, "default") || str_eq(s, "delete") || str_eq(s, "do") || str_eq(s, "double") || str_eq(
        s,
        "dynamic_cast",
    ) || str_eq(s, "else") || str_eq(s, "enum") || str_eq(s, "explicit") || str_eq(s, "export")
        || str_eq(s, "extern") || str_eq(s, "false") || str_eq(s, "float") || str_eq(s, "for")
        || str_eq(s, "friend") || str_eq(s, "goto") || str_eq(s, "if")
}

fn check_group_d(s: &str) -> (r: bool)
    ensures
        r == reserved_group_d(s@),
{
    str_eq(s, "inline") || str_eq(s, "int") || str_eq(s, "long") || str_eq(s, "mutable") || str_eq(
        s,
        "namespace",
    ) || str_eq(s, "new") || str_eq(s, "noexcept") || str_eq(s, "not") || str_eq(s, "not_eq")
        || str_eq(s, "nullptr") || str_eq(s, "operator") || str_eq(s, "or") || str_eq(s, "or_eq")
        || str_eq(s, "private") || str_eq(s, "protected") || str_eq(s, "public")
}

fn check_group_e(s: &str) -> (r: bool)
    ensures
        r == reserved_group_e(s@),
{
    str_eq(s, "reflexpr") || str_eq(s, "register") || str_eq(s, "reinterpret_cast") || str_eq(
        s,
        "requires",
    ) || str_eq(s, "return") || str_eq(s, "short") || str_eq(s, "signed") || str_eq(s, "sizeof")
        || str_eq(s, "static") || str_eq(s, "static_assert") || str_eq(s, "static_cast") || str_eq(
        s,
        "struct",
    ) || str_eq(s, "switch") || str_eq(s, "synchronized") || str_eq(s, "template") || str_eq(
        s,
        "this",
    )
}

fn check_group_f(s: &str) -> (r: bool)
    ensures
        r == reserved_group_f(s@),
{
    str_eq(s, "thread_local") || str_eq(s, "throw") || str_eq(s, "true") || str_eq(s, "try")
        || str_eq(s, "typedef") || str_eq(s, "typeid") || str_eq(s, "typename") || str_eq(
        s,
        "union",
    ) || str_eq(s, "unsigned") || str_eq(s, "using") || str_eq(s, "virtual") || str_eq(s, "void")
        || str_eq(s, "volatile") || str_eq(s, "wchar_t") || str_eq(s, "while") || str_eq(s, "xor")
        || str_eq(s, "xor_eq")
}

/// Whether `s` spells a word that C++ reserves for itself.
pub fn is_cpp_reserved_word(s: &str) -> (r: bool)
    ensures
        r == is_cpp_reserved(s@),
{
    check_group_a(s) || check_group_b(s) || check_group_c(s) || check_group_d(s) || check_group_e(s)
        || check_group_f(s)
}

/// Whether `s` can be used as a C++ identifier.
pub open spec fn cc_ident_ok(s: Seq<char>) -> bool {
    s.len() > 0 && !is_cpp_reserved(s)
}

/// The message with which the C++ identifier check rejects `s`.
pub open spec fn cc_ident_err(s: Seq<char>) -> Seq<char> {
    if s.len() == 0 {
        "An empty string is not a valid C++ identifier"@
    } else {
        "`"@ + s + "` is a C++ reserved keyword and can't be used as a C++ identifier"@
    }
}

/// Checks that `name` can be used as a C++ identifier and returns it unchanged.
///
/// Names handed to this crate come from identifiers of the source language and
/// are well-formed there; what remains to check is the collision with a word
/// that C++ reserves.
pub fn format_cc_ident(name: &str) -> (r: Result<String, Error>)
    ensures
        r is Ok <==> cc_ident_ok(name@),
        r matches Ok(s) ==> s@ == name@,
        r matches Err(e) ==> e@ == cc_ident_err(name@),
{
    if name.is_empty() {
        proof {
            assert(name@.len() == 0);
        }
        return Err(Error::new(String::from_str("An empty string is not a valid C++ identifier")));
    }
    if is_cpp_reserved_word(name) {
        let mut m = String::from_str("`");
        m.append(name);
        m.append("` is a C++ reserved keyword and can't be used as a C++ identifier");
        return Err(Error::new(m));
    }
    Ok(String::from_str(name))
}

/// The canonical cross-boundary address of an item: the crate that defines it,
/// the module path inside that crate, and the item's own name.
pub struct QualifiedName {
    /// Name of the crate that defines the item.
    pub krate: String,
    /// Names of the modules on the path from the crate root to the item.
    pub mod_path: Vec<String>,
    /// Name of the item itself.
    pub name: String,
}

impl QualifiedName {
    pub fn new(krate: String, mod_path: Vec<String>, name: String) -> (r: QualifiedName)
        ensures
            r.krate@ == krate@,
            r.mod_path.deep_view() == mod_path.deep_view(),
            r.name@ == name@,
    {
        QualifiedName { krate, mod_path, name }
    }
}

/// The module-path part of a qualified name, each segment followed by `::`.
pub open spec fn mods_prefix_text(mods: Seq<Seq<char>>) -> Seq<char>
    decreases mods.len(),
{
    if mods.len() == 0 {
        Seq::<char>::empty()
    } else {
        mods[0] + "::"@ + mods_prefix_text(mods.skip(1))
    }
}

/// The spelling of a qualified name, `::` separated, starting at the crate.
pub open spec fn qualified_text(q: QualifiedName) -> Seq<char> {
    "::"@ + q.krate@ + "::"@ + mods_prefix_text(q.mod_path.deep_view()) + q.name@
}

/// Whether every component of `q` passes the C++ identifier check.
pub open spec fn qname_cc_ok(q: QualifiedName) -> bool {
    &&& cc_ident_ok(q.krate@)
    &&& (forall|i: int| 0 <= i < q.mod_path.len() ==> cc_ident_ok(#[trigger] q.mod_path[i]@))
    &&& cc_ident_ok(q.name@)
}

/// The message of the first component of `q` that the identifier check rejects:
/// the crate's name, then the module path in order, then the item's name.
pub open spec fn qname_cc_err(q: QualifiedName) -> Seq<char> {
    if !cc_ident_ok(q.krate@) {
        cc_ident_err(q.krate@)
    } else if exists|i: int| 0 <= i < q.mod_path.len() && !cc_ident_ok(#[trigger] q.mod_path[i]@) {
        cc_ident_err(
            q.mod_path[choose|i: int|
                0 <= i < q.mod_path.len() && !cc_ident_ok(#[trigger] q.mod_path[i]@) && (forall|
                    j: int,
                |
                    0 <= j < i ==> cc_ident_ok(#[trigger] q.mod_path[j]@))]@,
        )
    } else {
        cc_ident_err(q.name@)
    }
}

impl QualifiedName {
    /// Renders the name for the C++ side, checking every component against the
    /// reserved words of C++.
    pub fn format_for_cc(&self) -> (r: Result<String, Error>)
        ensures
            r is Ok <==> qname_cc_ok(*self),
            r matches Ok(s) ==> s@ == qualified_text(*self),
            r matches Err(e) ==> e@ == qname_cc_err(*self),
    {
        let krate = match format_cc_ident(self.krate.as_str()) {
            Ok(k) => k,
            Err(e) => {
                return Err(e);
            },
        };
        let mut out = String::from_str("::");
        out.append(krate.as_str());
        out.append("::");
        let mut i: usize = 0;
        while i < self.mod_path.len()
            invariant
                i <= self.mod_path.len(),
                cc_ident_ok(self.krate@),
                forall|j: int| 0 <= j < i ==> cc_ident_ok(#[trigger] self.mod_path[j]@),
                out@ == "::"@ + self.krate@ + "::"@ + mods_prefix_text(
                    self.mod_path.deep_view().take(i as int),
                ),
            decreases self.mod_path.len() - i,
        {
            let seg = match format_cc_ident(self.mod_path[i].as_str()) {
                Ok(s) => s,
                Err(e) => {
                    proof {
                        let bad = i as int;
                        assert(!cc_ident_ok(self.mod_path[bad]@));
                        assert(qname_cc_err(*self) == cc_ident_err(self.mod_path[bad]@)) by {
                            let k = choose|k: int|
                                0 <= k < self.mod_path.len() && !cc_ident_ok(
                                    #[trigger] self.mod_path[k]@,
                                ) && (forall|j: int|
                                    0 <= j < k ==> cc_ident_ok(#[trigger] self.mod_path[j]@));
                            assert(0 <= k < self.mod_path.len() && !cc_ident_ok(self.mod_path[k]@)
                                && (forall|j: int|
                                0 <= j < k ==> cc_ident_ok(#[trigger] self.mod_path[j]@)));
                            if k < bad {
                                assert(cc_ident_ok(self.mod_path[k]@));
                            }
                            if k > bad {
                                assert(cc_ident_ok(self.mod_path[bad]@));
                            }
                            assert(k == bad);
                        }
                    }
                    return Err(e);
                },
            };
            out.append(seg.as_str());
            out.append("::");
            proof {
                let m = self.mod_path.deep_view();
                lemma_mods_prefix_snoc(m, i as int);
            }
            i = i + 1;
        }
        let name = match format_cc_ident(self.name.as_str()) {
            Ok(n) => n,
            Err(e) => {
                return Err(e);
            },
        };
        out.append(name.as_str());
        proof {
            assert(self.mod_path.deep_view().take(self.mod_path.len() as int)
                =~= self.mod_path.deep_view());
        }
        Ok(out)
    }

    /// Renders the name for the Rust side of the shims; the shims live in a
    /// separate crate, so the name starts at the defining crate.
    pub fn format_for_rs(&self) -> (r: String)
        ensures
            r@ == qualified_text(*self),
    {
        let mut out = String::from_str("::");
        out.append(self.krate.as_str());
        out.append("::");
        let mut i: usize = 0;
        while i < self.mod_path.len()
            invariant
                i <= self.mod_path.len(),
                out@ == "::"@ + self.krate@ + "::"@ + mods_prefix_text(
                    self.mod_path.deep_view().take(i as int),
                ),
            decreases self.mod_path.len() - i,
        {
            out.append(self.mod_path[i].as_str());
            out.append("::");
            proof {
                let m = self.mod_path.deep_view();
                lemma_mods_prefix_snoc(m, i as int);
            }
            i = i + 1;
        }
        out.append(self.name.as_str());
        proof {
            assert(self.mod_path.deep_view().take(self.mod_path.len() as int)
                =~= self.mod_path.deep_view());
        }
        out
    }

    /// The path under which an item is reported in comments about failures:
    /// the module path and the name, without the crate.
    pub fn display_path(&self) -> (r: String)
        ensures
            r@ == display_path_text(*self),
    {
        let mut out = String::new();
        let mut i: usize = 0;
        while i < self.mod_path.len()
            invariant
                i <= self.mod_path.len(),
                out@ == mods_prefix_text(self.mod_path.deep_view().take(i as int)),
            decreases self.mod_path.len() - i,
        {
            out.append(self.mod_path[i].as_str());
            out.append("::");
            proof {
                let m = self.mod_path.deep_view();
                lemma_mods_prefix_snoc(m, i as int);
            }
            i = i + 1;
        }
        out.append(self.name.as_str());
        proof {
            assert(self.mod_path.deep_view().take(self.mod_path.len() as int)
                =~= self.mod_path.deep_view());
        }
        out
    }
}

/// The path under which an item is reported in comments about failures.
pub open spec fn display_path_text(q: QualifiedName) -> Seq<char> {
    mods_prefix_text(q.mod_path.deep_view()) + q.name@
}

/// Appending one segment to a module path extends its rendered prefix by that
/// segment and `::`.
proof fn lemma_mods_prefix_snoc(mods: Seq<Seq<char>>, i: int)
    requires
        0 <= i < mods.len(),
    ensures
        mods_prefix_text(mods.take(i + 1)) == mods_prefix_text(mods.take(i)) + mods[i] + "::"@,
    decreases i,
{
    let a = mods.take(i + 1);
    let b = mods.take(i);
    if i == 0 {
        assert(a =~= seq![mods[0]]);
        assert(b =~= Seq::<Seq<char>>::empty());
        assert(a.skip(1) =~= Seq::<Seq<char>>::empty());
        assert(mods_prefix_text(a.skip(1)) == Seq::<char>::empty());
        assert(mods_prefix_text(a) == a[0] + "::"@ + mods_prefix_text(a.skip(1)));
        assert(mods_prefix_text(b) == Seq::<char>::empty());
        assert(mods_prefix_text(a) =~= mods_prefix_text(b) + mods[0] + "::"@);
    } else {
        let rest = mods.skip(1);
        assert(a[0] == mods[0]);
        assert(b[0] == mods[0]);
        assert(a.skip(1) =~= rest.take(i));
        assert(b.skip(1) =~= rest.take(i - 1));
        lemma_mods_prefix_snoc(rest, i - 1);
        assert(rest[i - 1] == mods[i]);
        assert(mods_prefix_text(a) == mods[0] + "::"@ + mods_prefix_text(rest.take(i)));
        assert(mods_prefix_text(rest.take(i)) == mods_prefix_text(rest.take(i - 1)) + mods[i]
            + "::"@);
        assert(mods[0] + "::"@ + (mods_prefix_text(rest.take(i - 1)) + mods[i] + "::"@) =~= (mods[0]
            + "::"@ + mods_prefix_text(rest.take(i - 1))) + mods[i] + "::"@);
    }
}

} // verus!
