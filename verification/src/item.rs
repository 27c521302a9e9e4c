//! The item translator: dispatches one item of the surface to the function
//! binder or the aggregate binder, drops items that are not part of the
//! public surface, and rejects item kinds that cannot be translated.  A
//! failure is caught by the module assembler and becomes a comment at the
//! item's place in the output; it never stops the other items.

use vstd::prelude::*;
use vstd::string::StringExecFns;

use crate::aggregate::{
    aggregate_cc_assertions_text, aggregate_core_err, aggregate_core_ok, aggregate_data_text,
    aggregate_header_text, aggregate_members_text, aggregate_rs_assertions_text,
    bind_aggregate_core, bind_aggregate_data,
};
use crate::error::Error;
use crate::function::{
    bind_function, doc_prologue_text, fn_bind_err, fn_bindable, TranslatedItem,
};
use crate::model::{Aggregate, Item, ItemKind};
use crate::names::display_path_text;
use crate::snippet::CcSnippet;

verus! {

/// Renders a doc comment above a declaration; empty input gives no output.
pub fn render_doc_comment(doc: &str) -> (r: String)
    ensures
        r@ == doc_prologue_text(doc@),
{
    if doc.is_empty() {
        String::new()
    } else {
        let mut out = String::from_str("// ");
        out.append(doc);
        out.append("\n");
        out
    }
}

/// The comment that replaces an item whose translation failed.
pub open spec fn unsupported_comment_text(it: Item, msg: Seq<char>) -> Seq<char> {
    "// Error generating bindings for `"@ + display_path_text(it.qname) + "` defined at "@
        + it.location@ + ": "@ + msg + "\n"@
}

/// Formats the comment explaining why no binding was generated for an item.
pub fn format_unsupported_item(it: &Item, err: Error) -> (r: TranslatedItem)
    ensures
        r.cc.tokens@ == unsupported_comment_text(*it, err@),
        r.cc.prereqs.wf(),
        r.cc.prereqs.includes@ =~= Seq::<crate::snippet::CcInclude>::empty(),
        r.cc.prereqs.defs@ =~= Seq::<usize>::empty(),
        r.rs@ == Seq::<char>::empty(),
{
    let mut out = String::from_str("// Error generating bindings for `");
    out.append(it.qname.display_path().as_str());
    out.append("` defined at ");
    out.append(it.location.as_str());
    out.append(": ");
    out.append(err.message().as_str());
    out.append("\n");
    TranslatedItem { cc: CcSnippet::new(out), rs: String::new() }
}

/// Whether the translator silently drops the item: it is not part of the
/// public surface, or it is a pure namespacing container.
pub open spec fn item_skipped(it: Item) -> bool {
    !it.is_public || it.kind is Mod
}

/// Whether the translator produces a binding for the item.
pub open spec fn item_translated(it: Item, aggs: Seq<Aggregate>) -> bool {
    &&& it.is_public
    &&& match it.kind {
        ItemKind::Fn(f) => it.generic_params == 0 && fn_bindable(it, f, aggs),
        ItemKind::Aggregate { index } => it.generic_params == 0 && aggregate_core_ok(
            aggs[index as int],
        ),
        _ => false,
    }
}

/// The message with which the translator rejects the item.
pub open spec fn item_err_text(it: Item, aggs: Seq<Aggregate>) -> Seq<char> {
    match it.kind {
        ItemKind::Fn(f) => {
            if it.generic_params != 0 {
                "Generics are not supported yet"@
            } else {
                fn_bind_err(it, f, aggs)
            }
        },
        ItemKind::Aggregate { index } => {
            if it.generic_params != 0 {
                "Generics are not supported yet"@
            } else {
                aggregate_core_err(aggs[index as int])
            }
        },
        ItemKind::Other { descr } => "Unsupported item kind: "@ + descr@,
        ItemKind::Mod => Seq::<char>::empty(),
    }
}

/// The C++ declaration of a translated aggregate item: the doc comment, the
/// header, the member functions and the opaque data inside one braced block,
/// and the layout assertions after it.
pub open spec fn aggregate_cc_item_text(it: Item, a: Aggregate, size: nat, align: nat) -> Seq<
    char,
> {
    doc_prologue_text(it.doc@) + aggregate_header_text(a.name.name@, align) + " {\n"@
        + aggregate_members_text(a.name.name@) + aggregate_data_text(size) + "};\n"@
        + aggregate_cc_assertions_text(a.name.name@, size, align)
}

/// Translates one item.  `None` means the item was deliberately dropped; an
/// error means the item gets a comment instead of a binding.
pub fn translate_item(it: &Item, aggs: &Vec<Aggregate>) -> (r: Result<
    Option<TranslatedItem>,
    Error,
>)
    requires
        crate::model::item_wf(*it, aggs@.len() as nat),
    ensures
        r matches Ok(o) ==> ((o is Some <==> item_translated(*it, aggs@)) && (o is None
            <==> item_skipped(*it))),
        r is Err <==> (!item_skipped(*it) && !item_translated(*it, aggs@)),
        r matches Err(e) ==> e@ == item_err_text(*it, aggs@),
        r matches Ok(Some(ti)) ==> match it.kind {
            ItemKind::Fn(f) => {
                &&& ti.cc.tokens@ == crate::function::fn_cc_text(*it, f, aggs@)
                &&& ti.cc.prereqs.wf()
                &&& ti.cc.prereqs.includes_set() == crate::function::fn_includes_upto(
                    f,
                    aggs@,
                    crate::function::fn_needs_wrapper(*it, f),
                    f.sig.inputs.len() as int,
                )
                &&& ti.cc.prereqs.defs_set() == crate::function::fn_defs_upto(
                    f,
                    aggs@,
                    f.sig.inputs.len() as int,
                )
                &&& ti.rs@ == crate::function::fn_rs_text(*it, f, aggs@)
            },
            ItemKind::Aggregate { index } => {
                &&& (aggs@[index as int].layout matches Ok(l) && {
                    &&& ti.cc.tokens@ == aggregate_cc_item_text(
                        *it,
                        aggs@[index as int],
                        l.size as nat,
                        l.align as nat,
                    )
                    &&& ti.rs@ == aggregate_rs_assertions_text(
                        crate::names::qualified_text(aggs@[index as int].name),
                        l.size as nat,
                        l.align as nat,
                    )
                })
                &&& ti.cc.prereqs.wf()
                &&& ti.cc.prereqs.includes@ =~= Seq::<crate::snippet::CcInclude>::empty()
                &&& ti.cc.prereqs.defs@ =~= Seq::<usize>::empty()
            },
            _ => false,
        },
{
    if !it.is_public {
        return Ok(None);
    }
    match &it.kind {
        ItemKind::Mod => Ok(None),
        ItemKind::Other { descr } => {
            let mut m = String::from_str("Unsupported item kind: ");
            m.append(descr.as_str());
            Err(Error::new(m))
        },
        ItemKind::Fn(f) => {
            if it.generic_params != 0 {
                return Err(Error::new(String::from_str("Generics are not supported yet")));
            }
            match bind_function(it, f, aggs) {
                Ok(ti) => Ok(Some(ti)),
                Err(e) => Err(e),
            }
        },
        ItemKind::Aggregate { index } => {
            if it.generic_params != 0 {
                return Err(Error::new(String::from_str("Generics are not supported yet")));
            }
            let a = &aggs[*index];
            let core = match bind_aggregate_core(a) {
                Ok(c) => c,
                Err(e) => {
                    return Err(e);
                },
            };
            let data = bind_aggregate_data(a);
            let doc = render_doc_comment(it.doc.as_str());
            let mut out = doc;
            out.append(core.header.as_str());
            out.append(" {\n");
            out.append(core.members.as_str());
            out.append(data.as_str());
            out.append("};\n");
            out.append(core.cc_assertions.as_str());
            Ok(
                Some(
                    TranslatedItem {
                        cc: CcSnippet::new(out),
                        rs: core.rs_assertions,
                    },
                ),
            )
        },
    }
}

} // verus!
