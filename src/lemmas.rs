//! General facts about the transform, proved from its definition.
use vstd::prelude::*;
use crate::ast::{ElementView, IdentView, ItemView, NameView, SpecifierView};
use crate::settings::{ConfigView, ContextView, Environment};
use crate::fixpoint::{lemma_rewritten_node_unmatched, lemma_unmatched_node_unchanged};
use crate::spec::{
    item_has_match, rewrite_item, rewrite_node, BOUNDARY_TRACKER_PACKAGE_NAME,
    all_boundaries, bindings_of, element_line, insertion_index, is_enabled, item_binds,
    items_have_match, rewrite_attrs, rewrite_element, rewrite_items, rewrite_nodes, tracker_attrs,
    tracker_ident, tracker_import, transform_items,
};

verus! {

/// A module in which no import binds a configured boundary comes out of the
/// transform unchanged.
pub proof fn lemma_no_boundary_import_unchanged(items: Seq<ItemView>, c: ConfigView, ctx: ContextView)
    requires
        forall|i: int, id: IdentView|
            0 <= i < items.len() ==> !#[trigger] item_binds(items[i], all_boundaries(c), id),
    ensures
        transform_items(items, c, ctx) == items,
{
    assert(bindings_of(items, all_boundaries(c)) =~= Set::<IdentView>::empty());
}

/// An element whose tag identifier no import binds to a boundary keeps its
/// tags and gains no attribute, whatever its spelling: a binding is told
/// apart by its spelling together with its syntax context.
pub proof fn lemma_unbound_tag_kept(
    e: ElementView,
    id: IdentView,
    items: Seq<ItemView>,
    c: ConfigView,
    file: Seq<char>,
)
    requires
        e.name == NameView::Ident(id),
        forall|i: int| 0 <= i < items.len() ==> !item_binds(#[trigger] items[i], all_boundaries(c), id),
    ensures
        ({
            let r = rewrite_element(e, bindings_of(items, all_boundaries(c)), file);
            &&& r.name == e.name
            &&& r.closing == e.closing
            &&& r.attrs == rewrite_attrs(e.attrs, bindings_of(items, all_boundaries(c)), file)
            &&& r.children == rewrite_nodes(e.children, bindings_of(items, all_boundaries(c)), file)
        }),
{
    assert(!bindings_of(items, all_boundaries(c)).contains(id));
}

/// An import `{ component as local }` (or `{ component }`) from the module
/// of a configured boundary binds `local`, whatever the alias.
pub proof fn lemma_named_import_binds(
    items: Seq<ItemView>,
    c: ConfigView,
    i: int,
    k: int,
    j: int,
)
    requires
        0 <= i < items.len(),
        0 <= j < all_boundaries(c).len(),
        items[i] is Import,
        items[i]->Import_0.src == all_boundaries(c)[j].from,
        0 <= k < items[i]->Import_0.specifiers.len(),
        items[i]->Import_0.specifiers[k] is Named,
        match items[i]->Import_0.specifiers[k] {
            SpecifierView::Named { local, imported } => match imported {
                Some(name) => name == all_boundaries(c)[j].component,
                None => local.sym == all_boundaries(c)[j].component,
            },
            _ => false,
        },
    ensures
        bindings_of(items, all_boundaries(c)).contains(
            items[i]->Import_0.specifiers[k]->Named_local,
        ),
{
    let bs = all_boundaries(c);
    let d = items[i]->Import_0;
    let id = d.specifiers[k]->Named_local;
    assert(crate::spec::import_binds(d, bs[j], id));
    assert(item_binds(items[i], bs, id));
}

/// An element whose tag identifier is bound is renamed to the tracker, on
/// both tags, and gains the generated id and the original component as its
/// last two attributes.
pub proof fn lemma_bound_tag_rewritten(
    e: ElementView,
    id: IdentView,
    bound: Set<IdentView>,
    file: Seq<char>,
)
    requires
        e.name == NameView::Ident(id),
        bound.contains(id),
    ensures
        ({
            let r = rewrite_element(e, bound, file);
            &&& r.name == NameView::Ident(tracker_ident())
            &&& r.closing == (if e.closing is Some {
                Some(NameView::Ident(tracker_ident()))
            } else {
                None
            })
            &&& r.attrs == rewrite_attrs(e.attrs, bound, file) + tracker_attrs(id, file, element_line(e))
            &&& r.children == rewrite_nodes(e.children, bound, file)
        }),
{
}

/// The transform inserts at most one item, the tracker import, and only
/// where an element was rewritten; the other items keep their order.
pub proof fn lemma_single_tracker_import(items: Seq<ItemView>, c: ConfigView, ctx: ContextView)
    ensures
        ({
            let out = transform_items(items, c, ctx);
            let bound = bindings_of(items, all_boundaries(c));
            let k = insertion_index(items);
            if is_enabled(c, ctx) && !bound.is_empty() && items_have_match(items, bound) {
                &&& 0 <= k <= items.len()
                &&& out.len() == items.len() + 1
                &&& out[k] == ItemView::Import(tracker_import())
                &&& out.remove(k) == rewrite_items(items, bound, ctx.filename)
            } else {
                out.len() == items.len()
            }
        }),
{
    let out = transform_items(items, c, ctx);
    let bound = bindings_of(items, all_boundaries(c));
    let k = insertion_index(items);
    if is_enabled(c, ctx) && !bound.is_empty() && items_have_match(items, bound) {
        let r = rewrite_items(items, bound, ctx.filename);
        assert(out == r.insert(k, ItemView::Import(tracker_import())));
        assert(out.remove(k) =~= r);
    }
}

/// Switching the transform: `enabled = false` leaves every module unchanged, and so does an
/// unset `enabled` outside development; `enabled = true` transforms as an
/// unset `enabled` does in development, in any environment.
pub proof fn lemma_enabled_switch(items: Seq<ItemView>, c: ConfigView, ctx: ContextView)
    ensures
        c.enabled == Some(false) ==> transform_items(items, c, ctx) == items,
        c.enabled is None && ctx.env_name != Environment::Development ==> transform_items(
            items,
            c,
            ctx,
        ) == items,
        c.enabled == Some(true) ==> transform_items(items, c, ctx) == transform_items(
            items,
            ConfigView { enabled: None, ..c },
            ContextView { env_name: Environment::Development, ..ctx },
        ),
{
}

/// Equal modules under equal configuration and context give equal results,
/// generated ids included.
pub proof fn lemma_deterministic(
    items1: Seq<ItemView>,
    items2: Seq<ItemView>,
    c: ConfigView,
    ctx: ContextView,
)
    requires
        items1 == items2,
    ensures
        transform_items(items1, c, ctx) == transform_items(items2, c, ctx),
{
}

/// Items none of which holds a bound tag are left as they are.
proof fn lemma_unmatched_items_unchanged(s: Seq<ItemView>, bound: Set<IdentView>, file: Seq<char>)
    requires
        forall|i: int| 0 <= i < s.len() ==> !item_has_match(#[trigger] s[i], bound),
    ensures
        rewrite_items(s, bound, file) == s,
{
    assert forall|i: int| 0 <= i < s.len() implies #[trigger] rewrite_items(s, bound, file)[i] == s[i] by {
        assert(!item_has_match(s[i], bound));
        if let ItemView::Stmt(n) = s[i] {
            lemma_unmatched_node_unchanged(n, bound, file);
        }
    }
    assert(rewrite_items(s, bound, file) =~= s);
}

/// Transforming a module that the transform produced changes nothing more,
/// provided the tracker identifier is not itself bound and no configured
/// boundary comes from the tracker's module.
pub proof fn lemma_transform_idempotent(items: Seq<ItemView>, c: ConfigView, ctx: ContextView)
    requires
        !bindings_of(items, all_boundaries(c)).contains(tracker_ident()),
        forall|j: int|
            0 <= j < all_boundaries(c).len() ==> (#[trigger] all_boundaries(c)[j]).from
                != BOUNDARY_TRACKER_PACKAGE_NAME@,
    ensures
        transform_items(transform_items(items, c, ctx), c, ctx) == transform_items(items, c, ctx),
{
    let bs = all_boundaries(c);
    let bound = bindings_of(items, bs);
    let file = ctx.filename;
    let out = transform_items(items, c, ctx);
    if !is_enabled(c, ctx) || bound.is_empty() {
        return;
    }
    let r = rewrite_items(items, bound, file);
    let tracker = ItemView::Import(tracker_import());
    assert forall|id: IdentView| !item_binds(tracker, bs, id) by {
        if item_binds(tracker, bs, id) {
            let j = choose|j: int| 0 <= j < bs.len() && crate::spec::import_binds(tracker_import(), #[trigger] bs[j], id);
            assert(bs[j].from == BOUNDARY_TRACKER_PACKAGE_NAME@);
        }
    }
    assert(!item_has_match(tracker, bound));
    // every item of the output binds what the matching input item binds,
    // and none holds a bound tag
    assert forall|i: int| 0 <= i < r.len() implies
        (forall|id: IdentView| #[trigger] item_binds(r[i], bs, id) == item_binds(items[i], bs, id))
        && !item_has_match(#[trigger] r[i], bound) by {
        if let ItemView::Stmt(n) = items[i] {
            lemma_rewritten_node_unmatched(n, bound, file);
        }
    }
    if items_have_match(items, bound) {
        let k = insertion_index(items);
        lemma_single_tracker_import(items, c, ctx);
        assert(out == r.insert(k, tracker));
        assert forall|i: int| 0 <= i < out.len() implies !item_has_match(#[trigger] out[i], bound) by {
            if i < k {
                assert(out[i] == r[i]);
            } else if i > k {
                assert(out[i] == r[i - 1]);
            }
        }
        assert forall|id: IdentView| bindings_of(out, bs).contains(id) == bound.contains(id) by {
            if bindings_of(out, bs).contains(id) {
                let i = choose|i: int| 0 <= i < out.len() && item_binds(#[trigger] out[i], bs, id);
                if i < k {
                    assert(out[i] == r[i]);
                    assert(item_binds(items[i], bs, id));
                } else if i > k {
                    assert(out[i] == r[i - 1]);
                    assert(item_binds(items[i - 1], bs, id));
                }
            }
            if bound.contains(id) {
                let i = choose|i: int| 0 <= i < items.len() && item_binds(#[trigger] items[i], bs, id);
                if i < k {
                    assert(out[i] == r[i]);
                    assert(item_binds(out[i], bs, id));
                } else {
                    assert(out[i + 1] == r[i]);
                    assert(item_binds(out[i + 1], bs, id));
                }
            }
        }
        assert(bindings_of(out, bs) =~= bound);
    } else {
        assert(out == r);
        assert forall|id: IdentView| bindings_of(out, bs).contains(id) == bound.contains(id) by {
            if bindings_of(out, bs).contains(id) {
                let i = choose|i: int| 0 <= i < out.len() && item_binds(#[trigger] out[i], bs, id);
                assert(item_binds(items[i], bs, id));
            }
            if bound.contains(id) {
                let i = choose|i: int| 0 <= i < items.len() && item_binds(#[trigger] items[i], bs, id);
                assert(item_binds(out[i], bs, id));
            }
        }
        assert(bindings_of(out, bs) =~= bound);
    }
    lemma_unmatched_items_unchanged(out, bound, file);
}

} // verus!
