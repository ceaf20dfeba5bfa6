//! What the transform does, stated over the views of module trees.
use vstd::prelude::*;
use crate::ast::{AttrView, ElementView, IdentView, ImportView, ItemView, NameView, NodeView, SpecifierView};
use crate::helpers::{approximate_line, boundary_id};
use crate::settings::{BoundaryView, ConfigView, ContextView, Environment};

verus! {

/// The module the tracker component is imported from.
pub const BOUNDARY_TRACKER_PACKAGE_NAME: &'static str = "react-swc-suspense-tracker/context";

/// The name of the tracker component.
pub const BOUNDARY_TRACKER_IMPORT_NAME: &'static str = "BoundaryTrackerSWC";

/// The attribute that carries a rewritten element's generated id.
pub const BOUNDARY_ID_PROPERTY_NAME: &'static str = "boundaryId";

/// The attribute that carries the original component of a rewritten element.
pub const BOUNDARY_NAME_PROPERTY_NAME: &'static str = "boundary";

/// The boundary that is always configured: `Suspense` from `react`.
pub open spec fn suspense_boundary() -> BoundaryView {
    BoundaryView { component: "Suspense"@, from: "react"@ }
}

/// Every configured boundary, the built-in one first.
pub open spec fn all_boundaries(c: ConfigView) -> Seq<BoundaryView> {
    seq![suspense_boundary()] + c.boundaries
}

/// Whether the transform runs: an explicit `enabled` decides; unset, only development runs.
pub open spec fn is_enabled(c: ConfigView, ctx: ContextView) -> bool {
    match c.enabled {
        Some(b) => b,
        None => ctx.env_name == Environment::Development,
    }
}

// ---------------------------------------------------------------------------
// Binding resolution
// ---------------------------------------------------------------------------

/// The name a specifier imports under, as the source module exports it;
/// `None` for a namespace import, which never names a boundary.
pub open spec fn exported_name(s: SpecifierView) -> Option<Seq<char>> {
    match s {
        SpecifierView::Named { local, imported } => match imported {
            Some(name) => Some(name),
            None => Some(local.sym),
        },
        SpecifierView::Default { local } => Some(local.sym),
        SpecifierView::Namespace { .. } => None,
    }
}

/// The identifier a specifier binds in the module.
pub open spec fn local_of(s: SpecifierView) -> IdentView {
    match s {
        SpecifierView::Named { local, .. } => local,
        SpecifierView::Default { local } => local,
        SpecifierView::Namespace { local } => local,
    }
}

/// The declaration `d` binds `id` to the boundary `b`.
pub open spec fn import_binds(d: ImportView, b: BoundaryView, id: IdentView) -> bool {
    &&& d.src == b.from
    &&& exists|k: int|
        0 <= k < d.specifiers.len() && exported_name(#[trigger] d.specifiers[k]) == Some(
            b.component,
        ) && local_of(d.specifiers[k]) == id
}

/// The declaration `d` binds `id` to one of the boundaries `bs`.
pub open spec fn import_binds_any(d: ImportView, bs: Seq<BoundaryView>, id: IdentView) -> bool {
    exists|j: int| 0 <= j < bs.len() && import_binds(d, #[trigger] bs[j], id)
}

/// The item `it` is an import declaration that binds `id` to one of `bs`.
pub open spec fn item_binds(it: ItemView, bs: Seq<BoundaryView>, id: IdentView) -> bool {
    match it {
        ItemView::Import(d) => import_binds_any(d, bs, id),
        ItemView::Stmt(_) => false,
    }
}

/// The identifiers that the top-level imports of `items` bind to boundaries.
pub open spec fn bindings_of(items: Seq<ItemView>, bs: Seq<BoundaryView>) -> Set<IdentView> {
    Set::new(|id: IdentView| exists|i: int| 0 <= i < items.len() && item_binds(#[trigger] items[i], bs, id))
}

// ---------------------------------------------------------------------------
// Matching and rewriting
// ---------------------------------------------------------------------------

/// The tag identifier of `e`, where it is one of the bound identifiers.
pub open spec fn matched_ident(e: ElementView, bound: Set<IdentView>) -> Option<IdentView> {
    match e.name {
        NameView::Ident(id) => if bound.contains(id) {
            Some(id)
        } else {
            None
        },
        NameView::Qualified(_) => None,
    }
}

/// The tracker identifier, bound at module scope.
pub open spec fn tracker_ident() -> IdentView {
    IdentView { sym: BOUNDARY_TRACKER_IMPORT_NAME@, ctxt: 0 }
}

/// The line of an element's start: the host's, else the approximation.
pub open spec fn element_line(e: ElementView) -> u32 {
    match e.line {
        Some(l) => l,
        None => approximate_line(e.span_lo),
    }
}

/// The attributes added to a rewritten element whose tag was `id`.
pub open spec fn tracker_attrs(id: IdentView, file: Seq<char>, line: u32) -> Seq<AttrView> {
    seq![
        AttrView::Attr {
            name: BOUNDARY_ID_PROPERTY_NAME@,
            value: Some(NodeView::Str(boundary_id(file, line as nat))),
        },
        AttrView::Attr { name: BOUNDARY_NAME_PROPERTY_NAME@, value: Some(NodeView::Ident(id)) },
    ]
}

pub open spec fn rewrite_element(e: ElementView, bound: Set<IdentView>, file: Seq<char>) -> ElementView
    decreases e,
{
    let attrs = rewrite_attrs(e.attrs, bound, file);
    let children = rewrite_nodes(e.children, bound, file);
    match matched_ident(e, bound) {
        Some(id) => ElementView {
            name: NameView::Ident(tracker_ident()),
            attrs: attrs + tracker_attrs(id, file, element_line(e)),
            children,
            closing: match e.closing {
                Some(_) => Some(NameView::Ident(tracker_ident())),
                None => None,
            },
            ..e
        },
        None => ElementView { attrs, children, ..e },
    }
}

pub open spec fn rewrite_attr(a: AttrView, bound: Set<IdentView>, file: Seq<char>) -> AttrView
    decreases a,
{
    match a {
        AttrView::Attr { name, value } => AttrView::Attr {
            name,
            value: match value {
                Some(n) => Some(rewrite_node(n, bound, file)),
                None => None,
            },
        },
        AttrView::Spread(n) => AttrView::Spread(rewrite_node(n, bound, file)),
    }
}

pub open spec fn rewrite_node(n: NodeView, bound: Set<IdentView>, file: Seq<char>) -> NodeView
    decreases n,
{
    match n {
        NodeView::Element(e) => NodeView::Element(rewrite_element(e, bound, file)),
        NodeView::Code(s) => NodeView::Code(rewrite_nodes(s, bound, file)),
        _ => n,
    }
}

pub open spec fn rewrite_attrs(s: Seq<AttrView>, bound: Set<IdentView>, file: Seq<char>) -> Seq<AttrView>
    decreases s,
{
    if s.len() == 0 {
        Seq::empty()
    } else {
        rewrite_attrs(s.subrange(0, s.len() - 1), bound, file).push(
            rewrite_attr(s[s.len() - 1], bound, file),
        )
    }
}

pub open spec fn rewrite_nodes(s: Seq<NodeView>, bound: Set<IdentView>, file: Seq<char>) -> Seq<NodeView>
    decreases s,
{
    if s.len() == 0 {
        Seq::empty()
    } else {
        rewrite_nodes(s.subrange(0, s.len() - 1), bound, file).push(
            rewrite_node(s[s.len() - 1], bound, file),
        )
    }
}

/// `e` or an element inside it has a bound tag.
pub open spec fn element_has_match(e: ElementView, bound: Set<IdentView>) -> bool
    decreases e,
{
    matched_ident(e, bound) is Some || attrs_have_match(e.attrs, bound) || nodes_have_match(
        e.children,
        bound,
    )
}

pub open spec fn attr_has_match(a: AttrView, bound: Set<IdentView>) -> bool
    decreases a,
{
    match a {
        AttrView::Attr { value, .. } => match value {
            Some(n) => node_has_match(n, bound),
            None => false,
        },
        AttrView::Spread(n) => node_has_match(n, bound),
    }
}

pub open spec fn node_has_match(n: NodeView, bound: Set<IdentView>) -> bool
    decreases n,
{
    match n {
        NodeView::Element(e) => element_has_match(e, bound),
        NodeView::Code(s) => nodes_have_match(s, bound),
        _ => false,
    }
}

pub open spec fn attrs_have_match(s: Seq<AttrView>, bound: Set<IdentView>) -> bool
    decreases s,
{
    if s.len() == 0 {
        false
    } else {
        attrs_have_match(s.subrange(0, s.len() - 1), bound) || attr_has_match(
            s[s.len() - 1],
            bound,
        )
    }
}

pub open spec fn nodes_have_match(s: Seq<NodeView>, bound: Set<IdentView>) -> bool
    decreases s,
{
    if s.len() == 0 {
        false
    } else {
        nodes_have_match(s.subrange(0, s.len() - 1), bound) || node_has_match(
            s[s.len() - 1],
            bound,
        )
    }
}

// ---------------------------------------------------------------------------
// Module items and the tracker import
// ---------------------------------------------------------------------------

pub open spec fn rewrite_item(it: ItemView, bound: Set<IdentView>, file: Seq<char>) -> ItemView {
    match it {
        ItemView::Import(d) => ItemView::Import(d),
        ItemView::Stmt(n) => ItemView::Stmt(rewrite_node(n, bound, file)),
    }
}

pub open spec fn rewrite_items(s: Seq<ItemView>, bound: Set<IdentView>, file: Seq<char>) -> Seq<ItemView> {
    s.map_values(|it: ItemView| rewrite_item(it, bound, file))
}

pub open spec fn item_has_match(it: ItemView, bound: Set<IdentView>) -> bool {
    match it {
        ItemView::Import(_) => false,
        ItemView::Stmt(n) => node_has_match(n, bound),
    }
}

pub open spec fn items_have_match(s: Seq<ItemView>, bound: Set<IdentView>) -> bool {
    exists|i: int| 0 <= i < s.len() && item_has_match(#[trigger] s[i], bound)
}

/// `i` is the position of the first import declaration of `s`.
pub open spec fn is_first_import(s: Seq<ItemView>, i: int) -> bool {
    &&& 0 <= i < s.len()
    &&& s[i] is Import
    &&& forall|j: int| 0 <= j < i ==> !(#[trigger] s[j] is Import)
}

/// Where the tracker import goes: before the first import, else at the start.
pub open spec fn insertion_index(s: Seq<ItemView>) -> int {
    if exists|i: int| is_first_import(s, i) {
        choose|i: int| is_first_import(s, i)
    } else {
        0
    }
}

/// `import { BoundaryTrackerSWC } from "react-swc-suspense-tracker/context";`
pub open spec fn tracker_import() -> ImportView {
    ImportView {
        specifiers: seq![SpecifierView::Named { local: tracker_ident(), imported: None }],
        src: BOUNDARY_TRACKER_PACKAGE_NAME@,
    }
}

/// The module items after the transform: unchanged when the transform is off
/// or no import binds a boundary; otherwise every element whose tag is a
/// bound identifier is rewritten, and where any was, the tracker import is
/// inserted once.
pub open spec fn transform_items(items: Seq<ItemView>, c: ConfigView, ctx: ContextView) -> Seq<ItemView> {
    if !is_enabled(c, ctx) {
        items
    } else {
        let bound = bindings_of(items, all_boundaries(c));
        if bound.is_empty() {
            items
        } else {
            let rewritten = rewrite_items(items, bound, ctx.filename);
            if items_have_match(items, bound) {
                rewritten.insert(insertion_index(items), ItemView::Import(tracker_import()))
            } else {
                rewritten
            }
        }
    }
}

// ---------------------------------------------------------------------------
// Facts about the sequence functions
// ---------------------------------------------------------------------------

pub proof fn lemma_rewrite_nodes(s: Seq<NodeView>, bound: Set<IdentView>, file: Seq<char>)
    ensures
        rewrite_nodes(s, bound, file).len() == s.len(),
        forall|j: int|
            0 <= j < s.len() ==> #[trigger] rewrite_nodes(s, bound, file)[j] == rewrite_node(
                s[j],
                bound,
                file,
            ),
    decreases s.len(),
{
    if s.len() > 0 {
        let t = s.subrange(0, s.len() - 1);
        lemma_rewrite_nodes(t, bound, file);
        assert forall|j: int| 0 <= j < s.len() implies #[trigger] rewrite_nodes(s, bound, file)[j]
            == rewrite_node(s[j], bound, file) by {
            if j < s.len() - 1 {
                assert(t[j] == s[j]);
            }
        }
    }
}

pub proof fn lemma_rewrite_attrs(s: Seq<AttrView>, bound: Set<IdentView>, file: Seq<char>)
    ensures
        rewrite_attrs(s, bound, file).len() == s.len(),
        forall|j: int|
            0 <= j < s.len() ==> #[trigger] rewrite_attrs(s, bound, file)[j] == rewrite_attr(
                s[j],
                bound,
                file,
            ),
    decreases s.len(),
{
    if s.len() > 0 {
        let t = s.subrange(0, s.len() - 1);
        lemma_rewrite_attrs(t, bound, file);
        assert forall|j: int| 0 <= j < s.len() implies #[trigger] rewrite_attrs(s, bound, file)[j]
            == rewrite_attr(s[j], bound, file) by {
            if j < s.len() - 1 {
                assert(t[j] == s[j]);
            }
        }
    }
}

/// A prefix one longer has a match exactly when the shorter one does or the
/// added node does.
pub proof fn lemma_nodes_have_match_step(s: Seq<NodeView>, i: int, bound: Set<IdentView>)
    requires
        0 <= i < s.len(),
    ensures
        nodes_have_match(s.subrange(0, i + 1), bound) == (nodes_have_match(s.subrange(0, i), bound)
            || node_has_match(s[i], bound)),
{
    let p = s.subrange(0, i + 1);
    assert(p.subrange(0, i) =~= s.subrange(0, i));
}

pub proof fn lemma_attrs_have_match_step(s: Seq<AttrView>, i: int, bound: Set<IdentView>)
    requires
        0 <= i < s.len(),
    ensures
        attrs_have_match(s.subrange(0, i + 1), bound) == (attrs_have_match(s.subrange(0, i), bound)
            || attr_has_match(s[i], bound)),
{
    let p = s.subrange(0, i + 1);
    assert(p.subrange(0, i) =~= s.subrange(0, i));
}

} // verus!
