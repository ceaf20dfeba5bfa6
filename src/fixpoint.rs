//! Rewriting is a fixed point: what it produces holds no bound tag, and a
//! tree without a bound tag is left as it is.
use vstd::prelude::*;
use crate::ast::{AttrView, ElementView, IdentView, NodeView};
use crate::spec::{
    attr_has_match, attrs_have_match, element_has_match, matched_ident, node_has_match,
    nodes_have_match, rewrite_attr, rewrite_attrs, rewrite_element, rewrite_node, rewrite_nodes,
    tracker_attrs, tracker_ident,
};

verus! {

/// An element none of whose tags is bound is left as it is.
pub proof fn lemma_unmatched_element_unchanged(e: ElementView, bound: Set<IdentView>, file: Seq<char>)
    requires
        !element_has_match(e, bound),
    ensures
        rewrite_element(e, bound, file) == e,
    decreases e,
{
    lemma_unmatched_attrs_unchanged(e.attrs, bound, file);
    lemma_unmatched_nodes_unchanged(e.children, bound, file);
}

pub proof fn lemma_unmatched_attr_unchanged(a: AttrView, bound: Set<IdentView>, file: Seq<char>)
    requires
        !attr_has_match(a, bound),
    ensures
        rewrite_attr(a, bound, file) == a,
    decreases a,
{
    match a {
        AttrView::Attr { name, value } => match value {
            Some(n) => lemma_unmatched_node_unchanged(n, bound, file),
            None => {},
        },
        AttrView::Spread(n) => lemma_unmatched_node_unchanged(n, bound, file),
    }
}

pub proof fn lemma_unmatched_node_unchanged(n: NodeView, bound: Set<IdentView>, file: Seq<char>)
    requires
        !node_has_match(n, bound),
    ensures
        rewrite_node(n, bound, file) == n,
    decreases n,
{
    match n {
        NodeView::Element(e) => lemma_unmatched_element_unchanged(e, bound, file),
        NodeView::Code(s) => lemma_unmatched_nodes_unchanged(s, bound, file),
        _ => {},
    }
}

pub proof fn lemma_unmatched_attrs_unchanged(s: Seq<AttrView>, bound: Set<IdentView>, file: Seq<char>)
    requires
        !attrs_have_match(s, bound),
    ensures
        rewrite_attrs(s, bound, file) == s,
    decreases s,
{
    if s.len() == 0 {
        assert(rewrite_attrs(s, bound, file) =~= s);
    } else {
        let p = s.subrange(0, s.len() - 1);
        lemma_unmatched_attrs_unchanged(p, bound, file);
        lemma_unmatched_attr_unchanged(s[s.len() - 1], bound, file);
        assert(rewrite_attrs(s, bound, file) =~= s);
    }
}

pub proof fn lemma_unmatched_nodes_unchanged(s: Seq<NodeView>, bound: Set<IdentView>, file: Seq<char>)
    requires
        !nodes_have_match(s, bound),
    ensures
        rewrite_nodes(s, bound, file) == s,
    decreases s,
{
    if s.len() == 0 {
        assert(rewrite_nodes(s, bound, file) =~= s);
    } else {
        let p = s.subrange(0, s.len() - 1);
        lemma_unmatched_nodes_unchanged(p, bound, file);
        lemma_unmatched_node_unchanged(s[s.len() - 1], bound, file);
        assert(rewrite_nodes(s, bound, file) =~= s);
    }
}

/// Unless the tracker identifier is itself bound, a rewritten element holds
/// no bound tag.
pub proof fn lemma_rewritten_element_unmatched(e: ElementView, bound: Set<IdentView>, file: Seq<char>)
    requires
        !bound.contains(tracker_ident()),
    ensures
        !element_has_match(rewrite_element(e, bound, file), bound),
    decreases e,
{
    lemma_rewritten_attrs_unmatched(e.attrs, bound, file);
    lemma_rewritten_nodes_unmatched(e.children, bound, file);
    let attrs = rewrite_attrs(e.attrs, bound, file);
    match matched_ident(e, bound) {
        Some(id) => {
            let t = tracker_attrs(id, file, crate::spec::element_line(e));
            let s1 = attrs.push(t[0]);
            let s2 = s1.push(t[1]);
            assert(attrs + t =~= s2);
            assert(s2.subrange(0, s2.len() - 1) =~= s1);
            assert(s1.subrange(0, s1.len() - 1) =~= attrs);
            assert(!attr_has_match(t[0], bound));
            assert(!attr_has_match(t[1], bound));
        },
        None => {},
    }
}

pub proof fn lemma_rewritten_attr_unmatched(a: AttrView, bound: Set<IdentView>, file: Seq<char>)
    requires
        !bound.contains(tracker_ident()),
    ensures
        !attr_has_match(rewrite_attr(a, bound, file), bound),
    decreases a,
{
    match a {
        AttrView::Attr { name, value } => match value {
            Some(n) => lemma_rewritten_node_unmatched(n, bound, file),
            None => {},
        },
        AttrView::Spread(n) => lemma_rewritten_node_unmatched(n, bound, file),
    }
}

pub proof fn lemma_rewritten_node_unmatched(n: NodeView, bound: Set<IdentView>, file: Seq<char>)
    requires
        !bound.contains(tracker_ident()),
    ensures
        !node_has_match(rewrite_node(n, bound, file), bound),
    decreases n,
{
    match n {
        NodeView::Element(e) => lemma_rewritten_element_unmatched(e, bound, file),
        NodeView::Code(s) => lemma_rewritten_nodes_unmatched(s, bound, file),
        _ => {},
    }
}

pub proof fn lemma_rewritten_attrs_unmatched(s: Seq<AttrView>, bound: Set<IdentView>, file: Seq<char>)
    requires
        !bound.contains(tracker_ident()),
    ensures
        !attrs_have_match(rewrite_attrs(s, bound, file), bound),
    decreases s,
{
    if s.len() > 0 {
        let p = s.subrange(0, s.len() - 1);
        lemma_rewritten_attrs_unmatched(p, bound, file);
        lemma_rewritten_attr_unmatched(s[s.len() - 1], bound, file);
        let r = rewrite_attrs(s, bound, file);
        assert(r.subrange(0, r.len() - 1) =~= rewrite_attrs(p, bound, file));
    }
}

pub proof fn lemma_rewritten_nodes_unmatched(s: Seq<NodeView>, bound: Set<IdentView>, file: Seq<char>)
    requires
        !bound.contains(tracker_ident()),
    ensures
        !nodes_have_match(rewrite_nodes(s, bound, file), bound),
    decreases s,
{
    if s.len() > 0 {
        let p = s.subrange(0, s.len() - 1);
        lemma_rewritten_nodes_unmatched(p, bound, file);
        lemma_rewritten_node_unmatched(s[s.len() - 1], bound, file);
        let r = rewrite_nodes(s, bound, file);
        assert(r.subrange(0, r.len() - 1) =~= rewrite_nodes(p, bound, file));
    }
}

/// Rewriting an element a second time, with the same bindings, changes
/// nothing, unless the tracker identifier is itself bound.
pub proof fn lemma_rewrite_element_idempotent(e: ElementView, bound: Set<IdentView>, file: Seq<char>)
    requires
        !bound.contains(tracker_ident()),
    ensures
        rewrite_element(rewrite_element(e, bound, file), bound, file) == rewrite_element(e, bound, file),
{
    lemma_rewritten_element_unmatched(e, bound, file);
    lemma_unmatched_element_unchanged(rewrite_element(e, bound, file), bound, file);
}

} // verus!
