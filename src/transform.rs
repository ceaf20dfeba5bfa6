//! The transform: one visitor per module resolves the boundary imports,
//! rewrites every element bound to one of them and injects the tracker
//! import once.
use vstd::prelude::*;
use crate::ast::{
    Ident, IdentView, ImportDecl, ImportSpecifier, JsxAttr, JsxElement, JsxName, ModuleItem, Node,
    view_attr, view_attrs, view_items, view_node, view_nodes, lemma_view_attrs, lemma_view_nodes,
    ItemView,
};
use crate::helpers::{extract_line_number, generate_boundary_id};
use crate::settings::{Boundary, BoundaryView, Config, Context, Environment};
use crate::spec::{
    all_boundaries, attr_has_match, attrs_have_match, element_has_match, element_line,
    exported_name, import_binds, insertion_index, is_enabled, is_first_import, item_has_match,
    items_have_match, bindings_of, item_binds, lemma_attrs_have_match_step, lemma_nodes_have_match_step,
    lemma_rewrite_attrs, lemma_rewrite_nodes, local_of, matched_ident, node_has_match,
    nodes_have_match, rewrite_attr, rewrite_attrs, rewrite_element, rewrite_item, rewrite_items,
    rewrite_node, rewrite_nodes, suspense_boundary, tracker_attrs, tracker_ident, tracker_import,
    transform_items, BOUNDARY_ID_PROPERTY_NAME, BOUNDARY_NAME_PROPERTY_NAME,
    BOUNDARY_TRACKER_IMPORT_NAME, BOUNDARY_TRACKER_PACKAGE_NAME,
};

verus! {

/// The identifiers in `s`, as a set of views.
pub open spec fn ident_set(s: Seq<Ident>) -> Set<IdentView> {
    Set::new(|id: IdentView| exists|k: int| 0 <= k < s.len() && (#[trigger] s[k])@ == id)
}

proof fn lemma_ident_set_push(s: Seq<Ident>, x: Ident)
    ensures
        ident_set(s.push(x)) == ident_set(s).insert(x@),
{
    let t = s.push(x);
    assert forall|id: IdentView| ident_set(t).contains(id) implies ident_set(s).insert(x@).contains(id) by {
        let k = choose|k: int| 0 <= k < t.len() && (#[trigger] t[k])@ == id;
        if k < s.len() {
            assert(s[k] == t[k]);
        }
    }
    assert forall|id: IdentView| ident_set(s).insert(x@).contains(id) implies ident_set(t).contains(id) by {
        if id == x@ {
            assert(t[s.len() as int]@ == id);
        } else {
            let k = choose|k: int| 0 <= k < s.len() && (#[trigger] s[k])@ == id;
            assert(t[k] == s[k]);
        }
    }
    assert(ident_set(t) =~= ident_set(s).insert(x@));
}

/// The identifiers that the specifiers `specs[..k]` bind to `b`.
pub open spec fn specifier_bindings(specs: Seq<crate::ast::SpecifierView>, k: int, b: BoundaryView) -> Set<IdentView> {
    Set::new(|id: IdentView| exists|m: int| 0 <= m < k && exported_name(#[trigger] specs[m]) == Some(b.component) && local_of(specs[m]) == id)
}

/// The identifiers that `d` binds to one of `bs[..j]`.
pub open spec fn decl_bindings(d: crate::ast::ImportView, bs: Seq<BoundaryView>, j: int) -> Set<IdentView> {
    Set::new(|id: IdentView| exists|m: int| 0 <= m < j && import_binds(d, #[trigger] bs[m], id))
}

/// Per-module state of the transform.
pub struct TransformVisitor {
    config: Config,
    context: Context,
    /// Every configured boundary, the built-in one first.
    boundary_contexts: Vec<Boundary>,
    /// The identifiers that imports bind to a boundary.
    valid_boundary_idents: Vec<Ident>,
    /// Whether the tracker import was added.
    boundary_imports_added: bool,
    /// Whether an element was rewritten.
    has_boundary_elements: bool,
}

impl TransformVisitor {
    /// The configuration the visitor was made with.
    pub closed spec fn config_view(&self) -> crate::settings::ConfigView {
        self.config@
    }

    /// The context of the module the visitor was made for.
    pub closed spec fn context_view(&self) -> crate::settings::ContextView {
        self.context@
    }

    /// The identifiers recorded as bound to a boundary.
    pub closed spec fn bound(&self) -> Set<IdentView> {
        ident_set(self.valid_boundary_idents@)
    }

    /// Whether an element has been rewritten.
    pub closed spec fn found(&self) -> bool {
        self.has_boundary_elements
    }

    /// The configured boundaries, in order of precedence.
    pub closed spec fn boundary_views(&self) -> Seq<BoundaryView> {
        self.boundary_contexts@.map_values(|b: Boundary| b@)
    }

    /// The configured boundaries are the built-in one and the configuration's.
    pub open spec fn wf(&self) -> bool {
        self.boundary_views() == all_boundaries(self.config_view())
    }

    /// Nothing has been recorded yet.
    pub open spec fn is_fresh(&self) -> bool {
        &&& self.bound() == Set::<IdentView>::empty()
        &&& !self.import_added()
        &&& !self.found()
    }

    /// Whether the tracker import has been added.
    pub closed spec fn import_added(&self) -> bool {
        self.boundary_imports_added
    }

    /// `self` has the configuration, context and boundaries of `other`.
    pub open spec fn same_settings(&self, other: &TransformVisitor) -> bool {
        &&& self.config_view() == other.config_view()
        &&& self.context_view() == other.context_view()
        &&& self.boundary_views() == other.boundary_views()
    }

    /// `self` differs from `other` at most in whether an element was rewritten.
    pub open spec fn same_but_found(&self, other: &TransformVisitor) -> bool {
        &&& self.same_settings(other)
        &&& self.bound() == other.bound()
        &&& self.import_added() == other.import_added()
    }

    /// A fresh visitor for one module: `Suspense` from `react` is always a
    /// boundary, followed by the configured ones.
    pub fn new(config: Config, context: Context) -> (r: TransformVisitor)
        ensures
            r.wf(),
            r.is_fresh(),
            r.config_view() == config@,
            r.context_view() == context@,
            r.boundary_views() == all_boundaries(config@),
            r.bound() == Set::<IdentView>::empty(),
            !r.found(),
            !r.import_added(),
    {
        let mut boundary_contexts: Vec<Boundary> = Vec::new();
        boundary_contexts.push(
            Boundary { component: String::from_str("Suspense"), from: String::from_str("react") },
        );
        let n = config.boundaries.len();
        let mut i: usize = 0;
        while i < n
            invariant
                n == config.boundaries@.len(),
                0 <= i <= n,
                boundary_contexts@.map_values(|b: Boundary| b@) == seq![suspense_boundary()]
                    + config@.boundaries.subrange(0, i as int),
            decreases n - i,
        {
            let b = config.boundaries[i].duplicate();
            let ghost pre = boundary_contexts@;
            boundary_contexts.push(b);
            proof {
                assert(config@.boundaries[i as int] == config.boundaries@[i as int]@);
                assert(boundary_contexts@.map_values(|b: Boundary| b@) =~= pre.map_values(
                    |b: Boundary| b@,
                ).push(config@.boundaries[i as int]));
                assert(config@.boundaries.subrange(0, i + 1) =~= config@.boundaries.subrange(
                    0,
                    i as int,
                ).push(config@.boundaries[i as int]));
                assert(boundary_contexts@.map_values(|b: Boundary| b@) =~= seq![suspense_boundary()]
                    + config@.boundaries.subrange(0, i + 1));
            }
            i = i + 1;
        }
        proof {
            assert(config@.boundaries.subrange(0, n as int) =~= config@.boundaries);
        }
        let r = TransformVisitor {
            config,
            context,
            boundary_contexts,
            valid_boundary_idents: Vec::new(),
            boundary_imports_added: false,
            has_boundary_elements: false,
        };
        proof {
            assert(r.bound() =~= Set::<IdentView>::empty());
        }
        r
    }

    /// The generated id of an element: the file name and the line of the
    /// element's start, the host's line where it has one.
    pub fn generate_boundary_id(&self, el: &JsxElement) -> (r: String)
        ensures
            r@ == crate::helpers::boundary_id(self.context_view().filename, element_line(el@) as nat),
    {
        let line = match el.line {
            Some(l) => l,
            None => extract_line_number(el.span_lo),
        };
        generate_boundary_id(self.context.filename.as_str(), line)
    }

    /// `import { BoundaryTrackerSWC } from "react-swc-suspense-tracker/context";`
    pub fn create_boundary_tracker_import(&self) -> (r: ModuleItem)
        ensures
            r@ == ItemView::Import(tracker_import()),
    {
        let mut specifiers: Vec<ImportSpecifier> = Vec::new();
        specifiers.push(ImportSpecifier::Named { local: tracker_ident_exec(), imported: None });
        let r = ModuleItem::Import(
            ImportDecl { specifiers, src: String::from_str(BOUNDARY_TRACKER_PACKAGE_NAME) },
        );
        proof {
            assert(specifiers@.map_values(|s: ImportSpecifier| s@) =~= tracker_import().specifiers);
        }
        r
    }

    /// Records the identifiers that `import_decl` binds to a configured
    /// boundary.
    pub fn process_boundary_import(&mut self, import_decl: &ImportDecl)
        requires
            old(self).wf(),
        ensures
            final(self).wf(),
            final(self).bound() == old(self).bound().union(
                decl_bindings(import_decl@, all_boundaries(old(self).config_view()), all_boundaries(old(self).config_view()).len() as int),
            ),
            final(self).same_settings(old(self)),
            final(self).found() == old(self).found(),
            final(self).import_added() == old(self).import_added(),
    {
        let ghost d = import_decl@;
        let ghost bs = self.boundary_views();
        let ghost start = self.bound();
        let nb = self.boundary_contexts.len();
        let mut j: usize = 0;
        while j < nb
            invariant
                nb == self.boundary_contexts@.len(),
                bs == self.boundary_views(),
                bs.len() == nb,
                0 <= j <= nb,
                d == import_decl@,
                self.bound() == start.union(decl_bindings(d, bs, j as int)),
                self.config == old(self).config,
                self.context == old(self).context,
                self.boundary_contexts == old(self).boundary_contexts,
                self.boundary_imports_added == old(self).boundary_imports_added,
                self.has_boundary_elements == old(self).has_boundary_elements,
            decreases nb - j,
        {
            let ghost before = self.bound();
            if import_decl.src == self.boundary_contexts[j].from {
                let ns = import_decl.specifiers.len();
                let mut k: usize = 0;
                while k < ns
                    invariant
                        ns == import_decl.specifiers@.len(),
                        nb == self.boundary_contexts@.len(),
                        j < nb,
                        bs == self.boundary_views(),
                        d == import_decl@,
                        d.specifiers.len() == ns,
                        0 <= k <= ns,
                        self.bound() == before.union(specifier_bindings(d.specifiers, k as int, bs[j as int])),
                        self.config == old(self).config,
                        self.context == old(self).context,
                        self.boundary_contexts == old(self).boundary_contexts,
                        self.boundary_imports_added == old(self).boundary_imports_added,
                        self.has_boundary_elements == old(self).has_boundary_elements,
                    decreases ns - k,
                {
                    let ghost prev = self.bound();
                    let found = self.bound_local(&import_decl.specifiers[k], j);
                    let ghost sv = d.specifiers[k as int];
                    assert(sv == import_decl.specifiers@[k as int]@);
                    match found {
                        Some(local) => {
                            let ghost pre = self.valid_boundary_idents@;
                            self.valid_boundary_idents.push(local);
                            proof {
                                let v = self.valid_boundary_idents@;
                                assert(v =~= pre.push(v[pre.len() as int]));
                                lemma_ident_set_push(pre, v[pre.len() as int]);
                            }
                        },
                        None => {},
                    }
                    proof {
                        assert(self.bound() =~= before.union(specifier_bindings(d.specifiers, k + 1, bs[j as int])));
                    }
                    k = k + 1;
                }
                proof {
                    assert(self.bound() =~= start.union(decl_bindings(d, bs, j + 1)));
                }
            } else {
                proof {
                    assert(self.bound() =~= start.union(decl_bindings(d, bs, j + 1)));
                }
            }
            j = j + 1;
        }
    }
}

impl TransformVisitor {
    /// The local identifier of `spec` where it imports the component of the
    /// `j`-th configured boundary.
    fn bound_local(&self, spec: &ImportSpecifier, j: usize) -> (r: Option<Ident>)
        requires
            j < self.boundary_views().len(),
        ensures
            r matches Some(i) ==> exported_name(spec@) == Some(self.boundary_views()[j as int].component)
                && i@ == local_of(spec@),
            r is None ==> exported_name(spec@) != Some(self.boundary_views()[j as int].component),
    {
        let component = &self.boundary_contexts[j].component;
        match spec {
            ImportSpecifier::Named { local, imported } => {
                let external = match imported {
                    Some(name) => name,
                    None => &local.sym,
                };
                if *external == *component {
                    Some(local.duplicate())
                } else {
                    None
                }
            },
            ImportSpecifier::Default { local } => {
                if local.sym == *component {
                    Some(local.duplicate())
                } else {
                    None
                }
            },
            ImportSpecifier::Namespace { .. } => None,
        }
    }
}


impl TransformVisitor {
    /// The tag identifier of `jsx_element` where an import bound it to a
    /// boundary: spelling and syntax context must both agree.
    pub fn get_element_boundary_ident(&self, jsx_element: &JsxElement) -> (r: Option<Ident>)
        ensures
            r matches Some(i) ==> matched_ident(jsx_element@, self.bound()) == Some(i@),
            r is None ==> matched_ident(jsx_element@, self.bound()) is None,
    {
        match &jsx_element.name {
            JsxName::Ident(ident) => {
                let n = self.valid_boundary_idents.len();
                let mut k: usize = 0;
                while k < n
                    invariant
                        n == self.valid_boundary_idents@.len(),
                        0 <= k <= n,
                        jsx_element@.name == crate::ast::NameView::Ident(ident@),
                        forall|m: int| 0 <= m < k ==> (#[trigger] self.valid_boundary_idents@[m])@ != ident@,
                    decreases n - k,
                {
                    let valid = &self.valid_boundary_idents[k];
                    if valid.sym == ident.sym && valid.ctxt == ident.ctxt {
                        proof {
                            assert(self.valid_boundary_idents@[k as int]@ == ident@);
                            assert(self.bound().contains(ident@));
                            assert(jsx_element@.name == crate::ast::NameView::Ident(ident@));
                        }
                        return Some(ident.duplicate());
                    }
                    k = k + 1;
                }
                proof {
                    assert(!self.bound().contains(ident@));
                    assert(jsx_element@.name == crate::ast::NameView::Ident(ident@));
                }
                None
            },
            JsxName::Qualified(_) => None,
        }
    }

    /// Rewrites `jsx_element` and every element inside it whose tag is a
    /// bound identifier.
    pub fn visit_mut_jsx_element(&mut self, jsx_element: &mut JsxElement)
        ensures
            final(jsx_element)@ == rewrite_element(old(jsx_element)@, old(self).bound(), old(self).context_view().filename),
            final(self).found() == (old(self).found() || element_has_match(old(jsx_element)@, old(self).bound())),
            final(self).same_but_found(old(self)),
        decreases *old(jsx_element),
    {
        let ghost bound = self.bound();
        let ghost file = self.context_view().filename;
        let ghost e0 = jsx_element@;
        let boundary_ident = self.get_element_boundary_ident(jsx_element);
        if boundary_ident.is_some() {
            self.has_boundary_elements = true;
        }
        self.visit_mut_attrs(&mut jsx_element.attrs);
        self.visit_mut_nodes(&mut jsx_element.children);
        let ghost attrs1 = jsx_element.attrs@;
        match boundary_ident {
            Some(ident) => {
                let ghost idv = ident@;
                let id_value = self.generate_boundary_id(jsx_element);
                jsx_element.name = JsxName::Ident(tracker_ident_exec());
                if jsx_element.closing.is_some() {
                    jsx_element.closing = Some(JsxName::Ident(tracker_ident_exec()));
                }
                let id_attr = JsxAttr::Attr {
                    name: String::from_str(BOUNDARY_ID_PROPERTY_NAME),
                    value: Some(Node::Str(id_value)),
                };
                let boundary_attr = JsxAttr::Attr {
                    name: String::from_str(BOUNDARY_NAME_PROPERTY_NAME),
                    value: Some(Node::Ident(ident)),
                };
                let ghost a1 = id_attr;
                let ghost a2 = boundary_attr;
                jsx_element.attrs.push(id_attr);
                jsx_element.attrs.push(boundary_attr);
                proof {
                    let s1 = attrs1.push(a1);
                    let s2 = s1.push(a2);
                    let t = tracker_attrs(idv, file, element_line(e0));
                    assert(jsx_element.attrs@ == s2);
                    assert(s2.subrange(0, s2.len() - 1) =~= s1);
                    assert(s1.subrange(0, s1.len() - 1) =~= attrs1);
                    assert(view_attrs(s1) == view_attrs(attrs1).push(view_attr(a1)));
                    assert(view_attrs(s2) == view_attrs(s1).push(view_attr(a2)));
                    assert(element_line(jsx_element@) == element_line(e0));
                    assert(view_attr(a1) == t[0]);
                    assert(view_attr(a2) == t[1]);
                    assert(view_attrs(s2) =~= view_attrs(attrs1) + t);
                }
            },
            None => {},
        }
        proof {
            assert(jsx_element@ =~= rewrite_element(e0, bound, file));
        }
    }

    fn visit_mut_attr(&mut self, attr: &mut JsxAttr)
        ensures
            final(attr)@ == rewrite_attr(old(attr)@, old(self).bound(), old(self).context_view().filename),
            final(self).found() == (old(self).found() || attr_has_match(old(attr)@, old(self).bound())),
            final(self).same_but_found(old(self)),
        decreases *old(attr),
    {
        match attr {
            JsxAttr::Attr { value: Some(node), .. } => {
                self.visit_mut_node(node);
            },
            JsxAttr::Attr { value: None, .. } => {},
            JsxAttr::Spread(node) => {
                self.visit_mut_node(node);
            },
        }
    }

    fn visit_mut_node(&mut self, node: &mut Node)
        ensures
            final(node)@ == rewrite_node(old(node)@, old(self).bound(), old(self).context_view().filename),
            final(self).found() == (old(self).found() || node_has_match(old(node)@, old(self).bound())),
            final(self).same_but_found(old(self)),
        decreases *old(node),
    {
        match node {
            Node::Element(e) => {
                self.visit_mut_jsx_element(e);
            },
            Node::Code(nodes) => {
                self.visit_mut_nodes(nodes);
            },
            _ => {},
        }
    }

    fn visit_mut_attrs(&mut self, attrs: &mut Vec<JsxAttr>)
        ensures
            view_attrs(final(attrs)@) == rewrite_attrs(view_attrs(old(attrs)@), old(self).bound(), old(self).context_view().filename),
            final(self).found() == (old(self).found() || attrs_have_match(view_attrs(old(attrs)@), old(self).bound())),
            final(self).same_but_found(old(self)),
        decreases *old(attrs),
    {
        let ghost bound = self.bound();
        let ghost file = self.context_view().filename;
        let ghost s0 = view_attrs(old(attrs)@);
        proof {
            lemma_view_attrs(old(attrs)@);
            lemma_rewrite_attrs(s0, bound, file);
            assert(s0.subrange(0, 0) =~= Seq::<crate::ast::AttrView>::empty());
        }
        let n = attrs.len();
        let mut i: usize = 0;
        while i < n
            invariant
                n == old(attrs)@.len(),
                attrs@.len() == n,
                s0 == view_attrs(old(attrs)@),
                s0.len() == n,
                0 <= i <= n,
                forall|j: int| 0 <= j < i ==> view_attr(#[trigger] attrs@[j]) == rewrite_attr(s0[j], bound, file),
                forall|j: int| i <= j < n ==> #[trigger] attrs@[j] == old(attrs)@[j],
                forall|j: int| 0 <= j < n ==> #[trigger] s0[j] == view_attr(old(attrs)@[j]),
                self.found() == (old(self).found() || attrs_have_match(s0.subrange(0, i as int), bound)),
                self.same_but_found(old(self)),
                bound == self.bound(),
                file == self.context_view().filename,
            decreases n - i,
        {
            proof {
                assert(decreases_to!(*old(attrs) => old(attrs)@));
                assert(decreases_to!(old(attrs)@ => old(attrs)@[i as int]));
                lemma_attrs_have_match_step(s0, i as int, bound);
            }
            self.visit_mut_attr(&mut attrs[i]);
            i = i + 1;
        }
        proof {
            lemma_view_attrs(attrs@);
            assert(view_attrs(attrs@) =~= rewrite_attrs(s0, bound, file));
            assert(s0.subrange(0, n as int) =~= s0);
        }
    }

    fn visit_mut_nodes(&mut self, nodes: &mut Vec<Node>)
        ensures
            view_nodes(final(nodes)@) == rewrite_nodes(view_nodes(old(nodes)@), old(self).bound(), old(self).context_view().filename),
            final(self).found() == (old(self).found() || nodes_have_match(view_nodes(old(nodes)@), old(self).bound())),
            final(self).same_but_found(old(self)),
        decreases *old(nodes),
    {
        let ghost bound = self.bound();
        let ghost file = self.context_view().filename;
        let ghost s0 = view_nodes(old(nodes)@);
        proof {
            lemma_view_nodes(old(nodes)@);
            lemma_rewrite_nodes(s0, bound, file);
            assert(s0.subrange(0, 0) =~= Seq::<crate::ast::NodeView>::empty());
        }
        let n = nodes.len();
        let mut i: usize = 0;
        while i < n
            invariant
                n == old(nodes)@.len(),
                nodes@.len() == n,
                s0 == view_nodes(old(nodes)@),
                s0.len() == n,
                0 <= i <= n,
                forall|j: int| 0 <= j < i ==> view_node(#[trigger] nodes@[j]) == rewrite_node(s0[j], bound, file),
                forall|j: int| i <= j < n ==> #[trigger] nodes@[j] == old(nodes)@[j],
                forall|j: int| 0 <= j < n ==> #[trigger] s0[j] == view_node(old(nodes)@[j]),
                self.found() == (old(self).found() || nodes_have_match(s0.subrange(0, i as int), bound)),
                self.same_but_found(old(self)),
                bound == self.bound(),
                file == self.context_view().filename,
            decreases n - i,
        {
            proof {
                assert(decreases_to!(*old(nodes) => old(nodes)@));
                assert(decreases_to!(old(nodes)@ => old(nodes)@[i as int]));
                lemma_nodes_have_match_step(s0, i as int, bound);
            }
            self.visit_mut_node(&mut nodes[i]);
            i = i + 1;
        }
        proof {
            lemma_view_nodes(nodes@);
            assert(view_nodes(nodes@) =~= rewrite_nodes(s0, bound, file));
            assert(s0.subrange(0, n as int) =~= s0);
        }
    }
}

/// A prefix of items one longer has a match exactly when the shorter one
/// does or the added item does.
proof fn lemma_items_have_match_step(s: Seq<ItemView>, i: int, bound: Set<IdentView>)
    requires
        0 <= i < s.len(),
    ensures
        items_have_match(s.subrange(0, i + 1), bound) == (items_have_match(s.subrange(0, i), bound)
            || item_has_match(s[i], bound)),
{
    let p = s.subrange(0, i + 1);
    let q = s.subrange(0, i);
    if items_have_match(p, bound) && !item_has_match(s[i], bound) {
        let k = choose|k: int| 0 <= k < p.len() && item_has_match(#[trigger] p[k], bound);
        assert(q[k] == p[k]);
    }
    if items_have_match(q, bound) {
        let k = choose|k: int| 0 <= k < q.len() && item_has_match(#[trigger] q[k], bound);
        assert(q[k] == p[k]);
    }
    if item_has_match(s[i], bound) {
        assert(p[i] == s[i]);
    }
}

/// Adding the `i`-th item to a prefix adds the identifiers it binds.
proof fn lemma_bindings_of_step(s: Seq<ItemView>, i: int, bs: Seq<BoundaryView>)
    requires
        0 <= i < s.len(),
    ensures
        bindings_of(s.subrange(0, i + 1), bs) == bindings_of(s.subrange(0, i), bs).union(
            Set::new(|id: IdentView| item_binds(s[i], bs, id)),
        ),
{
    let p = s.subrange(0, i + 1);
    let q = s.subrange(0, i);
    let r = bindings_of(q, bs).union(Set::new(|id: IdentView| item_binds(s[i], bs, id)));
    assert forall|id: IdentView| bindings_of(p, bs).contains(id) implies r.contains(id) by {
        let k = choose|k: int| 0 <= k < p.len() && item_binds(#[trigger] p[k], bs, id);
        if k < i {
            assert(q[k] == p[k]);
        }
    }
    assert forall|id: IdentView| r.contains(id) implies bindings_of(p, bs).contains(id) by {
        if bindings_of(q, bs).contains(id) {
            let k = choose|k: int| 0 <= k < q.len() && item_binds(#[trigger] q[k], bs, id);
            assert(q[k] == p[k]);
        } else {
            assert(p[i] == s[i]);
        }
    }
    assert(bindings_of(p, bs) =~= r);
}

/// The first import is unique, so it is where the tracker import goes.
proof fn lemma_insertion_index(s: Seq<ItemView>, k: int)
    requires
        is_first_import(s, k),
    ensures
        insertion_index(s) == k,
{
    let c = choose|i: int| is_first_import(s, i);
    if c < k {
        assert(s[c] is Import);
    } else if k < c {
        assert(s[k] is Import);
    }
}

/// Returns the index of the first import within the module items if one
/// exists.
pub fn get_first_import_index(module_items: &[ModuleItem]) -> (r: Option<usize>)
    ensures
        r matches Some(k) ==> is_first_import(view_items(module_items@), k as int),
        r is None ==> forall|j: int|
            0 <= j < module_items@.len() ==> !(#[trigger] view_items(module_items@)[j] is Import),
{
    let n = module_items.len();
    let mut i: usize = 0;
    while i < n
        invariant
            n == module_items@.len(),
            0 <= i <= n,
            forall|j: int| 0 <= j < i ==> !(#[trigger] view_items(module_items@)[j] is Import),
        decreases n - i,
    {
        if is_import_decl(&module_items[i]).unwrap_or(false) {
            return Some(i);
        }
        i = i + 1;
    }
    None
}

/// Checks whether a module item is an import declaration.
fn is_import_decl(module_item: &ModuleItem) -> (r: Option<bool>)
    ensures
        r == (if module_item@ is Import {
            Some(true)
        } else {
            None::<bool>
        }),
{
    match module_item {
        ModuleItem::Import(_) => Some(true),
        ModuleItem::Stmt(_) => None,
    }
}

impl TransformVisitor {
    /// Transforms the items of one module: when the transform is on and an
    /// import binds a boundary, every element bound to one is rewritten to
    /// the tracker, and the tracker import is inserted once, before the first
    /// import, or at the start where there is none.
    pub fn visit_mut_module_items(&mut self, module_items: &mut Vec<ModuleItem>)
        requires
            old(self).wf(),
            old(self).is_fresh(),
        ensures
            view_items(final(module_items)@) == transform_items(
                view_items(old(module_items)@),
                old(self).config_view(),
                old(self).context_view(),
            ),
            final(self).same_settings(old(self)),
            !is_enabled(old(self).config_view(), old(self).context_view()) ==> {
                &&& final(self).bound() == Set::<IdentView>::empty()
                &&& !final(self).found()
                &&& !final(self).import_added()
            },
            is_enabled(old(self).config_view(), old(self).context_view()) ==> {
                let bound = bindings_of(
                    view_items(old(module_items)@),
                    all_boundaries(old(self).config_view()),
                );
                &&& final(self).bound() == bound
                &&& final(self).found() == (!bound.is_empty() && items_have_match(
                    view_items(old(module_items)@),
                    bound,
                ))
                &&& final(self).import_added() == final(self).found()
            },
    {
        if !self.is_enabled() {
            return;
        }
        let ghost items0 = view_items(module_items@);
        let ghost bs = all_boundaries(self.config@);
        let ghost start = *self;
        let n = module_items.len();
        let mut i: usize = 0;
        proof {
            assert(self.bound() =~= bindings_of(items0.subrange(0, 0), bs));
        }
        while i < n
            invariant
                n == module_items@.len(),
                module_items@ == old(module_items)@,
                items0 == view_items(old(module_items)@),
                0 <= i <= n,
                self.wf(),
                bs == all_boundaries(self.config_view()),
                self.same_settings(&start),
                !self.found(),
                !self.import_added(),
                self.bound() == bindings_of(items0.subrange(0, i as int), bs),
            decreases n - i,
        {
            proof {
                lemma_bindings_of_step(items0, i as int, bs);
            }
            match &module_items[i] {
                ModuleItem::Import(import_decl) => {
                    self.process_boundary_import(import_decl);
                    proof {
                        let d = import_decl@;
                        assert(items0[i as int] == ItemView::Import(d));
                        assert(decl_bindings(d, bs, bs.len() as int) =~= Set::new(
                            |id: IdentView| item_binds(items0[i as int], bs, id),
                        ));
                        assert(self.bound() =~= bindings_of(items0.subrange(0, i + 1), bs));
                    }
                },
                ModuleItem::Stmt(_) => {
                    proof {
                        assert(self.bound() =~= bindings_of(items0.subrange(0, i + 1), bs));
                    }
                },
            }
            i = i + 1;
        }
        proof {
            assert(items0.subrange(0, n as int) =~= items0);
        }
        if !self.has_bindings() {
            return;
        }
        let ghost bound = self.bound();
        let ghost file = self.context_view().filename;
        let ghost middle = *self;
        i = 0;
        while i < n
            invariant
                n == module_items@.len(),
                n == old(module_items)@.len(),
                items0 == view_items(old(module_items)@),
                0 <= i <= n,
                bound == self.bound(),
                file == self.context_view().filename,
                self.same_but_found(&middle),
                !middle.found(),
                !self.import_added(),
                forall|j: int| 0 <= j < i ==> (#[trigger] module_items@[j])@ == rewrite_item(items0[j], bound, file),
                forall|j: int| i <= j < n ==> #[trigger] module_items@[j] == old(module_items)@[j],
                self.found() == items_have_match(items0.subrange(0, i as int), bound),
            decreases n - i,
        {
            proof {
                lemma_items_have_match_step(items0, i as int, bound);
            }
            match &mut module_items[i] {
                ModuleItem::Stmt(node) => {
                    self.visit_mut_node(node);
                },
                ModuleItem::Import(_) => {},
            }
            i = i + 1;
        }
        let ghost rewritten = rewrite_items(items0, bound, file);
        proof {
            assert(items0.subrange(0, n as int) =~= items0);
            assert(view_items(module_items@) =~= rewritten);
        }
        if let Some(tracker_item) = self.tracker_import_to_add() {
            let first = get_first_import_index(module_items.as_slice());
            let insert_index = match first {
                Some(k) => k,
                None => 0,
            };
            proof {
                let now = view_items(module_items@);
                assert forall|j: int| 0 <= j < n implies (#[trigger] now[j] is Import) == (
                items0[j] is Import) by {
                    assert(now[j] == rewrite_item(items0[j], bound, file));
                }
                match first {
                    Some(k) => {
                        assert forall|j: int| 0 <= j < k implies !(#[trigger] items0[j] is Import) by {
                            assert(!(now[j] is Import));
                        }
                        assert(is_first_import(items0, k as int));
                        lemma_insertion_index(items0, k as int);
                    },
                    None => {
                        assert forall|k: int| !is_first_import(items0, k) by {
                            if 0 <= k < n {
                                assert(!(now[k] is Import));
                            }
                        }
                    },
                }
                assert(insertion_index(items0) == insert_index);
            }
            module_items.insert(insert_index, tracker_item);
            proof {
                assert(view_items(module_items@) =~= rewritten.insert(
                    insert_index as int,
                    ItemView::Import(tracker_import()),
                ));
            }
        }
    }
}

/// Transforms the items of one module under `config` and `context`, with a
/// visitor of its own.
pub fn transform_module(module_items: &mut Vec<ModuleItem>, config: Config, context: Context)
    ensures
        view_items(final(module_items)@) == transform_items(view_items(old(module_items)@), config@, context@),
{
    let mut visitor = TransformVisitor::new(config, context);
    visitor.visit_mut_module_items(module_items);
}

impl TransformVisitor {
    /// Whether the transform runs: an explicit `enabled` decides, and when
    /// it is unset, only the development environment runs it.
    pub fn is_enabled(&self) -> (r: bool)
        ensures
            r == is_enabled(self.config_view(), self.context_view()),
    {
        match self.config.enabled {
            Some(enabled) => enabled,
            None => self.context.env_name == Environment::Development,
        }
    }

    /// Whether an import has bound some identifier to a boundary.
    pub fn has_bindings(&self) -> (r: bool)
        ensures
            r == !self.bound().is_empty(),
    {
        if self.valid_boundary_idents.len() == 0 {
            proof {
                assert(self.bound() =~= Set::<IdentView>::empty());
            }
            false
        } else {
            proof {
                assert(self.bound().contains(self.valid_boundary_idents@[0]@));
            }
            true
        }
    }

    /// Whether an element has been rewritten.
    pub fn has_boundary_elements(&self) -> (r: bool)
        ensures
            r == self.found(),
    {
        self.has_boundary_elements
    }

    /// The tracker import, where an element was rewritten and the import was
    /// not added yet; it then counts as added.
    pub fn tracker_import_to_add(&mut self) -> (r: Option<ModuleItem>)
        ensures
            r is Some <==> (old(self).found() && !old(self).import_added()),
            r matches Some(item) ==> item@ == ItemView::Import(tracker_import()),
            final(self).import_added() == (old(self).import_added() || old(self).found()),
            final(self).found() == old(self).found(),
            final(self).bound() == old(self).bound(),
            final(self).same_settings(old(self)),
    {
        if self.has_boundary_elements && !self.boundary_imports_added {
            let item = self.create_boundary_tracker_import();
            self.boundary_imports_added = true;
            Some(item)
        } else {
            None
        }
    }
}

fn tracker_ident_exec() -> (r: Ident)
    ensures
        r@ == tracker_ident(),
{
    Ident { sym: String::from_str(BOUNDARY_TRACKER_IMPORT_NAME), ctxt: 0 }
}

} // verus!
