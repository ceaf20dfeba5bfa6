//! The part of a module tree that the transform reads and rewrites.
//!
//! Everything outside JSX elements and import declarations is opaque to the
//! transform, so a statement is given only by the nodes it holds, in source
//! order. Each executable type has a view into the ghost types of the second
//! half of this file, and every contract of the transform speaks of views.
use vstd::prelude::*;

verus! {

/// An identifier together with the syntax context (scope mark) that the
/// host's resolver gave it. Two identifiers denote the same binding exactly
/// when both their spelling and their context agree.
#[derive(Debug, Clone, PartialEq, Eq)]
pub struct Ident {
    pub sym: String,
    pub ctxt: u32,
}

impl Ident {
    /// A copy of this identifier.
    pub fn duplicate(&self) -> (r: Ident)
        ensures
            r@ == self@,
    {
        Ident { sym: self.sym.clone(), ctxt: self.ctxt }
    }
}

/// The name of a JSX element: a plain identifier, or a qualified name
/// (`a.b`, `a:b`), kept as its source text.
#[derive(Debug, Clone, PartialEq, Eq)]
pub enum JsxName {
    Ident(Ident),
    Qualified(String),
}

/// A JSX element with its opening tag, its attributes, its children and its
/// closing tag (absent for a self-closing element).
#[derive(Debug, PartialEq, Eq)]
pub struct JsxElement {
    pub name: JsxName,
    pub attrs: Vec<JsxAttr>,
    pub children: Vec<Node>,
    pub closing: Option<JsxName>,
    /// Byte offset of the element's start.
    pub span_lo: u32,
    /// Line of the element's start as the host's source map gives it, if the
    /// host has one.
    pub line: Option<u32>,
}

/// An attribute of an opening tag: `name`, `name=value`, or `{...value}`.
#[derive(Debug, PartialEq, Eq)]
pub enum JsxAttr {
    Attr { name: String, value: Option<Node> },
    Spread(Node),
}

/// A piece of a tree that may hold JSX elements.
#[derive(Debug, PartialEq, Eq)]
pub enum Node {
    /// JSX text between tags.
    Text(String),
    /// A string literal.
    Str(String),
    /// An identifier used as an expression.
    Ident(Ident),
    /// A JSX element.
    Element(JsxElement),
    /// Any other code, given by the nodes it holds in source order.
    Code(Vec<Node>),
}

/// One specifier of an import declaration.
#[derive(Debug, Clone, PartialEq, Eq)]
pub enum ImportSpecifier {
    /// `{ local }` or `{ imported as local }`; `imported` is the exported
    /// name where it differs from the local one.
    Named { local: Ident, imported: Option<String> },
    /// `local` in `import local from "..."`.
    Default { local: Ident },
    /// `* as local`.
    Namespace { local: Ident },
}

/// `import { ... } from "src";`
#[derive(Debug, Clone, PartialEq, Eq)]
pub struct ImportDecl {
    pub specifiers: Vec<ImportSpecifier>,
    pub src: String,
}

/// A top-level item of a module.
#[derive(Debug, PartialEq, Eq)]
pub enum ModuleItem {
    Import(ImportDecl),
    Stmt(Node),
}

// ---------------------------------------------------------------------------
// Views
// ---------------------------------------------------------------------------

pub struct IdentView {
    pub sym: Seq<char>,
    pub ctxt: u32,
}

pub enum NameView {
    Ident(IdentView),
    Qualified(Seq<char>),
}

pub struct ElementView {
    pub name: NameView,
    pub attrs: Seq<AttrView>,
    pub children: Seq<NodeView>,
    pub closing: Option<NameView>,
    pub span_lo: u32,
    pub line: Option<u32>,
}

pub enum AttrView {
    Attr { name: Seq<char>, value: Option<NodeView> },
    Spread(NodeView),
}

pub enum NodeView {
    Text(Seq<char>),
    Str(Seq<char>),
    Ident(IdentView),
    Element(ElementView),
    Code(Seq<NodeView>),
}

pub enum SpecifierView {
    Named { local: IdentView, imported: Option<Seq<char>> },
    Default { local: IdentView },
    Namespace { local: IdentView },
}

pub struct ImportView {
    pub specifiers: Seq<SpecifierView>,
    pub src: Seq<char>,
}

pub enum ItemView {
    Import(ImportView),
    Stmt(NodeView),
}

impl View for Ident {
    type V = IdentView;

    open spec fn view(&self) -> IdentView {
        IdentView { sym: self.sym@, ctxt: self.ctxt }
    }
}

impl View for JsxName {
    type V = NameView;

    open spec fn view(&self) -> NameView {
        match self {
            JsxName::Ident(i) => NameView::Ident(i@),
            JsxName::Qualified(s) => NameView::Qualified(s@),
        }
    }
}

pub open spec fn view_name_opt(n: Option<JsxName>) -> Option<NameView> {
    match n {
        Some(n) => Some(n@),
        None => None,
    }
}

pub open spec fn view_element(e: JsxElement) -> ElementView
    decreases e,
{
    ElementView {
        name: e.name@,
        attrs: view_attrs(e.attrs@),
        children: view_nodes(e.children@),
        closing: view_name_opt(e.closing),
        span_lo: e.span_lo,
        line: e.line,
    }
}

pub open spec fn view_attr(a: JsxAttr) -> AttrView
    decreases a,
{
    match a {
        JsxAttr::Attr { name, value } => AttrView::Attr {
            name: name@,
            value: match value {
                Some(n) => Some(view_node(n)),
                None => None,
            },
        },
        JsxAttr::Spread(n) => AttrView::Spread(view_node(n)),
    }
}

pub open spec fn view_node(n: Node) -> NodeView
    decreases n,
{
    match n {
        Node::Text(s) => NodeView::Text(s@),
        Node::Str(s) => NodeView::Str(s@),
        Node::Ident(i) => NodeView::Ident(i@),
        Node::Element(e) => NodeView::Element(view_element(e)),
        Node::Code(v) => NodeView::Code(view_nodes(v@)),
    }
}

pub open spec fn view_attrs(s: Seq<JsxAttr>) -> Seq<AttrView>
    decreases s,
{
    if s.len() == 0 {
        Seq::empty()
    } else {
        view_attrs(s.subrange(0, s.len() - 1)).push(view_attr(s[s.len() - 1]))
    }
}

pub open spec fn view_nodes(s: Seq<Node>) -> Seq<NodeView>
    decreases s,
{
    if s.len() == 0 {
        Seq::empty()
    } else {
        view_nodes(s.subrange(0, s.len() - 1)).push(view_node(s[s.len() - 1]))
    }
}

impl View for JsxElement {
    type V = ElementView;

    open spec fn view(&self) -> ElementView {
        view_element(*self)
    }
}

impl View for JsxAttr {
    type V = AttrView;

    open spec fn view(&self) -> AttrView {
        view_attr(*self)
    }
}

impl View for Node {
    type V = NodeView;

    open spec fn view(&self) -> NodeView {
        view_node(*self)
    }
}

impl View for ImportSpecifier {
    type V = SpecifierView;

    open spec fn view(&self) -> SpecifierView {
        match self {
            ImportSpecifier::Named { local, imported } => SpecifierView::Named {
                local: local@,
                imported: match imported {
                    Some(s) => Some(s@),
                    None => None,
                },
            },
            ImportSpecifier::Default { local } => SpecifierView::Default { local: local@ },
            ImportSpecifier::Namespace { local } => SpecifierView::Namespace { local: local@ },
        }
    }
}

impl View for ImportDecl {
    type V = ImportView;

    open spec fn view(&self) -> ImportView {
        ImportView {
            specifiers: self.specifiers@.map_values(|s: ImportSpecifier| s@),
            src: self.src@,
        }
    }
}

impl View for ModuleItem {
    type V = ItemView;

    open spec fn view(&self) -> ItemView {
        match self {
            ModuleItem::Import(d) => ItemView::Import(d@),
            ModuleItem::Stmt(n) => ItemView::Stmt(n@),
        }
    }
}

/// The views of a sequence of module items.
pub open spec fn view_items(s: Seq<ModuleItem>) -> Seq<ItemView> {
    s.map_values(|i: ModuleItem| i@)
}

pub proof fn lemma_view_nodes(s: Seq<Node>)
    ensures
        view_nodes(s).len() == s.len(),
        forall|j: int| 0 <= j < s.len() ==> #[trigger] view_nodes(s)[j] == view_node(s[j]),
    decreases s.len(),
{
    if s.len() > 0 {
        let t = s.subrange(0, s.len() - 1);
        lemma_view_nodes(t);
        assert forall|j: int| 0 <= j < s.len() implies #[trigger] view_nodes(s)[j] == view_node(
            s[j],
        ) by {
            if j < s.len() - 1 {
                assert(t[j] == s[j]);
            }
        }
    }
}

pub proof fn lemma_view_attrs(s: Seq<JsxAttr>)
    ensures
        view_attrs(s).len() == s.len(),
        forall|j: int| 0 <= j < s.len() ==> #[trigger] view_attrs(s)[j] == view_attr(s[j]),
    decreases s.len(),
{
    if s.len() > 0 {
        let t = s.subrange(0, s.len() - 1);
        lemma_view_attrs(t);
        assert forall|j: int| 0 <= j < s.len() implies #[trigger] view_attrs(s)[j] == view_attr(
            s[j],
        ) by {
            if j < s.len() - 1 {
                assert(t[j] == s[j]);
            }
        }
    }
}

} // verus!
