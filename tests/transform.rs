use suspense_tracker::ast::{Ident, ImportDecl, ImportSpecifier, JsxAttr, JsxElement, JsxName, ModuleItem, Node};
use suspense_tracker::{transform_module, Boundary, Config, Context, Environment, TransformVisitor};

const FILE: &str = "my/file.tsx";

fn ident(sym: &str, ctxt: u32) -> Ident {
    Ident { sym: sym.to_string(), ctxt }
}

fn tag(sym: &str, ctxt: u32) -> JsxName {
    JsxName::Ident(ident(sym, ctxt))
}

fn element(name: &str, ctxt: u32, attrs: Vec<JsxAttr>, children: Vec<Node>, span_lo: u32) -> JsxElement {
    JsxElement { name: tag(name, ctxt), attrs, children, closing: Some(tag(name, ctxt)), span_lo, line: None }
}

fn self_closing(name: &str, ctxt: u32, span_lo: u32) -> Node {
    Node::Element(JsxElement {
        name: tag(name, ctxt),
        attrs: vec![],
        children: vec![],
        closing: None,
        span_lo,
        line: None,
    })
}

fn attr(name: &str, value: Node) -> JsxAttr {
    JsxAttr::Attr { name: name.to_string(), value: Some(value) }
}

fn text(s: &str) -> Node {
    Node::Text(s.to_string())
}

fn named(local: &str, ctxt: u32) -> ImportSpecifier {
    ImportSpecifier::Named { local: ident(local, ctxt), imported: None }
}

fn aliased(imported: &str, local: &str, ctxt: u32) -> ImportSpecifier {
    ImportSpecifier::Named { local: ident(local, ctxt), imported: Some(imported.to_string()) }
}

fn import(specifiers: Vec<ImportSpecifier>, src: &str) -> ModuleItem {
    ModuleItem::Import(ImportDecl { specifiers, src: src.to_string() })
}

fn tracker_import() -> ModuleItem {
    import(vec![named("BoundaryTrackerSWC", 0)], "react-swc-suspense-tracker/context")
}

fn stmt(nodes: Vec<Node>) -> ModuleItem {
    ModuleItem::Stmt(Node::Code(nodes))
}

/// `<Name fallback={<Loading />}><Child /></Name>` at offset `at`.
fn boundary_use(name: &str, ctxt: u32, child: &str, at: u32) -> JsxElement {
    element(
        name,
        ctxt,
        vec![attr("fallback", self_closing("Loading", 1, at + 20))],
        vec![text("\n  "), self_closing(child, 1, at + 40), text("\n")],
        at,
    )
}

/// What `boundary_use` becomes once rewritten.
fn tracked_use(name: &str, ctxt: u32, child: &str, at: u32, id: &str) -> JsxElement {
    element(
        "BoundaryTrackerSWC",
        0,
        vec![
            attr("fallback", self_closing("Loading", 1, at + 20)),
            attr("boundaryId", Node::Str(id.to_string())),
            attr("boundary", Node::Ident(ident(name, ctxt))),
        ],
        vec![text("\n  "), self_closing(child, 1, at + 40), text("\n")],
        at,
    )
}

fn config(enabled: Option<bool>, boundaries: Vec<(&str, &str)>) -> Config {
    Config {
        enabled,
        boundaries: boundaries
            .into_iter()
            .map(|(component, from)| Boundary { component: component.to_string(), from: from.to_string() })
            .collect(),
    }
}

fn context(env_name: Environment) -> Context {
    Context { env_name, filename: FILE.to_string() }
}

fn run(items: &mut Vec<ModuleItem>, config: Config, env: Environment) {
    transform_module(items, config, context(env));
}

fn basic_suspense() -> Vec<ModuleItem> {
    vec![
        import(vec![named("useEffect", 1), named("Suspense", 1)], "react"),
        stmt(vec![Node::Element(boundary_use("Suspense", 1, "MyComponent", 90))]),
    ]
}

fn custom_error_boundary() -> Vec<ModuleItem> {
    vec![
        import(vec![named("ErrorBoundary", 1)], "my-package-name"),
        stmt(vec![Node::Element(boundary_use("ErrorBoundary", 1, "MyComponent", 100))]),
    ]
}

fn custom_boundaries() -> Vec<(&'static str, &'static str)> {
    vec![("ErrorBoundary", "my-package-name"), ("LoadingBoundary", "another-package")]
}

#[test]
fn basic_suspense_transform() {
    let mut items = basic_suspense();
    run(&mut items, config(None, vec![]), Environment::Development);
    let expected = vec![
        tracker_import(),
        import(vec![named("useEffect", 1), named("Suspense", 1)], "react"),
        stmt(vec![Node::Element(tracked_use("Suspense", 1, "MyComponent", 90, "my/file.tsx:2"))]),
    ];
    assert_eq!(items, expected);
}

#[test]
fn host_line_is_used_when_given() {
    let mut use_site = boundary_use("Suspense", 1, "C", 0);
    use_site.line = Some(4);
    let mut items = vec![import(vec![named("Suspense", 1)], "react"), stmt(vec![Node::Element(use_site)])];
    run(&mut items, config(None, vec![]), Environment::Development);
    let mut expected_use = tracked_use("Suspense", 1, "C", 0, "my/file.tsx:4");
    expected_use.line = Some(4);
    let expected =
        vec![tracker_import(), import(vec![named("Suspense", 1)], "react"), stmt(vec![Node::Element(expected_use)])];
    assert_eq!(items, expected);
}

#[test]
fn multiple_suspense_transform() {
    let container = |first: JsxElement, second: JsxElement| {
        element("div", 1, vec![], vec![Node::Element(first), Node::Element(second)], 60)
    };
    let mut items = vec![
        import(vec![named("Suspense", 1)], "react"),
        stmt(vec![Node::Element(container(
            boundary_use("Suspense", 1, "Component1", 80),
            boundary_use("Suspense", 1, "Component2", 200),
        ))]),
    ];
    run(&mut items, config(None, vec![]), Environment::Development);
    let expected = vec![
        tracker_import(),
        import(vec![named("Suspense", 1)], "react"),
        stmt(vec![Node::Element(container(
            tracked_use("Suspense", 1, "Component1", 80, "my/file.tsx:2"),
            tracked_use("Suspense", 1, "Component2", 200, "my/file.tsx:3"),
        ))]),
    ];
    assert_eq!(items, expected);
    let injected = items.iter().filter(|item| **item == tracker_import()).count();
    assert_eq!(injected, 1);
}

#[test]
fn no_suspense_no_change() {
    let module = || {
        vec![
            import(vec![named("useEffect", 1)], "react"),
            stmt(vec![Node::Element(element("div", 1, vec![], vec![text("Hello World")], 60))]),
        ]
    };
    let mut items = module();
    run(&mut items, config(None, vec![]), Environment::Development);
    assert_eq!(items, module());
}

#[test]
fn aliased_suspense_transform() {
    let mut items = vec![
        import(vec![aliased("Suspense", "MySuspense", 1)], "react"),
        stmt(vec![Node::Element(boundary_use("MySuspense", 1, "MyComponent", 90))]),
    ];
    run(&mut items, config(None, vec![]), Environment::Development);
    let expected = vec![
        tracker_import(),
        import(vec![aliased("Suspense", "MySuspense", 1)], "react"),
        stmt(vec![Node::Element(tracked_use("MySuspense", 1, "MyComponent", 90, "my/file.tsx:2"))]),
    ];
    assert_eq!(items, expected);
}

fn user_suspense_declaration() -> ModuleItem {
    stmt(vec![Node::Element(element(
        "div",
        1,
        vec![attr("className", Node::Str("my-suspense".to_string()))],
        vec![Node::Code(vec![Node::Ident(ident("props", 2))])],
        120,
    ))])
}

#[test]
fn user_defined_suspense_no_transform() {
    let module = || {
        vec![
            import(vec![named("useEffect", 1)], "react"),
            user_suspense_declaration(),
            stmt(vec![Node::Element(boundary_use("Suspense", 1, "MyComponent", 240))]),
        ]
    };
    let mut items = module();
    run(&mut items, config(None, vec![]), Environment::Development);
    assert_eq!(items, module());
}

#[test]
fn mixed_suspense_selective_transform() {
    let module = |first: JsxElement, second: JsxElement| {
        vec![
            import(vec![aliased("Suspense", "ReactSuspense", 1)], "react"),
            user_suspense_declaration(),
            stmt(vec![Node::Element(element(
                "div",
                1,
                vec![],
                vec![Node::Element(first), Node::Element(second)],
                300,
            ))]),
        ]
    };
    let mut items = module(
        boundary_use("ReactSuspense", 1, "Component1", 320),
        boundary_use("Suspense", 1, "Component2", 420),
    );
    run(&mut items, config(None, vec![]), Environment::Development);
    let mut expected = module(
        tracked_use("ReactSuspense", 1, "Component1", 320, "my/file.tsx:5"),
        boundary_use("Suspense", 1, "Component2", 420),
    );
    expected.insert(0, tracker_import());
    assert_eq!(items, expected);
}

#[test]
fn shadowed_binding_is_not_rewritten() {
    // `Suspense` is imported at module scope but the element refers to an
    // inner declaration of the same spelling.
    let module = || {
        vec![
            import(vec![named("Suspense", 1)], "react"),
            stmt(vec![Node::Element(boundary_use("Suspense", 7, "C", 90))]),
        ]
    };
    let mut items = module();
    run(&mut items, config(None, vec![]), Environment::Development);
    assert_eq!(items, module());
}

#[test]
fn production_no_transform() {
    let mut items = basic_suspense();
    run(&mut items, config(None, vec![]), Environment::Production);
    assert_eq!(items, basic_suspense());
}

#[test]
fn test_no_transform() {
    let mut items = basic_suspense();
    run(&mut items, config(None, vec![]), Environment::Test);
    assert_eq!(items, basic_suspense());
}

#[test]
fn explicit_enabled_overrides_environment() {
    let mut on = basic_suspense();
    run(&mut on, config(Some(true), vec![]), Environment::Production);
    let mut dev = basic_suspense();
    run(&mut dev, config(None, vec![]), Environment::Development);
    assert_eq!(on, dev);
    assert_eq!(on.len(), 3);

    let mut off = basic_suspense();
    run(&mut off, config(Some(false), vec![]), Environment::Development);
    assert_eq!(off, basic_suspense());
}

#[test]
fn generated_ids_are_deterministic() {
    let mut first = basic_suspense();
    run(&mut first, config(None, vec![]), Environment::Development);
    let mut second = basic_suspense();
    run(&mut second, config(None, vec![]), Environment::Development);
    assert_eq!(first, second);
}

#[test]
fn custom_error_boundary_transform() {
    let mut items = custom_error_boundary();
    run(&mut items, config(None, custom_boundaries()), Environment::Development);
    let expected = vec![
        tracker_import(),
        import(vec![named("ErrorBoundary", 1)], "my-package-name"),
        stmt(vec![Node::Element(tracked_use("ErrorBoundary", 1, "MyComponent", 100, "my/file.tsx:2"))]),
    ];
    assert_eq!(items, expected);
}

#[test]
fn custom_boundary_needs_configuration() {
    let mut items = custom_error_boundary();
    run(&mut items, config(None, vec![]), Environment::Development);
    assert_eq!(items, custom_error_boundary());
}

#[test]
fn multiple_custom_boundaries_transform() {
    let module = |first: JsxElement, second: JsxElement| {
        vec![
            import(vec![named("ErrorBoundary", 1)], "my-package-name"),
            import(vec![named("LoadingBoundary", 1)], "another-package"),
            stmt(vec![Node::Element(element(
                "div",
                1,
                vec![],
                vec![Node::Element(first), Node::Element(second)],
                150,
            ))]),
        ]
    };
    let mut items = module(
        boundary_use("ErrorBoundary", 1, "Component1", 170),
        boundary_use("LoadingBoundary", 1, "Component2", 260),
    );
    run(&mut items, config(None, custom_boundaries()), Environment::Development);
    let mut expected = module(
        tracked_use("ErrorBoundary", 1, "Component1", 170, "my/file.tsx:3"),
        tracked_use("LoadingBoundary", 1, "Component2", 260, "my/file.tsx:4"),
    );
    expected.insert(0, tracker_import());
    assert_eq!(items, expected);
}

#[test]
fn wrong_source_module_is_not_a_boundary() {
    let module = || {
        vec![
            import(vec![named("Suspense", 1)], "preact"),
            stmt(vec![Node::Element(boundary_use("Suspense", 1, "C", 90))]),
        ]
    };
    let mut items = module();
    run(&mut items, config(None, vec![]), Environment::Development);
    assert_eq!(items, module());
}

#[test]
fn default_import_binds_the_boundary() {
    let mut items = vec![
        import(vec![ImportSpecifier::Default { local: ident("ErrorBoundary", 1) }], "my-package-name"),
        stmt(vec![Node::Element(boundary_use("ErrorBoundary", 1, "C", 90))]),
    ];
    run(&mut items, config(None, custom_boundaries()), Environment::Development);
    assert_eq!(items[0], tracker_import());
    assert_eq!(items[2], stmt(vec![Node::Element(tracked_use("ErrorBoundary", 1, "C", 90, "my/file.tsx:2"))]));
}

#[test]
fn namespace_import_is_skipped() {
    let module = || {
        vec![
            import(vec![ImportSpecifier::Namespace { local: ident("Suspense", 1) }], "react"),
            stmt(vec![Node::Element(boundary_use("Suspense", 1, "C", 90))]),
        ]
    };
    let mut items = module();
    run(&mut items, config(None, vec![]), Environment::Development);
    assert_eq!(items, module());
}

#[test]
fn tracker_import_goes_before_the_first_import() {
    let directive = || stmt(vec![Node::Str("use client".to_string())]);
    let mut items = vec![
        directive(),
        import(vec![named("Suspense", 1)], "react"),
        stmt(vec![Node::Element(boundary_use("Suspense", 1, "C", 90))]),
    ];
    run(&mut items, config(None, vec![]), Environment::Development);
    assert_eq!(items.len(), 4);
    assert_eq!(items[0], directive());
    assert_eq!(items[1], tracker_import());
    assert_eq!(items[2], import(vec![named("Suspense", 1)], "react"));
}

#[test]
fn bound_but_unused_import_adds_nothing() {
    let module = || {
        vec![
            import(vec![named("Suspense", 1)], "react"),
            stmt(vec![Node::Element(element("div", 1, vec![], vec![], 60))]),
        ]
    };
    let mut items = module();
    run(&mut items, config(None, vec![]), Environment::Development);
    assert_eq!(items, module());
}

#[test]
fn nested_boundaries_and_attribute_values_are_rewritten() {
    let inner = boundary_use("Suspense", 1, "Inner", 170);
    let outer = element(
        "Suspense",
        1,
        vec![JsxAttr::Spread(Node::Code(vec![Node::Element(boundary_use("Suspense", 1, "F", 330))]))],
        vec![Node::Element(inner)],
        90,
    );
    let mut items = vec![import(vec![named("Suspense", 1)], "react"), stmt(vec![Node::Element(outer)])];
    run(&mut items, config(None, vec![]), Environment::Development);
    let expected_outer = element(
        "BoundaryTrackerSWC",
        0,
        vec![
            JsxAttr::Spread(Node::Code(vec![Node::Element(tracked_use("Suspense", 1, "F", 330, "my/file.tsx:5"))])),
            attr("boundaryId", Node::Str("my/file.tsx:2".to_string())),
            attr("boundary", Node::Ident(ident("Suspense", 1))),
        ],
        vec![Node::Element(tracked_use("Suspense", 1, "Inner", 170, "my/file.tsx:3"))],
        90,
    );
    let expected =
        vec![tracker_import(), import(vec![named("Suspense", 1)], "react"), stmt(vec![Node::Element(expected_outer)])];
    assert_eq!(items, expected);
}

#[test]
fn self_closing_boundary_gets_no_closing_tag() {
    let mut items = vec![import(vec![named("Suspense", 1)], "react"), stmt(vec![self_closing("Suspense", 1, 85)])];
    run(&mut items, config(None, vec![]), Environment::Development);
    let expected_use = Node::Element(JsxElement {
        name: tag("BoundaryTrackerSWC", 0),
        attrs: vec![
            attr("boundaryId", Node::Str("my/file.tsx:2".to_string())),
            attr("boundary", Node::Ident(ident("Suspense", 1))),
        ],
        children: vec![],
        closing: None,
        span_lo: 85,
        line: None,
    });
    assert_eq!(items[2], stmt(vec![expected_use]));
}

#[test]
fn qualified_tags_are_never_matched() {
    let module = || {
        vec![
            import(vec![named("Suspense", 1)], "react"),
            stmt(vec![Node::Element(JsxElement {
                name: JsxName::Qualified("React.Suspense".to_string()),
                attrs: vec![],
                children: vec![],
                closing: None,
                span_lo: 90,
                line: None,
            })]),
        ]
    };
    let mut items = module();
    run(&mut items, config(None, vec![]), Environment::Development);
    assert_eq!(items, module());
}

#[test]
fn visitor_answers_per_element() {
    let mut visitor = TransformVisitor::new(config(None, vec![]), context(Environment::Development));
    visitor.process_boundary_import(&ImportDecl {
        specifiers: vec![aliased("Suspense", "S", 3)],
        src: "react".to_string(),
    });
    let bound = boundary_use("S", 3, "C", 170);
    let shadowed = boundary_use("S", 4, "C", 170);
    assert_eq!(visitor.get_element_boundary_ident(&bound), Some(ident("S", 3)));
    assert_eq!(visitor.get_element_boundary_ident(&shadowed), None);
    assert_eq!(visitor.generate_boundary_id(&bound), "my/file.tsx:3");
    assert_eq!(visitor.create_boundary_tracker_import(), tracker_import());
}

#[test]
fn suspense_end_to_end() {
    // import { Suspense } from "react";
    // <Suspense fallback={<L/>}><C/></Suspense>
    let use_site = |name: &str, ctxt: u32, extra: Vec<JsxAttr>| JsxElement {
        name: tag(name, ctxt),
        attrs: std::iter::once(attr("fallback", self_closing("L", 1, 54))).chain(extra).collect(),
        children: vec![self_closing("C", 1, 60)],
        closing: Some(tag(name, ctxt)),
        span_lo: 34,
        line: Some(2),
    };
    let mut items = vec![import(vec![named("Suspense", 1)], "react"), stmt(vec![Node::Element(use_site("Suspense", 1, vec![]))])];
    run(&mut items, config(None, vec![]), Environment::Development);
    let rewritten = use_site(
        "BoundaryTrackerSWC",
        0,
        vec![
            attr("boundaryId", Node::Str("my/file.tsx:2".to_string())),
            attr("boundary", Node::Ident(ident("Suspense", 1))),
        ],
    );
    let expected = vec![tracker_import(), import(vec![named("Suspense", 1)], "react"), stmt(vec![Node::Element(rewritten)])];
    assert_eq!(items, expected);
}

#[test]
fn error_boundary_end_to_end() {
    // import { ErrorBoundary } from "my-package-name";
    // <ErrorBoundary><C/></ErrorBoundary>
    let use_site = |name: &str, ctxt: u32, attrs: Vec<JsxAttr>| JsxElement {
        name: tag(name, ctxt),
        attrs,
        children: vec![self_closing("C", 1, 64)],
        closing: Some(tag(name, ctxt)),
        span_lo: 49,
        line: None,
    };
    let mut items = vec![
        import(vec![named("ErrorBoundary", 1)], "my-package-name"),
        stmt(vec![Node::Element(use_site("ErrorBoundary", 1, vec![]))]),
    ];
    run(&mut items, config(None, vec![("ErrorBoundary", "my-package-name")]), Environment::Development);
    let rewritten = use_site(
        "BoundaryTrackerSWC",
        0,
        vec![
            attr("boundaryId", Node::Str("my/file.tsx:1".to_string())),
            attr("boundary", Node::Ident(ident("ErrorBoundary", 1))),
        ],
    );
    let expected = vec![
        tracker_import(),
        import(vec![named("ErrorBoundary", 1)], "my-package-name"),
        stmt(vec![Node::Element(rewritten)]),
    ];
    assert_eq!(items, expected);
}

#[test]
fn leading_path_is_normalized_in_ids() {
    let mut items = basic_suspense();
    transform_module(
        &mut items,
        config(None, vec![]),
        Context { env_name: Environment::Development, filename: "./src\\App.tsx".to_string() },
    );
    let expected = stmt(vec![Node::Element(tracked_use("Suspense", 1, "MyComponent", 90, "src/App.tsx:2"))]);
    assert_eq!(items[2], expected);
}
