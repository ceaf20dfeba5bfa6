use suspense_tracker::{
    default_enabled, extract_line_number, generate_boundary_id, normalize_filename, Environment,
};

#[test]
fn test_normalize_filename() {
    assert_eq!(normalize_filename("./src/components/App.tsx"), "src/components/App.tsx");
    assert_eq!(normalize_filename("/Users/dev/project/src/App.tsx"), "Users/dev/project/src/App.tsx");
    assert_eq!(normalize_filename("src\\components\\App.tsx"), "src/components/App.tsx");
}

#[test]
fn test_generate_boundary_id() {
    assert_eq!(generate_boundary_id("./src/App.tsx", 42), "src/App.tsx:42");
    assert_eq!(generate_boundary_id("components/MyComponent.tsx", 123), "components/MyComponent.tsx:123");
}

#[test]
fn test_extract_line_number() {
    assert_eq!(extract_line_number(0), 1);
    assert_eq!(extract_line_number(80), 2);
    assert_eq!(extract_line_number(160), 3);
}

#[test]
fn normalize_strips_one_prefix_only() {
    assert_eq!(normalize_filename("././a.tsx"), "./a.tsx");
    assert_eq!(normalize_filename("//a.tsx"), "/a.tsx");
    assert_eq!(normalize_filename(""), "");
    assert_eq!(normalize_filename("./"), "");
    assert_eq!(normalize_filename(".\\a\\b.tsx"), "./a/b.tsx");
    assert_eq!(normalize_filename("\\\\"), "//");
}

#[test]
fn boundary_id_digits() {
    assert_eq!(generate_boundary_id("a.tsx", 0), "a.tsx:0");
    assert_eq!(generate_boundary_id("a.tsx", 9), "a.tsx:9");
    assert_eq!(generate_boundary_id("a.tsx", 10), "a.tsx:10");
    assert_eq!(generate_boundary_id("/x\\y.tsx", 4294967295), "x/y.tsx:4294967295");
}

#[test]
fn line_number_edges() {
    assert_eq!(extract_line_number(79), 1);
    assert_eq!(extract_line_number(81), 2);
    assert_eq!(extract_line_number(u32::MAX), u32::MAX / 80 + 1);
}

#[test]
fn environment_names() {
    assert_eq!(Environment::try_from("development"), Ok(Environment::Development));
    assert_eq!(Environment::try_from("test"), Ok(Environment::Test));
    assert_eq!(Environment::try_from("production"), Ok(Environment::Production));
    assert_eq!(
        Environment::try_from("staging"),
        Err("staging is not a valid environment".to_string())
    );
    assert_eq!(
        Environment::try_from("Development"),
        Err("Development is not a valid environment".to_string())
    );
}

#[test]
fn enabled_defaults_to_unset() {
    assert_eq!(default_enabled(), None);
}
