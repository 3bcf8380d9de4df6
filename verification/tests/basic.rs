use y_cargo_deps::{decode_manifest, DecodeError, Dependency, RenderError};

#[test]
fn simple_round_trip() {
    let text = "[package]\nname = \"demo\"\nversion = \"0.1.0\"\n\n[dependencies]\nserde = \"1.0\"\n";
    let m = decode_manifest(text).unwrap();
    let out = m.render_deps().unwrap();
    assert_eq!(out, "serde:1.0\n");
    let d = Dependency::Simple(String::from("2.4.1"));
    assert_eq!(d.value_string(), "2.4.1");
    assert_eq!(d.try_value_string(), Some(String::from("2.4.1")));
}

#[test]
fn detailed_with_version() {
    let text = "[package]\nname = \"demo\"\nversion = \"0.1.0\"\n\n[dependencies]\ntokio = { version = \"1.2.3\", features = [\"a\",\"b\"], git = \"https://example.org/r\", optional = true }\n";
    let m = decode_manifest(text).unwrap();
    let deps = m.dependencies.as_ref().unwrap();
    assert_eq!(deps.len(), 1);
    assert_eq!(deps.key_at(0), "tokio");
    match deps.dep_at(0) {
        Dependency::Detailed(d) => {
            assert_eq!(d.version.as_deref(), Some("1.2.3"));
            assert_eq!(d.features, vec!["a".to_string(), "b".to_string()]);
            assert!(d.optional);
            assert_eq!(d.git.as_deref(), Some("https://example.org/r"));
        }
        Dependency::Simple(_) => panic!("expected a detailed dependency"),
    }
    assert_eq!(deps.dep_at(0).try_value_string(), Some(String::from("1.2.3")));
    assert_eq!(m.render_deps().unwrap(), "tokio:1.2.3\n");
}

#[test]
fn default_population() {
    let text = "[package]\nname = \"demo\"\nversion = \"0.1.0\"\n\n[dependencies]\nx = { version = \"3\" }\n";
    let m = decode_manifest(text).unwrap();
    let deps = m.dependencies.as_ref().unwrap();
    match deps.dep_at(0) {
        Dependency::Detailed(d) => {
            assert!(d.features.is_empty());
            assert!(!d.optional);
            assert_eq!(d.default_features, None);
            assert_eq!(d.registry, None);
            assert_eq!(d.package, None);
        }
        Dependency::Simple(_) => panic!("expected a detailed dependency"),
    }
}

#[test]
fn ordering_is_by_name() {
    let text = "[package]\nname = \"demo\"\nversion = \"0.1.0\"\n\n[dependencies]\nzeta = \"1.0\"\nalpha = \"2.0\"\n";
    let m = decode_manifest(text).unwrap();
    let deps = m.dependencies.as_ref().unwrap();
    assert_eq!(deps.len(), 2);
    assert_eq!(deps.key_at(0), "alpha");
    assert_eq!(deps.key_at(1), "zeta");
    assert_eq!(m.render_deps().unwrap(), "alpha:2.0\nzeta:1.0\n");
}

#[test]
fn missing_dependencies_table() {
    let text = "[package]\nname = \"demo\"\nversion = \"0.1.0\"\n";
    let m = decode_manifest(text).unwrap();
    assert!(m.dependencies.is_none());
    assert_eq!(m.render_deps(), Err(RenderError::MissingDependencies));
}

#[test]
fn end_to_end_example() {
    let text = "[package]\nname = \"demo\"\nversion = \"0.1.0\"\n\n[dependencies]\nserde = \"1.0\"\ntokio = { version = \"1\", features = [\"rt\"] }\n";
    let m = decode_manifest(text).unwrap();
    assert_eq!(m.package.name, "demo");
    assert_eq!(m.package.version, "0.1.0");
    assert_eq!(m.render_deps().unwrap(), "serde:1.0\ntokio:1\n");
}

#[test]
fn missing_version_on_detailed_fails_rendering() {
    let text = "[package]\nname = \"demo\"\nversion = \"0.1.0\"\n\n[dependencies]\nlocal = { path = \"../local\" }\n";
    let m = decode_manifest(text).unwrap();
    let deps = m.dependencies.as_ref().unwrap();
    assert_eq!(deps.dep_at(0).try_value_string(), None);
    assert_eq!(m.render_deps(), Err(RenderError::MissingVersion));
}

#[test]
fn syntax_error_is_reported() {
    assert_eq!(decode_manifest("not [valid toml"), Err(DecodeError::Syntax));
}

#[test]
fn duplicate_dependency_name_fails() {
    let text = "[package]\nname = \"demo\"\nversion = \"0.1.0\"\n\n[dependencies]\nserde = \"1.0\"\nserde = \"2.0\"\n";
    assert_eq!(decode_manifest(text), Err(DecodeError::Syntax));
}

#[test]
fn empty_dependencies_table_renders_nothing() {
    let text = "[package]\nname = \"demo\"\nversion = \"0.1.0\"\n\n[dependencies]\n";
    let m = decode_manifest(text).unwrap();
    assert!(m.dependencies.is_some());
    assert_eq!(m.render_deps().unwrap(), "");
}
