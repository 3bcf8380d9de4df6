use y_cargo_deps::{decode_manifest, DecodeError, Dependency, DependencyDetail, DepsSet};

fn decode_single_detailed(entry: &str) -> DependencyDetail {
    let text = format!(
        "[package]\nname = \"demo\"\nversion = \"0.1.0\"\n\n[dependencies]\nd = {}\n",
        entry
    );
    let m = decode_manifest(&text).unwrap();
    let deps = m.dependencies.unwrap();
    assert_eq!(deps.len(), 1);
    match deps.dep_at(0) {
        Dependency::Detailed(d) => d.clone(),
        Dependency::Simple(_) => panic!("expected a detailed dependency"),
    }
}

#[test]
fn every_detail_field_is_filled_from_the_source() {
    let d = decode_single_detailed(
        "{ version = \"0.9\", registry = \"alt\", registry-index = \"https://example.org/i\", path = \"../d\", git = \"https://example.org/g\", branch = \"main\", tag = \"v0.9\", rev = \"abc123\", features = [\"x\"], optional = true, default-features = false, package = \"real-name\" }",
    );
    assert_eq!(d.version.as_deref(), Some("0.9"));
    assert_eq!(d.registry.as_deref(), Some("alt"));
    assert_eq!(d.registry_index.as_deref(), Some("https://example.org/i"));
    assert_eq!(d.path.as_deref(), Some("../d"));
    assert_eq!(d.git.as_deref(), Some("https://example.org/g"));
    assert_eq!(d.branch.as_deref(), Some("main"));
    assert_eq!(d.tag.as_deref(), Some("v0.9"));
    assert_eq!(d.rev.as_deref(), Some("abc123"));
    assert_eq!(d.features, vec!["x".to_string()]);
    assert!(d.optional);
    assert_eq!(d.default_features, Some(false));
    assert_eq!(d.package.as_deref(), Some("real-name"));
}

#[test]
fn unrecognized_fields_are_ignored() {
    let d = decode_single_detailed("{ version = \"1\", whatever = 3, extra = [1, 2] }");
    assert_eq!(d.version.as_deref(), Some("1"));
}

#[test]
fn wrong_kind_for_recognized_field_fails() {
    let text = "[package]\nname = \"demo\"\nversion = \"0.1.0\"\n\n[dependencies]\nd = { version = 1 }\n";
    assert_eq!(decode_manifest(text), Err(DecodeError::BadDependencies));
    let text = "[package]\nname = \"demo\"\nversion = \"0.1.0\"\n\n[dependencies]\nd = { features = [1] }\n";
    assert_eq!(decode_manifest(text), Err(DecodeError::BadDependencies));
    let text = "[package]\nname = \"demo\"\nversion = \"0.1.0\"\n\n[dependencies]\nd = { optional = \"yes\" }\n";
    assert_eq!(decode_manifest(text), Err(DecodeError::BadDependencies));
}

#[test]
fn dependency_of_the_wrong_kind_fails() {
    let text = "[package]\nname = \"demo\"\nversion = \"0.1.0\"\n\n[dependencies]\nd = 1\n";
    assert_eq!(decode_manifest(text), Err(DecodeError::BadDependencies));
    let text = "[package]\nname = \"demo\"\nversion = \"0.1.0\"\n\n[dependencies]\nd = [\"1\"]\n";
    assert_eq!(decode_manifest(text), Err(DecodeError::BadDependencies));
}

#[test]
fn package_section_is_required() {
    assert_eq!(decode_manifest(""), Err(DecodeError::BadPackage));
    assert_eq!(
        decode_manifest("[dependencies]\nserde = \"1\"\n"),
        Err(DecodeError::BadPackage)
    );
}

#[test]
fn package_name_and_version_are_required_strings() {
    let text = "[package]\nversion = \"0.1.0\"\n";
    assert_eq!(decode_manifest(text), Err(DecodeError::BadPackage));
    let text = "[package]\nname = \"demo\"\n";
    assert_eq!(decode_manifest(text), Err(DecodeError::BadPackage));
    let text = "[package]\nname = \"demo\"\nversion = 1\n";
    assert_eq!(decode_manifest(text), Err(DecodeError::BadPackage));
}

#[test]
fn package_authors_are_optional_strings() {
    let text = "[package]\nname = \"demo\"\nversion = \"0.1.0\"\nauthors = [\"a\", \"b\"]\n";
    let m = decode_manifest(text).unwrap();
    assert_eq!(
        m.package.authors,
        Some(vec!["a".to_string(), "b".to_string()])
    );
    let text = "[package]\nname = \"demo\"\nversion = \"0.1.0\"\nauthors = \"a\"\n";
    assert_eq!(decode_manifest(text), Err(DecodeError::BadPackage));
}

#[test]
fn dependencies_of_the_wrong_kind_fail() {
    let text = "dependencies = \"none\"\n\n[package]\nname = \"demo\"\nversion = \"0.1.0\"\n";
    assert_eq!(decode_manifest(text), Err(DecodeError::BadDependencies));
}

#[test]
fn insert_keeps_names_sorted_and_refuses_duplicates() {
    let mut s = DepsSet::new();
    assert!(s.insert("zeta".to_string(), Dependency::Simple("1".to_string())));
    assert!(s.insert("alpha".to_string(), Dependency::Simple("2".to_string())));
    assert!(s.insert("mid".to_string(), Dependency::Simple("3".to_string())));
    assert!(!s.insert("mid".to_string(), Dependency::Simple("9".to_string())));
    assert_eq!(s.len(), 3);
    assert_eq!(s.key_at(0), "alpha");
    assert_eq!(s.key_at(1), "mid");
    assert_eq!(s.key_at(2), "zeta");
    assert_eq!(s.dep_at(1), &Dependency::Simple("3".to_string()));
}

#[test]
fn default_detail_is_all_empty() {
    let d = DependencyDetail::default();
    assert_eq!(d.version, None);
    assert!(d.features.is_empty());
    assert!(!d.optional);
    assert_eq!(d.default_features, None);
}
