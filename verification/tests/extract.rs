use npm_package_age::manifest::{
    check_extract_pre, extract, generate_urls, is_manifest_url, registry_url, tail_after_last,
    ExtractError, ManifestDoc,
};

fn strings(v: &[&str]) -> Vec<String> {
    v.iter().map(|s| s.to_string()).collect()
}

fn v1_doc(keys: &[&str]) -> ManifestDoc {
    ManifestDoc {
        schema_version: Some(1),
        dependencies: Some(strings(keys)),
        packages: None,
    }
}

fn v2_doc(keys: &[&str]) -> ManifestDoc {
    ManifestDoc {
        schema_version: Some(2),
        dependencies: None,
        packages: Some(strings(keys)),
    }
}

#[test]
fn v1_identifiers_are_exactly_the_keys() {
    let doc = v1_doc(&["a", "b", "left-pad"]);
    assert!(check_extract_pre(&doc));
    let ids = extract(&doc).unwrap();
    assert_eq!(ids, strings(&["a", "b", "left-pad"]));
}

#[test]
fn missing_schema_version_is_unsupported() {
    let doc = ManifestDoc {
        schema_version: None,
        dependencies: Some(strings(&["a"])),
        packages: None,
    };
    assert_eq!(extract(&doc), Err(ExtractError::UnsupportedSchema));
}

#[test]
fn unknown_schema_version_is_unsupported() {
    let doc = ManifestDoc {
        schema_version: Some(3),
        dependencies: Some(strings(&["a"])),
        packages: Some(strings(&["node_modules/a"])),
    };
    assert_eq!(extract(&doc), Err(ExtractError::UnsupportedSchema));
}

#[test]
fn v1_without_dependencies_is_malformed() {
    let doc = ManifestDoc {
        schema_version: Some(1),
        dependencies: None,
        packages: Some(strings(&["node_modules/a"])),
    };
    assert_eq!(extract(&doc), Err(ExtractError::MalformedManifest));
}

#[test]
fn v2_without_packages_is_malformed() {
    let doc = ManifestDoc {
        schema_version: Some(2),
        dependencies: Some(strings(&["a"])),
        packages: None,
    };
    assert_eq!(extract(&doc), Err(ExtractError::MalformedManifest));
}

#[test]
fn v2_drops_root_and_collapses_nesting_depths() {
    let doc = v2_doc(&[
        "",
        "node_modules/a",
        "node_modules/a/node_modules/b",
        "node_modules/b",
    ]);
    assert!(check_extract_pre(&doc));
    let ids = extract(&doc).unwrap();
    assert_eq!(ids, strings(&["a", "b"]));
    assert!(!ids.iter().any(|id| id.is_empty()));
}

#[test]
fn v2_scoped_package_keeps_full_scope_at_any_depth() {
    let doc = v2_doc(&[
        "",
        "node_modules/@scope/x",
        "node_modules/a/node_modules/@scope/x",
    ]);
    let ids = extract(&doc).unwrap();
    assert_eq!(ids, strings(&["@scope/x"]));
}

#[test]
fn v2_key_without_segment_fails_the_precondition() {
    let doc = v2_doc(&["", "node_modules/a", "stray-key"]);
    assert!(!check_extract_pre(&doc));
}

#[test]
fn tail_after_last_takes_the_innermost_name() {
    assert_eq!(
        tail_after_last("node_modules/a/node_modules/@scope/x"),
        Some("@scope/x".to_string())
    );
    assert_eq!(tail_after_last("node_modules/a"), Some("a".to_string()));
    assert_eq!(tail_after_last("no segment here"), None);
}

#[test]
fn urls_prefix_each_identifier_with_the_registry_base() {
    assert_eq!(registry_url("left-pad"), "https://registry.npmjs.org/left-pad");
    let doc = v1_doc(&["a", "b"]);
    let urls = generate_urls(&doc).unwrap();
    assert_eq!(
        urls,
        strings(&[
            "https://registry.npmjs.org/a",
            "https://registry.npmjs.org/b"
        ])
    );
}

#[test]
fn manifest_location_classification() {
    assert!(is_manifest_url("https://example.org/x/package-lock.json"));
    assert!(is_manifest_url("http://example.org/package-lock.json"));
    assert!(!is_manifest_url("https://example.org/x/package.json"));
    assert!(!is_manifest_url("./package-lock.json"));
}
