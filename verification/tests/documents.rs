use npm_package_age::json::{entry_of_value, get_publishes, manifest_of_value, parse_json};
use npm_package_age::manifest::{check_extract_pre, extract};
use npm_package_age::opts::Output;
use npm_package_age::parse::parse_packages;
use npm_package_age::reduce::reduce;

#[test]
fn v1_manifest_document_round_trip() {
    let text = "{\"lockfileVersion\": 1, \"dependencies\": {\"a\": {}, \"b\": {}}}";
    let value = parse_json(text).unwrap();
    let doc = manifest_of_value(&value);
    assert_eq!(doc.schema_version, Some(1));
    assert!(check_extract_pre(&doc));
    let ids = extract(&doc).unwrap();
    assert_eq!(ids, vec!["a".to_string(), "b".to_string()]);
}

#[test]
fn v2_manifest_document_round_trip() {
    let text = "{\"lockfileVersion\": 2, \"packages\": {\"\": {}, \"node_modules/a\": {}, \"node_modules/a/node_modules/b\": {}, \"node_modules/b\": {}}}";
    let value = parse_json(text).unwrap();
    let doc = manifest_of_value(&value);
    assert_eq!(doc.schema_version, Some(2));
    let ids = extract(&doc).unwrap();
    assert_eq!(ids, vec!["a".to_string(), "b".to_string()]);
}

#[test]
fn non_numeric_schema_version_reads_as_absent() {
    let text = "{\"lockfileVersion\": \"two\", \"packages\": {}}";
    let value = parse_json(text).unwrap();
    let doc = manifest_of_value(&value);
    assert_eq!(doc.schema_version, None);
}

#[test]
fn dependencies_that_are_not_an_object_read_as_absent() {
    let text = "{\"lockfileVersion\": 1, \"dependencies\": [1, 2]}";
    let value = parse_json(text).unwrap();
    let doc = manifest_of_value(&value);
    assert_eq!(doc.dependencies, None);
}

#[test]
fn invalid_json_is_rejected() {
    assert!(parse_json("{not json").is_none());
}

#[test]
fn registry_response_decodes_into_an_entry() {
    let text = "{\"name\": \"a\", \"time\": {\"created\": \"2019-01-01T00:00:00Z\", \"1.0.0\": \"2020-01-01T00:00:00Z\"}}";
    let value = parse_json(text).unwrap();
    let entry = entry_of_value(&value).unwrap();
    assert_eq!(entry.name, "a");
    assert_eq!(entry.times.len(), 2);
    let fact = reduce(&entry).unwrap();
    assert_eq!(fact.max_version, "1.0.0");
    assert_eq!(fact.timestamp, 1577836800000);
}

#[test]
fn registry_response_without_name_or_time_is_undecodable() {
    let no_name = parse_json("{\"time\": {}}").unwrap();
    assert!(entry_of_value(&no_name).is_none());
    let no_time = parse_json("{\"name\": \"a\"}").unwrap();
    assert!(entry_of_value(&no_time).is_none());
    let bad_time = parse_json("{\"name\": \"a\", \"time\": 3}").unwrap();
    assert!(entry_of_value(&bad_time).is_none());
}

#[test]
fn non_string_time_values_survive_as_unparsable() {
    let value = parse_json("{\"name\": \"a\", \"time\": {\"1.0.0\": 42}}").unwrap();
    let publishes = get_publishes(&value).unwrap();
    assert_eq!(publishes, vec![("1.0.0".to_string(), None)]);
}

#[test]
fn stubbed_two_package_run_produces_the_ascending_report() {
    let lock = parse_json("{\"lockfileVersion\":1, \"dependencies\":{\"a\":{}, \"b\":{}}}").unwrap();
    let doc = manifest_of_value(&lock);
    let ids = extract(&doc).unwrap();
    assert_eq!(ids, vec!["a".to_string(), "b".to_string()]);
    let bodies = [
        "{\"name\":\"a\", \"time\":{\"1.0.0\":\"2020-01-01T00:00:00Z\"}}",
        "{\"name\":\"b\", \"time\":{\"1.0.0\":\"2021-01-01T00:00:00Z\"}}",
    ];
    let entries: Vec<_> = bodies
        .iter()
        .map(|b| entry_of_value(&parse_json(b).unwrap()).unwrap())
        .collect();
    let facts = parse_packages(&entries, false).unwrap();
    let report: Vec<(String, String, i64)> = facts
        .iter()
        .map(|f| (f.name.clone(), f.max_version.clone(), f.timestamp))
        .collect();
    assert_eq!(
        report,
        vec![
            ("a".to_string(), "1.0.0".to_string(), 1577836800000),
            ("b".to_string(), "1.0.0".to_string(), 1609459200000),
        ]
    );
}

#[test]
fn output_selector_parses_exactly_two_formats() {
    assert_eq!(Output::from_str("csv"), Ok(Output::CSV));
    assert_eq!(Output::from_str("json"), Ok(Output::JSON));
    assert_eq!(Output::from_str("xml"), Err("Unknown file type"));
    assert_eq!(Output::from_str(""), Err("Unknown file type"));
}
