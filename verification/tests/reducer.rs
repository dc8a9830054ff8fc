use npm_package_age::parse::{parse_packages, reduce_all};
use npm_package_age::reduce::{reduce, PublishFact, ReduceError, RegistryEntry};

const T_2020: i64 = 1577836800000;
const T_2021: i64 = 1609459200000;

fn entry(name: &str, times: &[(&str, &str)]) -> RegistryEntry {
    RegistryEntry {
        name: name.to_string(),
        times: times
            .iter()
            .map(|(k, v)| (k.to_string(), Some(v.to_string())))
            .collect(),
    }
}

#[test]
fn excluded_labels_lose_even_with_the_largest_timestamp() {
    let e = entry(
        "pkg",
        &[
            ("created", "2022-01-01T00:00:00Z"),
            ("1.0.0", "2020-01-01T00:00:00Z"),
            ("1.0.1", "2021-01-01T00:00:00Z"),
        ],
    );
    let f = reduce(&e).unwrap();
    assert_eq!(f.name, "pkg");
    assert_eq!(f.max_version, "1.0.1");
    assert_eq!(f.timestamp, T_2021);
}

#[test]
fn sentinel_and_modified_are_excluded_too() {
    let e = entry(
        "pkg",
        &[
            ("modified", "2023-01-01T00:00:00Z"),
            ("0.0.0", "2024-01-01T00:00:00Z"),
            ("2.0.0", "2020-01-01T00:00:00Z"),
        ],
    );
    let f = reduce(&e).unwrap();
    assert_eq!(f.max_version, "2.0.0");
    assert_eq!(f.timestamp, T_2020);
}

#[test]
fn all_labels_excluded_means_no_qualifying_version() {
    let e = entry(
        "pkg",
        &[
            ("created", "2020-01-01T00:00:00Z"),
            ("modified", "2021-01-01T00:00:00Z"),
            ("0.0.0", "2022-01-01T00:00:00Z"),
        ],
    );
    assert_eq!(reduce(&e), Err(ReduceError::NoQualifyingVersion));
}

#[test]
fn empty_history_means_no_qualifying_version() {
    let e = entry("pkg", &[]);
    assert_eq!(reduce(&e), Err(ReduceError::NoQualifyingVersion));
}

#[test]
fn bad_timestamp_on_a_qualifying_label_is_malformed() {
    let e = entry(
        "pkg",
        &[("1.0.0", "2020-01-01T00:00:00Z"), ("1.0.1", "not a date")],
    );
    assert_eq!(reduce(&e), Err(ReduceError::MalformedTimestamp));
}

#[test]
fn bad_timestamp_on_an_excluded_label_is_ignored() {
    let e = entry(
        "pkg",
        &[("created", "nonsense"), ("1.0.0", "2020-01-01T00:00:00Z")],
    );
    let f = reduce(&e).unwrap();
    assert_eq!(f.max_version, "1.0.0");
}

#[test]
fn non_string_timestamp_on_a_qualifying_label_is_malformed() {
    let e = RegistryEntry {
        name: "pkg".to_string(),
        times: vec![("1.0.0".to_string(), None)],
    };
    assert_eq!(reduce(&e), Err(ReduceError::MalformedTimestamp));
}

#[test]
fn equal_maximum_timestamps_go_to_the_last_label() {
    let e = entry(
        "pkg",
        &[
            ("1.0.0", "2021-01-01T00:00:00Z"),
            ("1.0.1", "2021-01-01T00:00:00Z"),
        ],
    );
    let f = reduce(&e).unwrap();
    assert_eq!(f.max_version, "1.0.1");
    assert_eq!(f.timestamp, T_2021);
}

#[test]
fn timestamps_keep_sub_second_precision_as_milliseconds() {
    let e = entry("pkg", &[("1.0.0", "2020-01-01T00:00:00.555Z")]);
    let f = reduce(&e).unwrap();
    assert_eq!(f.timestamp, T_2020 + 555);
}

#[test]
fn reduce_all_fails_fast_with_the_first_error() {
    let entries = vec![
        entry("ok", &[("1.0.0", "2020-01-01T00:00:00Z")]),
        entry("bad", &[("created", "2020-01-01T00:00:00Z")]),
        entry("worse", &[("1.0.0", "junk")]),
    ];
    assert_eq!(reduce_all(&entries), Err(ReduceError::NoQualifyingVersion));
}

#[test]
fn two_package_manifest_end_to_end_ascending() {
    let entries = vec![
        entry("b", &[("1.0.0", "2021-01-01T00:00:00Z")]),
        entry("a", &[("1.0.0", "2020-01-01T00:00:00Z")]),
    ];
    let facts = parse_packages(&entries, false).unwrap();
    assert_eq!(
        facts,
        vec![
            PublishFact {
                name: "a".to_string(),
                max_version: "1.0.0".to_string(),
                timestamp: T_2020,
            },
            PublishFact {
                name: "b".to_string(),
                max_version: "1.0.0".to_string(),
                timestamp: T_2021,
            },
        ]
    );
}
