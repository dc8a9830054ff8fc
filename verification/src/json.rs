//! The boundary to the raw JSON documents: the manifest and the per-package
//! registry responses both arrive as `serde_json::Value`, which the verified
//! logic cannot look inside. What each accessor reads of a value is given a
//! name — an uninterpreted view of the value — and the wrappers promise to
//! return exactly that view; the conversion functions then carry those views
//! into the library's own plain-value models, on which everything else is
//! specified and proved.

use vstd::prelude::*;

use crate::manifest::ManifestDoc;
use crate::reduce::{times_views, RegistryEntry};
use crate::strutil::str_views;

verus! {

#[verifier::external_type_specification]
#[verifier::external_body]
pub struct ExValue(serde_json::Value);

/// The JSON document a text denotes, or `None` when the text is not valid
/// JSON; a function of the characters alone.
pub uninterp spec fn json_doc_of(s: Seq<char>) -> Option<serde_json::Value>;

/// The `u64` under `key` of a JSON object, or `None` when the value is not
/// an object, lacks the key, or holds no such number there.
pub uninterp spec fn u64_of_field(v: serde_json::Value, key: Seq<char>) -> Option<u64>;

/// The keys, in iteration order, of the JSON object under `key`, or `None`
/// when the value is not an object, lacks the key, or holds no object there.
pub uninterp spec fn keys_of_field(v: serde_json::Value, key: Seq<char>) -> Option<Seq<Seq<char>>>;

/// The string under `key` of a JSON object, or `None` when the value is not
/// an object, lacks the key, or holds no string there.
pub uninterp spec fn string_of_field(v: serde_json::Value, key: Seq<char>) -> Option<Seq<char>>;

/// The key/value pairs, in iteration order, of the JSON object under `key`,
/// each value read as a string — `None` for one that is not a JSON string —
/// or `None` as a whole when the value is not an object, lacks the key, or
/// holds no object there.
pub uninterp spec fn str_entries_of_field(v: serde_json::Value, key: Seq<char>) -> Option<
    Seq<(Seq<char>, Option<Seq<char>>)>,
>;

/// Relies on serde_json::from_str: parses a JSON document, `None` when the
/// text is not valid JSON; the result depends on the text alone.
#[verifier::external_body]
pub fn parse_json(s: &str) -> (r: Option<serde_json::Value>)
    ensures
        r == json_doc_of(s@),
{
    serde_json::from_str::<serde_json::Value>(s).ok()
}

/// Relies on serde_json's Value::get and Value::as_u64: the number under a
/// key of a JSON object.
#[verifier::external_body]
fn json_field_u64(v: &serde_json::Value, key: &str) -> (r: Option<u64>)
    ensures
        r == u64_of_field(*v, key@),
{
    v.get(key).and_then(serde_json::Value::as_u64)
}

/// Relies on serde_json's Value::get and Value::as_object: the keys of the
/// object under a key of a JSON object, in iteration order.
#[verifier::external_body]
fn json_field_keys(v: &serde_json::Value, key: &str) -> (r: Option<Vec<String>>)
    ensures
        match r {
            Some(keys) => keys_of_field(*v, key@) == Some(str_views(keys@)),
            None => keys_of_field(*v, key@) is None,
        },
{
    v.get(key).and_then(serde_json::Value::as_object).map(|m| m.keys().cloned().collect())
}

/// Relies on serde_json's Value::get and Value::as_str: the string under a
/// key of a JSON object.
#[verifier::external_body]
fn json_field_string(v: &serde_json::Value, key: &str) -> (r: Option<String>)
    ensures
        match r {
            Some(s) => string_of_field(*v, key@) == Some(s@),
            None => string_of_field(*v, key@) is None,
        },
{
    v.get(key).and_then(serde_json::Value::as_str).map(str::to_owned)
}

/// Relies on serde_json's Value::get, Value::as_object and Value::as_str:
/// the key/value pairs of the object under a key of a JSON object, each
/// value read as a string, a non-string value as `None`.
#[verifier::external_body]
fn json_field_string_entries(v: &serde_json::Value, key: &str) -> (r: Option<
    Vec<(String, Option<String>)>,
>)
    ensures
        match r {
            Some(times) => str_entries_of_field(*v, key@) == Some(times_views(times@)),
            None => str_entries_of_field(*v, key@) is None,
        },
{
    v.get(key).and_then(serde_json::Value::as_object).map(
        |m| m.iter().map(|(k, val)| (k.clone(), val.as_str().map(str::to_owned))).collect(),
    )
}

/// Reads of a raw manifest document the three things extraction looks at:
/// the numeric schema-version field and the key sets of the two container
/// mappings. A field that is absent or not of the expected shape becomes
/// `None`.
pub fn manifest_of_value(v: &serde_json::Value) -> (doc: ManifestDoc)
    ensures
        doc.schema_version == u64_of_field(*v, "lockfileVersion"@),
        match doc.dependencies {
            Some(keys) => keys_of_field(*v, "dependencies"@) == Some(str_views(keys@)),
            None => keys_of_field(*v, "dependencies"@) is None,
        },
        match doc.packages {
            Some(keys) => keys_of_field(*v, "packages"@) == Some(str_views(keys@)),
            None => keys_of_field(*v, "packages"@) is None,
        },
{
    let schema_version = json_field_u64(v, "lockfileVersion");
    let dependencies = json_field_keys(v, "dependencies");
    let packages = json_field_keys(v, "packages");
    ManifestDoc { schema_version, dependencies, packages }
}

/// Reads a registry response's `time` mapping: the label/timestamp pairs in
/// iteration order, unfiltered, a non-string timestamp value becoming
/// `None`. Returns `None` exactly when the response has no `time` object.
pub fn get_publishes(v: &serde_json::Value) -> (r: Option<Vec<(String, Option<String>)>>)
    ensures
        match r {
            Some(times) => str_entries_of_field(*v, "time"@) == Some(times_views(times@)),
            None => str_entries_of_field(*v, "time"@) is None,
        },
{
    json_field_string_entries(v, "time")
}

/// Reads a raw registry response into the reducer's model: the package name
/// and its label/timestamp pairs. Returns `None` exactly when the response
/// lacks a string `name` or an object `time` — an undecodable body.
pub fn entry_of_value(v: &serde_json::Value) -> (r: Option<RegistryEntry>)
    ensures
        r is Some <==> (string_of_field(*v, "name"@) is Some && str_entries_of_field(*v, "time"@)
            is Some),
        match r {
            Some(e) => string_of_field(*v, "name"@) == Some(e.name@) && str_entries_of_field(
                *v,
                "time"@,
            ) == Some(times_views(e.times@)),
            None => true,
        },
{
    let name = match json_field_string(v, "name") {
        Some(s) => s,
        None => {
            return None;
        },
    };
    match get_publishes(v) {
        Some(times) => Some(RegistryEntry { name, times }),
        None => None,
    }
}

} // verus!
