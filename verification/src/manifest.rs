//! The identifier extractor: turns a dependency-lock manifest into the set of
//! registry package identifiers to query.
//!
//! Two manifest schema versions exist. Version 1 stores a flat mapping from
//! package name to descriptor under `dependencies`: the identifiers are
//! exactly its keys. Version 2 stores a mapping from filesystem-style install
//! path to descriptor under `packages`: the root entry (the empty path) is
//! dropped, and every other identifier is the substring following the last
//! occurrence of the segment `node_modules/`. Splitting on the last occurrence
//! (rather than the first) yields the innermost, most specific package name
//! for nested installs, and duplicates arising from the same package installed
//! at several nesting depths collapse to one identifier.

use vstd::prelude::*;
use vstd::string::StringExecFns;

use crate::strutil::{contains_str, ends_with_str, spec_ends_with, spec_starts_with,
    starts_with_str, str_views};

verus! {

/// Why extraction of identifiers from a manifest failed.
#[derive(Debug, Clone, PartialEq, Eq)]
pub enum ExtractError {
    /// The schema-version field is absent, not numeric, or not a supported
    /// version.
    UnsupportedSchema,
    /// The container field expected for the schema version (`dependencies`
    /// for version 1, `packages` for version 2) is absent or not a keyed
    /// mapping.
    MalformedManifest,
}

/// What the extractor reads of a dependency-lock manifest: the schema
/// version and the key sets of the two possible container mappings. A field
/// that is absent or not of the expected shape is `None`.
pub struct ManifestDoc {
    /// The manifest's `lockfileVersion` field, when present and numeric.
    pub schema_version: Option<u64>,
    /// The keys of the version-1 `dependencies` mapping, when present and a
    /// keyed mapping.
    pub dependencies: Option<Vec<String>>,
    /// The keys of the version-2 `packages` mapping, when present and a keyed
    /// mapping.
    pub packages: Option<Vec<String>>,
}

/// The path segment that separates nesting levels in a version-2 install
/// path.
pub open spec fn nm_seg() -> Seq<char> {
    "node_modules/"@
}

/// The segment occurs in `s` at position `i`.
pub open spec fn seg_at(s: Seq<char>, i: int) -> bool {
    &&& 0 <= i
    &&& i + nm_seg().len() <= s.len()
    &&& s.subrange(i, i + nm_seg().len() as int) == nm_seg()
}

/// The segment occurs somewhere in `s`.
pub open spec fn has_seg(s: Seq<char>) -> bool {
    exists|i: int| seg_at(s, i)
}

/// The position of the last occurrence of the segment in `s` (meaningful only
/// when `has_seg(s)`).
pub open spec fn last_seg(s: Seq<char>) -> int {
    choose|i: int| seg_at(s, i) && (forall|k: int| seg_at(s, k) ==> k <= i)
}

/// The substring of `s` following the last occurrence of the segment
/// (meaningful only when `has_seg(s)`).
pub open spec fn tail_after(s: Seq<char>) -> Seq<char> {
    s.subrange(last_seg(s) + nm_seg().len() as int, s.len() as int)
}

/// Every non-empty key contains the segment, so each has a well-defined
/// identifier.
pub open spec fn v2_keys_ok(keys: Seq<Seq<char>>) -> bool {
    forall|j: int| 0 <= j < keys.len() ==> (#[trigger] keys[j]).len() != 0 ==> has_seg(keys[j])
}

/// The identifiers extracted from a version-2 key set: the tail after the
/// last segment of each non-empty key, deduplicated keeping the first
/// occurrence's position.
pub open spec fn v2_ids(keys: Seq<Seq<char>>) -> Seq<Seq<char>>
    decreases keys.len(),
{
    if keys.len() == 0 {
        Seq::empty()
    } else {
        let prev = v2_ids(keys.drop_last());
        let k = keys.last();
        if k.len() == 0 {
            prev
        } else if prev.contains(tail_after(k)) {
            prev
        } else {
            prev.push(tail_after(k))
        }
    }
}

/// The exact result `extract` must return for a given manifest.
pub open spec fn extract_spec(doc: ManifestDoc) -> Result<Seq<Seq<char>>, ExtractError> {
    match doc.schema_version {
        None => Err(ExtractError::UnsupportedSchema),
        Some(v) => {
            if v == 1 {
                match doc.dependencies {
                    None => Err(ExtractError::MalformedManifest),
                    Some(keys) => Ok(str_views(keys@)),
                }
            } else if v == 2 {
                match doc.packages {
                    None => Err(ExtractError::MalformedManifest),
                    Some(keys) => Ok(v2_ids(str_views(keys@))),
                }
            } else {
                Err(ExtractError::UnsupportedSchema)
            }
        },
    }
}

/// The precondition of `extract`: in the version-2 case every non-empty
/// install path must contain the segment.
pub open spec fn extract_pre(doc: ManifestDoc) -> bool {
    (doc.schema_version == Some(2u64) && doc.packages is Some) ==> v2_keys_ok(
        str_views(doc.packages->Some_0@),
    )
}

/// Law: for a version-1 manifest, extraction returns exactly the keys of the
/// `dependencies` mapping, with no transformation and no reordering.
pub proof fn lemma_v1_extract_identity(doc: ManifestDoc)
    requires
        doc.schema_version == Some(1u64),
        doc.dependencies is Some,
    ensures
        extract_spec(doc) == Ok::<Seq<Seq<char>>, ExtractError>(
            str_views(doc.dependencies->Some_0@),
        ),
{
}

/// Law: an identifier is extracted from a version-2 key set exactly when some
/// non-empty install path has it as the tail after its last segment. In
/// particular, two paths differing only in nesting depth but sharing that
/// tail contribute one identifier, not two.
pub proof fn lemma_v2_ids_membership(keys: Seq<Seq<char>>, id: Seq<char>)
    ensures
        v2_ids(keys).contains(id) <==> exists|j: int|
            0 <= j < keys.len() && (#[trigger] keys[j]).len() != 0 && tail_after(keys[j]) == id,
    decreases keys.len(),
{
    if keys.len() == 0 {
    } else {
        let prev = v2_ids(keys.drop_last());
        let k = keys.last();
        lemma_v2_ids_membership(keys.drop_last(), id);
        if v2_ids(keys) == prev {
            if prev.contains(id) {
                let j = choose|j: int|
                    0 <= j < keys.drop_last().len() && (#[trigger] keys.drop_last()[j]).len() != 0
                        && tail_after(keys.drop_last()[j]) == id;
                assert(keys[j].len() != 0 && tail_after(keys[j]) == id);
            } else {
                if k.len() != 0 && tail_after(k) == id {
                    assert(prev.contains(tail_after(k)));
                }
                assert(forall|j: int|
                    0 <= j < keys.len() - 1 ==> !((#[trigger] keys[j]).len() != 0 && tail_after(
                        keys[j],
                    ) == id)) by {
                    assert(forall|j: int|
                        0 <= j < keys.drop_last().len() ==> keys.drop_last()[j] == keys[j]);
                }
            }
        } else {
            assert(v2_ids(keys) == prev.push(tail_after(k)));
            if id == tail_after(k) {
                assert(v2_ids(keys)[v2_ids(keys).len() - 1] == id);
                assert(keys[keys.len() - 1].len() != 0 && tail_after(keys[keys.len() - 1]) == id);
            } else {
                assert(v2_ids(keys).contains(id) <==> prev.contains(id)) by {
                    if v2_ids(keys).contains(id) {
                        let p = choose|p: int|
                            0 <= p < v2_ids(keys).len() && v2_ids(keys)[p] == id;
                        assert(prev[p] == id);
                    }
                    if prev.contains(id) {
                        let p = choose|p: int| 0 <= p < prev.len() && prev[p] == id;
                        assert(v2_ids(keys)[p] == id);
                    }
                }
                if prev.contains(id) {
                    let j = choose|j: int|
                        0 <= j < keys.drop_last().len() && (#[trigger] keys.drop_last()[j]).len()
                            != 0 && tail_after(keys.drop_last()[j]) == id;
                    assert(keys[j].len() != 0 && tail_after(keys[j]) == id);
                } else {
                    assert(forall|j: int|
                        0 <= j < keys.len() - 1 ==> !((#[trigger] keys[j]).len() != 0 && tail_after(
                            keys[j],
                        ) == id)) by {
                        assert(forall|j: int|
                            0 <= j < keys.drop_last().len() ==> keys.drop_last()[j] == keys[j]);
                    }
                }
            }
        }
    }
}

/// Law: a version-2 extraction holds no duplicate identifiers: deduplication
/// collapses every repetition to the first occurrence.
pub proof fn lemma_v2_ids_no_dups(keys: Seq<Seq<char>>)
    ensures
        forall|p: int, q: int|
            0 <= p < q < v2_ids(keys).len() ==> v2_ids(keys)[p] != v2_ids(keys)[q],
    decreases keys.len(),
{
    if keys.len() == 0 {
    } else {
        let prev = v2_ids(keys.drop_last());
        lemma_v2_ids_no_dups(keys.drop_last());
        if v2_ids(keys) != prev {
            let t = tail_after(keys.last());
            assert(v2_ids(keys) == prev.push(t));
            assert(!prev.contains(t));
            assert(forall|p: int, q: int|
                0 <= p < q < v2_ids(keys).len() ==> v2_ids(keys)[p] != v2_ids(keys)[q]) by {
                assert(forall|p: int| 0 <= p < prev.len() ==> v2_ids(keys)[p] == prev[p]);
                assert forall|p: int| 0 <= p < prev.len() implies prev[p] != t by {
                    if prev[p] == t {
                        assert(prev.contains(t));
                    }
                }
            }
        }
    }
}

/// Law: the empty identifier is never extracted from a version-2 key set in
/// which no non-empty install path has an empty tail (that is, no path ends
/// with the segment itself). The root entry's empty path is always dropped.
pub proof fn lemma_v2_ids_no_empty(keys: Seq<Seq<char>>)
    requires
        forall|j: int|
            0 <= j < keys.len() ==> (#[trigger] keys[j]).len() != 0 ==> tail_after(keys[j]).len()
                != 0,
    ensures
        !v2_ids(keys).contains(Seq::<char>::empty()),
{
    lemma_v2_ids_membership(keys, Seq::<char>::empty());
}

/// The segment occurs in `s` at character position `i`.
fn seg_match_at(s: &str, seg: &str, i: usize, n: usize) -> (b: bool)
    requires
        seg@ == nm_seg(),
        n == s@.len(),
        i + seg@.len() <= n,
    ensures
        b == seg_at(s@, i as int),
{
    let seg_len = seg.unicode_len();
    let mut d: usize = 0;
    while d < seg_len
        invariant
            seg@ == nm_seg(),
            seg_len == seg@.len(),
            n == s@.len(),
            i + seg_len <= n,
            d <= seg_len,
            forall|j: int| 0 <= j < d ==> s@[i + j] == nm_seg()[j],
        decreases seg_len - d,
    {
        if s.get_char(i + d) != seg.get_char(d) {
            proof {
                assert(s@.subrange(i as int, i + nm_seg().len() as int)[d as int] != nm_seg()[
                    d as int
                ]);
            }
            return false;
        }
        d += 1;
    }
    proof {
        assert(s@.subrange(i as int, i + nm_seg().len() as int) =~= nm_seg());
    }
    true
}

/// The substring following the last occurrence of the segment in `s`, or
/// `None` when the segment does not occur.
pub fn tail_after_last(s: &str) -> (r: Option<String>)
    ensures
        match r {
            Some(t) => has_seg(s@) && t@ == tail_after(s@),
            None => !has_seg(s@),
        },
{
    let seg: &str = "node_modules/";
    let n = s.unicode_len();
    let seg_len = seg.unicode_len();
    proof {
        assert(seg@ == nm_seg());
    }
    if n < seg_len {
        proof {
            assert(forall|i: int| !seg_at(s@, i));
        }
        return None;
    }
    let mut i: usize = n - seg_len;
    loop
        invariant
            seg@ == nm_seg(),
            n == s@.len(),
            seg_len == nm_seg().len(),
            seg_len <= n,
            i + seg_len <= n,
            forall|k: int| i < k ==> !seg_at(s@, k),
        decreases i,
    {
        if seg_match_at(s, seg, i, n) {
            proof {
                assert(seg_at(s@, i as int) && (forall|k: int| seg_at(s@, k) ==> k <= i as int));
                let j = last_seg(s@);
                assert(seg_at(s@, j) && (forall|k: int| seg_at(s@, k) ==> k <= j));
                assert(j == i as int);
            }
            let t = s.substring_char(i + seg_len, n);
            return Some(t.to_owned());
        }
        if i == 0 {
            proof {
                assert(forall|k: int| !seg_at(s@, k));
            }
            return None;
        }
        i -= 1;
    }
}

/// Extracts the registry package identifiers from a manifest.
///
/// Version 1: exactly the keys of `dependencies`, unchanged and in order.
/// Version 2: the tail after the last `node_modules/` segment of every
/// non-empty `packages` key, deduplicated in first-occurrence order.
pub fn extract(doc: &ManifestDoc) -> (r: Result<Vec<String>, ExtractError>)
    requires
        extract_pre(*doc),
    ensures
        match (r, extract_spec(*doc)) {
            (Ok(ids), Ok(spec_ids)) => str_views(ids@) == spec_ids,
            (Err(e), Err(spec_e)) => e == spec_e,
            _ => false,
        },
{
    match doc.schema_version {
        None => Err(ExtractError::UnsupportedSchema),
        Some(v) => {
            if v == 1 {
                match &doc.dependencies {
                    None => Err(ExtractError::MalformedManifest),
                    Some(keys) => Ok(keys.clone()),
                }
            } else if v == 2 {
                match &doc.packages {
                    None => Err(ExtractError::MalformedManifest),
                    Some(keys) => Ok(extract_v2(keys)),
                }
            } else {
                Err(ExtractError::UnsupportedSchema)
            }
        },
    }
}

/// The version-2 key walk: identifiers of non-empty keys, deduplicated.
#[verifier::rlimit(30)]
fn extract_v2(keys: &Vec<String>) -> (r: Vec<String>)
    requires
        v2_keys_ok(str_views(keys@)),
    ensures
        str_views(r@) == v2_ids(str_views(keys@)),
{
    let mut out: Vec<String> = Vec::new();
    let mut i: usize = 0;
    while i < keys.len()
        invariant
            v2_keys_ok(str_views(keys@)),
            i <= keys@.len(),
            str_views(out@) == v2_ids(str_views(keys@).subrange(0, i as int)),
        decreases keys@.len() - i,
    {
        let ghost prefix = str_views(keys@).subrange(0, i as int);
        let ghost longer = str_views(keys@).subrange(0, i + 1);
        let ghost kv = str_views(keys@)[i as int];
        proof {
            assert(longer =~= prefix.push(kv));
            assert(longer.drop_last() =~= prefix);
            assert(longer.last() == kv);
            assert(kv == keys@[i as int]@);
        }
        let k = &keys[i];
        if !k.as_str().is_empty() {
            proof {
                assert(kv.len() != 0);
                assert(has_seg(kv));
            }
            match tail_after_last(k.as_str()) {
                Some(id) => {
                    proof {
                        assert(id@ == tail_after(kv));
                    }
                    if !contains_str(&out, id.as_str()) {
                        let ghost before = out@;
                        out.push(id);
                        proof {
                            assert(!v2_ids(prefix).contains(tail_after(kv)));
                            assert(str_views(out@) =~= str_views(before).push(tail_after(kv)));
                            assert(v2_ids(longer) == v2_ids(prefix).push(tail_after(kv)));
                            assert(str_views(out@) == v2_ids(longer));
                        }
                    } else {
                        proof {
                            assert(v2_ids(prefix).contains(tail_after(kv)));
                            assert(v2_ids(longer) == v2_ids(prefix));
                            assert(str_views(out@) == v2_ids(longer));
                        }
                    }
                },
                None => {
                    proof {
                        assert(false);
                    }
                },
            }
        } else {
            proof {
                assert(kv.len() == 0);
                assert(v2_ids(longer) == v2_ids(prefix));
                assert(str_views(out@) == v2_ids(longer));
            }
        }
        i += 1;
    }
    proof {
        assert(str_views(keys@).subrange(0, keys@.len() as int) =~= str_views(keys@));
    }
    out
}

/// Decides `extract`'s precondition, so a caller holding an arbitrary
/// manifest can test it before extracting: in the version-2 case, every
/// non-empty install path must contain the segment.
pub fn check_extract_pre(doc: &ManifestDoc) -> (r: bool)
    ensures
        r == extract_pre(*doc),
{
    let is_v2 = match doc.schema_version {
        Some(v) => v == 2,
        None => false,
    };
    if !is_v2 {
        return true;
    }
    match &doc.packages {
        None => true,
        Some(keys) => {
            let mut i: usize = 0;
            while i < keys.len()
                invariant
                    doc.schema_version == Some(2u64),
                    doc.packages == Some(*keys),
                    i <= keys@.len(),
                    forall|j: int|
                        0 <= j < i ==> (#[trigger] str_views(keys@)[j]).len() != 0 ==> has_seg(
                            str_views(keys@)[j],
                        ),
                decreases keys@.len() - i,
            {
                let k = &keys[i];
                if !k.as_str().is_empty() {
                    if tail_after_last(k.as_str()).is_none() {
                        proof {
                            assert(str_views(keys@)[i as int] == k@);
                            assert(!v2_keys_ok(str_views(keys@)));
                        }
                        return false;
                    }
                }
                proof {
                    assert(str_views(keys@)[i as int] == k@);
                }
                i += 1;
            }
            true
        },
    }
}

/// The fixed prefix of every registry lookup URL.
pub open spec fn registry_base() -> Seq<char> {
    "https://registry.npmjs.org/"@
}

/// The registry lookup URL for one identifier: the registry base with the
/// identifier, taken verbatim, as its path component.
pub fn registry_url(id: &str) -> (r: String)
    ensures
        r@ == registry_base() + id@,
{
    let base: String = "https://registry.npmjs.org/".to_owned();
    base.concat(id)
}

/// The lookup URLs for a manifest's packages, in identifier order: one per
/// extracted identifier, each the registry base followed by the identifier.
pub fn generate_urls(doc: &ManifestDoc) -> (r: Result<Vec<String>, ExtractError>)
    requires
        extract_pre(*doc),
    ensures
        match (r, extract_spec(*doc)) {
            (Ok(urls), Ok(ids)) => urls@.len() == ids.len() && forall|j: int|
                0 <= j < ids.len() ==> (#[trigger] urls@[j])@ == registry_base() + ids[j],
            (Err(e), Err(spec_e)) => e == spec_e,
            _ => false,
        },
{
    match extract(doc) {
        Err(e) => Err(e),
        Ok(ids) => {
            let ghost id_views = str_views(ids@);
            let mut urls: Vec<String> = Vec::new();
            let mut i: usize = 0;
            while i < ids.len()
                invariant
                    id_views == str_views(ids@),
                    i <= ids@.len(),
                    urls@.len() == i,
                    forall|j: int|
                        0 <= j < i ==> (#[trigger] urls@[j])@ == registry_base() + id_views[j],
                decreases ids@.len() - i,
            {
                let u = registry_url(ids[i].as_str());
                proof {
                    assert(id_views[i as int] == ids@[i as int]@);
                }
                urls.push(u);
                i += 1;
            }
            Ok(urls)
        },
    }
}

/// An input location that names the manifest by URL rather than by file
/// path: it begins with `http` and ends with the manifest's canonical
/// filename.
pub open spec fn manifest_url_input(s: Seq<char>) -> bool {
    spec_starts_with(s, "http"@) && spec_ends_with(s, "package-lock.json"@)
}

/// Classifies the manifest-location argument: `true` when it is to be
/// fetched over HTTP, `false` when it is to be tried as a file path.
pub fn is_manifest_url(input: &str) -> (r: bool)
    ensures
        r == manifest_url_input(input@),
{
    starts_with_str(input, "http") && ends_with_str(input, "package-lock.json")
}

} // verus!
