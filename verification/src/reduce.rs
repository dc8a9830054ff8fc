//! The metadata reducer: turns one raw registry response into a single
//! publish fact — the version label with the latest qualifying publication
//! timestamp.
//!
//! A registry response's time history mixes real version labels with the
//! metadata markers `created` and `modified` and the sentinel label `0.0.0`;
//! those three are excluded before anything else. Every remaining timestamp
//! string is parsed as an absolute instant, and the entry with the maximum
//! instant wins; among equal maxima the last-encountered label wins, which
//! keeps the choice deterministic.

use vstd::prelude::*;

verus! {

/// One raw per-package response from the registry: the package's name and
/// its mapping from version label to publish timestamp string. A label whose
/// value was not a string carries `None`.
#[derive(Debug, Clone)]
pub struct RegistryEntry {
    /// The package's registry name.
    pub name: String,
    /// Label/timestamp pairs, in the response's iteration order.
    pub times: Vec<(String, Option<String>)>,
}

/// The reduced output unit: one package's most recent qualifying
/// publication.
#[derive(Debug, Clone, PartialEq, Eq)]
pub struct PublishFact {
    /// The package's registry name.
    pub name: String,
    /// The version label with the latest qualifying timestamp.
    pub max_version: String,
    /// That timestamp, as milliseconds since the epoch.
    pub timestamp: i64,
}

/// Why reduction of a registry entry failed.
#[derive(Debug, Clone, PartialEq, Eq)]
pub enum ReduceError {
    /// A qualifying label's timestamp string is not a valid absolute
    /// instant.
    MalformedTimestamp,
    /// After excluding the metadata labels, no version labels remain.
    NoQualifyingVersion,
}

/// The absolute instant, in milliseconds since the epoch, that a timestamp
/// string denotes, or `None` when it is not a well-formed timestamp. The
/// result depends on the characters of the string alone.
pub uninterp spec fn instant_of(s: Seq<char>) -> Option<i64>;

/// Relies on chrono's `FromStr` for `DateTime<Utc>` to parse an RFC 3339
/// timestamp, and on `DateTime::timestamp_millis` to read it as milliseconds
/// since the epoch; both depend only on the input string.
#[verifier::external_body]
fn parse_instant(s: &str) -> (r: Option<i64>)
    ensures
        r == instant_of(s@),
{
    match s.parse::<chrono::DateTime<chrono::Utc>>() {
        Ok(d) => Some(d.timestamp_millis()),
        Err(_) => None,
    }
}

/// The views of label/timestamp pairs, in order.
pub open spec fn times_views(times: Seq<(String, Option<String>)>) -> Seq<
    (Seq<char>, Option<Seq<char>>),
> {
    times.map_values(
        |t: (String, Option<String>)|
            (
                t.0@,
                match t.1 {
                    Some(s) => Some(s@),
                    None => None,
                },
            ),
    )
}

/// The labels excluded from reduction: the registry's metadata markers and
/// the observed sentinel version.
pub open spec fn excluded(label: Seq<char>) -> bool {
    label == "created"@ || label == "modified"@ || label == "0.0.0"@
}

/// The label at position `j` takes part in reduction.
pub open spec fn qualifying(times: Seq<(String, Option<String>)>, j: int) -> bool {
    0 <= j < times.len() && !excluded(times[j].0@)
}

/// The instant denoted by the timestamp at position `j`, or `None` when the
/// value was not a string or not a well-formed timestamp.
pub open spec fn instant_at(times: Seq<(String, Option<String>)>, j: int) -> Option<i64> {
    match times[j].1 {
        None => None,
        Some(s) => instant_of(s@),
    }
}

/// At least one label qualifies.
pub open spec fn has_qualifying(times: Seq<(String, Option<String>)>) -> bool {
    exists|j: int| qualifying(times, j)
}

/// Every qualifying timestamp parses.
pub open spec fn all_qualifying_parse(times: Seq<(String, Option<String>)>) -> bool {
    forall|j: int| #[trigger] qualifying(times, j) ==> instant_at(times, j) is Some
}

/// Reduction succeeds on this time history.
pub open spec fn reducible(times: Seq<(String, Option<String>)>) -> bool {
    has_qualifying(times) && all_qualifying_parse(times)
}

/// The error reduction reports on a history it cannot reduce: no qualifying
/// label at all, or otherwise a qualifying timestamp that does not parse.
pub open spec fn reduce_err(times: Seq<(String, Option<String>)>) -> ReduceError {
    if !has_qualifying(times) {
        ReduceError::NoQualifyingVersion
    } else {
        ReduceError::MalformedTimestamp
    }
}

/// Position `i` holds the winning entry: a qualifying label whose instant is
/// maximal among qualifying labels, and the last position achieving that
/// maximum.
pub open spec fn is_winner(times: Seq<(String, Option<String>)>, i: int) -> bool {
    &&& qualifying(times, i)
    &&& forall|j: int| #[trigger] qualifying(times, j) ==> instant_at(times, j)->Some_0
        <= instant_at(times, i)->Some_0
    &&& forall|j: int| i < j < times.len() && #[trigger] qualifying(times, j) ==> instant_at(
        times,
        j,
    )->Some_0 < instant_at(times, i)->Some_0
}

/// `f` is the reduction of the entry `(name, times)`.
pub open spec fn is_reduction(
    name: Seq<char>,
    times: Seq<(String, Option<String>)>,
    f: PublishFact,
) -> bool {
    &&& f.name@ == name
    &&& exists|i: int|
        #[trigger] is_winner(times, i) && f.max_version@ == times[i].0@ && instant_at(times, i)
            == Some(f.timestamp)
}

/// The label is one of the excluded metadata markers.
fn excluded_label(s: &str) -> (r: bool)
    ensures
        r == excluded(s@),
{
    crate::strutil::str_eq(s, "created") || crate::strutil::str_eq(s, "modified")
        || crate::strutil::str_eq(s, "0.0.0")
}

/// Reduces one registry entry to its most recent qualifying publication.
///
/// Fails with `NoQualifyingVersion` when every label is excluded, and with
/// `MalformedTimestamp` when a qualifying timestamp does not parse. On
/// success, the fact's timestamp is the maximum instant among qualifying
/// labels, and its label is the last one achieving that maximum.
pub fn reduce(entry: &RegistryEntry) -> (r: Result<PublishFact, ReduceError>)
    ensures
        match r {
            Ok(f) => reducible(entry.times@) && is_reduction(entry.name@, entry.times@, f),
            Err(e) => !reducible(entry.times@) && e == reduce_err(entry.times@),
        },
{
    let times = &entry.times;
    let mut found = false;
    let mut best_label = String::new();
    let mut best_instant: i64 = 0;
    let ghost mut best_idx: int = 0;
    let mut idx: usize = 0;
    while idx < times.len()
        invariant
            times@ == entry.times@,
            idx <= times@.len(),
            found == exists|j: int| 0 <= j < idx && qualifying(times@, j),
            forall|j: int| 0 <= j < idx && #[trigger] qualifying(times@, j) ==> instant_at(
                times@,
                j,
            ) is Some,
            found ==> {
                &&& 0 <= best_idx < idx
                &&& qualifying(times@, best_idx)
                &&& best_label@ == times@[best_idx].0@
                &&& instant_at(times@, best_idx) == Some(best_instant)
                &&& forall|j: int| 0 <= j < idx && #[trigger] qualifying(times@, j) ==> instant_at(
                    times@,
                    j,
                )->Some_0 <= best_instant
                &&& forall|j: int|
                    best_idx < j < idx && #[trigger] qualifying(times@, j) ==> instant_at(
                        times@,
                        j,
                    )->Some_0 < best_instant
            },
        decreases times@.len() - idx,
    {
        let pair = &times[idx];
        if !excluded_label(pair.0.as_str()) {
            proof {
                assert(qualifying(times@, idx as int));
            }
            let stamp = match &pair.1 {
                Some(s) => parse_instant(s.as_str()),
                None => None,
            };
            match stamp {
                None => {
                    proof {
                        assert(instant_at(times@, idx as int) is None);
                        assert(!all_qualifying_parse(times@));
                        assert(has_qualifying(times@));
                    }
                    return Err(ReduceError::MalformedTimestamp);
                },
                Some(t) => {
                    proof {
                        assert(instant_at(times@, idx as int) == Some(t));
                    }
                    if !found || t >= best_instant {
                        found = true;
                        best_label = pair.0.clone();
                        best_instant = t;
                        proof {
                            best_idx = idx as int;
                        }
                    }
                },
            }
        }
        idx += 1;
    }
    if !found {
        proof {
            assert(forall|j: int| qualifying(times@, j) ==> 0 <= j < times@.len());
            assert(!has_qualifying(times@));
        }
        Err(ReduceError::NoQualifyingVersion)
    } else {
        let f = PublishFact {
            name: entry.name.clone(),
            max_version: best_label,
            timestamp: best_instant,
        };
        proof {
            assert(is_winner(times@, best_idx));
            assert(is_reduction(entry.name@, times@, f));
        }
        Ok(f)
    }
}

} // verus!
