//! The run's options: the manifest location, the report format, and the
//! order toggle. Argument handling itself lives outside the library; this is
//! the plain shape it fills in.

use vstd::prelude::*;

use crate::strutil::str_eq;

verus! {

/// The report sink's output format.
#[derive(Debug, Clone, PartialEq, Eq)]
pub enum Output {
    /// Tabular output with a header row.
    CSV,
    /// A pretty-printed array of objects.
    JSON,
}

impl Output {
    /// Parses the output-format selector: `csv` or `json`, nothing else.
    pub fn from_str(s: &str) -> (r: Result<Output, &'static str>)
        ensures
            s@ == "csv"@ ==> r == Ok::<Output, &'static str>(Output::CSV),
            s@ == "json"@ ==> r == Ok::<Output, &'static str>(Output::JSON),
            s@ != "csv"@ && s@ != "json"@ ==> r is Err && r->Err_0@ == "Unknown file type"@,
    {
        proof {
            reveal_strlit("csv");
            reveal_strlit("json");
            assert("csv"@.len() == 3);
            assert("json"@.len() == 4);
        }
        if str_eq(s, "csv") {
            Ok(Output::CSV)
        } else if str_eq(s, "json") {
            Ok(Output::JSON)
        } else {
            Err("Unknown file type")
        }
    }
}

/// One run's options.
#[derive(Debug, Clone)]
pub struct Opt {
    /// The manifest to examine: a file path, or an HTTP(S) URL ending in the
    /// manifest's canonical filename.
    pub file: String,
    /// The report format.
    pub format: Output,
    /// Emit the report in descending rather than ascending timestamp order.
    pub reverse: bool,
}

} // verus!
