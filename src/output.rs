use vstd::prelude::*;
use crate::casing::{lower_of, same_text, to_lower};

verus! {

/// How a scan report is rendered.
#[derive(Debug, Clone, Copy, PartialEq, Eq, Structural)]
pub enum OutputFormat {
    Text,
    Json,
    Csv,
}

/// The format named by an already lowercased word.
pub open spec fn format_named(lower: Seq<char>) -> Option<OutputFormat> {
    if lower == "text"@ {
        Some(OutputFormat::Text)
    } else if lower == "json"@ {
        Some(OutputFormat::Json)
    } else if lower == "csv"@ {
        Some(OutputFormat::Csv)
    } else {
        None
    }
}

/// Looks up the format for a lowercased word.
pub fn format_for(lower: &str) -> (r: Option<OutputFormat>)
    ensures
        r == format_named(lower@),
{
    if same_text(lower, "text") {
        Some(OutputFormat::Text)
    } else if same_text(lower, "json") {
        Some(OutputFormat::Json)
    } else if same_text(lower, "csv") {
        Some(OutputFormat::Csv)
    } else {
        None
    }
}

impl OutputFormat {
    /// Reads a format name, ignoring case.
    pub fn from_str(s: &str) -> (r: Option<OutputFormat>)
        ensures
            r == format_named(lower_of(s@)),
    {
        let lower = to_lower(s);
        format_for(lower.as_str())
    }
}

} // verus!
