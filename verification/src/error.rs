//! Errors surfaced by the analysis engine and its collaborators.

use vstd::prelude::*;

verus! {

/// Errors that can occur in forest inventory analysis.
///
/// Each variant carries its detail message; `message` renders the
/// conventional `"<kind>: <detail>"` form.
#[derive(Debug, Clone)]
pub enum ForestError {
    Io(String),
    Csv(String),
    Json(String),
    Excel(String),
    ParseError(String),
    ValidationError(String),
    AnalysisError(String),
    InsufficientData(String),
}

impl ForestError {
    /// The full display text of this error.
    pub fn message(&self) -> (r: String)
        ensures
            r@ == match self {
                ForestError::Io(m) => "IO error: "@ + m@,
                ForestError::Csv(m) => "CSV error: "@ + m@,
                ForestError::Json(m) => "JSON error: "@ + m@,
                ForestError::Excel(m) => "Excel error: "@ + m@,
                ForestError::ParseError(m) => "Parse error: "@ + m@,
                ForestError::ValidationError(m) => "Validation error: "@ + m@,
                ForestError::AnalysisError(m) => "Analysis error: "@ + m@,
                ForestError::InsufficientData(m) => "Insufficient data: "@ + m@,
            },
    {
        match self {
            ForestError::Io(m) => String::from_str("IO error: ").concat(m.as_str()),
            ForestError::Csv(m) => String::from_str("CSV error: ").concat(m.as_str()),
            ForestError::Json(m) => String::from_str("JSON error: ").concat(m.as_str()),
            ForestError::Excel(m) => String::from_str("Excel error: ").concat(m.as_str()),
            ForestError::ParseError(m) => String::from_str("Parse error: ").concat(m.as_str()),
            ForestError::ValidationError(m) => String::from_str("Validation error: ").concat(
                m.as_str(),
            ),
            ForestError::AnalysisError(m) => String::from_str("Analysis error: ").concat(
                m.as_str(),
            ),
            ForestError::InsufficientData(m) => String::from_str("Insufficient data: ").concat(
                m.as_str(),
            ),
        }
    }
}

} // verus!
