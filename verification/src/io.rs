//! File format markers for inventory data.
//!
//! The readers and writers themselves perform file I/O and live with the
//! surrounding application; the library defines the format choices and
//! their options.

use vstd::prelude::*;

verus! {

/// CSV format reader/writer marker.
#[derive(Debug, Clone, Copy)]
pub struct CsvFormat;

/// JSON format reader/writer marker.
#[derive(Debug, Clone, Copy)]
pub struct JsonFormat {
    /// Pretty-print the output
    pub pretty: bool,
}

impl Default for JsonFormat {
    /// The default JSON format: compact output.
    fn default() -> (r: Self)
        ensures
            !r.pretty,
    {
        JsonFormat { pretty: false }
    }
}

/// Excel (.xlsx) format reader/writer marker.
#[derive(Debug, Clone, Copy)]
pub struct ExcelFormat;

} // verus!
