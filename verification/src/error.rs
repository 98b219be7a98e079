use vstd::prelude::*;

verus! {

/// The closed set of failures that reading an exposure log can surface.
///
/// Every variant carries the raw text that a caller needs to build a
/// diagnostic referencing the offending input. All variants are terminal:
/// the first one encountered aborts the whole read.
#[derive(Debug, Clone)]
pub enum Error {
    /// The underlying tabular source could not be opened or read at all.
    InvalidCSV { message: String },
    /// A row's raw columns could not be decoded into the expected shapes.
    FailedToParse { message: String },
    /// The shutter-speed text contains no well-formed shutter-speed notation.
    InvalidShutterSpeed { text: String },
    /// A token of the compensation text is not a fraction term, or the exact
    /// value does not fit the machine representation; `token` is the term at
    /// which parsing or evaluation failed, `value` the whole field.
    ExposureCompensationParseError { value: String, token: String },
    /// The compensation text has more than two space-separated tokens.
    InvalidExposureCompensation { value: String },
}

} // verus!
