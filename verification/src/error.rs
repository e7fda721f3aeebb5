//! What can go wrong while a page is turned into a series.

use vstd::prelude::*;

verus! {

/// Why one attempt to read a page was given up. An attempt that fails
/// yields nothing at all.
#[derive(Clone, Copy, Debug, PartialEq, Eq, Structural)]
pub enum ExtractionError {
    /// No script of the page is a candidate for the data block.
    NoDataBlock,
    /// A data block is there, but its array of records does not close or
    /// does not decode.
    MalformedData,
    /// The page does not name its spot.
    MissingSpot,
    /// A record carries no timestamp, or one that cannot be read.
    BadTimestamp,
}

impl ExtractionError {
    /// A short description of the error.
    pub fn message(&self) -> (s: &'static str)
        ensures
            s@ == match *self {
                ExtractionError::NoDataBlock => "no data block found"@,
                ExtractionError::MalformedData => "malformed data block"@,
                ExtractionError::MissingSpot => "missing spot name"@,
                ExtractionError::BadTimestamp => "bad timestamp"@,
            },
    {
        match self {
            ExtractionError::NoDataBlock => "no data block found",
            ExtractionError::MalformedData => "malformed data block",
            ExtractionError::MissingSpot => "missing spot name",
            ExtractionError::BadTimestamp => "bad timestamp",
        }
    }
}

} // verus!
