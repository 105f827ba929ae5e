//! What can go wrong while rows are taken in.

use crate::row::StockQueryMapping;
use vstd::prelude::*;

verus! {

/// The ways in which taking a row in, or addressing the store, can fail.
#[derive(Clone, Copy, Debug, PartialEq, Eq, Structural)]
pub enum IngestError {
    /// The row has no usable ticker: the field is absent, is not text, or is
    /// empty. The row is dropped and the run goes on.
    MalformedRow,
    /// The named field of an otherwise identified row is absent or cannot be
    /// converted. The row is dropped and the run goes on.
    FieldConversion(StockQueryMapping),
    /// A series was to be created for a ticker that already has one.
    DuplicateSeries,
    /// The store holds more than one series for a ticker. The store can no
    /// longer be trusted and the run ends.
    MultipleSeries,
    /// No series exists for the ticker, or for the handle, that was given.
    NotFound,
}

impl IngestError {
    /// The errors that end a run. A malformed row or a field that does not
    /// convert costs only that row; every other error means that the store
    /// or its caller is at fault.
    pub open spec fn fatal(self) -> bool {
        !(self is MalformedRow) && !(self is FieldConversion)
    }

    /// Whether a run must end on this error.
    pub fn is_fatal(&self) -> (fatal: bool)
        ensures
            fatal == self.fatal(),
    {
        match self {
            IngestError::MalformedRow => false,
            IngestError::FieldConversion(_) => false,
            IngestError::DuplicateSeries => true,
            IngestError::MultipleSeries => true,
            IngestError::NotFound => true,
        }
    }
}

} // verus!
