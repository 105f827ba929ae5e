//! One row of the tabular source, and the names of its fields.

use crate::data_structures::Float32;
use crate::timestamp::utc_from_timestamp;
use chrono::NaiveDateTime;
use vstd::prelude::*;
use vstd::utf8::{decode_utf8, valid_utf8};

verus! {

/// The fields of a row, by name.
#[derive(Clone, Copy, Debug, PartialEq, Eq, Structural)]
pub enum StockQueryMapping {
    AsAtDate,
    Security,
    Currency,
    Low,
    High,
    Open,
    Close,
    Volume,
    InstrumentType,
    ExchangeName,
    TimeZone,
    GmtOffSet,
}

impl StockQueryMapping {
    /// The position of the field's column in the query's result, counted
    /// from one.
    pub open spec fn column(self) -> u16 {
        match self {
            StockQueryMapping::AsAtDate => 1,
            StockQueryMapping::Security => 2,
            StockQueryMapping::Currency => 3,
            StockQueryMapping::Low => 4,
            StockQueryMapping::High => 5,
            StockQueryMapping::Open => 6,
            StockQueryMapping::Close => 7,
            StockQueryMapping::Volume => 8,
            StockQueryMapping::InstrumentType => 9,
            StockQueryMapping::ExchangeName => 10,
            StockQueryMapping::TimeZone => 11,
            StockQueryMapping::GmtOffSet => 12,
        }
    }
}

/// The column that holds the named field. Only the reader of the source uses
/// column positions; the rest of the library goes by name.
pub fn stock_query_col_map(column_name: StockQueryMapping) -> (column: u16)
    ensures
        column == column_name.column(),
        1 <= column <= 12,
{
    match column_name {
        StockQueryMapping::AsAtDate => 1,
        StockQueryMapping::Security => 2,
        StockQueryMapping::Currency => 3,
        StockQueryMapping::Low => 4,
        StockQueryMapping::High => 5,
        StockQueryMapping::Open => 6,
        StockQueryMapping::Close => 7,
        StockQueryMapping::Volume => 8,
        StockQueryMapping::InstrumentType => 9,
        StockQueryMapping::ExchangeName => 10,
        StockQueryMapping::TimeZone => 11,
        StockQueryMapping::GmtOffSet => 12,
    }
}

/// No two fields share a column.
pub proof fn columns_are_distinct(first: StockQueryMapping, second: StockQueryMapping)
    ensures
        first.column() == second.column() <==> first == second,
{
}

/// One row as the reader of the source hands it over. A field that the
/// source does not have, or that the reader could not read as the type the
/// field has, is `None`. Text is raw bytes, the timestamp a count of seconds
/// since 1970-01-01 00:00:00 UTC.
#[derive(Clone, Debug, PartialEq)]
pub struct Row {
    pub as_at_date: Option<i64>,
    pub security: Option<Vec<u8>>,
    pub currency: Option<Vec<u8>>,
    pub low: Option<Float32>,
    pub high: Option<Float32>,
    pub open: Option<Float32>,
    pub close: Option<Float32>,
    pub volume: Option<Float32>,
    pub instrument_type: Option<Vec<u8>>,
    pub exchange_name: Option<Vec<u8>>,
    pub time_zone: Option<Vec<u8>>,
    pub gmt_offset: Option<i32>,
}

impl Row {
    /// The bytes of a text field; `None` where the field is absent or is not
    /// a text field.
    pub open spec fn text_bytes(self, field: StockQueryMapping) -> Option<Seq<u8>> {
        match field {
            StockQueryMapping::Security => view_of(self.security),
            StockQueryMapping::Currency => view_of(self.currency),
            StockQueryMapping::InstrumentType => view_of(self.instrument_type),
            StockQueryMapping::ExchangeName => view_of(self.exchange_name),
            StockQueryMapping::TimeZone => view_of(self.time_zone),
            _ => None,
        }
    }

    /// The text of a text field; `None` where the field is absent, is not a
    /// text field, or is not UTF-8.
    pub open spec fn text(self, field: StockQueryMapping) -> Option<Seq<char>> {
        match self.text_bytes(field) {
            Some(bytes) => if valid_utf8(bytes) {
                Some(decode_utf8(bytes))
            } else {
                None
            },
            None => None,
        }
    }

    /// The value of the integer field; `None` where it is absent or another
    /// field is asked for.
    pub open spec fn integer(self, field: StockQueryMapping) -> Option<i32> {
        match field {
            StockQueryMapping::GmtOffSet => self.gmt_offset,
            _ => None,
        }
    }

    /// The value of a price or volume field; `None` where it is absent or
    /// another field is asked for.
    pub open spec fn float(self, field: StockQueryMapping) -> Option<Float32> {
        match field {
            StockQueryMapping::Low => self.low,
            StockQueryMapping::High => self.high,
            StockQueryMapping::Open => self.open,
            StockQueryMapping::Close => self.close,
            StockQueryMapping::Volume => self.volume,
            _ => None,
        }
    }

    /// The count of seconds in the timestamp field; `None` where it is
    /// absent or another field is asked for.
    pub open spec fn seconds(self, field: StockQueryMapping) -> Option<i64> {
        match field {
            StockQueryMapping::AsAtDate => self.as_at_date,
            _ => None,
        }
    }

    /// The timestamp field as a date and time in UTC; `None` where the
    /// count of seconds is absent or names an instant out of range, or
    /// another field is asked for.
    pub open spec fn timestamp(self, field: StockQueryMapping) -> Option<NaiveDateTime> {
        match self.seconds(field) {
            Some(secs) => utc_from_timestamp(secs as int),
            None => None,
        }
    }
}

/// The content of an optional byte buffer.
pub open spec fn view_of(bytes: Option<Vec<u8>>) -> Option<Seq<u8>> {
    match bytes {
        Some(buffer) => Some(buffer@),
        None => None,
    }
}

} // verus!
