//! Per-instrument time series of market observations, assembled in memory
//! from a stream of rows.
//!
//! A [`StockData`] is the store: one [`Stock`] per ticker, in the order in
//! which the tickers were first seen. [`StockData::ingest`] takes one
//! [`Row`] in, [`StockData::get_stocks`] a whole sequence of them. What both
//! do is defined in [`model`], and what follows from that for every store
//! and every sequence of rows is proved in [`theorems`].
//!
//! # Order of observations
//!
//! A series keeps its observations in the order of arrival. Nothing here
//! sorts them by time: a reader that needs them in chronological order, from
//! a source that does not deliver them so, has to sort them itself.
//!
//! # What is taken on trust
//!
//! Two calls are believed to do what their documentation says, without
//! proof: `String::from_utf8`, in [`text`], and
//! `chrono::DateTime::from_timestamp`, in [`timestamp`]. Of the second only
//! this is used: that its outcome depends on nothing but the count of
//! seconds.

pub mod data_structures;
pub mod error;
pub mod model;
pub mod read_database;
pub mod row;
pub mod text;
pub mod theorems;
pub mod timestamp;

pub use crate::data_structures::{Float32, Observation, Stock, StockView};
pub use crate::error::IngestError;
pub use crate::read_database::{RunReport, SeriesHandle, StockData};
pub use crate::row::{stock_query_col_map, Row, StockQueryMapping};
