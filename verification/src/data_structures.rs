//! The history kept for one instrument: who it is, and what was observed.

use chrono::NaiveDateTime;
use vstd::prelude::*;

verus! {

/// A single-precision floating-point number, held by its IEEE 754 bit
/// pattern. The library stores and moves such numbers and never computes
/// with them; two values are equal when their bits are.
#[derive(Clone, Copy, Debug, PartialEq, Eq, Structural)]
pub struct Float32 {
    pub bits: u32,
}

impl Float32 {
    /// The number with the given bit pattern.
    pub fn from_bits(bits: u32) -> (number: Float32)
        ensures
            number.bits == bits,
    {
        Float32 { bits }
    }

    /// The bit pattern of the number.
    pub fn to_bits(self) -> (bits: u32)
        ensures
            bits == self.bits,
    {
        self.bits
    }
}

/// One observation of an instrument: the UTC time it was made at, and the
/// low, high, open and close prices and the volume traded.
#[derive(Clone, Copy, Debug, PartialEq)]
pub struct Observation {
    pub timestamp: NaiveDateTime,
    pub low: Float32,
    pub high: Float32,
    pub open: Float32,
    pub close: Float32,
    pub volume: Float32,
}

/// The mathematical content of a [`Stock`].
pub struct StockView {
    pub ticker: Seq<char>,
    pub currency: Seq<char>,
    pub instrument_type: Seq<char>,
    pub exchange_name: Seq<char>,
    pub time_zone: Seq<char>,
    pub gmt_offset: i32,
    pub timestamps: Seq<NaiveDateTime>,
    pub low: Seq<Float32>,
    pub high: Seq<Float32>,
    pub open: Seq<Float32>,
    pub close: Seq<Float32>,
    pub volume: Seq<Float32>,
}

impl StockView {
    /// A series that has an identity and no observation yet.
    pub open spec fn created(
        ticker: Seq<char>,
        currency: Seq<char>,
        instrument_type: Seq<char>,
        exchange_name: Seq<char>,
        time_zone: Seq<char>,
        gmt_offset: i32,
    ) -> StockView {
        StockView {
            ticker,
            currency,
            instrument_type,
            exchange_name,
            time_zone,
            gmt_offset,
            timestamps: Seq::empty(),
            low: Seq::empty(),
            high: Seq::empty(),
            open: Seq::empty(),
            close: Seq::empty(),
            volume: Seq::empty(),
        }
    }

    /// The six sequences have one length: every observation is whole.
    pub open spec fn aligned(self) -> bool {
        &&& self.low.len() == self.timestamps.len()
        &&& self.high.len() == self.timestamps.len()
        &&& self.open.len() == self.timestamps.len()
        &&& self.close.len() == self.timestamps.len()
        &&& self.volume.len() == self.timestamps.len()
    }

    /// The number of observations.
    pub open spec fn len(self) -> nat {
        self.timestamps.len()
    }

    /// The observation at position `i`, read across the six sequences.
    pub open spec fn observation(self, i: int) -> Observation {
        Observation {
            timestamp: self.timestamps[i],
            low: self.low[i],
            high: self.high[i],
            open: self.open[i],
            close: self.close[i],
            volume: self.volume[i],
        }
    }

    /// The observations in the order in which they were written.
    pub open spec fn observations(self) -> Seq<Observation> {
        Seq::new(self.timestamps.len(), |i: int| self.observation(i))
    }

    /// The series with one more observation at its end.
    pub open spec fn write_line(self, observation: Observation) -> StockView {
        StockView {
            timestamps: self.timestamps.push(observation.timestamp),
            low: self.low.push(observation.low),
            high: self.high.push(observation.high),
            open: self.open.push(observation.open),
            close: self.close.push(observation.close),
            volume: self.volume.push(observation.volume),
            ..self
        }
    }

    /// Both series describe the same instrument in the same way.
    pub open spec fn same_identity(self, other: StockView) -> bool {
        &&& self.ticker == other.ticker
        &&& self.currency == other.currency
        &&& self.instrument_type == other.instrument_type
        &&& self.exchange_name == other.exchange_name
        &&& self.time_zone == other.time_zone
        &&& self.gmt_offset == other.gmt_offset
    }
}

/// The accumulated history of one ticker. The identity is fixed when the
/// series is made; observations are only ever added at the end, in the order
/// of arrival, which need not be the order of their timestamps.
#[derive(Clone, Debug, PartialEq)]
pub struct Stock {
    ticker: String,
    currency: String,
    instrument_type: String,
    exchange_name: String,
    time_zone: String,
    gmt_offset: i32,
    timestamps: Vec<NaiveDateTime>,
    low: Vec<Float32>,
    high: Vec<Float32>,
    open: Vec<Float32>,
    close: Vec<Float32>,
    volume: Vec<Float32>,
}

impl View for Stock {
    type V = StockView;

    closed spec fn view(&self) -> StockView {
        StockView {
            ticker: self.ticker@,
            currency: self.currency@,
            instrument_type: self.instrument_type@,
            exchange_name: self.exchange_name@,
            time_zone: self.time_zone@,
            gmt_offset: self.gmt_offset,
            timestamps: self.timestamps@,
            low: self.low@,
            high: self.high@,
            open: self.open@,
            close: self.close@,
            volume: self.volume@,
        }
    }
}

impl Stock {
    /// A new series for `ticker`, without observations.
    pub fn new(
        ticker: String,
        currency: String,
        instrument_type: String,
        exchange_name: String,
        time_zone: String,
        gmt_offset: i32,
    ) -> (stock: Stock)
        ensures
            stock@ == StockView::created(
                ticker@,
                currency@,
                instrument_type@,
                exchange_name@,
                time_zone@,
                gmt_offset,
            ),
    {
        Stock {
            ticker,
            currency,
            instrument_type,
            exchange_name,
            time_zone,
            gmt_offset,
            timestamps: Vec::new(),
            low: Vec::new(),
            high: Vec::new(),
            open: Vec::new(),
            close: Vec::new(),
            volume: Vec::new(),
        }
    }

    /// Adds one observation at the end of the series, to all six sequences
    /// together.
    pub fn write_line(
        &mut self,
        timestamp: NaiveDateTime,
        low_price: Float32,
        high_price: Float32,
        open_price: Float32,
        close_price: Float32,
        trade_volume: Float32,
    )
        ensures
            final(self)@ == old(self)@.write_line(
                (Observation {
                    timestamp,
                    low: low_price,
                    high: high_price,
                    open: open_price,
                    close: close_price,
                    volume: trade_volume,
                }),
            ),
    {
        self.timestamps.push(timestamp);
        self.low.push(low_price);
        self.high.push(high_price);
        self.open.push(open_price);
        self.close.push(close_price);
        self.volume.push(trade_volume);
    }

    /// The ticker that the series is kept under.
    pub fn ticker(&self) -> (ticker: &String)
        ensures
            ticker@ == self@.ticker,
    {
        &self.ticker
    }

    /// The currency in which the instrument is quoted.
    pub fn currency(&self) -> (currency: &String)
        ensures
            currency@ == self@.currency,
    {
        &self.currency
    }

    /// The kind of instrument.
    pub fn instrument_type(&self) -> (instrument_type: &String)
        ensures
            instrument_type@ == self@.instrument_type,
    {
        &self.instrument_type
    }

    /// The exchange on which the instrument trades.
    pub fn exchange_name(&self) -> (exchange_name: &String)
        ensures
            exchange_name@ == self@.exchange_name,
    {
        &self.exchange_name
    }

    /// The name of the exchange's time zone.
    pub fn time_zone(&self) -> (time_zone: &String)
        ensures
            time_zone@ == self@.time_zone,
    {
        &self.time_zone
    }

    /// The offset of that time zone from GMT, as the source gives it.
    pub fn gmt_offset(&self) -> (gmt_offset: i32)
        ensures
            gmt_offset == self@.gmt_offset,
    {
        self.gmt_offset
    }

    /// The times of the observations, in the order of arrival.
    pub fn timestamps(&self) -> (timestamps: &Vec<NaiveDateTime>)
        ensures
            timestamps@ == self@.timestamps,
    {
        &self.timestamps
    }

    /// The low prices, in the order of arrival.
    pub fn low(&self) -> (low: &Vec<Float32>)
        ensures
            low@ == self@.low,
    {
        &self.low
    }

    /// The high prices, in the order of arrival.
    pub fn high(&self) -> (high: &Vec<Float32>)
        ensures
            high@ == self@.high,
    {
        &self.high
    }

    /// The opening prices, in the order of arrival.
    pub fn open(&self) -> (open: &Vec<Float32>)
        ensures
            open@ == self@.open,
    {
        &self.open
    }

    /// The closing prices, in the order of arrival.
    pub fn close(&self) -> (close: &Vec<Float32>)
        ensures
            close@ == self@.close,
    {
        &self.close
    }

    /// The volumes traded, in the order of arrival.
    pub fn volume(&self) -> (volume: &Vec<Float32>)
        ensures
            volume@ == self@.volume,
    {
        &self.volume
    }

    /// The number of observations.
    pub fn len(&self) -> (count: usize)
        ensures
            count == self@.len(),
    {
        self.timestamps.len()
    }
}

} // verus!
