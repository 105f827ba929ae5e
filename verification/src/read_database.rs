//! The store of series, one per ticker, and the engine that fills it from
//! rows.

use crate::data_structures::{Float32, Observation, Stock, StockView};
use crate::error::IngestError;
use crate::model::{
    all_aligned, appended, count_after_push, count_depends_on_tickers, count_is_bounded,
    count_matching, ended_run_stays, identity_of, ingest_model, last_position,
    last_position_is_last, observation_of, run, run_one_further, unique, unique_after_push,
    unique_depends_on_tickers,
};
use crate::row::{Row, StockQueryMapping};
use crate::text::string_from_utf8;
use crate::theorems::{ingest_keeps_unique, run_keeps_unique};
use crate::timestamp::datetime_from_timestamp;
use chrono::NaiveDateTime;
use vstd::hash_map::StringHashMap;
use vstd::prelude::*;

verus! {

/// Names a series of a store by its position in the order of creation. A
/// store never drops a series, so a handle that it gave out stays good.
#[derive(Clone, Copy, Debug, PartialEq, Eq, Structural)]
pub struct SeriesHandle {
    pub position: usize,
}

/// What the index keeps for a ticker: how many series carry it, and where
/// the last of them is.
#[derive(Clone, Copy)]
struct Slot {
    position: usize,
    count: usize,
}

/// The account of a run over many rows.
#[derive(Clone, Copy, Debug, PartialEq, Eq, Structural)]
pub struct RunReport {
    /// Rows whose observation was added to a series.
    pub ingested: usize,
    /// Rows dropped because they had no usable ticker.
    pub malformed: usize,
    /// Rows dropped because a field did not convert.
    pub unconverted: usize,
    /// The error that ended the run before its last row, if one did.
    pub fatal: Option<IngestError>,
}

/// The series of all instruments seen so far, in the order of their
/// creation, with an index from ticker to series.
pub struct StockData {
    stock_values: Vec<Stock>,
    index: StringHashMap<Slot>,
}

impl View for StockData {
    type V = Seq<StockView>;

    closed spec fn view(&self) -> Seq<StockView> {
        Seq::new(self.stock_values@.len(), |i: int| self.stock_values@[i]@)
    }
}

/// The index says of `ticker` what the series say.
spec fn slot_agrees(
    index: Map<Seq<char>, Slot>,
    series: Seq<StockView>,
    ticker: Seq<char>,
) -> bool {
    if count_matching(series, ticker) == 0 {
        !index.contains_key(ticker)
    } else {
        &&& index.contains_key(ticker)
        &&& index[ticker].count == count_matching(series, ticker)
        &&& index[ticker].position == last_position(series, ticker)
    }
}

impl StockData {
    /// The index agrees with the series on every ticker.
    pub closed spec fn index_consistent(&self) -> bool {
        forall|ticker: Seq<char>| #[trigger] slot_agrees(self.index@, self@, ticker)
    }

    /// The store is well formed: its index is right, and every series holds
    /// whole observations only. Every store that this library hands out is
    /// well formed, whether or not its tickers are unique.
    pub open spec fn wf(&self) -> bool {
        &&& self.index_consistent()
        &&& all_aligned(self@)
    }

    /// An empty store.
    pub fn new() -> (store: StockData)
        ensures
            store.wf(),
            store@ == Seq::<StockView>::empty(),
    {
        let store = StockData { stock_values: Vec::new(), index: StringHashMap::new() };
        proof {
            assert forall|ticker: Seq<char>| #[trigger]
                slot_agrees(store.index@, store@, ticker) by {}
        }
        store
    }

    /// The number of series.
    pub fn len(&self) -> (count: usize)
        ensures
            count == self@.len(),
    {
        self.stock_values.len()
    }

    /// How many series carry the ticker, by one look into the index. In a
    /// store whose tickers are unique the answer is 0 or 1; anything more
    /// means that series were added without regard to the tickers already
    /// there.
    pub fn count_matching(&self, ticker: &str) -> (count: usize)
        requires
            self.wf(),
        ensures
            count == count_matching(self@, ticker@),
    {
        proof {
            assert(slot_agrees(self.index@, self@, ticker@));
        }
        match self.index.get(ticker) {
            Some(slot) => slot.count,
            None => 0,
        }
    }

    /// Whether a series exists for the ticker. The store is not changed.
    pub fn has(&self, ticker: &str) -> (present: bool)
        requires
            self.wf(),
        ensures
            present == (count_matching(self@, ticker@) > 0),
    {
        proof {
            assert(slot_agrees(self.index@, self@, ticker@));
        }
        self.index.contains_key(ticker)
    }

    /// Whether the security already has its series: `false` for none, `true`
    /// for one, and an error where the store holds more than one.
    pub fn check_if_written_stock(
        &self,
        security_name: &String,
    ) -> (written: Result<bool, IngestError>)
        requires
            self.wf(),
        ensures
            written == (if count_matching(self@, security_name@) == 0 {
                Ok::<bool, IngestError>(false)
            } else if count_matching(self@, security_name@) == 1 {
                Ok::<bool, IngestError>(true)
            } else {
                Err::<bool, IngestError>(IngestError::MultipleSeries)
            }),
    {
        let inscope_count = self.count_matching(security_name.as_str());
        if inscope_count == 0 {
            Ok(false)
        } else if inscope_count == 1 {
            Ok(true)
        } else {
            Err(IngestError::MultipleSeries)
        }
    }

    /// Adds a series at the end without asking whether its ticker is already
    /// there. This is the one way to put a store into the state in which a
    /// ticker has several series, which `count_matching` then reports.
    pub fn insert_unchecked(&mut self, stock: Stock) -> (handle: SeriesHandle)
        requires
            old(self).wf(),
            stock@.aligned(),
        ensures
            final(self).wf(),
            final(self)@ == old(self)@.push(stock@),
            handle.position == old(self)@.len(),
            unique(final(self)@) <==> unique(old(self)@) && count_matching(
                old(self)@,
                stock@.ticker,
            ) == 0,
    {
        proof {
            unique_after_push(self@, stock@);
        }
        let ghost before = self@;
        let position = self.stock_values.len();
        let key = stock.ticker().clone();
        let earlier = self.count_matching(key.as_str());
        self.stock_values.push(stock);
        let grown = self.stock_values.len();
        proof {
            assert(self@ =~= before.push(stock@));
            count_is_bounded(before, key@);
            assert(earlier < grown);
        }
        self.index.insert(key, Slot { position, count: earlier + 1 });
        proof {
            assert forall|ticker: Seq<char>| #[trigger]
                slot_agrees(self.index@, self@, ticker) by {
                assert(slot_agrees(old(self).index@, before, ticker));
                count_after_push(before, stock@, ticker);
            }
        }
        SeriesHandle { position }
    }

    /// Makes the series of a ticker that has none yet. Where the ticker has
    /// a series already, nothing changes and the error says so.
    pub fn create(
        &mut self,
        ticker: String,
        currency: String,
        instrument_type: String,
        exchange_name: String,
        time_zone: String,
        gmt_offset: i32,
    ) -> (created: Result<SeriesHandle, IngestError>)
        requires
            old(self).wf(),
        ensures
            final(self).wf(),
            count_matching(old(self)@, ticker@) > 0 ==> {
                &&& created == Err::<SeriesHandle, IngestError>(IngestError::DuplicateSeries)
                &&& final(self)@ == old(self)@
            },
            count_matching(old(self)@, ticker@) == 0 ==> {
                &&& created is Ok
                &&& created.unwrap().position == old(self)@.len()
                &&& final(self)@ == old(self)@.push(
                    StockView::created(
                        ticker@,
                        currency@,
                        instrument_type@,
                        exchange_name@,
                        time_zone@,
                        gmt_offset,
                    ),
                )
            },
            unique(old(self)@) ==> unique(final(self)@),
    {
        if self.has(ticker.as_str()) {
            return Err(IngestError::DuplicateSeries);
        }
        let stock = Stock::new(
            ticker,
            currency,
            instrument_type,
            exchange_name,
            time_zone,
            gmt_offset,
        );
        Ok(self.insert_unchecked(stock))
    }

    /// The handle of the series of a ticker, through which observations are
    /// added later. Where several series carry the ticker, it is the one
    /// created last.
    pub fn get_mut(&self, ticker: &str) -> (found: Result<SeriesHandle, IngestError>)
        requires
            self.wf(),
        ensures
            count_matching(self@, ticker@) == 0 ==> found == Err::<SeriesHandle, IngestError>(
                IngestError::NotFound,
            ),
            count_matching(self@, ticker@) > 0 ==> {
                &&& found is Ok
                &&& found.unwrap().position == last_position(self@, ticker@)
                &&& found.unwrap().position < self@.len()
            },
    {
        proof {
            assert(slot_agrees(self.index@, self@, ticker@));
            last_position_is_last(self@, ticker@);
        }
        match self.index.get(ticker) {
            Some(slot) => Ok(SeriesHandle { position: slot.position }),
            None => Err(IngestError::NotFound),
        }
    }

    /// Adds one observation to the series that the handle names. A handle
    /// that names no series of this store changes nothing.
    pub fn append(
        &mut self,
        handle: SeriesHandle,
        observation: Observation,
    ) -> (added: Result<(), IngestError>)
        requires
            old(self).wf(),
        ensures
            final(self).wf(),
            handle.position < old(self)@.len() ==> {
                &&& added == Ok::<(), IngestError>(())
                &&& final(self)@ == old(self)@.update(
                    handle.position as int,
                    old(self)@[handle.position as int].write_line(observation),
                )
            },
            handle.position >= old(self)@.len() ==> {
                &&& added == Err::<(), IngestError>(IngestError::NotFound)
                &&& final(self)@ == old(self)@
            },
            unique(old(self)@) == unique(final(self)@),
    {
        if handle.position >= self.stock_values.len() {
            return Err(IngestError::NotFound);
        }
        let ghost before = self@;
        self.stock_values[handle.position].write_line(
            observation.timestamp,
            observation.low,
            observation.high,
            observation.open,
            observation.close,
            observation.volume,
        );
        proof {
            assert(self@ =~= before.update(
                handle.position as int,
                before[handle.position as int].write_line(observation),
            ));
            self.rewritten_in_place(*old(self), handle.position as int);
            unique_depends_on_tickers(before, self@);
        }
        Ok(())
    }

    /// The series that the handle names, if it names one.
    pub fn series(&self, handle: SeriesHandle) -> (found: Option<&Stock>)
        ensures
            handle.position >= self@.len() ==> found is None,
            handle.position < self@.len() ==> found is Some && found.unwrap()@
                == self@[handle.position as int],
    {
        if handle.position < self.stock_values.len() {
            Some(&self.stock_values[handle.position])
        } else {
            None
        }
    }

    /// The series of the ticker, if it has one; the one created last where
    /// it has several.
    pub fn get(&self, ticker: &str) -> (found: Option<&Stock>)
        requires
            self.wf(),
        ensures
            count_matching(self@, ticker@) == 0 ==> found is None,
            count_matching(self@, ticker@) > 0 ==> found is Some && found.unwrap()@
                == self@[last_position(self@, ticker@)],
    {
        match self.get_mut(ticker) {
            Ok(handle) => self.series(handle),
            Err(_) => None,
        }
    }

    /// The tickers of all series, in the order in which the series were
    /// created.
    pub fn tickers(&self) -> (names: Vec<String>)
        ensures
            names@.len() == self@.len(),
            forall|i: int| 0 <= i < names@.len() ==> (#[trigger] names@[i])@ == self@[i].ticker,
    {
        let mut names: Vec<String> = Vec::new();
        let mut i: usize = 0;
        while i < self.stock_values.len()
            invariant
                i <= self.stock_values.len(),
                names@.len() == i,
                forall|k: int| 0 <= k < i ==> (#[trigger] names@[k])@ == self@[k].ticker,
            decreases self.stock_values.len() - i,
        {
            names.push(self.stock_values[i].ticker().clone());
            i = i + 1;
        }
        names
    }

    /// The text of a text field of the row. A field that is absent, is not
    /// UTF-8, or is not a text field at all is a failure to convert that
    /// field.
    pub fn get_stock_attr(
        row: &Row,
        stock_attribute: StockQueryMapping,
    ) -> (read: Result<String, IngestError>)
        ensures
            match row.text(stock_attribute) {
                Some(text) => read is Ok && read.unwrap()@ == text,
                None => read == Err::<String, IngestError>(
                    IngestError::FieldConversion(stock_attribute),
                ),
            },
    {
        let cell = match stock_attribute {
            StockQueryMapping::Security => &row.security,
            StockQueryMapping::Currency => &row.currency,
            StockQueryMapping::InstrumentType => &row.instrument_type,
            StockQueryMapping::ExchangeName => &row.exchange_name,
            StockQueryMapping::TimeZone => &row.time_zone,
            _ => {
                return Err(IngestError::FieldConversion(stock_attribute));
            },
        };
        match cell {
            Some(bytes) => match string_from_utf8(bytes.clone()) {
                Some(text) => Ok(text),
                None => Err(IngestError::FieldConversion(stock_attribute)),
            },
            None => Err(IngestError::FieldConversion(stock_attribute)),
        }
    }

    /// The value of the integer field of the row.
    pub fn get_stock_int(
        row: &Row,
        stock_attribute: StockQueryMapping,
    ) -> (read: Result<i32, IngestError>)
        ensures
            read == match row.integer(stock_attribute) {
                Some(value) => Ok::<i32, IngestError>(value),
                None => Err::<i32, IngestError>(IngestError::FieldConversion(stock_attribute)),
            },
    {
        let cell = match stock_attribute {
            StockQueryMapping::GmtOffSet => row.gmt_offset,
            _ => None,
        };
        match cell {
            Some(value) => Ok(value),
            None => Err(IngestError::FieldConversion(stock_attribute)),
        }
    }

    /// The value of a price or volume field of the row.
    pub fn get_stock_float(
        row: &Row,
        stock_attribute: StockQueryMapping,
    ) -> (read: Result<Float32, IngestError>)
        ensures
            read == match row.float(stock_attribute) {
                Some(value) => Ok::<Float32, IngestError>(value),
                None => Err::<Float32, IngestError>(
                    IngestError::FieldConversion(stock_attribute),
                ),
            },
    {
        let cell = match stock_attribute {
            StockQueryMapping::High => row.high,
            StockQueryMapping::Low => row.low,
            StockQueryMapping::Open => row.open,
            StockQueryMapping::Close => row.close,
            StockQueryMapping::Volume => row.volume,
            _ => None,
        };
        match cell {
            Some(value) => Ok(value),
            None => Err(IngestError::FieldConversion(stock_attribute)),
        }
    }

    /// The timestamp field of the row, converted from seconds since
    /// 1970-01-01 00:00:00 UTC to a date and time in UTC. A count of seconds
    /// that names no representable instant is a failure to convert.
    pub fn get_stock_date(
        row: &Row,
        stock_attribute: StockQueryMapping,
    ) -> (read: Result<NaiveDateTime, IngestError>)
        ensures
            read == match row.timestamp(stock_attribute) {
                Some(instant) => Ok::<NaiveDateTime, IngestError>(instant),
                None => Err::<NaiveDateTime, IngestError>(
                    IngestError::FieldConversion(stock_attribute),
                ),
            },
    {
        let cell = match stock_attribute {
            StockQueryMapping::AsAtDate => row.as_at_date,
            _ => None,
        };
        match cell {
            Some(secs) => match datetime_from_timestamp(secs) {
                Some(instant) => Ok(instant),
                None => Err(IngestError::FieldConversion(stock_attribute)),
            },
            None => Err(IngestError::FieldConversion(stock_attribute)),
        }
    }

    /// Makes the series of a security seen for the first time, from the
    /// identity fields of its row. The series is not yet in any store.
    pub fn initialise_stock(
        row: &Row,
        security_name: &String,
    ) -> (made: Result<Stock, IngestError>)
        ensures
            match identity_of(*row, security_name@) {
                Ok(identity) => made is Ok && made.unwrap()@ == identity,
                Err(error) => made is Err && made.unwrap_err() == error,
            },
    {
        let currency = Self::get_stock_attr(row, StockQueryMapping::Currency)?;
        let instrument_type = Self::get_stock_attr(row, StockQueryMapping::InstrumentType)?;
        let exchange_name = Self::get_stock_attr(row, StockQueryMapping::ExchangeName)?;
        let time_zone = Self::get_stock_attr(row, StockQueryMapping::TimeZone)?;
        let gmt_offset = Self::get_stock_int(row, StockQueryMapping::GmtOffSet)?;
        let stock = Stock::new(
            security_name.clone(),
            currency,
            instrument_type,
            exchange_name,
            time_zone,
            gmt_offset,
        );
        Ok(stock)
    }

    /// Adds the observation of the row to the series. Where a field of the
    /// observation does not convert, the series stays as it is.
    pub fn update_stock(stock: &mut Stock, row: &Row) -> (updated: Result<(), IngestError>)
        ensures
            match observation_of(*row) {
                Ok(observation) => {
                    &&& updated == Ok::<(), IngestError>(())
                    &&& final(stock)@ == old(stock)@.write_line(observation)
                },
                Err(error) => {
                    &&& updated == Err::<(), IngestError>(error)
                    &&& final(stock)@ == old(stock)@
                },
            },
    {
        let stock_low = Self::get_stock_float(row, StockQueryMapping::Low)?;
        let stock_high = Self::get_stock_float(row, StockQueryMapping::High)?;
        let stock_open = Self::get_stock_float(row, StockQueryMapping::Open)?;
        let stock_close = Self::get_stock_float(row, StockQueryMapping::Close)?;
        let stock_volume = Self::get_stock_float(row, StockQueryMapping::Volume)?;
        let date_time = Self::get_stock_date(row, StockQueryMapping::AsAtDate)?;
        stock.write_line(date_time, stock_low, stock_high, stock_open, stock_close, stock_volume);
        Ok(())
    }

    /// Finds the series of the security and adds the observation of the row
    /// to it. Where no series carries the name, or a field of the
    /// observation does not convert, the store stays as it is.
    pub fn retrieve_update_stock(
        &mut self,
        row: &Row,
        security_name: &String,
    ) -> (updated: Result<(), IngestError>)
        requires
            old(self).wf(),
        ensures
            final(self).wf(),
            count_matching(old(self)@, security_name@) == 0 ==> {
                &&& updated == Err::<(), IngestError>(IngestError::NotFound)
                &&& final(self)@ == old(self)@
            },
            count_matching(old(self)@, security_name@) > 0 ==> match observation_of(*row) {
                Ok(observation) => {
                    &&& updated == Ok::<(), IngestError>(())
                    &&& final(self)@ == appended(old(self)@, security_name@, observation)
                },
                Err(error) => {
                    &&& updated == Err::<(), IngestError>(error)
                    &&& final(self)@ == old(self)@
                },
            },
    {
        let matched_index = self.get_mut(security_name.as_str())?.position;
        let ghost before = self@;
        let updated = Self::update_stock(&mut self.stock_values[matched_index], row);
        proof {
            self.rewritten_in_place(*old(self), matched_index as int);
        }
        updated
    }

    /// Takes one row in: finds or makes the series of its ticker and adds
    /// its observation.
    ///
    /// The identity of a series is read from the row that creates it and
    /// from no later row. A row that fails leaves every series that existed
    /// before as it was; a row for a new ticker whose observation does not
    /// convert leaves the new series behind, empty.
    pub fn ingest(&mut self, row: &Row) -> (outcome: Result<(), IngestError>)
        requires
            old(self).wf(),
        ensures
            final(self).wf(),
            (final(self)@, outcome) == ingest_model(old(self)@, *row),
            unique(old(self)@) ==> unique(final(self)@),
    {
        proof {
            if unique(self@) {
                ingest_keeps_unique(self@, *row);
            }
        }
        let security_name = match Self::get_stock_attr(row, StockQueryMapping::Security) {
            Ok(text) => text,
            Err(_) => {
                return Err(IngestError::MalformedRow);
            },
        };
        if security_name.as_str().is_empty() {
            return Err(IngestError::MalformedRow);
        }
        if !self.check_if_written_stock(&security_name)? {
            let stock = Self::initialise_stock(row, &security_name)?;
            self.insert_unchecked(stock);
        }
        self.retrieve_update_stock(row, &security_name)
    }

    /// Takes the rows in, in their order. A row that is malformed, or that
    /// has a field which does not convert, is dropped and counted, and the
    /// run goes on; an error that puts the store in doubt ends the run at
    /// that row, and what was taken in before it stays.
    pub fn get_stocks(&mut self, rows: &Vec<Row>) -> (report: RunReport)
        requires
            old(self).wf(),
        ensures
            final(self).wf(),
            final(self)@ == run(old(self)@, rows@).series,
            report.ingested == run(old(self)@, rows@).ingested,
            report.malformed == run(old(self)@, rows@).malformed,
            report.unconverted == run(old(self)@, rows@).unconverted,
            report.fatal == run(old(self)@, rows@).fatal,
            unique(old(self)@) ==> unique(final(self)@) && report.fatal is None,
    {
        proof {
            if unique(self@) {
                run_keeps_unique(self@, rows@);
            }
        }
        let ghost start = self@;
        let mut report = RunReport { ingested: 0, malformed: 0, unconverted: 0, fatal: None };
        let mut i: usize = 0;
        while i < rows.len()
            invariant
                i <= rows.len(),
                start == old(self)@,
                unique(start) ==> unique(run(start, rows@).series) && run(
                    start,
                    rows@,
                ).fatal is None,
                self.wf(),
                self@ == run(start, rows@.take(i as int)).series,
                report.ingested == run(start, rows@.take(i as int)).ingested,
                report.malformed == run(start, rows@.take(i as int)).malformed,
                report.unconverted == run(start, rows@.take(i as int)).unconverted,
                report.fatal == run(start, rows@.take(i as int)).fatal,
                report.fatal is None,
                report.ingested + report.malformed + report.unconverted == i,
            decreases rows.len() - i,
        {
            proof {
                run_one_further(start, rows@, i as int);
            }
            match self.ingest(&rows[i]) {
                Ok(_) => {
                    report.ingested = report.ingested + 1;
                },
                Err(error) => {
                    if error.is_fatal() {
                        report.fatal = Some(error);
                        proof {
                            ended_run_stays(start, rows@, i + 1);
                        }
                        return report;
                    } else {
                        match error {
                            IngestError::MalformedRow => {
                                report.malformed = report.malformed + 1;
                            },
                            _ => {
                                report.unconverted = report.unconverted + 1;
                            },
                        }
                    }
                },
            }
            i = i + 1;
        }
        proof {
            assert(rows@.take(i as int) =~= rows@);
        }
        report
    }

    /// A store whose series changed at one position, without a change of
    /// ticker and without a change of index, is still well formed if the
    /// changed series holds whole observations.
    proof fn rewritten_in_place(&self, before: StockData, position: int)
        requires
            before.wf(),
            0 <= position < before@.len(),
            self.index@ == before.index@,
            self@.len() == before@.len(),
            forall|i: int| 0 <= i < self@.len() && i != position ==> self@[i] == before@[i],
            self@[position].ticker == before@[position].ticker,
            self@[position].aligned(),
        ensures
            self.wf(),
    {
        assert forall|ticker: Seq<char>| #[trigger]
            slot_agrees(self.index@, self@, ticker) by {
            assert(slot_agrees(before.index@, before@, ticker));
            count_depends_on_tickers(self@, before@, ticker);
        }
        assert forall|i: int| 0 <= i < self@.len() implies (#[trigger] self@[i]).aligned() by {
            if i != position {
                assert(before@[i].aligned());
            }
        }
    }
}

} // verus!
