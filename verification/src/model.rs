//! The store and the taking in of rows, as mathematics: a store is the
//! sequence of its series in the order of their creation, and a row is a
//! step from one such sequence to the next.

use crate::data_structures::{Observation, StockView};
use crate::error::IngestError;
use crate::row::{Row, StockQueryMapping};
use vstd::prelude::*;

verus! {

/// How many series carry the ticker.
pub open spec fn count_matching(series: Seq<StockView>, ticker: Seq<char>) -> nat
    decreases series.len(),
{
    if series.len() == 0 {
        0
    } else {
        count_matching(series.drop_last(), ticker) + if series.last().ticker == ticker {
            1nat
        } else {
            0nat
        }
    }
}

/// The position of the series created last among those that carry the
/// ticker, or -1 where none does.
pub open spec fn last_position(series: Seq<StockView>, ticker: Seq<char>) -> int
    decreases series.len(),
{
    if series.len() == 0 {
        -1
    } else if series.last().ticker == ticker {
        series.len() - 1
    } else {
        last_position(series.drop_last(), ticker)
    }
}

/// No two series carry the same ticker.
pub open spec fn unique(series: Seq<StockView>) -> bool {
    forall|i: int, j: int|
        0 <= i < j < series.len() ==> (#[trigger] series[i]).ticker != (#[trigger] series[j]).ticker
}

/// Every series holds whole observations only.
pub open spec fn all_aligned(series: Seq<StockView>) -> bool {
    forall|i: int| 0 <= i < series.len() ==> (#[trigger] series[i]).aligned()
}

/// The ticker of a row: the text of its security field, where that is
/// present, is UTF-8 and is not empty.
pub open spec fn ticker_of(row: Row) -> Option<Seq<char>> {
    match row.text(StockQueryMapping::Security) {
        Some(ticker) => if ticker.len() > 0 {
            Some(ticker)
        } else {
            None
        },
        None => None,
    }
}

/// Whether the row has a value for the field that converts to the field's
/// type.
pub open spec fn converts(row: Row, field: StockQueryMapping) -> bool {
    match field {
        StockQueryMapping::Security
        | StockQueryMapping::Currency
        | StockQueryMapping::InstrumentType
        | StockQueryMapping::ExchangeName
        | StockQueryMapping::TimeZone => row.text(field) is Some,
        StockQueryMapping::GmtOffSet => row.integer(field) is Some,
        StockQueryMapping::Low
        | StockQueryMapping::High
        | StockQueryMapping::Open
        | StockQueryMapping::Close
        | StockQueryMapping::Volume => row.float(field) is Some,
        StockQueryMapping::AsAtDate => row.timestamp(field) is Some,
    }
}

/// The new series that a row describes for `ticker`. The currency, the
/// instrument type, the exchange name, the time zone and the GMT offset are
/// read in this order, and the first that does not convert is the failure.
pub open spec fn identity_of(row: Row, ticker: Seq<char>) -> Result<StockView, IngestError> {
    if !converts(row, StockQueryMapping::Currency) {
        Err(IngestError::FieldConversion(StockQueryMapping::Currency))
    } else if !converts(row, StockQueryMapping::InstrumentType) {
        Err(IngestError::FieldConversion(StockQueryMapping::InstrumentType))
    } else if !converts(row, StockQueryMapping::ExchangeName) {
        Err(IngestError::FieldConversion(StockQueryMapping::ExchangeName))
    } else if !converts(row, StockQueryMapping::TimeZone) {
        Err(IngestError::FieldConversion(StockQueryMapping::TimeZone))
    } else if !converts(row, StockQueryMapping::GmtOffSet) {
        Err(IngestError::FieldConversion(StockQueryMapping::GmtOffSet))
    } else {
        Ok(
            StockView::created(
                ticker,
                row.text(StockQueryMapping::Currency).unwrap(),
                row.text(StockQueryMapping::InstrumentType).unwrap(),
                row.text(StockQueryMapping::ExchangeName).unwrap(),
                row.text(StockQueryMapping::TimeZone).unwrap(),
                row.integer(StockQueryMapping::GmtOffSet).unwrap(),
            ),
        )
    }
}

/// The observation that a row carries. The low, the high, the open, the
/// close, the volume and the timestamp are read in this order, and the first
/// that does not convert is the failure.
pub open spec fn observation_of(row: Row) -> Result<Observation, IngestError> {
    if !converts(row, StockQueryMapping::Low) {
        Err(IngestError::FieldConversion(StockQueryMapping::Low))
    } else if !converts(row, StockQueryMapping::High) {
        Err(IngestError::FieldConversion(StockQueryMapping::High))
    } else if !converts(row, StockQueryMapping::Open) {
        Err(IngestError::FieldConversion(StockQueryMapping::Open))
    } else if !converts(row, StockQueryMapping::Close) {
        Err(IngestError::FieldConversion(StockQueryMapping::Close))
    } else if !converts(row, StockQueryMapping::Volume) {
        Err(IngestError::FieldConversion(StockQueryMapping::Volume))
    } else if !converts(row, StockQueryMapping::AsAtDate) {
        Err(IngestError::FieldConversion(StockQueryMapping::AsAtDate))
    } else {
        Ok(
            Observation {
                timestamp: row.timestamp(StockQueryMapping::AsAtDate).unwrap(),
                low: row.float(StockQueryMapping::Low).unwrap(),
                high: row.float(StockQueryMapping::High).unwrap(),
                open: row.float(StockQueryMapping::Open).unwrap(),
                close: row.float(StockQueryMapping::Close).unwrap(),
                volume: row.float(StockQueryMapping::Volume).unwrap(),
            },
        )
    }
}

/// The store with one observation added to the series created last for the
/// ticker.
pub open spec fn appended(
    series: Seq<StockView>,
    ticker: Seq<char>,
    observation: Observation,
) -> Seq<StockView> {
    let position = last_position(series, ticker);
    series.update(position, series[position].write_line(observation))
}

/// The store once the series that a row is for is settled: unchanged where
/// the ticker has its series, one empty series longer where it is new. An
/// error where the store already holds several series for the ticker, or
/// where the row fails to describe the new one.
pub open spec fn resolved(
    series: Seq<StockView>,
    row: Row,
    ticker: Seq<char>,
) -> Result<Seq<StockView>, IngestError> {
    let matches = count_matching(series, ticker);
    if matches >= 2 {
        Err(IngestError::MultipleSeries)
    } else if matches == 1 {
        Ok(series)
    } else {
        match identity_of(row, ticker) {
            Ok(stock) => Ok(series.push(stock)),
            Err(error) => Err(error),
        }
    }
}

/// What taking one row in does to a store, and what it reports.
///
/// A row without a ticker changes nothing. So does a row for a ticker that
/// several series carry, and a row for a new ticker whose identity does not
/// convert. Otherwise the series of the ticker is there, made on the spot if
/// need be, and the observation is added to it unless one of its fields does
/// not convert.
pub open spec fn ingest_model(
    series: Seq<StockView>,
    row: Row,
) -> (Seq<StockView>, Result<(), IngestError>) {
    match ticker_of(row) {
        None => (series, Err(IngestError::MalformedRow)),
        Some(ticker) => match resolved(series, row, ticker) {
            Err(error) => (series, Err(error)),
            Ok(settled) => match observation_of(row) {
                Err(error) => (settled, Err(error)),
                Ok(observation) => (appended(settled, ticker, observation), Ok(())),
            },
        },
    }
}

/// Where a run stands: the store, how many rows were taken in, how many were
/// dropped for want of a ticker, how many for a field that did not convert,
/// and the error that ended the run, if one did.
pub struct Run {
    pub series: Seq<StockView>,
    pub ingested: nat,
    pub malformed: nat,
    pub unconverted: nat,
    pub fatal: Option<IngestError>,
}

/// The run one row further. A run that has ended stays as it is.
pub open spec fn step(before: Run, row: Row) -> Run {
    if before.fatal is Some {
        before
    } else {
        let (series, outcome) = ingest_model(before.series, row);
        match outcome {
            Ok(_) => Run { series, ingested: before.ingested + 1, ..before },
            Err(error) => if error.fatal() {
                Run { series, fatal: Some(error), ..before }
            } else if error is MalformedRow {
                Run { series, malformed: before.malformed + 1, ..before }
            } else {
                Run { series, unconverted: before.unconverted + 1, ..before }
            },
        }
    }
}

/// The run over all of `rows`, in their order, from the given store.
pub open spec fn run(series: Seq<StockView>, rows: Seq<Row>) -> Run
    decreases rows.len(),
{
    if rows.len() == 0 {
        Run { series, ingested: 0, malformed: 0, unconverted: 0, fatal: None }
    } else {
        step(run(series, rows.drop_last()), rows.last())
    }
}

/// The run over the first `n + 1` rows is one step on from the run over the
/// first `n`.
pub proof fn run_one_further(series: Seq<StockView>, rows: Seq<Row>, n: int)
    requires
        0 <= n < rows.len(),
    ensures
        run(series, rows.take(n + 1)) == step(run(series, rows.take(n)), rows[n]),
{
    assert(rows.take(n + 1).drop_last() =~= rows.take(n));
}

/// Once a run has ended, further rows change nothing.
pub proof fn ended_run_stays(series: Seq<StockView>, rows: Seq<Row>, n: int)
    requires
        0 <= n <= rows.len(),
        run(series, rows.take(n)).fatal is Some,
    ensures
        run(series, rows) == run(series, rows.take(n)),
    decreases rows.len(),
{
    if n == rows.len() {
        assert(rows.take(n) =~= rows);
    } else {
        assert(rows.drop_last().take(n) =~= rows.take(n));
        ended_run_stays(series, rows.drop_last(), n);
    }
}

/// A ticker is carried by no more series than there are.
pub proof fn count_is_bounded(series: Seq<StockView>, ticker: Seq<char>)
    ensures
        count_matching(series, ticker) <= series.len(),
    decreases series.len(),
{
    if series.len() > 0 {
        count_is_bounded(series.drop_last(), ticker);
    }
}

/// What one more series at the end does to the count and to the last
/// position of every ticker.
pub proof fn count_after_push(series: Seq<StockView>, stock: StockView, ticker: Seq<char>)
    ensures
        count_matching(series.push(stock), ticker) == count_matching(series, ticker) + if stock.ticker
            == ticker {
            1nat
        } else {
            0nat
        },
        last_position(series.push(stock), ticker) == if stock.ticker == ticker {
            series.len() as int
        } else {
            last_position(series, ticker)
        },
{
    assert(series.push(stock).drop_last() =~= series);
}

/// The last position of a ticker is that of a series which carries it, with
/// none after it that does; it is -1 exactly where no series carries the
/// ticker.
pub proof fn last_position_is_last(series: Seq<StockView>, ticker: Seq<char>)
    ensures
        -1 <= last_position(series, ticker) < series.len(),
        count_matching(series, ticker) == 0 <==> last_position(series, ticker) == -1,
        last_position(series, ticker) >= 0 ==> series[last_position(series, ticker)].ticker
            == ticker,
        forall|i: int|
            last_position(series, ticker) < i < series.len() ==> (#[trigger] series[i]).ticker
                != ticker,
    decreases series.len(),
{
    if series.len() > 0 {
        last_position_is_last(series.drop_last(), ticker);
        assert forall|i: int| last_position(series, ticker) < i < series.len() implies (
        #[trigger] series[i]).ticker != ticker by {
            if i < series.len() - 1 {
                assert(series.drop_last()[i] == series[i]);
            }
        }
    }
}

/// Counts and last positions depend on the tickers alone.
pub proof fn count_depends_on_tickers(
    first: Seq<StockView>,
    second: Seq<StockView>,
    ticker: Seq<char>,
)
    requires
        first.len() == second.len(),
        forall|i: int| 0 <= i < first.len() ==> first[i].ticker == second[i].ticker,
    ensures
        count_matching(first, ticker) == count_matching(second, ticker),
        last_position(first, ticker) == last_position(second, ticker),
    decreases first.len(),
{
    if first.len() > 0 {
        count_depends_on_tickers(first.drop_last(), second.drop_last(), ticker);
    }
}

/// A series at position `i` counts for its ticker.
pub proof fn member_is_counted(series: Seq<StockView>, i: int)
    requires
        0 <= i < series.len(),
    ensures
        count_matching(series, series[i].ticker) >= 1,
    decreases series.len(),
{
    if i < series.len() - 1 {
        member_is_counted(series.drop_last(), i);
    }
}

/// Two series with one ticker make its count two or more.
pub proof fn pair_is_counted(series: Seq<StockView>, i: int, j: int)
    requires
        0 <= i < j < series.len(),
        series[i].ticker == series[j].ticker,
    ensures
        count_matching(series, series[i].ticker) >= 2,
    decreases series.len(),
{
    if j < series.len() - 1 {
        pair_is_counted(series.drop_last(), i, j);
    } else {
        member_is_counted(series.drop_last(), i);
    }
}

/// A count of two or more shows two series with one ticker.
pub proof fn counted_twice_is_pair(series: Seq<StockView>, ticker: Seq<char>)
    requires
        count_matching(series, ticker) >= 2,
    ensures
        !unique(series),
    decreases series.len(),
{
    if series.len() > 0 {
        let rest = series.drop_last();
        if count_matching(rest, ticker) >= 2 {
            counted_twice_is_pair(rest, ticker);
            let (i, j) = choose|i: int, j: int|
                0 <= i < j < rest.len() && (#[trigger] rest[i]).ticker == (#[trigger] rest[j]).ticker;
            assert(series[i].ticker == series[j].ticker);
        } else {
            last_position_is_last(rest, ticker);
            let i = last_position(rest, ticker);
            assert(series[i].ticker == series[series.len() - 1].ticker);
        }
    }
}

/// The store is unique exactly when no ticker is counted more than once.
pub proof fn unique_means_counted_once(series: Seq<StockView>)
    ensures
        unique(series) <==> forall|ticker: Seq<char>| count_matching(series, ticker) <= 1,
{
    if unique(series) {
        assert forall|ticker: Seq<char>| count_matching(series, ticker) <= 1 by {
            if count_matching(series, ticker) >= 2 {
                counted_twice_is_pair(series, ticker);
            }
        }
    } else {
        let (i, j) = choose|i: int, j: int|
            0 <= i < j < series.len() && (#[trigger] series[i]).ticker == (#[trigger] series[j]).ticker;
        pair_is_counted(series, i, j);
    }
}

/// A store without a ticker twice stays so when a series is added whose
/// ticker it does not have, and only then.
pub proof fn unique_after_push(series: Seq<StockView>, stock: StockView)
    ensures
        unique(series.push(stock)) <==> unique(series) && count_matching(series, stock.ticker)
            == 0,
{
    let longer = series.push(stock);
    unique_means_counted_once(series);
    unique_means_counted_once(longer);
    if unique(series) && count_matching(series, stock.ticker) == 0 {
        assert forall|ticker: Seq<char>| count_matching(longer, ticker) <= 1 by {
            count_after_push(series, stock, ticker);
        }
    } else if unique(longer) {
        assert forall|ticker: Seq<char>| count_matching(series, ticker) <= 1 by {
            count_after_push(series, stock, ticker);
        }
        count_after_push(series, stock, stock.ticker);
    }
}

/// Whether a ticker occurs twice depends on the tickers alone.
pub proof fn unique_depends_on_tickers(first: Seq<StockView>, second: Seq<StockView>)
    requires
        first.len() == second.len(),
        forall|i: int| 0 <= i < first.len() ==> first[i].ticker == second[i].ticker,
    ensures
        unique(first) == unique(second),
{
    if unique(first) {
        assert forall|i: int, j: int| 0 <= i < j < second.len() implies (
        #[trigger] second[i]).ticker != (#[trigger] second[j]).ticker by {
            assert(first[i].ticker != first[j].ticker);
        }
    }
    if unique(second) {
        assert forall|i: int, j: int| 0 <= i < j < first.len() implies (
        #[trigger] first[i]).ticker != (#[trigger] first[j]).ticker by {
            assert(second[i].ticker != second[j].ticker);
        }
    }
}

} // verus!
