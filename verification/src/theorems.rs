//! What holds of every store and every sequence of rows.

use crate::data_structures::{Observation, StockView};
use crate::error::IngestError;
use crate::model::{
    all_aligned, count_depends_on_tickers, count_matching, identity_of,
    ingest_model, last_position, last_position_is_last, observation_of, resolved, run, step,
    ticker_of, unique, unique_means_counted_once, Run,
};
use crate::row::Row;
use vstd::prelude::*;

verus! {

/// The observations that the store holds for a ticker: those of the series
/// created last for it, and none where it has no series.
pub open spec fn observations_of(series: Seq<StockView>, ticker: Seq<char>) -> Seq<Observation> {
    if count_matching(series, ticker) == 0 {
        Seq::empty()
    } else {
        series[last_position(series, ticker)].observations()
    }
}

/// The observations that a run takes in for a ticker, in the order of the
/// rows that carry them. A row counts where the run has not ended before it
/// and the row is taken in.
pub open spec fn taken_in(
    series: Seq<StockView>,
    rows: Seq<Row>,
    ticker: Seq<char>,
) -> Seq<Observation>
    decreases rows.len(),
{
    if rows.len() == 0 {
        Seq::empty()
    } else {
        let before = run(series, rows.drop_last());
        let earlier = taken_in(series, rows.drop_last(), ticker);
        if before.fatal is None && ticker_of(rows.last()) == Some(ticker) && ingest_model(
            before.series,
            rows.last(),
        ).1 is Ok {
            earlier.push(observation_of(rows.last()).unwrap())
        } else {
            earlier
        }
    }
}

/// Writing an observation keeps a series whole, adds the observation at the
/// end of those it had, and leaves its identity alone.
pub proof fn write_line_is_atomic(stock: StockView, observation: Observation)
    requires
        stock.aligned(),
    ensures
        stock.write_line(observation).aligned(),
        stock.write_line(observation).observations() == stock.observations().push(observation),
        stock.write_line(observation).same_identity(stock),
{
    assert(stock.write_line(observation).observations() =~= stock.observations().push(
        observation,
    ));
}

/// A store in which no ticker has two series stays so when a row is taken
/// in, whatever the row holds.
pub proof fn ingest_keeps_unique(series: Seq<StockView>, row: Row)
    requires
        unique(series),
    ensures
        unique(ingest_model(series, row).0),
{
    let after = ingest_model(series, row).0;
    unique_means_counted_once(series);
    assert forall|ticker: Seq<char>| count_matching(after, ticker) <= 1 by {
        count_follows_step(series, row, ticker);
    }
    unique_means_counted_once(after);
}

/// Taking a row in changes the count of at most one ticker, that of the
/// row, and only from none to one.
pub proof fn count_follows_step(series: Seq<StockView>, row: Row, ticker: Seq<char>)
    ensures
        count_matching(ingest_model(series, row).0, ticker) == if ticker_of(row) == Some(ticker)
            && count_matching(series, ticker) == 0 && resolved(series, row, ticker) is Ok {
            1nat
        } else {
            count_matching(series, ticker)
        },
{
    let after = ingest_model(series, row).0;
    match ticker_of(row) {
        None => {},
        Some(own) => match resolved(series, row, own) {
            Err(_) => {},
            Ok(settled) => {
                if count_matching(series, own) == 0 {
                    assert(settled.drop_last() =~= series);
                }
                if observation_of(row) is Ok {
                    last_position_is_last(settled, own);
                    count_depends_on_tickers(after, settled, ticker);
                }
            },
        },
    }
}

/// Every series holds whole observations after a row is taken in, if every
/// series did before: the six sequences of a series grow together or not at
/// all.
pub proof fn ingest_keeps_aligned(series: Seq<StockView>, row: Row)
    requires
        all_aligned(series),
    ensures
        all_aligned(ingest_model(series, row).0),
{
    let after = ingest_model(series, row).0;
    match ticker_of(row) {
        None => {},
        Some(own) => match resolved(series, row, own) {
            Err(_) => {},
            Ok(settled) => {
                assert(all_aligned(settled));
                if observation_of(row) is Ok {
                    last_position_is_last(settled, own);
                }
            },
        },
    }
}

/// Taking a row in never removes a series, and never changes the ticker,
/// the currency, the instrument type, the exchange name, the time zone or
/// the GMT offset of a series that exists. A series that the row creates
/// has the identity that the row describes: the identity of a series is
/// that of the row which created it.
pub proof fn ingest_keeps_identity(series: Seq<StockView>, row: Row)
    ensures
        series.len() <= ingest_model(series, row).0.len() <= series.len() + 1,
        forall|i: int|
            0 <= i < series.len() ==> (#[trigger] ingest_model(series, row).0[i]).same_identity(
                series[i],
            ),
        ingest_model(series, row).0.len() == series.len() + 1 ==> {
            &&& ticker_of(row) matches Some(ticker)
            &&& count_matching(series, ticker) == 0
            &&& identity_of(row, ticker) matches Ok(made)
            &&& ingest_model(series, row).0.last().same_identity(made)
        },
{
    let after = ingest_model(series, row).0;
    match ticker_of(row) {
        None => {},
        Some(own) => match resolved(series, row, own) {
            Err(_) => {},
            Ok(settled) => {
                if observation_of(row) is Ok {
                    last_position_is_last(settled, own);
                }
            },
        },
    }
}

/// A row that is taken in adds its observation at the end of those that
/// the store holds for its ticker, and leaves those of every other ticker as
/// they were. A row that is not taken in leaves those of every ticker as
/// they were.
pub proof fn ingest_appends_in_order(series: Seq<StockView>, row: Row, ticker: Seq<char>)
    requires
        all_aligned(series),
    ensures
        observations_of(ingest_model(series, row).0, ticker) == if ingest_model(series, row).1 is Ok
            && ticker_of(row) == Some(ticker) {
            observations_of(series, ticker).push(observation_of(row).unwrap())
        } else {
            observations_of(series, ticker)
        },
{
    let after = ingest_model(series, row).0;
    match ticker_of(row) {
        None => {},
        Some(own) => match resolved(series, row, own) {
            Err(_) => {},
            Ok(settled) => {
                last_position_is_last(settled, own);
                last_position_is_last(settled, ticker);
                if count_matching(series, own) == 0 {
                    assert(settled.drop_last() =~= series);
                }
                match observation_of(row) {
                    Err(_) => {},
                    Ok(observation) => {
                        count_depends_on_tickers(after, settled, ticker);
                    },
                }
            },
        },
    }
}

/// A row with a field that does not convert costs only itself. Every
/// series that existed stays exactly as it was; at most the series of the
/// row's own ticker is new, and then it is empty. A run that meets such a
/// row counts it and goes on.
pub proof fn unconverted_row_is_skipped(series: Seq<StockView>, row: Row, before: Run)
    requires
        ingest_model(series, row).1 matches Err(error) && error is FieldConversion,
        before.series == series,
        before.fatal is None,
    ensures
        step(before, row).fatal is None,
        step(before, row).unconverted == before.unconverted + 1,
        step(before, row).ingested == before.ingested,
        step(before, row).malformed == before.malformed,
        step(before, row).series == ingest_model(series, row).0,
        series.len() <= ingest_model(series, row).0.len() <= series.len() + 1,
        forall|i: int| 0 <= i < series.len() ==> ingest_model(series, row).0[i] == series[i],
        ingest_model(series, row).0.len() == series.len() + 1 ==> {
            &&& ticker_of(row) == Some(ingest_model(series, row).0.last().ticker)
            &&& ingest_model(series, row).0.last().len() == 0
        },
{
}

/// A row without a usable ticker changes nothing. A run that meets such a
/// row counts it and goes on.
pub proof fn malformed_row_is_skipped(series: Seq<StockView>, row: Row, before: Run)
    requires
        ticker_of(row) is None,
        before.series == series,
        before.fatal is None,
    ensures
        ingest_model(series, row) == (series, Err::<(), IngestError>(IngestError::MalformedRow)),
        step(before, row) == (Run { malformed: before.malformed + 1, ..before }),
{
}

/// Where the store holds two or more series for the ticker of a row, the
/// row is refused with `MultipleSeries` and the store is left as it is. A
/// run that meets such a row ends there, with that error, and no later row
/// changes anything.
pub proof fn twice_carried_is_fatal(series: Seq<StockView>, row: Row, before: Run, later: Row)
    requires
        ticker_of(row) matches Some(ticker) && count_matching(series, ticker) >= 2,
        before.series == series,
        before.fatal is None,
    ensures
        ingest_model(series, row) == (series, Err::<(), IngestError>(IngestError::MultipleSeries)),
        step(before, row) == (Run { fatal: Some(IngestError::MultipleSeries), ..before }),
        step(step(before, row), later) == step(before, row),
{
}

/// `MultipleSeries` is the only error with which a run ends, and it comes
/// only from a store that was not unique to begin with.
pub proof fn only_twice_carried_is_fatal(series: Seq<StockView>, row: Row)
    requires
        ingest_model(series, row).1 matches Err(error) && error.fatal(),
    ensures
        ingest_model(series, row).1 == Err::<(), IngestError>(IngestError::MultipleSeries),
        !unique(series),
{
    unique_means_counted_once(series);
}

/// A run from a store in which no ticker has two series ends in such a
/// store, takes every row into account, and never ends early.
pub proof fn run_keeps_unique(series: Seq<StockView>, rows: Seq<Row>)
    requires
        unique(series),
    ensures
        unique(run(series, rows).series),
        run(series, rows).fatal is None,
        run(series, rows).ingested + run(series, rows).malformed + run(series, rows).unconverted
            == rows.len(),
    decreases rows.len(),
{
    if rows.len() > 0 {
        let before = run(series, rows.drop_last());
        run_keeps_unique(series, rows.drop_last());
        ingest_keeps_unique(before.series, rows.last());
        if ingest_model(before.series, rows.last()).1 matches Err(error) && error.fatal() {
            only_twice_carried_is_fatal(before.series, rows.last());
        }
    }
}

/// A series that a run creates carries the ticker of one of the rows of
/// the run.
pub proof fn run_makes_series_for_rows_only(series: Seq<StockView>, rows: Seq<Row>, i: int)
    requires
        series.len() <= i < run(series, rows).series.len(),
    ensures
        exists|k: int|
            0 <= k < rows.len() && ticker_of(#[trigger] rows[k]) == Some(
                run(series, rows).series[i].ticker,
            ),
    decreases rows.len(),
{
    if rows.len() > 0 {
        let before = run(series, rows.drop_last());
        let after = run(series, rows);
        ingest_keeps_identity(before.series, rows.last());
        if i < before.series.len() {
            run_makes_series_for_rows_only(series, rows.drop_last(), i);
            let k = choose|k: int|
                0 <= k < rows.drop_last().len() && ticker_of(#[trigger] rows.drop_last()[k])
                    == Some(before.series[i].ticker);
            assert(rows[k] == rows.drop_last()[k]);
        } else {
            assert(ticker_of(rows[rows.len() - 1]) == Some(after.series[i].ticker));
        }
    }
}

/// After a run from the empty store, no ticker has more than one series.
pub proof fn run_from_empty_is_unique(rows: Seq<Row>, ticker: Seq<char>)
    ensures
        count_matching(run(Seq::empty(), rows).series, ticker) <= 1,
{
    run_keeps_unique(Seq::empty(), rows);
    unique_means_counted_once(run(Seq::empty(), rows).series);
}

/// Every series holds whole observations after a run, if every series did
/// before.
pub proof fn run_keeps_aligned(series: Seq<StockView>, rows: Seq<Row>)
    requires
        all_aligned(series),
    ensures
        all_aligned(run(series, rows).series),
    decreases rows.len(),
{
    if rows.len() > 0 {
        run_keeps_aligned(series, rows.drop_last());
        ingest_keeps_aligned(run(series, rows.drop_last()).series, rows.last());
    }
}

/// A series that exists after the first `n` rows of a run exists at the
/// same position after all of them, with the identity it had: no later row
/// alters it, whatever identity fields that row carries.
pub proof fn run_keeps_identity(series: Seq<StockView>, rows: Seq<Row>, n: int, i: int)
    requires
        0 <= n <= rows.len(),
        0 <= i < run(series, rows.take(n)).series.len(),
    ensures
        i < run(series, rows).series.len(),
        run(series, rows).series[i].same_identity(run(series, rows.take(n)).series[i]),
    decreases rows.len(),
{
    if n == rows.len() {
        assert(rows.take(n) =~= rows);
    } else {
        assert(rows.drop_last().take(n) =~= rows.take(n));
        run_keeps_identity(series, rows.drop_last(), n, i);
        ingest_keeps_identity(run(series, rows.drop_last()).series, rows.last());
    }
}

/// After a run the store holds for each ticker the observations it held
/// before, followed by those of the rows taken in for that ticker, in the
/// order of the rows.
pub proof fn run_keeps_order(series: Seq<StockView>, rows: Seq<Row>, ticker: Seq<char>)
    requires
        all_aligned(series),
    ensures
        observations_of(run(series, rows).series, ticker) == observations_of(series, ticker)
            + taken_in(series, rows, ticker),
    decreases rows.len(),
{
    if rows.len() == 0 {
        assert(observations_of(series, ticker) + Seq::<Observation>::empty() =~= observations_of(
            series,
            ticker,
        ));
    } else {
        let before = run(series, rows.drop_last());
        let earlier = taken_in(series, rows.drop_last(), ticker);
        run_keeps_order(series, rows.drop_last(), ticker);
        run_keeps_aligned(series, rows.drop_last());
        ingest_appends_in_order(before.series, rows.last(), ticker);
        if before.fatal is None && ticker_of(rows.last()) == Some(ticker) && ingest_model(
            before.series,
            rows.last(),
        ).1 is Ok {
            let observation = observation_of(rows.last()).unwrap();
            assert((observations_of(series, ticker) + earlier).push(observation) =~= observations_of(
                series,
                ticker,
            ) + earlier.push(observation));
        }
    }
}

} // verus!
