use chrono::{DateTime, NaiveDateTime};
use stock_series::{
    stock_query_col_map, Float32, IngestError, Observation, Row, RunReport, SeriesHandle, Stock,
    StockData, StockQueryMapping,
};

fn num(value: f32) -> Float32 {
    Float32::from_bits(value.to_bits())
}

fn utc(secs: i64) -> NaiveDateTime {
    DateTime::from_timestamp(secs, 0).unwrap().naive_utc()
}

fn text(value: &str) -> Option<Vec<u8>> {
    Some(value.as_bytes().to_vec())
}

fn row(ticker: &str, secs: i64, low: f32, high: f32, open: f32, close: f32, volume: f32) -> Row {
    Row {
        as_at_date: Some(secs),
        security: text(ticker),
        currency: text("USD"),
        low: Some(num(low)),
        high: Some(num(high)),
        open: Some(num(open)),
        close: Some(num(close)),
        volume: Some(num(volume)),
        instrument_type: text("EQUITY"),
        exchange_name: text("NasdaqGS"),
        time_zone: text("America/New_York"),
        gmt_offset: Some(-18000),
    }
}

fn observation(secs: i64, low: f32, high: f32, open: f32, close: f32, volume: f32) -> Observation {
    Observation {
        timestamp: utc(secs),
        low: num(low),
        high: num(high),
        open: num(open),
        close: num(close),
        volume: num(volume),
    }
}

fn observations(stock: &Stock) -> Vec<Observation> {
    let mut all = Vec::new();
    for i in 0..stock.len() {
        all.push(Observation {
            timestamp: stock.timestamps()[i],
            low: stock.low()[i],
            high: stock.high()[i],
            open: stock.open()[i],
            close: stock.close()[i],
            volume: stock.volume()[i],
        });
    }
    all
}

fn assert_whole(store: &StockData) {
    for name in store.tickers() {
        let stock = store.get(&name).unwrap();
        let n = stock.timestamps().len();
        assert_eq!(stock.len(), n);
        assert_eq!(stock.low().len(), n);
        assert_eq!(stock.high().len(), n);
        assert_eq!(stock.open().len(), n);
        assert_eq!(stock.close().len(), n);
        assert_eq!(stock.volume().len(), n);
    }
}

const T1: i64 = 1_700_000_000;
const T2: i64 = 1_700_000_060;
const T3: i64 = 1_700_000_120;

#[test]
fn three_rows_make_two_series() {
    let rows = vec![
        row("AAPL", T1, 10.0, 12.0, 11.0, 11.5, 1000.0),
        row("MSFT", T2, 20.0, 21.0, 20.0, 20.5, 500.0),
        row("AAPL", T3, 11.0, 13.0, 11.0, 12.0, 1200.0),
    ];
    let mut store = StockData::new();
    let report = store.get_stocks(&rows);
    assert_eq!(report, RunReport { ingested: 3, malformed: 0, unconverted: 0, fatal: None });
    assert_eq!(store.len(), 2);
    assert_eq!(store.tickers(), vec!["AAPL".to_string(), "MSFT".to_string()]);
    let aapl = store.get("AAPL").unwrap();
    assert_eq!(
        observations(aapl),
        vec![
            observation(T1, 10.0, 12.0, 11.0, 11.5, 1000.0),
            observation(T3, 11.0, 13.0, 11.0, 12.0, 1200.0),
        ]
    );
    let msft = store.get("MSFT").unwrap();
    assert_eq!(observations(msft), vec![observation(T2, 20.0, 21.0, 20.0, 20.5, 500.0)]);
    assert_whole(&store);
}

#[test]
fn one_row_makes_a_series_of_one_observation() {
    let mut store = StockData::new();
    assert_eq!(store.ingest(&row("AAPL", T1, 10.0, 12.0, 11.0, 11.5, 1000.0)), Ok(()));
    assert_eq!(store.len(), 1);
    let aapl = store.get("AAPL").unwrap();
    assert_eq!(aapl.len(), 1);
    assert_eq!(aapl.ticker(), "AAPL");
    assert_eq!(aapl.currency(), "USD");
    assert_eq!(aapl.instrument_type(), "EQUITY");
    assert_eq!(aapl.exchange_name(), "NasdaqGS");
    assert_eq!(aapl.time_zone(), "America/New_York");
    assert_eq!(aapl.gmt_offset(), -18000);
    assert_eq!(aapl.timestamps(), &vec![utc(T1)]);
    assert_eq!(aapl.low(), &vec![num(10.0)]);
    assert_eq!(aapl.high(), &vec![num(12.0)]);
    assert_eq!(aapl.open(), &vec![num(11.0)]);
    assert_eq!(aapl.close(), &vec![num(11.5)]);
    assert_eq!(aapl.volume(), &vec![num(1000.0)]);
}

#[test]
fn timestamp_is_converted_by_chrono() {
    let mut store = StockData::new();
    assert_eq!(store.ingest(&row("AAPL", 1431648000, 1.0, 2.0, 1.5, 1.75, 10.0)), Ok(()));
    let stamp = store.get("AAPL").unwrap().timestamps()[0];
    assert_eq!(stamp.and_utc().to_string(), "2015-05-15 00:00:00 UTC");
    assert_eq!(stamp.and_utc().timestamp(), 1431648000);
}

#[test]
fn timestamp_out_of_range_is_a_conversion_failure() {
    let mut store = StockData::new();
    assert_eq!(
        StockData::get_stock_date(
            &row("AAPL", i64::MAX, 1.0, 2.0, 1.5, 1.75, 10.0),
            StockQueryMapping::AsAtDate
        ),
        Err(IngestError::FieldConversion(StockQueryMapping::AsAtDate))
    );
    assert_eq!(
        store.ingest(&row("AAPL", i64::MIN, 1.0, 2.0, 1.5, 1.75, 10.0)),
        Err(IngestError::FieldConversion(StockQueryMapping::AsAtDate))
    );
    assert_eq!(store.len(), 1);
    assert_eq!(store.get("AAPL").unwrap().len(), 0);
    assert_eq!(store.ingest(&row("AAPL", T1, 1.0, 2.0, 1.5, 1.75, 10.0)), Ok(()));
    assert_eq!(store.len(), 1);
    assert_eq!(store.get("AAPL").unwrap().timestamps(), &vec![utc(T1)]);
}

#[test]
fn every_ticker_has_one_series() {
    let names = ["AAPL", "MSFT", "AAPL", "GOOG", "MSFT", "AAPL", "GOOG", "AAPL"];
    let mut store = StockData::new();
    for (i, name) in names.iter().enumerate() {
        assert_eq!(store.ingest(&row(name, T1 + i as i64, 1.0, 2.0, 1.5, 1.75, 10.0)), Ok(()));
        assert_whole(&store);
    }
    assert_eq!(store.len(), 3);
    assert_eq!(
        store.tickers(),
        vec!["AAPL".to_string(), "MSFT".to_string(), "GOOG".to_string()]
    );
    assert_eq!(store.count_matching("AAPL"), 1);
    assert_eq!(store.count_matching("MSFT"), 1);
    assert_eq!(store.count_matching("GOOG"), 1);
    assert_eq!(store.count_matching("TSLA"), 0);
    assert_eq!(store.get("AAPL").unwrap().len(), 4);
    assert_eq!(store.get("MSFT").unwrap().len(), 2);
    assert_eq!(store.get("GOOG").unwrap().len(), 2);
}

#[test]
fn observations_keep_the_order_of_arrival() {
    let mut store = StockData::new();
    let stamps = [T3, T1, T2, T1];
    for (i, secs) in stamps.iter().enumerate() {
        let price = i as f32;
        assert_eq!(store.ingest(&row("AAPL", *secs, price, price, price, price, price)), Ok(()));
        assert_eq!(store.ingest(&row("MSFT", T2, 0.5, 0.5, 0.5, 0.5, 0.5)), Ok(()));
    }
    let aapl = store.get("AAPL").unwrap();
    assert_eq!(aapl.timestamps(), &vec![utc(T3), utc(T1), utc(T2), utc(T1)]);
    assert_eq!(aapl.low(), &vec![num(0.0), num(1.0), num(2.0), num(3.0)]);
    assert_eq!(aapl.volume(), &vec![num(0.0), num(1.0), num(2.0), num(3.0)]);
}

#[test]
fn identity_is_that_of_the_first_row() {
    let mut store = StockData::new();
    assert_eq!(store.ingest(&row("AAPL", T1, 10.0, 12.0, 11.0, 11.5, 1000.0)), Ok(()));
    let mut later = row("AAPL", T2, 11.0, 13.0, 11.0, 12.0, 1200.0);
    later.currency = text("EUR");
    later.instrument_type = text("ETF");
    later.exchange_name = text("XETRA");
    later.time_zone = text("Europe/Berlin");
    later.gmt_offset = Some(3600);
    assert_eq!(store.ingest(&later), Ok(()));
    let mut bare = row("AAPL", T3, 12.0, 14.0, 12.0, 13.0, 1300.0);
    bare.currency = None;
    bare.instrument_type = None;
    bare.exchange_name = None;
    bare.time_zone = None;
    bare.gmt_offset = None;
    assert_eq!(store.ingest(&bare), Ok(()));
    assert_eq!(store.len(), 1);
    let aapl = store.get("AAPL").unwrap();
    assert_eq!(aapl.currency(), "USD");
    assert_eq!(aapl.instrument_type(), "EQUITY");
    assert_eq!(aapl.exchange_name(), "NasdaqGS");
    assert_eq!(aapl.time_zone(), "America/New_York");
    assert_eq!(aapl.gmt_offset(), -18000);
    assert_eq!(aapl.len(), 3);
}

#[test]
fn row_with_missing_price_is_skipped() {
    let mut store = StockData::new();
    assert_eq!(store.ingest(&row("AAPL", T1, 10.0, 12.0, 11.0, 11.5, 1000.0)), Ok(()));
    assert_eq!(store.ingest(&row("MSFT", T1, 20.0, 21.0, 20.0, 20.5, 500.0)), Ok(()));
    let aapl_before = store.get("AAPL").unwrap().clone();
    let msft_before = store.get("MSFT").unwrap().clone();
    let mut bad = row("MSFT", T2, 20.0, 21.0, 20.0, 20.5, 500.0);
    bad.close = None;
    assert_eq!(
        store.ingest(&bad),
        Err(IngestError::FieldConversion(StockQueryMapping::Close))
    );
    assert_eq!(store.len(), 2);
    assert_eq!(store.get("AAPL").unwrap(), &aapl_before);
    assert_eq!(store.get("MSFT").unwrap(), &msft_before);
    assert_eq!(store.ingest(&row("MSFT", T3, 21.0, 22.0, 21.0, 21.5, 600.0)), Ok(()));
    assert_eq!(store.get("MSFT").unwrap().len(), 2);
}

#[test]
fn first_failing_field_is_named() {
    let mut bad = row("AAPL", T1, 10.0, 12.0, 11.0, 11.5, 1000.0);
    bad.volume = None;
    bad.high = None;
    bad.as_at_date = None;
    let mut stock = Stock::new(
        "AAPL".to_string(),
        "USD".to_string(),
        "EQUITY".to_string(),
        "NasdaqGS".to_string(),
        "America/New_York".to_string(),
        -18000,
    );
    assert_eq!(
        StockData::update_stock(&mut stock, &bad),
        Err(IngestError::FieldConversion(StockQueryMapping::High))
    );
    assert_eq!(stock.len(), 0);
    bad.high = Some(num(12.0));
    assert_eq!(
        StockData::update_stock(&mut stock, &bad),
        Err(IngestError::FieldConversion(StockQueryMapping::Volume))
    );
    bad.volume = Some(num(1000.0));
    assert_eq!(
        StockData::update_stock(&mut stock, &bad),
        Err(IngestError::FieldConversion(StockQueryMapping::AsAtDate))
    );
    bad.as_at_date = Some(T1);
    assert_eq!(StockData::update_stock(&mut stock, &bad), Ok(()));
    assert_eq!(observations(&stock), vec![observation(T1, 10.0, 12.0, 11.0, 11.5, 1000.0)]);
}

#[test]
fn new_ticker_with_bad_identity_makes_no_series() {
    let mut store = StockData::new();
    let mut bad = row("AAPL", T1, 10.0, 12.0, 11.0, 11.5, 1000.0);
    bad.gmt_offset = None;
    bad.exchange_name = None;
    assert_eq!(
        store.ingest(&bad),
        Err(IngestError::FieldConversion(StockQueryMapping::ExchangeName))
    );
    assert_eq!(store.len(), 0);
    bad.exchange_name = text("NasdaqGS");
    assert_eq!(
        store.ingest(&bad),
        Err(IngestError::FieldConversion(StockQueryMapping::GmtOffSet))
    );
    assert_eq!(store.len(), 0);
    assert!(!store.has("AAPL"));
    bad.currency = Some(vec![0xff, 0xfe]);
    assert_eq!(
        store.ingest(&bad),
        Err(IngestError::FieldConversion(StockQueryMapping::Currency))
    );
}

#[test]
fn new_ticker_with_bad_observation_leaves_an_empty_series() {
    let mut store = StockData::new();
    assert_eq!(store.ingest(&row("MSFT", T1, 20.0, 21.0, 20.0, 20.5, 500.0)), Ok(()));
    let msft_before = store.get("MSFT").unwrap().clone();
    let mut bad = row("AAPL", T1, 10.0, 12.0, 11.0, 11.5, 1000.0);
    bad.low = None;
    assert_eq!(store.ingest(&bad), Err(IngestError::FieldConversion(StockQueryMapping::Low)));
    assert_eq!(store.len(), 2);
    assert_eq!(store.get("MSFT").unwrap(), &msft_before);
    let aapl = store.get("AAPL").unwrap();
    assert_eq!(aapl.len(), 0);
    assert_eq!(aapl.currency(), "USD");
    assert_whole(&store);
}

#[test]
fn row_without_ticker_is_malformed() {
    let mut store = StockData::new();
    let mut absent = row("AAPL", T1, 10.0, 12.0, 11.0, 11.5, 1000.0);
    absent.security = None;
    assert_eq!(store.ingest(&absent), Err(IngestError::MalformedRow));
    let empty = row("", T1, 10.0, 12.0, 11.0, 11.5, 1000.0);
    assert_eq!(store.ingest(&empty), Err(IngestError::MalformedRow));
    let mut garbled = row("AAPL", T1, 10.0, 12.0, 11.0, 11.5, 1000.0);
    garbled.security = Some(vec![0x41, 0xc3, 0x28]);
    assert_eq!(store.ingest(&garbled), Err(IngestError::MalformedRow));
    assert_eq!(store.len(), 0);
}

#[test]
fn text_is_decoded_as_utf8() {
    let mut store = StockData::new();
    let mut named = row("AAPL", T1, 10.0, 12.0, 11.0, 11.5, 1000.0);
    named.security = Some(vec![0x4e, 0x45, 0x53, 0x54, 0xc3, 0x89]);
    named.exchange_name = Some(vec![0x5a, 0xc3, 0xbc, 0x72, 0x69, 0x63, 0x68]);
    assert_eq!(store.ingest(&named), Ok(()));
    let stock = store.get("NEST\u{c9}").unwrap();
    assert_eq!(stock.ticker().chars().count(), 5);
    assert_eq!(stock.exchange_name(), "Z\u{fc}rich");
    assert_eq!(
        StockData::get_stock_attr(&named, StockQueryMapping::ExchangeName),
        Ok("Z\u{fc}rich".to_string())
    );
}

#[test]
fn readers_refuse_fields_of_another_type() {
    let good = row("AAPL", T1, 10.0, 12.0, 11.0, 11.5, 1000.0);
    assert_eq!(
        StockData::get_stock_attr(&good, StockQueryMapping::Low),
        Err(IngestError::FieldConversion(StockQueryMapping::Low))
    );
    assert_eq!(
        StockData::get_stock_int(&good, StockQueryMapping::Currency),
        Err(IngestError::FieldConversion(StockQueryMapping::Currency))
    );
    assert_eq!(
        StockData::get_stock_float(&good, StockQueryMapping::GmtOffSet),
        Err(IngestError::FieldConversion(StockQueryMapping::GmtOffSet))
    );
    assert_eq!(
        StockData::get_stock_date(&good, StockQueryMapping::Security),
        Err(IngestError::FieldConversion(StockQueryMapping::Security))
    );
    assert_eq!(StockData::get_stock_attr(&good, StockQueryMapping::Security), Ok("AAPL".to_string()));
    assert_eq!(StockData::get_stock_int(&good, StockQueryMapping::GmtOffSet), Ok(-18000));
    assert_eq!(StockData::get_stock_float(&good, StockQueryMapping::High), Ok(num(12.0)));
    assert_eq!(StockData::get_stock_float(&good, StockQueryMapping::Low), Ok(num(10.0)));
    assert_eq!(StockData::get_stock_float(&good, StockQueryMapping::Open), Ok(num(11.0)));
    assert_eq!(StockData::get_stock_float(&good, StockQueryMapping::Close), Ok(num(11.5)));
    assert_eq!(StockData::get_stock_float(&good, StockQueryMapping::Volume), Ok(num(1000.0)));
    assert_eq!(StockData::get_stock_date(&good, StockQueryMapping::AsAtDate), Ok(utc(T1)));
}

#[test]
fn two_series_for_one_ticker_end_the_run() {
    let mut store = StockData::new();
    assert_eq!(store.ingest(&row("AAPL", T1, 10.0, 12.0, 11.0, 11.5, 1000.0)), Ok(()));
    assert_eq!(store.ingest(&row("MSFT", T1, 20.0, 21.0, 20.0, 20.5, 500.0)), Ok(()));
    let twin = Stock::new(
        "AAPL".to_string(),
        "EUR".to_string(),
        "EQUITY".to_string(),
        "XETRA".to_string(),
        "Europe/Berlin".to_string(),
        3600,
    );
    assert_eq!(store.insert_unchecked(twin), SeriesHandle { position: 2 });
    assert_eq!(store.count_matching("AAPL"), 2);
    assert_eq!(store.count_matching("MSFT"), 1);
    assert_eq!(
        store.check_if_written_stock(&"AAPL".to_string()),
        Err(IngestError::MultipleSeries)
    );
    assert_eq!(
        store.ingest(&row("AAPL", T2, 11.0, 13.0, 11.0, 12.0, 1200.0)),
        Err(IngestError::MultipleSeries)
    );
    assert_eq!(store.len(), 3);
    assert_eq!(store.series(SeriesHandle { position: 0 }).unwrap().len(), 1);
    assert_eq!(store.series(SeriesHandle { position: 2 }).unwrap().len(), 0);

    let rows = vec![
        row("MSFT", T2, 20.0, 21.0, 20.0, 20.5, 500.0),
        row("AAPL", T2, 11.0, 13.0, 11.0, 12.0, 1200.0),
        row("MSFT", T3, 20.0, 21.0, 20.0, 20.5, 500.0),
        row("GOOG", T3, 30.0, 31.0, 30.0, 30.5, 700.0),
    ];
    let report = store.get_stocks(&rows);
    assert_eq!(
        report,
        RunReport {
            ingested: 1,
            malformed: 0,
            unconverted: 0,
            fatal: Some(IngestError::MultipleSeries)
        }
    );
    assert_eq!(store.len(), 3);
    assert_eq!(store.get("MSFT").unwrap().len(), 2);
    assert!(!store.has("GOOG"));
}

#[test]
fn run_counts_what_it_drops() {
    let mut no_ticker = row("AAPL", T1, 10.0, 12.0, 11.0, 11.5, 1000.0);
    no_ticker.security = None;
    let mut no_volume = row("AAPL", T2, 10.0, 12.0, 11.0, 11.5, 1000.0);
    no_volume.volume = None;
    let mut no_zone = row("GOOG", T2, 10.0, 12.0, 11.0, 11.5, 1000.0);
    no_zone.time_zone = None;
    let rows = vec![
        row("AAPL", T1, 10.0, 12.0, 11.0, 11.5, 1000.0),
        no_ticker,
        no_volume,
        row("MSFT", T2, 20.0, 21.0, 20.0, 20.5, 500.0),
        no_zone,
        row("", T3, 20.0, 21.0, 20.0, 20.5, 500.0),
        row("AAPL", T3, 11.0, 13.0, 11.0, 12.0, 1200.0),
    ];
    let mut store = StockData::new();
    let report = store.get_stocks(&rows);
    assert_eq!(report, RunReport { ingested: 3, malformed: 2, unconverted: 2, fatal: None });
    assert_eq!(store.tickers(), vec!["AAPL".to_string(), "MSFT".to_string()]);
    assert_eq!(store.get("AAPL").unwrap().timestamps(), &vec![utc(T1), utc(T3)]);
    let none: Vec<Row> = Vec::new();
    assert_eq!(
        store.get_stocks(&none),
        RunReport { ingested: 0, malformed: 0, unconverted: 0, fatal: None }
    );
    assert_eq!(store.len(), 2);
}

#[test]
fn store_operations() {
    let mut store = StockData::new();
    assert_eq!(store.len(), 0);
    assert!(!store.has("AAPL"));
    assert_eq!(store.count_matching("AAPL"), 0);
    assert_eq!(store.check_if_written_stock(&"AAPL".to_string()), Ok(false));
    assert_eq!(store.get_mut("AAPL"), Err(IngestError::NotFound));
    assert!(store.get("AAPL").is_none());
    let made = store.create(
        "AAPL".to_string(),
        "USD".to_string(),
        "EQUITY".to_string(),
        "NasdaqGS".to_string(),
        "America/New_York".to_string(),
        -18000,
    );
    assert_eq!(made, Ok(SeriesHandle { position: 0 }));
    assert!(store.has("AAPL"));
    assert!(!store.has("AAP"));
    assert_eq!(store.count_matching("AAPL"), 1);
    assert_eq!(store.check_if_written_stock(&"AAPL".to_string()), Ok(true));
    let again = store.create(
        "AAPL".to_string(),
        "EUR".to_string(),
        "ETF".to_string(),
        "XETRA".to_string(),
        "Europe/Berlin".to_string(),
        3600,
    );
    assert_eq!(again, Err(IngestError::DuplicateSeries));
    assert_eq!(store.len(), 1);
    assert_eq!(store.get("AAPL").unwrap().currency(), "USD");
    let other = store.create(
        "MSFT".to_string(),
        "USD".to_string(),
        "EQUITY".to_string(),
        "NasdaqGS".to_string(),
        "America/New_York".to_string(),
        -18000,
    );
    assert_eq!(other, Ok(SeriesHandle { position: 1 }));
    let handle = store.get_mut("AAPL").unwrap();
    assert_eq!(handle, SeriesHandle { position: 0 });
    assert_eq!(store.append(handle, observation(T1, 10.0, 12.0, 11.0, 11.5, 1000.0)), Ok(()));
    assert_eq!(store.append(handle, observation(T2, 11.0, 13.0, 11.0, 12.0, 1200.0)), Ok(()));
    assert_eq!(
        store.append(SeriesHandle { position: 2 }, observation(T2, 1.0, 1.0, 1.0, 1.0, 1.0)),
        Err(IngestError::NotFound)
    );
    assert!(store.series(SeriesHandle { position: 2 }).is_none());
    assert_eq!(
        observations(store.series(handle).unwrap()),
        vec![
            observation(T1, 10.0, 12.0, 11.0, 11.5, 1000.0),
            observation(T2, 11.0, 13.0, 11.0, 12.0, 1200.0),
        ]
    );
    assert_eq!(store.get("MSFT").unwrap().len(), 0);
    assert_eq!(
        store.retrieve_update_stock(
            &row("GOOG", T1, 1.0, 1.0, 1.0, 1.0, 1.0),
            &"GOOG".to_string()
        ),
        Err(IngestError::NotFound)
    );
    assert_eq!(
        store.retrieve_update_stock(
            &row("MSFT", T1, 1.0, 2.0, 3.0, 4.0, 5.0),
            &"MSFT".to_string()
        ),
        Ok(())
    );
    assert_eq!(
        observations(store.get("MSFT").unwrap()),
        vec![observation(T1, 1.0, 2.0, 3.0, 4.0, 5.0)]
    );
    assert_whole(&store);
}

#[test]
fn stock_new_and_write_line() {
    let mut stock = Stock::new(
        "AAPL".to_string(),
        "USD".to_string(),
        "EQUITY".to_string(),
        "NasdaqGS".to_string(),
        "America/New_York".to_string(),
        -18000,
    );
    assert_eq!(stock.len(), 0);
    assert!(stock.timestamps().is_empty());
    assert!(stock.low().is_empty());
    stock.write_line(utc(T1), num(10.0), num(12.0), num(11.0), num(11.5), num(1000.0));
    stock.write_line(utc(T2), num(11.0), num(13.0), num(11.0), num(12.0), num(1200.0));
    assert_eq!(stock.len(), 2);
    assert_eq!(stock.timestamps(), &vec![utc(T1), utc(T2)]);
    assert_eq!(stock.low(), &vec![num(10.0), num(11.0)]);
    assert_eq!(stock.high(), &vec![num(12.0), num(13.0)]);
    assert_eq!(stock.open(), &vec![num(11.0), num(11.0)]);
    assert_eq!(stock.close(), &vec![num(11.5), num(12.0)]);
    assert_eq!(stock.volume(), &vec![num(1000.0), num(1200.0)]);
    assert_eq!(stock.ticker(), "AAPL");
    assert_eq!(stock.gmt_offset(), -18000);
}

#[test]
fn initialise_stock_reads_the_identity() {
    let mut source = row("ignored", T1, 10.0, 12.0, 11.0, 11.5, 1000.0);
    source.currency = text("GBP");
    source.instrument_type = text("ETF");
    source.exchange_name = text("LSE");
    source.time_zone = text("Europe/London");
    source.gmt_offset = Some(0);
    let stock = StockData::initialise_stock(&source, &"VOD".to_string()).unwrap();
    let expected = Stock::new(
        "VOD".to_string(),
        "GBP".to_string(),
        "ETF".to_string(),
        "LSE".to_string(),
        "Europe/London".to_string(),
        0,
    );
    assert_eq!(stock, expected);
    source.instrument_type = None;
    assert_eq!(
        StockData::initialise_stock(&source, &"VOD".to_string()),
        Err(IngestError::FieldConversion(StockQueryMapping::InstrumentType))
    );
}

#[test]
fn columns_follow_the_query() {
    let fields = [
        StockQueryMapping::AsAtDate,
        StockQueryMapping::Security,
        StockQueryMapping::Currency,
        StockQueryMapping::Low,
        StockQueryMapping::High,
        StockQueryMapping::Open,
        StockQueryMapping::Close,
        StockQueryMapping::Volume,
        StockQueryMapping::InstrumentType,
        StockQueryMapping::ExchangeName,
        StockQueryMapping::TimeZone,
        StockQueryMapping::GmtOffSet,
    ];
    for (i, field) in fields.iter().enumerate() {
        assert_eq!(stock_query_col_map(*field), i as u16 + 1);
    }
}

#[test]
fn errors_that_end_a_run() {
    assert!(!IngestError::MalformedRow.is_fatal());
    assert!(!IngestError::FieldConversion(StockQueryMapping::Low).is_fatal());
    assert!(IngestError::DuplicateSeries.is_fatal());
    assert!(IngestError::MultipleSeries.is_fatal());
    assert!(IngestError::NotFound.is_fatal());
}

#[test]
fn floats_are_kept_bit_for_bit() {
    for value in [0.0f32, -0.0, 1.5, -1234.5678, f32::MAX, f32::MIN_POSITIVE, f32::INFINITY] {
        assert_eq!(f32::from_bits(num(value).to_bits()), value);
    }
    assert!(f32::from_bits(num(f32::NAN).to_bits()).is_nan());
    assert_ne!(num(0.0), num(-0.0));
    assert_eq!(Float32::from_bits(0x3fc0_0000).to_bits(), 1.5f32.to_bits());
}
