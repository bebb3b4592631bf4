use ark_holdings_api::dataset::{Dataset, DateRange, Row, filter_date_range};
use ark_holdings_api::date::{Date, parse_date, render_date};
use ark_holdings_api::handler::{
    LoadError, QueryError, answer_query, handle_loaded, storage_path, validate_query,
};
use ark_holdings_api::project::{deserialize, project};
use ark_holdings_api::ticker::{TypeTicker, parse_ticker};

fn date(year: u16, month: u8, day: u8) -> Date {
    Date { year, month, day }
}

fn row(d: Option<Date>, company: &str) -> Row {
    Row {
        date: d,
        ticker: String::from("ARKK"),
        cusip: String::from("88160R101"),
        company: String::from(company),
        market_value: 1_000_000,
        shares: 5_000,
        share_price_bits: 200.0f64.to_bits(),
        weight_bits: 0.0525f64.to_bits(),
    }
}

#[test]
fn parse_ticker_accepts_known_names() {
    assert!(matches!(parse_ticker("ARKK"), Some(TypeTicker::ARKK)));
    assert!(matches!(parse_ticker("ARKVX"), Some(TypeTicker::ARKVX)));
    assert!(matches!(parse_ticker("EUROPE_ARKK"), Some(TypeTicker::EUROPE_ARKK)));
    assert!(matches!(parse_ticker("PMNT"), Some(TypeTicker::PMNT)));
}

#[test]
fn parse_ticker_rejects_unknown_names() {
    assert!(parse_ticker("NOTREAL").is_none());
    assert!(parse_ticker("arkk").is_none());
    assert!(parse_ticker("ARKK ").is_none());
    assert!(parse_ticker("").is_none());
}

#[test]
fn ticker_name_round_trip() {
    let tickers = [
        TypeTicker::ARKK,
        TypeTicker::ARKVX,
        TypeTicker::EUROPE_ARKI,
        TypeTicker::FOOD,
    ];
    for t in tickers {
        let name = t.name();
        assert!(matches!(parse_ticker(name.as_str()), Some(got) if got == t));
    }
}

#[test]
fn parse_date_accepts_valid_dates() {
    let d = parse_date("2023-10-01").unwrap();
    assert_eq!((d.year, d.month, d.day), (2023, 10, 1));
    assert!(parse_date("2024-02-29").is_some());
    assert!(parse_date("2000-02-29").is_some());
    assert!(parse_date("0001-01-01").is_some());
    assert!(parse_date("9999-12-31").is_some());
}

#[test]
fn parse_date_rejects_malformed_text() {
    assert!(parse_date("2023-02-29").is_none());
    assert!(parse_date("1900-02-29").is_none());
    assert!(parse_date("2023-13-01").is_none());
    assert!(parse_date("2023-00-10").is_none());
    assert!(parse_date("2023-04-31").is_none());
    assert!(parse_date("2023-10-00").is_none());
    assert!(parse_date("20231001").is_none());
    assert!(parse_date("2023-1-01").is_none());
    assert!(parse_date("2023/10/01").is_none());
    assert!(parse_date("not-a-date").is_none());
    assert!(parse_date("").is_none());
}

#[test]
fn render_date_is_iso_8601() {
    assert_eq!(render_date(&date(2023, 10, 1)).as_str(), "2023-10-01");
    assert_eq!(render_date(&date(90, 2, 28)).as_str(), "0090-02-28");
}

#[test]
fn date_render_parse_round_trip() {
    let d = date(2024, 2, 29);
    let parsed = parse_date(render_date(&d).as_str()).unwrap();
    assert_eq!(parsed, d);
}

#[test]
fn date_ordering_is_calendar_order() {
    assert!(date(2023, 9, 30).le(&date(2023, 10, 1)));
    assert!(date(2023, 10, 1).le(&date(2023, 10, 1)));
    assert!(!date(2023, 10, 2).le(&date(2023, 10, 1)));
    assert!(date(2022, 12, 31).le(&date(2023, 1, 1)));
}

#[test]
fn filter_without_bounds_is_identity() {
    let d = Dataset {
        rows: vec![
            row(Some(date(2023, 9, 1)), "a"),
            row(None, "corrupt"),
            row(Some(date(2023, 11, 20)), "c"),
        ],
    };
    let out = filter_date_range(d, &DateRange { start: None, end: None });
    assert_eq!(out.rows.len(), 3);
    assert_eq!(out.rows[0].company, "a");
    assert_eq!(out.rows[1].company, "corrupt");
    assert_eq!(out.rows[2].company, "c");
}

#[test]
fn filter_keeps_exactly_the_rows_in_bounds() {
    let d = Dataset {
        rows: vec![
            row(Some(date(2023, 9, 1)), "before"),
            row(Some(date(2023, 10, 1)), "on-start"),
            row(Some(date(2023, 10, 15)), "inside"),
            row(None, "corrupt"),
            row(Some(date(2023, 11, 1)), "on-end"),
            row(Some(date(2023, 11, 20)), "after"),
        ],
    };
    let range = DateRange { start: Some(date(2023, 10, 1)), end: Some(date(2023, 11, 1)) };
    let out = filter_date_range(d, &range);
    let names: Vec<&str> = out.rows.iter().map(|r| r.company.as_str()).collect();
    assert_eq!(names, vec!["on-start", "inside", "on-end"]);
}

#[test]
fn filter_with_single_bound_is_open_ended() {
    let rows = vec![
        row(Some(date(2023, 9, 1)), "a"),
        row(Some(date(2023, 10, 15)), "b"),
        row(Some(date(2023, 11, 20)), "c"),
    ];
    let only_start = filter_date_range(
        Dataset { rows: clone_rows(&rows) },
        &DateRange { start: Some(date(2023, 10, 1)), end: None },
    );
    let names: Vec<&str> = only_start.rows.iter().map(|r| r.company.as_str()).collect();
    assert_eq!(names, vec!["b", "c"]);
    let only_end = filter_date_range(
        Dataset { rows },
        &DateRange { start: None, end: Some(date(2023, 10, 1)) },
    );
    let names: Vec<&str> = only_end.rows.iter().map(|r| r.company.as_str()).collect();
    assert_eq!(names, vec!["a"]);
}

fn clone_rows(rows: &[Row]) -> Vec<Row> {
    rows.iter()
        .map(|r| Row {
            date: r.date,
            ticker: r.ticker.clone(),
            cusip: r.cusip.clone(),
            company: r.company.clone(),
            market_value: r.market_value,
            shares: r.shares,
            share_price_bits: r.share_price_bits,
            weight_bits: r.weight_bits,
        })
        .collect()
}

#[test]
fn filter_preserves_input_order() {
    let d = Dataset {
        rows: vec![
            row(Some(date(2023, 10, 20)), "later"),
            row(Some(date(2023, 10, 5)), "earlier"),
            row(Some(date(2023, 10, 12)), "middle"),
        ],
    };
    let range = DateRange { start: Some(date(2023, 10, 1)), end: Some(date(2023, 10, 31)) };
    let out = filter_date_range(d, &range);
    let names: Vec<&str> = out.rows.iter().map(|r| r.company.as_str()).collect();
    assert_eq!(names, vec!["later", "earlier", "middle"]);
}

#[test]
fn projection_round_trip_is_lossless() {
    let d = Dataset {
        rows: vec![
            row(Some(date(2023, 9, 1)), "a"),
            row(None, "corrupt"),
            row(Some(date(2024, 2, 29)), "b"),
        ],
    };
    let p1 = project(d);
    assert_eq!(p1[0].date.as_deref(), Some("2023-09-01"));
    assert_eq!(p1[1].date, None);
    let snapshot: Vec<(Option<String>, String, i64, u64)> = p1
        .iter()
        .map(|r| (r.date.clone(), r.company.clone(), r.market_value, r.share_price_bits))
        .collect();
    let d2 = deserialize(p1).unwrap();
    assert_eq!(d2.rows.len(), 3);
    assert_eq!(d2.rows[0].date, Some(date(2023, 9, 1)));
    assert_eq!(d2.rows[1].date, None);
    let p2 = project(d2);
    let snapshot2: Vec<(Option<String>, String, i64, u64)> = p2
        .iter()
        .map(|r| (r.date.clone(), r.company.clone(), r.market_value, r.share_price_bits))
        .collect();
    assert_eq!(snapshot2, snapshot);
}

#[test]
fn deserialize_rejects_bad_date_text() {
    let d = Dataset { rows: vec![row(Some(date(2023, 9, 1)), "a")] };
    let mut p = project(d);
    p[0].date = Some(String::from("2023-02-30"));
    assert!(deserialize(p).is_none());
}

#[test]
fn validate_rejects_unknown_ticker_as_client_error() {
    let r = validate_query("NOTREAL", None, None);
    let e = r.err().unwrap();
    assert_eq!(e, QueryError::UnknownTicker);
    assert!(e.is_client_error());
    assert_eq!(e.status_code(), 400);
}

#[test]
fn validate_checks_ticker_before_dates() {
    let r = validate_query("NOTREAL", Some("bogus"), None);
    assert_eq!(r.err().unwrap(), QueryError::UnknownTicker);
}

#[test]
fn validate_rejects_malformed_dates_as_client_error() {
    let r = validate_query("ARKK", Some("2023-02-30"), None);
    let e = r.err().unwrap();
    assert_eq!(e, QueryError::MalformedDate);
    assert!(e.is_client_error());
    assert_eq!(e.status_code(), 400);
    assert!(validate_query("ARKK", None, Some("eleven")).is_err());
}

#[test]
fn validate_accepts_known_ticker_and_dates() {
    let plan = validate_query("ARKK", Some("2023-10-01"), Some("2023-11-01")).unwrap();
    assert_eq!(plan.ticker, TypeTicker::ARKK);
    assert_eq!(plan.range.start, Some(date(2023, 10, 1)));
    assert_eq!(plan.range.end, Some(date(2023, 11, 1)));
    let open = validate_query("PRNT", None, None).unwrap();
    assert_eq!(open.ticker, TypeTicker::PRNT);
    assert_eq!(open.range.start, None);
    assert_eq!(open.range.end, None);
}

#[test]
fn storage_path_is_derived_from_canonical_name() {
    assert_eq!(storage_path(&TypeTicker::ARKK).as_str(), "data/parquet/ARKK.parquet");
    assert_eq!(
        storage_path(&TypeTicker::EUROPE_ARKG).as_str(),
        "data/parquet/EUROPE_ARKG.parquet"
    );
}

#[test]
fn seeded_arkk_query_returns_exactly_the_row_in_range() {
    let plan = validate_query("ARKK", Some("2023-10-01"), Some("2023-11-01")).unwrap();
    let seeded = Dataset {
        rows: vec![
            row(Some(date(2023, 9, 1)), "first"),
            row(Some(date(2023, 10, 15)), "second"),
            row(Some(date(2023, 11, 20)), "third"),
        ],
    };
    let out = answer_query(seeded, &plan);
    assert_eq!(out.len(), 1);
    assert_eq!(out[0].date.as_deref(), Some("2023-10-15"));
    assert_eq!(out[0].company, "second");
}

#[test]
fn load_faults_surface_as_server_errors() {
    let plan = validate_query("ARKK", None, None).unwrap();
    let not_found = handle_loaded(Err(LoadError::NotFound), &plan).err().unwrap();
    assert_eq!(not_found, QueryError::NotFoundDataset);
    assert!(!not_found.is_client_error());
    assert_eq!(not_found.status_code(), 500);
    let io = handle_loaded(Err(LoadError::Io), &plan).err().unwrap();
    assert_eq!(io, QueryError::Io);
    assert_eq!(io.status_code(), 500);
}

#[test]
fn handle_loaded_answers_on_success() {
    let plan = validate_query("ARKK", Some("2023-10-01"), Some("2023-11-01")).unwrap();
    let seeded = Dataset {
        rows: vec![
            row(Some(date(2023, 9, 1)), "first"),
            row(Some(date(2023, 10, 15)), "second"),
        ],
    };
    let out = handle_loaded(Ok(seeded), &plan).unwrap();
    assert_eq!(out.len(), 1);
    assert_eq!(out[0].company, "second");
}

#[test]
fn error_messages_leak_no_internal_detail() {
    assert_eq!(QueryError::UnknownTicker.message().as_str(), "unknown ticker");
    assert_eq!(
        QueryError::MalformedDate.message().as_str(),
        "malformed date: expected YYYY-MM-DD"
    );
    assert_eq!(QueryError::RateLimited.message().as_str(), "rate limit exceeded");
    assert_eq!(QueryError::NotFoundDataset.message().as_str(), "internal server error");
    assert_eq!(QueryError::Io.message().as_str(), "internal server error");
    assert_eq!(QueryError::Serialization.message().as_str(), "internal server error");
    assert_eq!(QueryError::RateLimited.status_code(), 429);
}
