use stock_stats::config::{Config, ConfigError};
use stock_stats::dispatch::{
    process_outcome, Dispatcher, Emission, FetchOutcome, PeriodRequest, Step,
};
use stock_stats::quotes::Quote;

fn config(symbols: &[&str]) -> Config {
    Config {
        symbols: symbols.iter().map(|s| s.to_string()).collect(),
        period_start: 1_600_000_000,
        tick_seconds: 10,
    }
}

fn request(symbol: &str, end: i64) -> PeriodRequest {
    PeriodRequest { symbol: symbol.to_string(), start: 1_600_000_000, end }
}

fn quotes() -> FetchOutcome {
    FetchOutcome::Quotes(vec![
        Quote { timestamp: 1_609_462_800, close: 1_100_000 },
        Quote { timestamp: 1_609_459_200, close: 1_000_000 },
    ])
}

fn failure() -> FetchOutcome {
    FetchOutcome::Failed(String::from("connection refused"))
}

const LINE_END: &str = "$110.00,10.00%,$100.00,$110.00,$0.00";

#[test]
fn a_dispatcher_needs_a_symbol() {
    assert!(matches!(Dispatcher::new(config(&[])), Err(ConfigError::NoSymbols)));
    assert!(Dispatcher::new(config(&["AAPL"])).unwrap().is_idle());
}

#[test]
fn a_tick_asks_for_every_symbol_in_turn() {
    let mut d = Dispatcher::new(config(&["AAPL", "MSFT", "UBER"])).unwrap();
    assert_eq!(d.on_tick(1_700_000_000), Some(request("AAPL", 1_700_000_000)));
    assert!(!d.is_idle());
    let step = d.on_outcome(quotes());
    assert_eq!(step.request, Some(request("MSFT", 1_700_000_000)));
    let step = d.on_outcome(quotes());
    assert_eq!(step.request, Some(request("UBER", 1_700_000_000)));
    assert!(!d.is_idle());
    let step = d.on_outcome(quotes());
    assert_eq!(step.request, None);
    assert!(d.is_idle());
}

#[test]
fn a_failed_fetch_does_not_stop_the_other_symbols() {
    let mut d = Dispatcher::new(config(&["AAPL", "NOPE", "GOOG"])).unwrap();
    assert_eq!(d.on_tick(50), Some(request("AAPL", 50)));
    let first = d.on_outcome(quotes());
    assert_eq!(
        first.emission,
        Emission::Line(format!("2021-01-01T01:00:00+00:00,AAPL,{}", LINE_END))
    );
    assert_eq!(first.request, Some(request("NOPE", 50)));
    let second = d.on_outcome(failure());
    assert_eq!(
        second.emission,
        Emission::Diagnostic(String::from(
            "Ignoring API error for symbol 'NOPE': connection refused"
        ))
    );
    assert_eq!(second.request, Some(request("GOOG", 50)));
    let third = d.on_outcome(quotes());
    assert_eq!(
        third.emission,
        Emission::Line(format!("2021-01-01T01:00:00+00:00,GOOG,{}", LINE_END))
    );
    assert_eq!(third.request, None);
    assert!(d.is_idle());
}

#[test]
fn every_tick_starts_at_the_same_time_and_ends_now() {
    let mut d = Dispatcher::new(config(&["AAPL"])).unwrap();
    for now in [1_700_000_000, 1_700_000_010, 1_700_000_020] {
        assert_eq!(d.on_tick(now), Some(request("AAPL", now)));
        assert_eq!(
            d.on_outcome(failure()),
            Step {
                emission: Emission::Diagnostic(String::from(
                    "Ignoring API error for symbol 'AAPL': connection refused"
                )),
                request: None,
            }
        );
        assert!(d.is_idle());
    }
}

#[test]
fn a_tick_during_a_tick_asks_for_nothing() {
    let mut d = Dispatcher::new(config(&["AAPL", "MSFT"])).unwrap();
    assert_eq!(d.on_tick(1), Some(request("AAPL", 1)));
    assert_eq!(d.on_tick(2), None);
    assert_eq!(d.on_outcome(quotes()).request, Some(request("MSFT", 1)));
    assert_eq!(d.on_tick(3), None);
    assert_eq!(d.on_outcome(quotes()).request, None);
    assert_eq!(d.on_tick(4), Some(request("AAPL", 4)));
}

#[test]
fn an_outcome_without_a_request_writes_nothing() {
    let mut d = Dispatcher::new(config(&["AAPL"])).unwrap();
    assert_eq!(
        d.on_outcome(quotes()),
        Step { emission: Emission::Nothing, request: None }
    );
    assert!(d.is_idle());
}

#[test]
fn a_cancelled_tick_writes_nothing_more() {
    let mut d = Dispatcher::new(config(&["AAPL", "MSFT"])).unwrap();
    assert_eq!(d.on_tick(1), Some(request("AAPL", 1)));
    d.cancel();
    assert!(d.is_idle());
    assert_eq!(
        d.on_outcome(quotes()),
        Step { emission: Emission::Nothing, request: None }
    );
    assert_eq!(d.on_tick(2), Some(request("AAPL", 2)));
}

#[test]
fn no_quotes_write_nothing() {
    assert_eq!(
        process_outcome("AAPL", FetchOutcome::Quotes(vec![])),
        Emission::Nothing
    );
}

#[test]
fn a_failure_writes_a_diagnostic() {
    assert_eq!(
        process_outcome("MSFT", FetchOutcome::Failed(String::from("timeout"))),
        Emission::Diagnostic(String::from("Ignoring API error for symbol 'MSFT': timeout"))
    );
}

#[test]
fn quotes_write_a_line() {
    assert_eq!(
        process_outcome("UBER", quotes()),
        Emission::Line(format!("2021-01-01T01:00:00+00:00,UBER,{}", LINE_END))
    );
}

#[test]
fn quotes_beyond_the_calendar_write_a_diagnostic() {
    let outcome = FetchOutcome::Quotes(vec![Quote { timestamp: u64::MAX, close: 1 }]);
    assert_eq!(
        process_outcome("UBER", outcome),
        Emission::Diagnostic(String::from(
            "Ignoring quotes for symbol 'UBER': time out of range"
        ))
    );
}
