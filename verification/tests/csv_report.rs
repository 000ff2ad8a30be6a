use stock_stats::fixed::Ratio;
use stock_stats::quotes::Quote;
use stock_stats::report::{csv_header, csv_line, report_line, summarize, StatsResult, SMA_WINDOW};

fn q(timestamp: u64, close: i64) -> Quote {
    Quote { timestamp, close }
}

#[test]
fn header_names_the_seven_columns() {
    assert_eq!(csv_header(), "period_start,symbol,price,change_%,min,max,30d_avg");
    assert_eq!(csv_header().split(',').count(), 7);
}

#[test]
fn no_quotes_give_no_statistics() {
    assert_eq!(summarize("AAPL", vec![]), None);
}

#[test]
fn statistics_of_a_short_period() {
    let start = 1_609_459_200;
    let quotes = vec![
        q(start + 7_200, 1_210_000),
        q(start, 1_000_000),
        q(start + 3_600, 1_100_000),
    ];
    let stats = summarize("AAPL", quotes).unwrap();
    assert_eq!(
        stats,
        StatsResult {
            symbol: String::from("AAPL"),
            last_time: start + 7_200,
            last_price: 1_210_000,
            percent_change: Ratio { num: 21_000_000, den: 1_000_000 },
            period_min: 1_000_000,
            period_max: 1_210_000,
            moving_average: None,
        }
    );
    assert_eq!(
        report_line(&stats),
        Some(String::from(
            "2021-01-01T02:00:00+00:00,AAPL,$121.00,21.00%,$100.00,$121.00,$0.00"
        ))
    );
}

#[test]
fn statistics_of_a_period_with_a_full_window() {
    let quotes: Vec<Quote> = (1..=31u64).rev().map(|k| q(1_000 + k, k as i64 * 10_000)).collect();
    let stats = summarize("MSFT", quotes).unwrap();
    assert_eq!(stats.last_time, 1_031);
    assert_eq!(stats.last_price, 310_000);
    assert_eq!(stats.period_min, 10_000);
    assert_eq!(stats.period_max, 310_000);
    assert_eq!(stats.percent_change, Ratio { num: 30_000_000, den: 10_000 });
    assert_eq!(
        stats.moving_average,
        Some(Ratio { num: 4_950_000, den: SMA_WINDOW as u64 })
    );
    assert_eq!(
        csv_line("T", &stats),
        "T,MSFT,$31.00,3000.00%,$1.00,$31.00,$16.50"
    );
}

#[test]
fn exactly_one_window_gives_an_average() {
    let quotes: Vec<Quote> = (0..30u64).map(|k| q(k, 20_000)).collect();
    let stats = summarize("UBER", quotes).unwrap();
    assert_eq!(stats.moving_average, Some(Ratio { num: 600_000, den: 30 }));
    let short: Vec<Quote> = (0..29u64).map(|k| q(k, 20_000)).collect();
    assert_eq!(summarize("UBER", short).unwrap().moving_average, None);
}

#[test]
fn a_falling_price_gives_a_negative_change() {
    let stats = summarize("GOOG", vec![q(1, 80_000), q(2, 60_000)]).unwrap();
    assert_eq!(stats.percent_change, Ratio { num: -2_000_000, den: 80_000 });
    assert_eq!(
        csv_line("when", &stats),
        "when,GOOG,$6.00,-25.00%,$6.00,$8.00,$0.00"
    );
}

#[test]
fn a_first_price_of_zero_is_taken_as_one_unit() {
    let stats = summarize("X", vec![q(1, 0), q(2, 25_000)]).unwrap();
    assert_eq!(stats.percent_change, Ratio { num: 2_500_000, den: 10_000 });
    assert_eq!(csv_line("", &stats), ",X,$2.50,250.00%,$0.00,$2.50,$0.00");
}

#[test]
fn line_has_seven_fields() {
    let stats = StatsResult {
        symbol: String::from("AAPL"),
        last_time: 0,
        last_price: 1_234_567,
        percent_change: Ratio { num: 1, den: 3 },
        period_min: -5_000,
        period_max: 99_999_999,
        moving_average: Some(Ratio { num: 100, den: 3 }),
    };
    let line = report_line(&stats).unwrap();
    assert_eq!(
        line,
        "1970-01-01T00:00:00+00:00,AAPL,$123.46,0.33%,$-0.50,$10000.00,$0.00"
    );
    assert_eq!(line.split(',').count(), 7);
}

#[test]
fn a_time_beyond_the_calendar_gives_no_line() {
    let stats = StatsResult {
        symbol: String::from("AAPL"),
        last_time: u64::MAX,
        last_price: 1,
        percent_change: Ratio { num: 0, den: 1 },
        period_min: 1,
        period_max: 1,
        moving_average: None,
    };
    assert_eq!(report_line(&stats), None);
    let far = StatsResult { last_time: i64::MAX as u64, ..stats };
    assert_eq!(report_line(&far), None);
}
