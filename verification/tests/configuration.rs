use stock_stats::config::{configure, parse_symbols, Config, ConfigError, DEFAULT_TICK_SECONDS};

#[test]
fn symbols_are_split_at_commas() {
    assert_eq!(
        parse_symbols("AAPL,MSFT,UBER,GOOG"),
        vec!["AAPL", "MSFT", "UBER", "GOOG"]
    );
    assert_eq!(parse_symbols("AAPL"), vec!["AAPL"]);
    assert_eq!(parse_symbols("a,,b"), vec!["a", "", "b"]);
    assert_eq!(parse_symbols(",a"), vec!["", "a"]);
    assert_eq!(parse_symbols("a,"), vec!["a", ""]);
    assert_eq!(parse_symbols(","), vec!["", ""]);
    assert_eq!(parse_symbols(""), vec![""]);
    assert_eq!(parse_symbols(" BRK.B , \u{20ac}UR"), vec![" BRK.B ", " \u{20ac}UR"]);
}

#[test]
fn splitting_agrees_with_the_standard_library() {
    for list in ["", ",", ",,", "x", "x,y", ",x,,y,", "\u{e9},\u{1f600},z"] {
        let want: Vec<String> = list.split(',').map(|s| s.to_owned()).collect();
        assert_eq!(parse_symbols(list), want);
    }
}

#[test]
fn a_configuration_holds_symbols_and_start() {
    assert_eq!(
        configure("AAPL,MSFT", "2020-07-01", DEFAULT_TICK_SECONDS),
        Ok(Config {
            symbols: vec![String::from("AAPL"), String::from("MSFT")],
            period_start: 1_593_561_600,
            tick_seconds: 10,
        })
    );
    assert_eq!(
        configure("GOOG", "2020-07-01T12:00:00Z", 3),
        Ok(Config {
            symbols: vec![String::from("GOOG")],
            period_start: 1_593_604_800,
            tick_seconds: 3,
        })
    );
}

#[test]
fn an_unreadable_date_is_refused_with_its_text() {
    let refused = configure("AAPL", "last week", 10);
    assert_eq!(refused, Err(ConfigError::BadDate(String::from("last week"))));
    assert_eq!(
        refused.unwrap_err().message(),
        "Couldn't parse 'from' date: last week"
    );
}

#[test]
fn an_empty_list_of_symbols_is_refused() {
    let refused = configure("", "2020-07-01", 10);
    assert_eq!(refused, Err(ConfigError::NoSymbols));
    assert_eq!(refused.unwrap_err().message(), "No symbols to track");
}

#[test]
fn the_date_is_looked_at_first() {
    assert_eq!(
        configure("", "", 10),
        Err(ConfigError::BadDate(String::new()))
    );
}
