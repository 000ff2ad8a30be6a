//! What is fixed at startup: the tracked symbols and the start of the period.
use vstd::prelude::*;
use vstd::std_specs::iter::IteratorSpec;
use vstd::string::{StrSliceExecFns, StringExecFns};
use crate::fields::{split_commas, split_commas_is_inhabited};
use crate::instant::{parse_period_start, period_start_of};

verus! {

/// Reading one more character either closes a piece or lengthens the last.
proof fn split_commas_step(s: Seq<char>, start: int, i: int, done: Seq<Seq<char>>)
    requires
        0 <= start <= i < s.len(),
        done.push(s.subrange(start, i)) == split_commas(s.subrange(0, i)),
    ensures
        s[i] == ',' ==> done.push(s.subrange(start, i)).push(s.subrange(i + 1, i + 1))
            == split_commas(s.subrange(0, i + 1)),
        s[i] != ',' ==> done.push(s.subrange(start, i + 1)) == split_commas(s.subrange(0, i + 1)),
{
    let grown = s.subrange(0, i + 1);
    assert(grown.drop_last() =~= s.subrange(0, i));
    assert(grown.last() == s[i]);
    let front = done.push(s.subrange(start, i));
    if s[i] == ',' {
        assert(s.subrange(i + 1, i + 1) =~= Seq::<char>::empty());
    } else {
        assert(front.update(front.len() - 1, front.last().push(s[i])) =~= done.push(
            s.subrange(start, i + 1),
        )) by {
            assert(s.subrange(start, i).push(s[i]) =~= s.subrange(start, i + 1));
        }
    }
}

/// Splits a comma-separated list of symbols.
pub fn parse_symbols(list: &str) -> (r: Vec<String>)
    ensures
        r.deep_view() == split_commas(list@),
{
    broadcast use vstd::string::group_string_axioms;

    let n = list.unicode_len();
    let mut out: Vec<String> = Vec::new();
    let mut start: usize = 0;
    let mut i: usize = 0;
    let mut it = list.chars();
    proof {
        assert(list@.subrange(0, 0) =~= Seq::<char>::empty());
        assert(out.deep_view().push(list@.subrange(0, 0)) =~= split_commas(list@.subrange(0, 0)));
        assert(list@.skip(0) =~= list@);
    }
    while i < n
        invariant
            n == list@.len(),
            start <= i <= n,
            it.remaining() == list@.skip(i as int),
            out.deep_view().push(list@.subrange(start as int, i as int)) == split_commas(
                list@.subrange(0, i as int),
            ),
        decreases n - i,
    {
        let ghost done = out.deep_view();
        let next = it.next();
        assert(next == Some(list@[i as int]));
        assert(it.remaining() =~= list@.skip(i + 1));
        proof {
            split_commas_step(list@, start as int, i as int, done);
        }
        if let Some(c) = next {
            if c == ',' {
                let piece = list.substring_char(start, i).to_owned();
                out.push(piece);
                assert(out.deep_view() =~= done.push(list@.subrange(start as int, i as int)));
                start = i + 1;
            }
        }
        i += 1;
    }
    let ghost done = out.deep_view();
    let piece = list.substring_char(start, i).to_owned();
    out.push(piece);
    assert(out.deep_view() =~= done.push(list@.subrange(start as int, i as int)));
    assert(list@.subrange(0, n as int) =~= list@);
    out
}

/// Seconds between two ticks, unless configured otherwise.
pub const DEFAULT_TICK_SECONDS: u64 = 10;

/// The symbols that are tracked unless configured otherwise.
pub const DEFAULT_SYMBOLS: &'static str = "AAPL,MSFT,UBER,GOOG";

/// The spacing of the quotes that are asked of the provider.
pub const QUOTE_INTERVAL: &'static str = "1h";

/// What is fixed when the process starts.
#[derive(Clone, Debug, PartialEq, Eq)]
pub struct Config {
    /// The tracked ticker symbols, in the order in which they are fetched.
    pub symbols: Vec<String>,
    /// The start of every period, in seconds since the epoch.
    pub period_start: i64,
    /// Seconds between two ticks.
    pub tick_seconds: u64,
}

/// Why a configuration was refused.
#[derive(Clone, Debug, PartialEq, Eq)]
pub enum ConfigError {
    /// The start of the period could not be read; holds the text given.
    BadDate(String),
    /// The list of symbols is empty.
    NoSymbols,
}

/// What `configure` gives for these arguments: the text that could not be
/// read as a date, or that there are no symbols, or else the symbols and the
/// start of the period.
pub open spec fn configured(
    r: Result<Config, ConfigError>,
    symbols: Seq<char>,
    from: Seq<char>,
    tick_seconds: u64,
) -> bool {
    match period_start_of(from) {
        None => r matches Err(ConfigError::BadDate(text)) && text@ == from,
        Some(start) => if symbols.len() == 0 {
            r == Err::<Config, ConfigError>(ConfigError::NoSymbols)
        } else {
            &&& r matches Ok(config)
            &&& config.symbols@.len() > 0
            &&& config.symbols.deep_view() == split_commas(symbols)
            &&& config.period_start == start
            &&& config.tick_seconds == tick_seconds
        },
    }
}

/// Builds the configuration from the comma-separated list of symbols and the
/// start of the period as text. The date is looked at first; an empty list
/// of symbols is refused.
pub fn configure(symbols: &str, from: &str, tick_seconds: u64) -> (r: Result<Config, ConfigError>)
    ensures
        configured(r, symbols@, from@, tick_seconds),
{
    let period_start = match parse_period_start(from) {
        Some(start) => start,
        None => {
            return Err(ConfigError::BadDate(from.to_owned()));
        },
    };
    if symbols.unicode_len() == 0 {
        return Err(ConfigError::NoSymbols);
    }
    proof {
        split_commas_is_inhabited(symbols@);
    }
    Ok(Config { symbols: parse_symbols(symbols), period_start, tick_seconds })
}

impl ConfigError {
    /// The message for the diagnostic stream.
    pub open spec fn message_of(self) -> Seq<char> {
        match self {
            ConfigError::BadDate(text) => "Couldn't parse 'from' date: "@ + text@,
            ConfigError::NoSymbols => "No symbols to track"@,
        }
    }

    /// Writes the message for the diagnostic stream; for a date it ends in
    /// the text that could not be read.
    pub fn message(&self) -> (r: String)
        ensures
            r@ == self.message_of(),
    {
        match self {
            ConfigError::BadDate(text) => {
                let mut out = String::from_str("Couldn't parse 'from' date: ");
                out.append(text.as_str());
                out
            },
            ConfigError::NoSymbols => String::from_str("No symbols to track"),
        }
    }
}

} // verus!
