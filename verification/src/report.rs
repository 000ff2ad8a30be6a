//! The statistics of one symbol and their line of comma-separated values.
use vstd::prelude::*;
use vstd::string::StringExecFns;
use crate::decimal::{decimal_text_is_one_field, price_text, price_text_of};
use crate::fields::{pieces_of_concat, pieces_of_push, split_commas};
use crate::fixed::{Ratio, PRICE_SCALE};
use crate::instant::{holds_text, time_text, time_text_of};
use crate::quotes::{
    close_prices, closes, sort_by_time, time_ordered, time_ordered_keeps_length, Quote,
};
use crate::stats::{
    max, min, moving_averages, n_window_sma, price_diff, relative_diff, series_max, series_min,
};

verus! {

/// The number of prices in one window of the moving average.
pub const SMA_WINDOW: usize = 30;

/// The statistics of one symbol over one period.
#[derive(Clone, Debug, PartialEq, Eq)]
pub struct StatsResult {
    /// The ticker symbol.
    pub symbol: String,
    /// When the last quote was taken, in seconds since the epoch.
    pub last_time: u64,
    /// The closing price of the last quote.
    pub last_price: i64,
    /// The change from the first to the last price, in percent of the first.
    pub percent_change: Ratio,
    /// The least closing price of the period.
    pub period_min: i64,
    /// The greatest closing price of the period.
    pub period_max: i64,
    /// The mean of the last `SMA_WINDOW` prices, in ticks; `None` where the
    /// period has fewer prices than that.
    pub moving_average: Option<Ratio>,
}

/// What a [`StatsResult`] holds, with the symbol as a sequence of characters.
pub struct StatsModel {
    pub symbol: Seq<char>,
    pub last_time: u64,
    pub last_price: i64,
    pub percent_change: Ratio,
    pub period_min: i64,
    pub period_max: i64,
    pub moving_average: Option<Ratio>,
}

impl View for StatsResult {
    type V = StatsModel;

    open spec fn view(&self) -> StatsModel {
        StatsModel {
            symbol: self.symbol@,
            last_time: self.last_time,
            last_price: self.last_price,
            percent_change: self.percent_change,
            period_min: self.period_min,
            period_max: self.period_max,
            moving_average: self.moving_average,
        }
    }
}

impl StatsModel {
    /// Both quotients have positive denominators.
    pub open spec fn wf(self) -> bool {
        &&& self.percent_change.wf()
        &&& self.moving_average matches Some(mean) ==> mean.wf()
    }
}

/// A relative difference in percent.
pub open spec fn percent_of(r: Ratio) -> Ratio {
    Ratio { num: (r.num * 100) as i128, den: r.den }
}

/// The last of the moving averages, if there is one.
pub open spec fn last_average(averages: Option<Seq<Ratio>>) -> Option<Ratio> {
    match averages {
        Some(v) => if v.len() > 0 { Some(v.last()) } else { None },
        None => None,
    }
}

/// The statistics of the quotes of one symbol, in whatever order they
/// arrived; `None` where there are no quotes.
pub open spec fn summary_of(symbol: Seq<char>, quotes: Seq<Quote>) -> Option<StatsModel> {
    if quotes.len() == 0 {
        None
    } else {
        let ordered = time_ordered(quotes);
        let prices = close_prices(ordered);
        Some(
            StatsModel {
                symbol,
                last_time: ordered.last().timestamp,
                last_price: prices.last(),
                percent_change: percent_of(relative_diff(prices.first(), prices.last())),
                period_min: series_min(prices)->0,
                period_max: series_max(prices)->0,
                moving_average: last_average(moving_averages(SMA_WINDOW as int, prices)),
            },
        )
    }
}

/// Computes the statistics of one symbol from its quotes: brings them into
/// time order, takes the closing prices, and from those the last price, the
/// change in percent, the minimum, the maximum and the last moving average.
pub fn summarize(symbol: &str, quotes: Vec<Quote>) -> (r: Option<StatsResult>)
    ensures
        r is None <==> quotes@.len() == 0,
        match r {
            Some(stats) => summary_of(symbol@, quotes@) == Some(stats@) && stats@.wf(),
            None => summary_of(symbol@, quotes@) is None,
        },
{
    if quotes.len() == 0 {
        return None;
    }
    let mut ordered = quotes;
    proof {
        time_ordered_keeps_length(quotes@);
    }
    sort_by_time(&mut ordered);
    let prices = closes(ordered.as_slice());
    let n = prices.len();
    let last_time = ordered[n - 1].timestamp;
    let last_price = prices[n - 1];
    let period_min = match min(prices.as_slice()) {
        Some(m) => m,
        None => last_price,
    };
    let period_max = match max(prices.as_slice()) {
        Some(m) => m,
        None => last_price,
    };
    let percent_change = match price_diff(prices.as_slice()) {
        Some((_, rel)) => Ratio { num: rel.num * 100, den: rel.den },
        None => Ratio { num: 0, den: 1 },
    };
    let moving_average = match n_window_sma(SMA_WINDOW, prices.as_slice()) {
        Some(v) => if v.len() > 0 {
            Some(v[v.len() - 1])
        } else {
            None
        },
        None => None,
    };
    Some(
        StatsResult {
            symbol: symbol.to_owned(),
            last_time,
            last_price,
            percent_change,
            period_min,
            period_max,
            moving_average,
        },
    )
}

/// The text of the moving average in a line: the mean in currency units, or
/// `0.00` where there is none.
pub open spec fn average_text_of(average: Option<Ratio>) -> Seq<char> {
    match average {
        Some(mean) => mean.unit_text_of(),
        None => seq!['0', '.', '0', '0'],
    }
}

/// One line of comma-separated values: the time of the last quote, the
/// symbol, the last price, the change in percent, the minimum, the maximum
/// and the moving average. Prices carry a `$` in front, the change a `%`
/// behind; every number has two decimals.
pub open spec fn csv_line_of(time_text: Seq<char>, stats: StatsModel) -> Seq<char> {
    time_text + seq![','] + stats.symbol + seq![',', '$'] + price_text_of(stats.last_price)
        + seq![','] + stats.percent_change.text_of() + seq!['%', ',', '$'] + price_text_of(
        stats.period_min,
    ) + seq![',', '$'] + price_text_of(stats.period_max) + seq![',', '$'] + average_text_of(
        stats.moving_average,
    )
}

/// A line has seven fields: split at its commas it falls into seven
/// pieces, provided that neither the text of the time nor the symbol holds a
/// comma.
pub proof fn line_has_seven_fields(time_text: Seq<char>, stats: StatsModel)
    requires
        split_commas(time_text).len() == 1,
        split_commas(stats.symbol).len() == 1,
    ensures
        split_commas(csv_line_of(time_text, stats)).len() == 7,
{
    let e = Seq::<char>::empty();
    let comma = seq![','];
    let comma_dollar = seq![',', '$'];
    let percent_comma_dollar = seq!['%', ',', '$'];
    assert(split_commas(comma).len() == 2) by {
        assert(comma =~= e.push(','));
        pieces_of_push(e, ',');
    }
    assert(split_commas(comma_dollar).len() == 2) by {
        assert(comma_dollar =~= e.push(',').push('$'));
        pieces_of_push(e, ',');
        pieces_of_push(e.push(','), '$');
    }
    assert(split_commas(percent_comma_dollar).len() == 2) by {
        assert(percent_comma_dollar =~= e.push('%').push(',').push('$'));
        pieces_of_push(e, '%');
        pieces_of_push(e.push('%'), ',');
        pieces_of_push(e.push('%').push(','), '$');
    }
    let last = price_text_of(stats.last_price);
    let change = stats.percent_change.text_of();
    let least = price_text_of(stats.period_min);
    let greatest = price_text_of(stats.period_max);
    let average = average_text_of(stats.moving_average);
    decimal_text_is_one_field(stats.last_price as int, PRICE_SCALE as nat);
    decimal_text_is_one_field(stats.percent_change.num as int, stats.percent_change.den as nat);
    decimal_text_is_one_field(stats.period_min as int, PRICE_SCALE as nat);
    decimal_text_is_one_field(stats.period_max as int, PRICE_SCALE as nat);
    assert(split_commas(average).len() == 1) by {
        match stats.moving_average {
            Some(mean) => {
                decimal_text_is_one_field(mean.num as int, mean.den as nat * PRICE_SCALE as nat);
            },
            None => {
                assert(average =~= e.push('0').push('.').push('0').push('0'));
                pieces_of_push(e, '0');
                pieces_of_push(e.push('0'), '.');
                pieces_of_push(e.push('0').push('.'), '0');
                pieces_of_push(e.push('0').push('.').push('0'), '0');
            },
        }
    }
    let l1 = time_text + comma;
    let l2 = l1 + stats.symbol;
    let l3 = l2 + comma_dollar;
    let l4 = l3 + last;
    let l5 = l4 + comma;
    let l6 = l5 + change;
    let l7 = l6 + percent_comma_dollar;
    let l8 = l7 + least;
    let l9 = l8 + comma_dollar;
    let l10 = l9 + greatest;
    let l11 = l10 + comma_dollar;
    let l12 = l11 + average;
    pieces_of_concat(time_text, comma);
    pieces_of_concat(l1, stats.symbol);
    pieces_of_concat(l2, comma_dollar);
    pieces_of_concat(l3, last);
    pieces_of_concat(l4, comma);
    pieces_of_concat(l5, change);
    pieces_of_concat(l6, percent_comma_dollar);
    pieces_of_concat(l7, least);
    pieces_of_concat(l8, comma_dollar);
    pieces_of_concat(l9, greatest);
    pieces_of_concat(l10, comma_dollar);
    pieces_of_concat(l11, average);
    assert(l12 == csv_line_of(time_text, stats));
}

/// Formats the statistics of one symbol as a line of comma-separated
/// values, behind the text of the time of the last quote.
pub fn csv_line(time_text: &str, stats: &StatsResult) -> (r: String)
    requires
        stats@.wf(),
    ensures
        r@ == csv_line_of(time_text@, stats@),
{
    proof {
        reveal_strlit(",");
        reveal_strlit(",$");
        reveal_strlit("%,$");
        reveal_strlit("0.00");
    }
    let mut out = String::new();
    out.append(time_text);
    out.append(",");
    out.append(stats.symbol.as_str());
    out.append(",$");
    out.append(price_text(stats.last_price).as_str());
    out.append(",");
    out.append(stats.percent_change.text().as_str());
    out.append("%,$");
    out.append(price_text(stats.period_min).as_str());
    out.append(",$");
    out.append(price_text(stats.period_max).as_str());
    out.append(",$");
    match stats.moving_average {
        Some(mean) => {
            out.append(mean.unit_text().as_str());
        },
        None => {
            out.append("0.00");
        },
    }
    assert(out@ =~= csv_line_of(time_text@, stats@));
    out
}

/// The names of the columns, in the order of the fields of a line.
pub fn csv_header() -> (r: &'static str)
    ensures
        r@ == "period_start,symbol,price,change_%,min,max,30d_avg"@,
{
    "period_start,symbol,price,change_%,min,max,30d_avg"
}

/// The line for the statistics of one symbol, where the time of its last
/// quote can be written.
pub open spec fn report_line_of(stats: StatsModel) -> Option<Seq<char>> {
    match time_text_of(stats.last_time) {
        Some(text) => Some(csv_line_of(text, stats)),
        None => None,
    }
}

/// Formats the statistics of one symbol as a line of comma-separated values
/// that starts with the time of the last quote. Gives `None` where that time
/// lies beyond the calendar.
pub fn report_line(stats: &StatsResult) -> (r: Option<String>)
    requires
        stats@.wf(),
    ensures
        holds_text(r, report_line_of(stats@)),
{
    match time_text(stats.last_time) {
        Some(text) => Some(csv_line(text.as_str(), stats)),
        None => None,
    }
}

} // verus!
