//! Taking over the quotes of one symbol and bringing them into time order.
use vstd::prelude::*;
use vstd::seq_lib::{to_multiset_build, to_multiset_contains, to_multiset_len};
use crate::binary64::{ticks_from_bits, ticks_of_bits};

verus! {

/// One observation of a symbol: when it was taken, in seconds since the
/// epoch, and the closing price in ticks.
#[derive(Clone, Copy, Debug, PartialEq, Eq, Structural)]
pub struct Quote {
    pub timestamp: u64,
    pub close: i64,
}

/// One observation as the provider hands it over: the closing price is the
/// bit pattern of a binary64 number of currency units.
#[derive(Clone, Copy, Debug, PartialEq, Eq, Structural)]
pub struct RawQuote {
    pub timestamp: u64,
    pub close_bits: u64,
}

/// The quotes of `raw` whose price is a number that fits into ticks, in
/// order, with their prices in ticks.
pub open spec fn admitted(raw: Seq<RawQuote>) -> Seq<Quote>
    decreases raw.len(),
{
    if raw.len() == 0 {
        Seq::<Quote>::empty()
    } else {
        match ticks_of_bits(raw.last().close_bits) {
            Some(close) => admitted(raw.drop_last()).push(
                Quote { timestamp: raw.last().timestamp, close },
            ),
            None => admitted(raw.drop_last()),
        }
    }
}

/// Takes over the quotes of a provider: turns each price into ticks and
/// leaves out the quotes whose price is not a number or does not fit.
pub fn admit_quotes(raw: &[RawQuote]) -> (r: Vec<Quote>)
    ensures
        r@ == admitted(raw@),
{
    let mut out: Vec<Quote> = Vec::new();
    let mut i: usize = 0;
    assert(raw@.subrange(0, 0) =~= Seq::<RawQuote>::empty());
    while i < raw.len()
        invariant
            i <= raw@.len(),
            out@ == admitted(raw@.subrange(0, i as int)),
        decreases raw@.len() - i,
    {
        assert(raw@.subrange(0, i + 1).drop_last() =~= raw@.subrange(0, i as int));
        match ticks_from_bits(raw[i].close_bits) {
            Some(close) => {
                out.push(Quote { timestamp: raw[i].timestamp, close });
            },
            None => {},
        }
        i += 1;
    }
    assert(raw@.subrange(0, i as int) =~= raw@);
    out
}

/// `s`, ascending in time, with `q` placed behind every quote that is not
/// later than `q`.
pub open spec fn insert_by_time(s: Seq<Quote>, q: Quote) -> Seq<Quote>
    decreases s.len(),
{
    if s.len() == 0 || s.last().timestamp <= q.timestamp {
        s.push(q)
    } else {
        insert_by_time(s.drop_last(), q).push(s.last())
    }
}

/// The quotes of `s` ascending in time, quotes of equal time in the order
/// in which they arrived.
pub open spec fn time_ordered(s: Seq<Quote>) -> Seq<Quote>
    decreases s.len(),
{
    if s.len() == 0 {
        s
    } else {
        insert_by_time(time_ordered(s.drop_last()), s.last())
    }
}

/// No quote is followed by an earlier one.
pub open spec fn is_ascending(s: Seq<Quote>) -> bool {
    forall|i: int, j: int| 0 <= i < j < s.len() ==> s[i].timestamp <= s[j].timestamp
}

/// The quotes of `s` that were taken at time `t`, in their order in `s`.
pub open spec fn at_time(s: Seq<Quote>, t: u64) -> Seq<Quote>
    decreases s.len(),
{
    if s.len() == 0 {
        s
    } else if s.last().timestamp == t {
        at_time(s.drop_last(), t).push(s.last())
    } else {
        at_time(s.drop_last(), t)
    }
}

/// The closing prices of `s`, in order.
pub open spec fn close_prices(s: Seq<Quote>) -> Seq<i64> {
    Seq::new(s.len(), |i: int| s[i].close)
}

/// Merges two ascending runs into one. Of two quotes of the same time the
/// one from `left` comes first.
fn merge_runs(left: &Vec<Quote>, right: &Vec<Quote>) -> (r: Vec<Quote>)
    requires
        is_ascending(left@),
        is_ascending(right@),
    ensures
        is_ascending(r@),
        forall|t: u64| #[trigger] at_time(r@, t) == at_time(left@, t) + at_time(right@, t),
{
    let mut out: Vec<Quote> = Vec::new();
    let mut i: usize = 0;
    let mut j: usize = 0;
    assert(left@.subrange(0, 0) =~= Seq::<Quote>::empty());
    assert(right@.subrange(0, 0) =~= Seq::<Quote>::empty());
    assert forall|t: u64| #[trigger]
        at_time(out@, t) == at_time(left@.subrange(0, 0), t) + at_time(
            right@.subrange(0, 0),
            t,
        ) by {
        assert(at_time(out@, t) =~= at_time(left@.subrange(0, 0), t) + at_time(
            right@.subrange(0, 0),
            t,
        ));
    }
    while i < left.len() || j < right.len()
        invariant
            i <= left@.len(),
            j <= right@.len(),
            is_ascending(left@),
            is_ascending(right@),
            is_ascending(out@),
            i < left@.len() ==> forall|k: int|
                0 <= k < out@.len() ==> (#[trigger] out@[k]).timestamp <= left@[i as int].timestamp,
            j < right@.len() ==> forall|k: int|
                0 <= k < out@.len() ==> (#[trigger] out@[k]).timestamp <= right@[j as int]
                    .timestamp,
            i < left@.len() ==> forall|k: int|
                0 <= k < j ==> (#[trigger] right@[k]).timestamp < left@[i as int].timestamp,
            forall|t: u64| #[trigger]
                at_time(out@, t) == at_time(left@.subrange(0, i as int), t) + at_time(
                    right@.subrange(0, j as int),
                    t,
                ),
        decreases left@.len() - i + right@.len() - j,
    {
        let from_left = if i < left.len() && j < right.len() {
            left[i].timestamp <= right[j].timestamp
        } else {
            i < left.len()
        };
        let ghost before = out@;
        let ghost seen_left = left@.subrange(0, i as int);
        let ghost seen_right = right@.subrange(0, j as int);
        if from_left {
            let q = left[i];
            out.push(q);
            proof {
                assert(left@.subrange(0, i + 1) =~= seen_left.push(q));
                assert forall|t: u64| #[trigger]
                    at_time(out@, t) == at_time(left@.subrange(0, i + 1), t) + at_time(
                        seen_right,
                        t,
                    ) by {
                    at_time_of_push(before, q, t);
                    at_time_of_push(seen_left, q, t);
                    assert(at_time(before, t) == at_time(seen_left, t) + at_time(seen_right, t));
                    if q.timestamp == t {
                        assert forall|k: int| 0 <= k < seen_right.len() implies (
                        #[trigger] seen_right[k]).timestamp != t by {
                            assert(seen_right[k] == right@[k]);
                        }
                        at_time_of_none(seen_right, t);
                        assert(at_time(before, t).push(q) =~= at_time(seen_left, t).push(q)
                            + at_time(seen_right, t));
                    }
                }
            }
            i += 1;
        } else {
            let q = right[j];
            out.push(q);
            proof {
                assert(right@.subrange(0, j + 1) =~= seen_right.push(q));
                assert forall|t: u64| #[trigger]
                    at_time(out@, t) == at_time(seen_left, t) + at_time(
                        right@.subrange(0, j + 1),
                        t,
                    ) by {
                    at_time_of_push(before, q, t);
                    at_time_of_push(seen_right, q, t);
                    assert(at_time(before, t) == at_time(seen_left, t) + at_time(seen_right, t));
                    if q.timestamp == t {
                        assert(at_time(before, t).push(q) =~= at_time(seen_left, t) + at_time(
                            seen_right,
                            t,
                        ).push(q));
                    }
                }
            }
            j += 1;
        }
    }
    assert(left@.subrange(0, i as int) =~= left@);
    assert(right@.subrange(0, j as int) =~= right@);
    out
}

/// Sorts the quotes from index `lo` up to index `hi` into a new run: each
/// half by itself, then both merged.
fn sort_run(quotes: &Vec<Quote>, lo: usize, hi: usize) -> (r: Vec<Quote>)
    requires
        lo <= hi <= quotes@.len(),
    ensures
        r@ == time_ordered(quotes@.subrange(lo as int, hi as int)),
    decreases hi - lo,
{
    let ghost whole = quotes@.subrange(lo as int, hi as int);
    if hi - lo <= 1 {
        let mut out: Vec<Quote> = Vec::new();
        if hi - lo == 1 {
            out.push(quotes[lo]);
        }
        proof {
            assert(out@ =~= whole);
            assert(is_ascending(whole));
            ordered_input_is_unchanged(whole);
        }
        return out;
    }
    let mid = lo + (hi - lo) / 2;
    let left = sort_run(quotes, lo, mid);
    let right = sort_run(quotes, mid, hi);
    let ghost first = quotes@.subrange(lo as int, mid as int);
    let ghost second = quotes@.subrange(mid as int, hi as int);
    proof {
        time_ordered_is_ascending(first);
        time_ordered_is_ascending(second);
    }
    let merged = merge_runs(&left, &right);
    proof {
        assert(whole =~= first + second);
        time_ordered_is_ascending(whole);
        assert forall|t: u64| at_time(merged@, t) == at_time(time_ordered(whole), t) by {
            assert(at_time(merged@, t) == at_time(left@, t) + at_time(right@, t));
            time_ordered_keeps_each_time(first, t);
            time_ordered_keeps_each_time(second, t);
            time_ordered_keeps_each_time(whole, t);
            at_time_of_concat(first, second, t);
        }
        ascending_order_is_unique(merged@, time_ordered(whole));
    }
    merged
}

/// Sorts quotes ascending by timestamp. The sort is stable: quotes with the
/// same timestamp stay in the order in which they arrived.
pub fn sort_by_time(quotes: &mut Vec<Quote>)
    ensures
        final(quotes)@ == time_ordered(old(quotes)@),
{
    let sorted = sort_run(quotes, 0, quotes.len());
    assert(quotes@.subrange(0, quotes@.len() as int) =~= quotes@);
    *quotes = sorted;
}

/// Extracts the closing prices, in order.
pub fn closes(quotes: &[Quote]) -> (r: Vec<i64>)
    ensures
        r@ == close_prices(quotes@),
{
    let mut out: Vec<i64> = Vec::new();
    let mut i: usize = 0;
    while i < quotes.len()
        invariant
            i <= quotes@.len(),
            out@.len() == i,
            forall|k: int| 0 <= k < i ==> out@[k] == quotes@[k].close,
        decreases quotes@.len() - i,
    {
        out.push(quotes[i].close);
        i += 1;
    }
    assert(out@ =~= close_prices(quotes@));
    out
}

/// Turns the quotes of one symbol, in whatever order they arrived, into the
/// series of closing prices ascending in time. No quotes give the empty
/// series.
pub fn normalize(quotes: Vec<Quote>) -> (r: Vec<i64>)
    ensures
        r@ == close_prices(time_ordered(quotes@)),
        r@.len() == quotes@.len(),
{
    let mut quotes = quotes;
    let ghost arrived = quotes@;
    sort_by_time(&mut quotes);
    proof {
        time_ordered_keeps_length(arrived);
    }
    closes(quotes.as_slice())
}

/// Inserting a quote makes the sequence one longer.
pub proof fn insert_by_time_adds_one(s: Seq<Quote>, q: Quote)
    ensures
        insert_by_time(s, q).len() == s.len() + 1,
    decreases s.len(),
{
    if !(s.len() == 0 || s.last().timestamp <= q.timestamp) {
        insert_by_time_adds_one(s.drop_last(), q);
    }
}

/// Ordering keeps the number of quotes.
pub proof fn time_ordered_keeps_length(s: Seq<Quote>)
    ensures
        time_ordered(s).len() == s.len(),
    decreases s.len(),
{
    if s.len() > 0 {
        time_ordered_keeps_length(s.drop_last());
        insert_by_time_adds_one(time_ordered(s.drop_last()), s.last());
    }
}

/// Inserting a quote that is not later than `t` among quotes that are not
/// later than `t` gives quotes that are not later than `t`.
pub proof fn insert_by_time_keeps_bound(s: Seq<Quote>, q: Quote, t: u64)
    requires
        forall|k: int| 0 <= k < s.len() ==> s[k].timestamp <= t,
        q.timestamp <= t,
    ensures
        forall|k: int|
            0 <= k < insert_by_time(s, q).len() ==> (#[trigger] insert_by_time(s, q)[k]).timestamp
                <= t,
    decreases s.len(),
{
    if !(s.len() == 0 || s.last().timestamp <= q.timestamp) {
        let front = s.drop_last();
        assert forall|k: int| 0 <= k < front.len() implies front[k].timestamp <= t by {
            assert(front[k] == s[k]);
        }
        insert_by_time_keeps_bound(front, q, t);
        insert_by_time_adds_one(front, q);
    }
}

/// Inserting into an ascending sequence gives an ascending sequence.
pub proof fn insert_by_time_keeps_ascending(s: Seq<Quote>, q: Quote)
    requires
        is_ascending(s),
    ensures
        is_ascending(insert_by_time(s, q)),
    decreases s.len(),
{
    if !(s.len() == 0 || s.last().timestamp <= q.timestamp) {
        let front = s.drop_last();
        insert_by_time_keeps_ascending(front, q);
        insert_by_time_adds_one(front, q);
        assert forall|k: int| 0 <= k < front.len() implies front[k].timestamp
            <= s.last().timestamp by {
            assert(front[k] == s[k]);
        }
        insert_by_time_keeps_bound(front, q, s.last().timestamp);
    }
}

/// The ordered quotes are ascending in time.
pub proof fn time_ordered_is_ascending(s: Seq<Quote>)
    ensures
        is_ascending(time_ordered(s)),
    decreases s.len(),
{
    if s.len() > 0 {
        time_ordered_is_ascending(s.drop_last());
        insert_by_time_keeps_ascending(time_ordered(s.drop_last()), s.last());
    }
}

/// Appending a quote appends it to the quotes of its own time and leaves the
/// quotes of every other time as they were.
pub proof fn at_time_of_push(s: Seq<Quote>, q: Quote, t: u64)
    ensures
        at_time(s.push(q), t) == if q.timestamp == t {
            at_time(s, t).push(q)
        } else {
            at_time(s, t)
        },
{
    assert(s.push(q).drop_last() =~= s);
}

/// The quotes of one time in two sequences joined are those of the first
/// followed by those of the second.
pub proof fn at_time_of_concat(a: Seq<Quote>, b: Seq<Quote>, t: u64)
    ensures
        at_time(a + b, t) == at_time(a, t) + at_time(b, t),
    decreases b.len(),
{
    if b.len() == 0 {
        assert(a + b =~= a);
        assert(at_time(a, t) + at_time(b, t) =~= at_time(a, t));
    } else {
        at_time_of_concat(a, b.drop_last(), t);
        assert(a + b =~= (a + b.drop_last()).push(b.last()));
        at_time_of_push(a + b.drop_last(), b.last(), t);
        assert(at_time(a, t) + at_time(b.drop_last(), t).push(b.last()) =~= (at_time(a, t)
            + at_time(b.drop_last(), t)).push(b.last()));
    }
}

/// Where no quote was taken at `t`, there are no quotes of that time.
pub proof fn at_time_of_none(s: Seq<Quote>, t: u64)
    requires
        forall|k: int| 0 <= k < s.len() ==> (#[trigger] s[k]).timestamp != t,
    ensures
        at_time(s, t).len() == 0,
    decreases s.len(),
{
    if s.len() > 0 {
        assert(s[s.len() - 1].timestamp != t);
        assert forall|k: int| 0 <= k < s.drop_last().len() implies (#[trigger] s.drop_last()[
            k
        ]).timestamp != t by {
            assert(s.drop_last()[k] == s[k]);
        }
        at_time_of_none(s.drop_last(), t);
    }
}

/// Inserting a quote by time does to the quotes of each time what appending
/// it does.
pub proof fn insert_by_time_keeps_each_time(s: Seq<Quote>, q: Quote, t: u64)
    ensures
        at_time(insert_by_time(s, q), t) == at_time(s.push(q), t),
    decreases s.len(),
{
    if !(s.len() == 0 || s.last().timestamp <= q.timestamp) {
        let front = s.drop_last();
        insert_by_time_keeps_each_time(front, q, t);
        at_time_of_push(insert_by_time(front, q), s.last(), t);
        at_time_of_push(front, q, t);
        at_time_of_push(s, q, t);
        at_time_of_push(front, s.last(), t);
        assert(front.push(s.last()) =~= s);
    }
}

/// Ordering is stable and loses nothing: for every time, the ordered quotes
/// hold the quotes of that time that arrived, in the order of their arrival.
pub proof fn time_ordered_keeps_each_time(s: Seq<Quote>, t: u64)
    ensures
        at_time(time_ordered(s), t) == at_time(s, t),
    decreases s.len(),
{
    if s.len() > 0 {
        let front = s.drop_last();
        time_ordered_keeps_each_time(front, t);
        insert_by_time_keeps_each_time(time_ordered(front), s.last(), t);
        at_time_of_push(time_ordered(front), s.last(), t);
        at_time_of_push(front, s.last(), t);
        assert(front.push(s.last()) =~= s);
    }
}

/// Every quote of `at_time(s, t)` is a quote of `s` taken at `t`.
pub proof fn at_time_holds_quotes_of_that_time(s: Seq<Quote>, t: u64, k: int)
    requires
        0 <= k < at_time(s, t).len(),
    ensures
        at_time(s, t)[k].timestamp == t,
        s.contains(at_time(s, t)[k]),
    decreases s.len(),
{
    if s.len() > 0 {
        let front = s.drop_last();
        if s.last().timestamp == t && k == at_time(front, t).len() {
            assert(s[s.len() - 1] == at_time(s, t)[k]);
        } else {
            at_time_holds_quotes_of_that_time(front, t, k);
            let w = choose|w: int| 0 <= w < front.len() && front[w] == at_time(front, t)[k];
            assert(s[w] == at_time(s, t)[k]);
        }
    }
}

/// A sequence that holds a quote taken at `t` has quotes at time `t`.
pub proof fn at_time_is_inhabited(s: Seq<Quote>, i: int)
    requires
        0 <= i < s.len(),
    ensures
        at_time(s, s[i].timestamp).len() > 0,
    decreases s.len(),
{
    if i < s.len() - 1 {
        at_time_is_inhabited(s.drop_last(), i);
    }
}

/// Only one ascending sequence holds given quotes at each time: two
/// ascending sequences that agree on the quotes of every time are equal.
pub proof fn ascending_order_is_unique(a: Seq<Quote>, b: Seq<Quote>)
    requires
        is_ascending(a),
        is_ascending(b),
        forall|t: u64| at_time(a, t) == at_time(b, t),
    ensures
        a == b,
    decreases a.len(),
{
    if a.len() == 0 {
        if b.len() > 0 {
            at_time_is_inhabited(b, 0);
            assert(at_time(a, b[0].timestamp) == at_time(b, b[0].timestamp));
        }
        assert(a =~= b);
    } else {
        let x = a.last();
        let t = x.timestamp;
        assert(at_time(a, t) == at_time(b, t));
        assert(at_time(a, t).last() == x);
        assert(b.len() > 0);
        let y = b.last();
        let u = y.timestamp;
        assert(at_time(a, u) == at_time(b, u));
        // The last quote of each is the latest of both.
        at_time_holds_quotes_of_that_time(b, t, at_time(b, t).len() - 1);
        let wb = choose|w: int| 0 <= w < b.len() && b[w] == at_time(b, t).last();
        assert(b[wb].timestamp <= u);
        at_time_holds_quotes_of_that_time(a, u, at_time(a, u).len() - 1);
        let wa = choose|w: int| 0 <= w < a.len() && a[w] == at_time(a, u).last();
        assert(a[wa].timestamp <= t);
        assert(t == u);
        assert(at_time(b, u).last() == y);
        assert(x == y);
        assert forall|v: u64| at_time(a.drop_last(), v) == at_time(b.drop_last(), v) by {
            assert(at_time(a, v) == at_time(b, v));
            if v == t {
                assert(at_time(a.drop_last(), v) =~= at_time(a, v).drop_last());
                assert(at_time(b.drop_last(), v) =~= at_time(b, v).drop_last());
            }
        }
        ascending_order_is_unique(a.drop_last(), b.drop_last());
        assert(a =~= a.drop_last().push(x));
        assert(b =~= b.drop_last().push(y));
    }
}

/// Quotes that arrive in time order are left as they are.
pub proof fn ordered_input_is_unchanged(s: Seq<Quote>)
    requires
        is_ascending(s),
    ensures
        time_ordered(s) == s,
{
    time_ordered_is_ascending(s);
    assert forall|t: u64| at_time(time_ordered(s), t) == at_time(s, t) by {
        time_ordered_keeps_each_time(s, t);
    }
    ascending_order_is_unique(time_ordered(s), s);
}

/// The order of arrival matters only among quotes of the same time: two
/// arrivals that hold, for every time, the same quotes in the same order
/// give the same ordered quotes, and so the same series of closing prices.
pub proof fn arrival_order_is_irrelevant(a: Seq<Quote>, b: Seq<Quote>)
    requires
        forall|t: u64| at_time(a, t) == at_time(b, t),
    ensures
        time_ordered(a) == time_ordered(b),
        close_prices(time_ordered(a)) == close_prices(time_ordered(b)),
{
    time_ordered_is_ascending(a);
    time_ordered_is_ascending(b);
    assert forall|t: u64| at_time(time_ordered(a), t) == at_time(time_ordered(b), t) by {
        time_ordered_keeps_each_time(a, t);
        time_ordered_keeps_each_time(b, t);
        assert(at_time(a, t) == at_time(b, t));
    }
    ascending_order_is_unique(time_ordered(a), time_ordered(b));
}

/// No two quotes were taken at the same time.
pub open spec fn has_distinct_times(s: Seq<Quote>) -> bool {
    forall|i: int, j: int| 0 <= i < j < s.len() ==> s[i].timestamp != s[j].timestamp
}

/// Among quotes of distinct times there is at most one of each time.
pub proof fn distinct_times_are_single(s: Seq<Quote>, t: u64)
    requires
        has_distinct_times(s),
    ensures
        at_time(s, t).len() <= 1,
    decreases s.len(),
{
    if s.len() > 0 {
        let front = s.drop_last();
        assert(has_distinct_times(front)) by {
            assert forall|i: int, j: int| 0 <= i < j < front.len() implies front[i].timestamp
                != front[j].timestamp by {
                assert(front[i] == s[i] && front[j] == s[j]);
            }
        }
        distinct_times_are_single(front, t);
        if s.last().timestamp == t && at_time(front, t).len() > 0 {
            at_time_holds_quotes_of_that_time(front, t, 0);
            let w = choose|w: int| 0 <= w < front.len() && front[w] == at_time(front, t)[0];
            assert(s[w].timestamp == s[s.len() - 1].timestamp);
        }
    }
}

/// The quotes of one time occur among them as often as among all quotes.
pub proof fn at_time_counts(s: Seq<Quote>, t: u64, q: Quote)
    ensures
        at_time(s, t).to_multiset().count(q) == if q.timestamp == t {
            s.to_multiset().count(q)
        } else {
            0
        },
    decreases s.len(),
{
    if s.len() == 0 {
        assert(s.to_multiset().count(q) == 0) by {
            to_multiset_contains(s, q);
        }
    } else {
        let front = s.drop_last();
        at_time_counts(front, t, q);
        assert(front.push(s.last()) =~= s);
        to_multiset_build(front, s.last());
        if s.last().timestamp == t {
            to_multiset_build(at_time(front, t), s.last());
        }
    }
}

/// The same quotes, no two of them taken at the same time, give the same
/// series of closing prices in whatever order they arrive.
pub proof fn rearranged_quotes_give_the_same_series(a: Seq<Quote>, b: Seq<Quote>)
    requires
        has_distinct_times(a),
        a.to_multiset() == b.to_multiset(),
    ensures
        time_ordered(a) == time_ordered(b),
        close_prices(time_ordered(a)) == close_prices(time_ordered(b)),
{
    assert forall|t: u64| at_time(a, t) == at_time(b, t) by {
        let x = at_time(a, t);
        let y = at_time(b, t);
        assert(x.to_multiset() =~= y.to_multiset()) by {
            assert forall|q: Quote| x.to_multiset().count(q) == y.to_multiset().count(q) by {
                at_time_counts(a, t, q);
                at_time_counts(b, t, q);
            }
        }
        to_multiset_len(x);
        to_multiset_len(y);
        distinct_times_are_single(a, t);
        if x.len() == 1 {
            assert(x.contains(x[0]));
            to_multiset_contains(x, x[0]);
            to_multiset_contains(y, x[0]);
            assert(y[0] == x[0]);
        }
        assert(x =~= y);
    }
    arrival_order_is_irrelevant(a, b);
}

} // verus!
