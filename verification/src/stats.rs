//! Statistics over a time-ordered price series.
use vstd::prelude::*;
use crate::fixed::{Ratio, PRICE_SCALE};

verus! {

/// The smaller of two prices.
pub open spec fn lesser(a: i64, b: i64) -> i64 {
    if b < a { b } else { a }
}

/// The larger of two prices.
pub open spec fn greater(a: i64, b: i64) -> i64 {
    if b > a { b } else { a }
}

/// The least price of a series, `None` for the empty series.
pub open spec fn series_min(s: Seq<i64>) -> Option<i64>
    decreases s.len(),
{
    if s.len() == 0 {
        None
    } else {
        match series_min(s.drop_last()) {
            None => Some(s.last()),
            Some(m) => Some(lesser(m, s.last())),
        }
    }
}

/// The greatest price of a series, `None` for the empty series.
pub open spec fn series_max(s: Seq<i64>) -> Option<i64>
    decreases s.len(),
{
    if s.len() == 0 {
        None
    } else {
        match series_max(s.drop_last()) {
            None => Some(s.last()),
            Some(m) => Some(greater(m, s.last())),
        }
    }
}

/// Find the minimum of a price series.
pub fn min(series: &[i64]) -> (r: Option<i64>)
    ensures
        r == series_min(series@),
        r is None <==> series@.len() == 0,
        r matches Some(least) ==> series@.contains(least) && forall|i: int|
            0 <= i < series@.len() ==> least <= series@[i],
{
    if series.len() == 0 {
        return None;
    }
    let mut best: i64 = series[0];
    let mut i: usize = 1;
    assert(series_min(series@.subrange(0, 1)) == Some(best)) by {
        single_price_is_its_own_extreme(series@.subrange(0, 1));
    }
    while i < series.len()
        invariant
            1 <= i <= series.len(),
            series_min(series@.subrange(0, i as int)) == Some(best),
        decreases series.len() - i,
    {
        assert(series@.subrange(0, i + 1).drop_last() =~= series@.subrange(0, i as int));
        if series[i] < best {
            best = series[i];
        }
        i += 1;
    }
    assert(series@.subrange(0, i as int) =~= series@);
    proof {
        min_and_max_are_prices(series@);
        assert forall|k: int| 0 <= k < series@.len() implies series_min(series@)->0
            <= #[trigger] series@[k] <= series_max(series@)->0 by {
            min_and_max_bound_every_price(series@, k);
        }
    }
    Some(best)
}

/// Find the maximum of a price series.
pub fn max(series: &[i64]) -> (r: Option<i64>)
    ensures
        r == series_max(series@),
        r is None <==> series@.len() == 0,
        r matches Some(greatest) ==> series@.contains(greatest) && forall|i: int|
            0 <= i < series@.len() ==> series@[i] <= greatest,
{
    if series.len() == 0 {
        return None;
    }
    let mut best: i64 = series[0];
    let mut i: usize = 1;
    assert(series_max(series@.subrange(0, 1)) == Some(best)) by {
        single_price_is_its_own_extreme(series@.subrange(0, 1));
    }
    while i < series.len()
        invariant
            1 <= i <= series.len(),
            series_max(series@.subrange(0, i as int)) == Some(best),
        decreases series.len() - i,
    {
        assert(series@.subrange(0, i + 1).drop_last() =~= series@.subrange(0, i as int));
        if series[i] > best {
            best = series[i];
        }
        i += 1;
    }
    assert(series@.subrange(0, i as int) =~= series@);
    proof {
        min_and_max_are_prices(series@);
        assert forall|k: int| 0 <= k < series@.len() implies series_min(series@)->0
            <= #[trigger] series@[k] <= series_max(series@)->0 by {
            min_and_max_bound_every_price(series@, k);
        }
    }
    Some(best)
}

/// A series of one price has that price as minimum and as maximum.
pub proof fn single_price_is_its_own_extreme(s: Seq<i64>)
    requires
        s.len() == 1,
    ensures
        series_min(s) == Some(s[0]),
        series_max(s) == Some(s[0]),
{
    assert(s.drop_last().len() == 0);
    assert(series_min(s.drop_last()) is None);
    assert(series_max(s.drop_last()) is None);
}

/// Every price of a non-empty series lies between its minimum and its
/// maximum.
pub proof fn min_and_max_bound_every_price(s: Seq<i64>, i: int)
    requires
        0 <= i < s.len(),
    ensures
        series_min(s) is Some,
        series_max(s) is Some,
        series_min(s)->0 <= s[i] <= series_max(s)->0,
    decreases s.len(),
{
    if i < s.len() - 1 {
        min_and_max_bound_every_price(s.drop_last(), i);
    }
}

/// The minimum and the maximum of a non-empty series are prices of the
/// series.
pub proof fn min_and_max_are_prices(s: Seq<i64>)
    requires
        s.len() > 0,
    ensures
        series_min(s) is Some,
        series_max(s) is Some,
        s.contains(series_min(s)->0),
        s.contains(series_max(s)->0),
    decreases s.len(),
{
    if s.len() > 1 {
        let t = s.drop_last();
        min_and_max_are_prices(t);
        let a = choose|k: int| 0 <= k < t.len() && t[k] == series_min(t)->0;
        let b = choose|k: int| 0 <= k < t.len() && t[k] == series_max(t)->0;
        assert(s[a] == series_min(t)->0);
        assert(s[b] == series_max(t)->0);
        assert(s[s.len() - 1] == s.last());
    } else {
        single_price_is_its_own_extreme(s);
        assert(s[0] == s.last());
    }
}

/// The change from `first` to `last` relative to `first`. Where `first` is
/// zero the change is taken relative to one currency unit instead. The
/// denominator is kept positive, so a negative `first` flips the sign of the
/// numerator.
pub open spec fn relative_diff(first: i64, last: i64) -> Ratio {
    if first == 0 {
        Ratio { num: (last - first) as i128, den: PRICE_SCALE }
    } else if first > 0 {
        Ratio { num: (last - first) as i128, den: first as u64 }
    } else {
        Ratio { num: (first - last) as i128, den: (-first) as u64 }
    }
}

/// What a relative difference is divided by: `first`, or one currency unit
/// where `first` is zero.
pub open spec fn diff_base(first: i64) -> int {
    if first == 0 { PRICE_SCALE as int } else { first as int }
}

/// The absolute and the relative difference between the first and the last
/// price of a series, `None` for the empty series.
pub open spec fn series_diff(s: Seq<i64>) -> Option<(i128, Ratio)> {
    if s.len() == 0 {
        None
    } else {
        Some(((s.last() - s.first()) as i128, relative_diff(s.first(), s.last())))
    }
}

/// Calculates the absolute and relative difference between the beginning and
/// the end of a price series. The relative difference is relative to the
/// beginning.
pub fn price_diff(a: &[i64]) -> (r: Option<(i128, Ratio)>)
    ensures
        r == series_diff(a@),
        r is None <==> a@.len() == 0,
        r matches Some((_, rel)) ==> rel.wf(),
{
    if a.len() == 0 {
        return None;
    }
    let first: i64 = a[0];
    let last: i64 = a[a.len() - 1];
    let abs_diff: i128 = last as i128 - first as i128;
    let rel = if first == 0 {
        Ratio { num: abs_diff, den: PRICE_SCALE }
    } else if first > 0 {
        Ratio { num: abs_diff, den: first as u64 }
    } else {
        Ratio { num: -abs_diff, den: (-(first as i128)) as u64 }
    };
    proof {
        relative_diff_is_the_quotient(first, last);
    }
    Some((abs_diff, rel))
}

/// The relative difference is well-formed and denotes the absolute
/// difference divided by `diff_base(first)`.
pub proof fn relative_diff_is_the_quotient(first: i64, last: i64)
    ensures
        relative_diff(first, last).wf(),
        relative_diff(first, last).num * diff_base(first) == (last - first) * relative_diff(
            first,
            last,
        ).den,
{
    let r = relative_diff(first, last);
    assert(r.num * diff_base(first) == (last - first) * r.den) by (nonlinear_arith)
        requires
            first == 0 ==> r.num == last - first && r.den == diff_base(first),
            first > 0 ==> r.num == last - first && r.den == diff_base(first),
            first < 0 ==> r.num == -(last - first) && r.den == -diff_base(first),
    ;
}

/// A series of a single price has no absolute and no relative difference,
/// whether or not that price is zero.
pub proof fn single_price_has_zero_diff(x: i64)
    ensures
        series_diff(seq![x]) matches Some((abs, rel)) && abs == 0 && rel.is_zero(),
{
    assert(seq![x].first() == x);
    assert(seq![x].last() == x);
}

/// The sum of a series of prices.
pub open spec fn sum(s: Seq<i64>) -> int
    decreases s.len(),
{
    if s.len() == 0 {
        0
    } else {
        sum(s.drop_last()) + s.last()
    }
}

/// How many windows of `n` consecutive prices a series of `len` prices has.
pub open spec fn window_count(n: int, len: int) -> int {
    if n <= len { len - n + 1 } else { 0 }
}

/// The mean of the `n` prices that start at index `i`.
pub open spec fn window_mean(s: Seq<i64>, i: int, n: int) -> Ratio {
    Ratio { num: sum(s.subrange(i, i + n)) as i128, den: n as u64 }
}

/// The simple moving average: the mean of every window of `n` consecutive
/// prices, in order. `None` for the empty series and for `n <= 1`.
pub open spec fn moving_averages(n: int, s: Seq<i64>) -> Option<Seq<Ratio>> {
    if s.len() == 0 || n <= 1 {
        None
    } else {
        Some(Seq::new(window_count(n, s.len() as int) as nat, |i: int| window_mean(s, i, n)))
    }
}

/// The sum of a series lies within its length times the range of a price.
pub proof fn sum_is_bounded(s: Seq<i64>)
    ensures
        -0x8000_0000_0000_0000 * s.len() <= sum(s) <= 0x7fff_ffff_ffff_ffff * s.len(),
    decreases s.len(),
{
    if s.len() > 0 {
        sum_is_bounded(s.drop_last());
    }
}

/// Appending a price adds it to the sum.
pub proof fn sum_of_push(s: Seq<i64>, x: i64)
    ensures
        sum(s.push(x)) == sum(s) + x,
{
    assert(s.push(x).drop_last() =~= s);
}

/// The sum of a non-empty series is its first price plus the sum of the rest.
pub proof fn sum_of_drop_first(s: Seq<i64>)
    requires
        s.len() > 0,
    ensures
        sum(s) == s.first() + sum(s.drop_first()),
    decreases s.len(),
{
    if s.len() == 1 {
        assert(s.drop_first() =~= s.drop_last());
    } else {
        sum_of_drop_first(s.drop_last());
        assert(s.drop_last().drop_first() =~= s.drop_first().drop_last());
    }
}

/// Window function to create a simple moving average.
pub fn n_window_sma(n: usize, series: &[i64]) -> (r: Option<Vec<Ratio>>)
    ensures
        r is None <==> (series@.len() == 0 || n <= 1),
        r matches Some(v) ==> moving_averages(n as int, series@) == Some(v@),
        r matches Some(v) ==> v@.len() == window_count(n as int, series@.len() as int),
        r matches Some(v) ==> forall|i: int| 0 <= i < v@.len() ==> (#[trigger] v@[i]).wf(),
{
    let len = series.len();
    if len == 0 || n <= 1 {
        return None;
    }
    let mut out: Vec<Ratio> = Vec::new();
    if n > len {
        assert(out@ =~= moving_averages(n as int, series@)->0);
        return Some(out);
    }
    let mut acc: i128 = 0;
    let mut k: usize = 0;
    while k < n
        invariant
            k <= n <= len,
            len == series@.len(),
            acc == sum(series@.subrange(0, k as int)),
        decreases n - k,
    {
        proof {
            sum_is_bounded(series@.subrange(0, k as int));
            assert(series@.subrange(0, k + 1) =~= series@.subrange(0, k as int).push(
                series@[k as int],
            ));
            sum_of_push(series@.subrange(0, k as int), series@[k as int]);
        }
        acc = acc + series[k] as i128;
        k += 1;
    }
    proof {
        window_mean_is_exact(series@, 0, n as int);
    }
    out.push(Ratio { num: acc, den: n as u64 });
    let count: usize = len - n + 1;
    let mut i: usize = 1;
    while i < count
        invariant
            1 < n <= len,
            len == series@.len(),
            count == len - n + 1,
            1 <= i <= count,
            out@.len() == i,
            acc == sum(series@.subrange(i - 1, i - 1 + n)),
            forall|j: int| 0 <= j < i ==> out@[j] == window_mean(series@, j, n as int),
            forall|j: int| 0 <= j < i ==> (#[trigger] out@[j]).wf(),
        decreases count - i,
    {
        proof {
            let before = series@.subrange(i - 1, i - 1 + n);
            let shared = series@.subrange(i as int, i - 1 + n);
            let after = series@.subrange(i as int, i + n);
            sum_of_drop_first(before);
            assert(before.drop_first() =~= shared);
            assert(after =~= shared.push(series@[i - 1 + n]));
            sum_of_push(shared, series@[i - 1 + n]);
            sum_is_bounded(shared);
            sum_is_bounded(after);
            window_mean_is_exact(series@, i as int, n as int);
        }
        acc = acc - series[i - 1] as i128;
        acc = acc + series[i - 1 + n] as i128;
        out.push(Ratio { num: acc, den: n as u64 });
        i += 1;
    }
    assert(out@ =~= moving_averages(n as int, series@)->0);
    Some(out)
}

/// The mean of a window that lies within the series is exact: its numerator
/// is the sum of the window and its denominator the window's length.
pub proof fn window_mean_is_exact(s: Seq<i64>, i: int, n: int)
    requires
        0 <= i,
        0 < n <= usize::MAX,
        i + n <= s.len(),
    ensures
        window_mean(s, i, n).wf(),
        window_mean(s, i, n).num == sum(s.subrange(i, i + n)),
        window_mean(s, i, n).den == n,
{
    sum_is_bounded(s.subrange(i, i + n));
    assert(-0x8000_0000_0000_0000 * n >= -0x8000_0000_0000_0000 * 0xffff_ffff_ffff_ffff
        && 0x7fff_ffff_ffff_ffff * n <= 0x7fff_ffff_ffff_ffff * 0xffff_ffff_ffff_ffff)
        by (nonlinear_arith)
        requires
            0 < n <= 0xffff_ffff_ffff_ffff,
    ;
}

/// A series holds `len - n + 1` windows of `n` prices where `1 < n <= len`,
/// none where `n > len`, and has no moving average where it is empty or
/// `n <= 1`.
pub proof fn moving_average_count(n: int, s: Seq<i64>)
    ensures
        (s.len() == 0 || n <= 1) <==> moving_averages(n, s) is None,
        1 < n <= s.len() ==> moving_averages(n, s)->0.len() == s.len() - n + 1,
        s.len() > 0 && n > s.len() ==> moving_averages(n, s)->0.len() == 0,
{
}

} // verus!
