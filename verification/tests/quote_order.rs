use stock_stats::quotes::{closes, normalize, sort_by_time, Quote};

fn q(timestamp: u64, close: i64) -> Quote {
    Quote { timestamp, close }
}

#[test]
fn out_of_order_quotes_give_the_series_of_ordered_ones() {
    let (t0, t1, t2) = (1_600_000_000, 1_600_003_600, 1_600_007_200);
    let shuffled = vec![q(t2, 30), q(t0, 10), q(t1, 20)];
    let sorted = vec![q(t0, 10), q(t1, 20), q(t2, 30)];
    assert_eq!(normalize(shuffled), vec![10, 20, 30]);
    assert_eq!(normalize(sorted), vec![10, 20, 30]);
}

#[test]
fn every_arrival_order_gives_the_same_series() {
    let quotes = [q(5, 50), q(1, 10), q(4, 40), q(2, 20), q(3, 30)];
    let orders: [[usize; 5]; 5] = [
        [0, 1, 2, 3, 4],
        [4, 3, 2, 1, 0],
        [2, 0, 4, 1, 3],
        [1, 3, 4, 2, 0],
        [3, 4, 0, 2, 1],
    ];
    for order in orders {
        let arrived: Vec<Quote> = order.iter().map(|i| quotes[*i]).collect();
        assert_eq!(normalize(arrived), vec![10, 20, 30, 40, 50]);
    }
}

#[test]
fn quotes_of_equal_time_keep_their_order() {
    let mut quotes = vec![q(2, 1), q(1, 2), q(2, 3), q(1, 4), q(2, 5), q(0, 6)];
    sort_by_time(&mut quotes);
    assert_eq!(
        quotes,
        vec![q(0, 6), q(1, 2), q(1, 4), q(2, 1), q(2, 3), q(2, 5)]
    );
}

#[test]
fn ordered_quotes_are_left_alone() {
    let mut quotes = vec![q(1, 9), q(1, 8), q(2, 7), q(u64::MAX, 6)];
    let before = quotes.clone();
    sort_by_time(&mut quotes);
    assert_eq!(quotes, before);
}

#[test]
fn reversed_quotes_are_turned_round() {
    let mut quotes: Vec<Quote> = (0..100u64).rev().map(|t| q(t, t as i64 * 3)).collect();
    sort_by_time(&mut quotes);
    let want: Vec<Quote> = (0..100u64).map(|t| q(t, t as i64 * 3)).collect();
    assert_eq!(quotes, want);
}

#[test]
fn no_quotes_give_an_empty_series() {
    let mut none: Vec<Quote> = vec![];
    sort_by_time(&mut none);
    assert!(none.is_empty());
    assert_eq!(normalize(vec![]), Vec::<i64>::new());
    assert_eq!(closes(&[]), Vec::<i64>::new());
}

#[test]
fn closes_are_taken_in_order() {
    assert_eq!(closes(&[q(9, -1), q(3, 7), q(9, 0)]), vec![-1, 7, 0]);
}

#[test]
fn sorting_agrees_with_a_stable_sort() {
    let mut seed: u64 = 0x2545_f491_4f6c_dd1d;
    for len in [0usize, 1, 2, 3, 7, 8, 9, 64, 100, 1000] {
        let mut quotes: Vec<Quote> = Vec::with_capacity(len);
        for k in 0..len {
            seed = seed
                .wrapping_mul(6_364_136_223_846_793_005)
                .wrapping_add(1_442_695_040_888_963_407);
            quotes.push(q((seed >> 33) % 17, k as i64));
        }
        let mut want = quotes.clone();
        want.sort_by_key(|quote| quote.timestamp);
        sort_by_time(&mut quotes);
        assert_eq!(quotes, want);
    }
}

#[test]
fn a_single_quote_is_its_own_order() {
    let mut one = vec![q(42, 7)];
    sort_by_time(&mut one);
    assert_eq!(one, vec![q(42, 7)]);
    let mut two = vec![q(2, 1), q(1, 2)];
    sort_by_time(&mut two);
    assert_eq!(two, vec![q(1, 2), q(2, 1)]);
}
