//! Combining numeric readings into one value, and the deviation guard.

use vstd::prelude::*;
use vstd::relations::{sorted_by, total_ordering};
use vstd::seq_lib::lemma_sorted_unique;
use vstd::arithmetic::div_mod::{lemma_fundamental_div_mod, lemma_fundamental_div_mod_converse};
use crate::types::{AggregationMethod, ReadingView, SourcePrice, SCALE, readings_view};

verus! {

/// The numbers among the readings, in order; texts are skipped.
pub open spec fn numbers(rs: Seq<ReadingView>) -> Seq<i64>
    decreases rs.len(),
{
    if rs.len() == 0 {
        Seq::<i64>::empty()
    } else {
        match rs.last().value.number() {
            Some(n) => numbers(rs.drop_last()).push(n),
            None => numbers(rs.drop_last()),
        }
    }
}

pub open spec fn sum(s: Seq<i64>) -> int
    decreases s.len(),
{
    if s.len() == 0 {
        0
    } else {
        sum(s.drop_last()) + s.last()
    }
}

/// The arithmetic mean, rounded down to the fixed-point grid.
pub open spec fn mean(s: Seq<i64>) -> int {
    sum(s) / (s.len() as int)
}

pub open spec fn le(a: i64, b: i64) -> bool {
    a <= b
}

/// The values in ascending order.
pub open spec fn sorted(s: Seq<i64>) -> Seq<i64> {
    s.sort_by(|a: i64, b: i64| le(a, b))
}

/// The middle of a sorted, non-empty sequence: the middle element for odd
/// length, the mean of the two central ones (rounded down) for even length.
pub open spec fn middle(t: Seq<i64>) -> int {
    let n = t.len() as int;
    if n % 2 == 0 {
        (t[n / 2 - 1] + t[n / 2]) / 2
    } else {
        t[n / 2] as int
    }
}

/// The median of the values.
pub open spec fn median(s: Seq<i64>) -> int {
    middle(sorted(s))
}

/// The value that `method` makes of a non-empty sequence of numbers.
pub open spec fn aggregate(s: Seq<i64>, method: AggregationMethod) -> int {
    match method {
        AggregationMethod::Average => mean(s),
        AggregationMethod::Median => median(s),
        AggregationMethod::WeightedAvg => mean(s),
    }
}

pub open spec fn min_of(s: Seq<i64>) -> int
    decreases s.len(),
{
    if s.len() <= 1 {
        s[0] as int
    } else if s.last() < min_of(s.drop_last()) {
        s.last() as int
    } else {
        min_of(s.drop_last())
    }
}

pub open spec fn max_of(s: Seq<i64>) -> int
    decreases s.len(),
{
    if s.len() <= 1 {
        s[0] as int
    } else if s.last() > max_of(s.drop_last()) {
        s.last() as int
    } else {
        max_of(s.drop_last())
    }
}

/// The spread of the values, in percent of the least one (fixed-point,
/// rounded toward zero): zero for fewer than two values, a hundred percent
/// when the least value is zero.
pub open spec fn deviation(s: Seq<i64>) -> int {
    if s.len() < 2 {
        0
    } else if min_of(s) == 0 {
        100 * SCALE
    } else if min_of(s) > 0 {
        (max_of(s) - min_of(s)) * 100 * SCALE / min_of(s)
    } else {
        -((max_of(s) - min_of(s)) * 100 * SCALE / -min_of(s))
    }
}

/// Whether the guard rejects the values for the largest accepted deviation
/// `max_dev` (fixed-point percent): never for fewer than two values;
/// otherwise when their deviation exceeds `max_dev`.
pub open spec fn guard_rejects(s: Seq<i64>, max_dev: int) -> bool {
    s.len() >= 2 && deviation(s) > max_dev
}

proof fn lemma_le_total()
    ensures
        total_ordering(|a: i64, b: i64| le(a, b)),
{
}

/// The median of an already sorted sequence is its middle.
pub proof fn lemma_median_of_sorted(s: Seq<i64>)
    requires
        sorted_by(s, |a: i64, b: i64| le(a, b)),
    ensures
        median(s) == middle(s),
{
    lemma_le_total();
    s.lemma_sort_by_ensures(|a: i64, b: i64| le(a, b));
    lemma_sorted_unique(s, sorted(s), |a: i64, b: i64| le(a, b));
}

/// The median of a sorted sequence of odd length is its middle element; of
/// even length, the mean of its two central elements.
pub proof fn median_law(s: Seq<i64>)
    requires
        s.len() > 0,
        sorted_by(s, |a: i64, b: i64| le(a, b)),
    ensures
        s.len() % 2 == 1 ==> median(s) == s[(s.len() / 2) as int],
        s.len() % 2 == 0 ==> median(s) == (s[s.len() / 2 - 1] + s[(s.len() / 2) as int]) / 2,
{
    lemma_median_of_sorted(s);
}

/// With equal weights, the weighted average of any readings is their average.
pub proof fn weighted_average_law(rs: Seq<ReadingView>)
    ensures
        aggregate(numbers(rs), AggregationMethod::WeightedAvg) == aggregate(
            numbers(rs),
            AggregationMethod::Average,
        ),
{
}

/// Fewer than two numeric readings never fail the guard, whatever threshold
/// it is given, and their deviation is zero.
pub proof fn single_reading_law(rs: Seq<ReadingView>, threshold: int)
    requires
        numbers(rs).len() < 2,
    ensures
        !guard_rejects(numbers(rs), threshold),
        deviation(numbers(rs)) == 0,
{
}

/// When the least of two or more numeric readings is zero, the deviation is
/// a hundred percent, so the guard fails every threshold below that.
pub proof fn zero_minimum_law(rs: Seq<ReadingView>, threshold: int)
    requires
        numbers(rs).len() >= 2,
        min_of(numbers(rs)) == 0,
        threshold < 100 * SCALE,
    ensures
        deviation(numbers(rs)) == 100 * SCALE,
        guard_rejects(numbers(rs), threshold),
{
}

/// `x / d` for a positive `d`, rounded down.
pub fn floor_div(x: i128, d: i128) -> (r: i128)
    requires
        d > 0,
        x > i128::MIN,
    ensures
        r == x / d,
{
    if x >= 0 {
        x / d
    } else {
        let m: i128 = -x;
        let q0: i128 = m / d;
        proof {
            lemma_fundamental_div_mod(m as int, d as int);
        }
        let rm: i128 = m % d;
        proof {
            let q = q0 as int;
            if rm == 0 {
                assert(x == (-q) * d + 0) by (nonlinear_arith)
                    requires
                        m == d * q + rm,
                        rm == 0,
                        x == -m,
                ;
                lemma_fundamental_div_mod_converse(x as int, d as int, -q, 0);
            } else {
                assert(x == (-q - 1) * d + (d - rm)) by (nonlinear_arith)
                    requires
                        m == d * q + rm,
                        x == -m,
                ;
                lemma_fundamental_div_mod_converse(x as int, d as int, -q - 1, d - rm);
            }
        }
        if rm == 0 {
            -q0
        } else {
            -q0 - 1
        }
    }
}

/// The numeric values of the readings, in order.
pub fn numeric_values(prices: &[SourcePrice]) -> (r: Vec<i64>)
    ensures
        r@ == numbers(readings_view(prices@)),
{
    let mut r: Vec<i64> = Vec::new();
    let mut i: usize = 0;
    while i < prices.len()
        invariant
            0 <= i <= prices.len(),
            r@ == numbers(readings_view(prices@).take(i as int)),
        decreases prices.len() - i,
    {
        assert(readings_view(prices@).take(i + 1).drop_last() =~= readings_view(prices@).take(
            i as int,
        ));
        match prices[i].value.as_number() {
            Some(n) => r.push(n),
            None => {},
        }
        i = i + 1;
    }
    assert(readings_view(prices@).take(prices.len() as int) =~= readings_view(prices@));
    r
}

fn mean_of(v: &Vec<i64>) -> (r: i64)
    requires
        v.len() > 0,
    ensures
        r == mean(v@),
{
    let mut total: i128 = 0;
    let mut i: usize = 0;
    while i < v.len()
        invariant
            0 <= i <= v.len(),
            total == sum(v@.take(i as int)),
            -(i as int) * 0x8000_0000_0000_0000 <= total <= (i as int) * 0x7fff_ffff_ffff_ffff,
        decreases v.len() - i,
    {
        assert(v@.take(i + 1).drop_last() =~= v@.take(i as int));
        total = total + v[i] as i128;
        i = i + 1;
    }
    assert(v@.take(v.len() as int) =~= v@);
    let n = v.len() as i128;
    let q = floor_div(total, n);
    proof {
        let t = total as int;
        let ni = n as int;
        let qi = q as int;
        let rem = t % ni;
        lemma_fundamental_div_mod(t, ni);
        assert(-0x8000_0000_0000_0000 <= qi <= 0x7fff_ffff_ffff_ffff) by (nonlinear_arith)
            requires
                t == ni * qi + rem,
                0 <= rem < ni,
                -ni * 0x8000_0000_0000_0000 <= t <= ni * 0x7fff_ffff_ffff_ffff,
                ni > 0,
        ;
    }
    q as i64
}

/// Relies on slice::sort_unstable: afterwards the elements are in ascending
/// order, and they are the same elements.
#[verifier::external_body]
fn sort_ascending(v: &mut Vec<i64>)
    ensures
        sorted_by(final(v)@, |a: i64, b: i64| le(a, b)),
        final(v)@.to_multiset() == old(v)@.to_multiset(),
        final(v)@.len() == old(v)@.len(),
{
    v.sort_unstable();
}

fn median_of(v: &mut Vec<i64>) -> (r: i64)
    requires
        old(v).len() > 0,
    ensures
        r == median(old(v)@),
{
    let ghost orig = v@;
    sort_ascending(v);
    proof {
        lemma_le_total();
        orig.lemma_sort_by_ensures(|a: i64, b: i64| le(a, b));
        lemma_sorted_unique(v@, sorted(orig), |a: i64, b: i64| le(a, b));
        assert(v@ == sorted(orig));
    }
    let len = v.len();
    if len % 2 == 0 {
        let a = v[len / 2 - 1] as i128;
        let b = v[len / 2] as i128;
        let m = floor_div(a + b, 2);
        proof {
            let t = (a + b) as int;
            lemma_fundamental_div_mod(t, 2);
        }
        m as i64
    } else {
        v[len / 2]
    }
}

/// Arithmetic mean of the numeric readings.
pub fn calculate_average(prices: &[SourcePrice]) -> (r: Result<i64, String>)
    ensures
        numbers(readings_view(prices@)).len() == 0 ==> (r matches Err(e) && e@
            == "No numeric values to aggregate"@),
        numbers(readings_view(prices@)).len() > 0 ==> (r matches Ok(x) && x == mean(
            numbers(readings_view(prices@)),
        )),
{
    let numbers = numeric_values(prices);
    if numbers.len() == 0 {
        return Err(String::from_str("No numeric values to aggregate"));
    }
    Ok(mean_of(&numbers))
}

/// Median of the numeric readings.
pub fn calculate_median(prices: &[SourcePrice]) -> (r: Result<i64, String>)
    ensures
        numbers(readings_view(prices@)).len() == 0 ==> (r matches Err(e) && e@
            == "No numeric values to aggregate"@),
        numbers(readings_view(prices@)).len() > 0 ==> (r matches Ok(x) && x == median(
            numbers(readings_view(prices@)),
        )),
{
    let mut numbers = numeric_values(prices);
    if numbers.len() == 0 {
        return Err(String::from_str("No numeric values to aggregate"));
    }
    Ok(median_of(&mut numbers))
}

/// Weighted mean of the numeric readings; all weights are equal.
pub fn calculate_weighted_average(prices: &[SourcePrice]) -> (r: Result<i64, String>)
    ensures
        numbers(readings_view(prices@)).len() == 0 ==> (r matches Err(e) && e@
            == "No numeric values to aggregate"@),
        numbers(readings_view(prices@)).len() > 0 ==> (r matches Ok(x) && x == mean(
            numbers(readings_view(prices@)),
        )),
{
    calculate_average(prices)
}

/// Combines the numeric readings by `method`. Fails exactly when there is no
/// numeric reading.
pub fn aggregate_prices(prices: &[SourcePrice], method: &AggregationMethod) -> (r: Result<
    i64,
    String,
>)
    ensures
        prices@.len() == 0 ==> (r matches Err(e) && e@ == "No prices to aggregate"@),
        prices@.len() > 0 && numbers(readings_view(prices@)).len() == 0 ==> (r matches Err(e)
            && e@ == "No numeric values to aggregate"@),
        numbers(readings_view(prices@)).len() > 0 ==> (r matches Ok(x) && x == aggregate(
            numbers(readings_view(prices@)),
            *method,
        )),
{
    if prices.len() == 0 {
        return Err(String::from_str("No prices to aggregate"));
    }
    match method {
        AggregationMethod::Average => calculate_average(prices),
        AggregationMethod::Median => calculate_median(prices),
        AggregationMethod::WeightedAvg => calculate_weighted_average(prices),
    }
}

/// The least and the greatest of non-empty values.
fn min_max(numbers: &Vec<i64>) -> (r: (i64, i64))
    requires
        numbers.len() >= 1,
    ensures
        r.0 == min_of(numbers@),
        r.1 == max_of(numbers@),
{
    let mut min_price: i64 = numbers[0];
    let mut max_price: i64 = numbers[0];
    let mut i: usize = 1;
    while i < numbers.len()
        invariant
            1 <= i <= numbers.len(),
            min_price == min_of(numbers@.take(i as int)),
            max_price == max_of(numbers@.take(i as int)),
        decreases numbers.len() - i,
    {
        assert(numbers@.take(i + 1).drop_last() =~= numbers@.take(i as int));
        let price = numbers[i];
        if price < min_price {
            min_price = price;
        }
        if price > max_price {
            max_price = price;
        }
        i = i + 1;
    }
    assert(numbers@.take(numbers.len() as int) =~= numbers@);
    (min_price, max_price)
}

/// Spread between the least and the greatest numeric reading, in percent of
/// the least (fixed-point).
pub fn calculate_price_deviation(prices: &[SourcePrice]) -> (r: i128)
    ensures
        r == deviation(numbers(readings_view(prices@))),
{
    let numbers = numeric_values(prices);
    if numbers.len() < 2 {
        return 0;
    }
    let (min_price, max_price) = min_max(&numbers);
    if min_price == 0 {
        return 100 * (SCALE as i128);
    }
    let spread: i128 = (max_price as i128 - min_price as i128) * 100 * (SCALE as i128);
    if min_price > 0 {
        floor_div(spread, min_price as i128)
    } else {
        let d: i128 = -(min_price as i128);
        -(spread / d)
    }
}

} // verus!
