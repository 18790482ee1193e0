use price_oracle::aggregation::{calculate_average, calculate_median, calculate_weighted_average};
use price_oracle::aggregation::{aggregate_prices, calculate_price_deviation, numeric_values};
use price_oracle::types::{AggregationMethod, DataValue, SourcePrice, SCALE};

fn reading(name: &str, value: DataValue) -> SourcePrice {
    SourcePrice { source_name: name.to_string(), value, timestamp: 1_700_000_000 }
}

fn numbers(values: &[i64]) -> Vec<SourcePrice> {
    values.iter().map(|v| reading("s", DataValue::Number(v * SCALE))).collect()
}

#[test]
fn average_of_three() {
    let prices = numbers(&[10, 20, 30]);
    assert_eq!(aggregate_prices(&prices, &AggregationMethod::Average), Ok(20 * SCALE));
}

#[test]
fn weighted_average_equals_average() {
    let prices = numbers(&[10, 20, 30]);
    let avg = aggregate_prices(&prices, &AggregationMethod::Average);
    let weighted = aggregate_prices(&prices, &AggregationMethod::WeightedAvg);
    assert_eq!(weighted, avg);
    let uneven = numbers(&[1, 2, 4]);
    assert_eq!(
        aggregate_prices(&uneven, &AggregationMethod::WeightedAvg),
        aggregate_prices(&uneven, &AggregationMethod::Average)
    );
}

#[test]
fn average_rounds_down() {
    let prices = vec![
        reading("a", DataValue::Number(1)),
        reading("b", DataValue::Number(2)),
    ];
    assert_eq!(aggregate_prices(&prices, &AggregationMethod::Average), Ok(1));
    let negative = vec![
        reading("a", DataValue::Number(-1)),
        reading("b", DataValue::Number(-2)),
    ];
    assert_eq!(aggregate_prices(&negative, &AggregationMethod::Average), Ok(-2));
}

#[test]
fn median_odd_count() {
    let prices = numbers(&[1, 2, 3]);
    assert_eq!(aggregate_prices(&prices, &AggregationMethod::Median), Ok(2 * SCALE));
}

#[test]
fn median_even_count() {
    let prices = numbers(&[1, 2, 3, 4]);
    assert_eq!(aggregate_prices(&prices, &AggregationMethod::Median), Ok(2_500_000_000));
}

#[test]
fn median_sorts_first() {
    let prices = numbers(&[30, 10, 20]);
    assert_eq!(aggregate_prices(&prices, &AggregationMethod::Median), Ok(20 * SCALE));
    let prices = numbers(&[4, 1, 3, 2]);
    assert_eq!(aggregate_prices(&prices, &AggregationMethod::Median), Ok(2_500_000_000));
}

#[test]
fn median_resists_outlier() {
    let prices = numbers(&[100, 101, 5000]);
    assert_eq!(aggregate_prices(&prices, &AggregationMethod::Median), Ok(101 * SCALE));
}

#[test]
fn booleans_count_as_one_and_zero() {
    let prices = vec![
        reading("a", DataValue::Boolean(true)),
        reading("b", DataValue::Boolean(false)),
        reading("c", DataValue::Text("x".to_string())),
    ];
    assert_eq!(numeric_values(&prices), vec![SCALE, 0]);
    assert_eq!(aggregate_prices(&prices, &AggregationMethod::Average), Ok(SCALE / 2));
}

#[test]
fn aggregate_empty_fails() {
    let prices: Vec<SourcePrice> = Vec::new();
    assert_eq!(
        aggregate_prices(&prices, &AggregationMethod::Average),
        Err("No prices to aggregate".to_string())
    );
}

#[test]
fn aggregate_text_only_fails() {
    let prices = vec![reading("a", DataValue::Text("hello".to_string()))];
    for method in [AggregationMethod::Average, AggregationMethod::Median, AggregationMethod::WeightedAvg] {
        assert_eq!(
            aggregate_prices(&prices, &method),
            Err("No numeric values to aggregate".to_string())
        );
    }
}

#[test]
fn deviation_five_percent() {
    let prices = numbers(&[100, 105]);
    assert_eq!(calculate_price_deviation(&prices), 5 * SCALE as i128);
}

#[test]
fn deviation_zero_minimum_is_hundred() {
    let prices = numbers(&[0, 5]);
    assert_eq!(calculate_price_deviation(&prices), 100 * SCALE as i128);
}

#[test]
fn deviation_single_reading_is_zero() {
    let prices = numbers(&[42]);
    assert_eq!(calculate_price_deviation(&prices), 0);
    let none: Vec<SourcePrice> = Vec::new();
    assert_eq!(calculate_price_deviation(&none), 0);
}

#[test]
fn deviation_ignores_text_and_order() {
    let prices = vec![
        reading("a", DataValue::Number(110 * SCALE)),
        reading("b", DataValue::Text("n/a".to_string())),
        reading("c", DataValue::Number(100 * SCALE)),
        reading("d", DataValue::Number(105 * SCALE)),
    ];
    assert_eq!(calculate_price_deviation(&prices), 10 * SCALE as i128);
}

#[test]
fn deviation_negative_minimum() {
    let prices = numbers(&[-4, 2]);
    assert_eq!(calculate_price_deviation(&prices), -150 * SCALE as i128);
}

#[test]
fn median_functions_directly() {
    assert_eq!(calculate_median(&numbers(&[3, 1, 2])), Ok(2 * SCALE));
    assert_eq!(calculate_median(&numbers(&[1, 2, 3, 4])), Ok(2_500_000_000));
    assert_eq!(calculate_average(&numbers(&[10, 20, 30])), Ok(20 * SCALE));
    assert_eq!(calculate_weighted_average(&numbers(&[10, 20, 30])), Ok(20 * SCALE));
}
