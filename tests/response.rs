use price_oracle::response::{failed_response, validate_request};
use price_oracle::response::process_fetched_data;
use price_oracle::types::{AggregationMethod, DataRequest, DataValue, PriceSource, SourcePrice, SCALE};

fn source(name: &str) -> PriceSource {
    PriceSource { name: name.to_string(), id: None, custom: None }
}

fn request(names: &[&str], method: AggregationMethod, min: usize) -> DataRequest {
    DataRequest {
        id: "near_price".to_string(),
        sources: names.iter().map(|n| source(n)).collect(),
        aggregation_method: method,
        min_sources_num: min,
    }
}

fn reading(name: &str, value: DataValue, ts: u64) -> SourcePrice {
    SourcePrice { source_name: name.to_string(), value, timestamp: ts }
}

#[test]
fn quorum_failure_reports_count_and_errors() {
    let req = request(&["binance", "huobi", "kucoin"], AggregationMethod::Average, 2);
    let readings = vec![reading("binance", DataValue::Number(5 * SCALE), 10)];
    let errors = vec!["huobi: HTTP 500".to_string(), "kucoin: Request timeout after 10 seconds".to_string()];
    let r = process_fetched_data(req, readings, errors, 5 * SCALE);
    assert_eq!(r.id, "near_price");
    assert!(r.data.is_none());
    assert_eq!(
        r.message.as_deref(),
        Some("Not enough sources responded (1/2). Errors: huobi: HTTP 500, kucoin: Request timeout after 10 seconds")
    );
}

#[test]
fn passthrough_boolean() {
    let req = request(&["custom"], AggregationMethod::Average, 1);
    let readings = vec![reading("custom", DataValue::Boolean(true), 77)];
    let r = process_fetched_data(req, readings, Vec::new(), 5 * SCALE);
    let data = r.data.expect("result");
    assert_eq!(data.value, DataValue::Boolean(true));
    assert_eq!(data.timestamp, 77);
    assert_eq!(data.sources, vec!["custom".to_string()]);
    assert_eq!(r.message, None);
}

#[test]
fn passthrough_text_takes_first_reading() {
    let req = request(&["custom", "custom"], AggregationMethod::Median, 1);
    let readings = vec![
        reading("custom", DataValue::Text("alice.near".to_string()), 5),
        reading("custom", DataValue::Text("bob.near".to_string()), 9),
    ];
    let errors = vec!["custom: HTTP 404".to_string()];
    let r = process_fetched_data(req, readings, errors, 0);
    let data = r.data.expect("result");
    assert_eq!(data.value, DataValue::Text("alice.near".to_string()));
    assert_eq!(data.timestamp, 9);
    assert_eq!(r.message.as_deref(), Some("custom: HTTP 404"));
}

#[test]
fn deviation_failure_message() {
    let req = request(&["binance", "huobi"], AggregationMethod::Average, 1);
    let readings = vec![
        reading("binance", DataValue::Number(100 * SCALE), 1),
        reading("huobi", DataValue::Number(105 * SCALE), 2),
    ];
    let r = process_fetched_data(req, readings, Vec::new(), SCALE);
    assert!(r.data.is_none());
    assert_eq!(r.message.as_deref(), Some("Price deviation too high: 5.00% (max: 1.00%)"));
}

#[test]
fn zero_price_fails_guard_below_hundred() {
    let req = request(&["a", "b"], AggregationMethod::Average, 1);
    let readings = vec![
        reading("a", DataValue::Number(0), 1),
        reading("b", DataValue::Number(5 * SCALE), 2),
    ];
    let r = process_fetched_data(req, readings, Vec::new(), 99 * SCALE);
    assert_eq!(r.message.as_deref(), Some("Price deviation too high: 100.00% (max: 99.00%)"));
}

#[test]
fn numeric_result_with_details() {
    let req = request(&["binance", "coingecko"], AggregationMethod::Average, 1);
    let readings = vec![
        reading("binance", DataValue::Number(100 * SCALE), 1_700_000_005),
        reading("coingecko", DataValue::Number(102 * SCALE), 1_700_000_001),
    ];
    let r = process_fetched_data(req, readings, Vec::new(), 5 * SCALE);
    let data = r.data.expect("result");
    assert_eq!(data.value, DataValue::Number(101 * SCALE));
    assert_eq!(data.timestamp, 1_700_000_005);
    assert_eq!(data.sources, vec!["binance".to_string(), "coingecko".to_string()]);
    assert_eq!(
        r.message.as_deref(),
        Some("binance: 100.000000, coingecko: 102.000000, avg: 101.000000")
    );
}

#[test]
fn numeric_result_with_details_and_errors() {
    let req = request(&["binance", "coingecko", "kucoin"], AggregationMethod::Median, 2);
    let readings = vec![
        reading("coingecko", DataValue::Number(2_500_000_000), 3),
        reading("binance", DataValue::Number(2_400_000_000), 4),
    ];
    let errors = vec!["kucoin: Price not found in response".to_string()];
    let r = process_fetched_data(req, readings, errors, 10 * SCALE);
    let data = r.data.expect("result");
    assert_eq!(data.value, DataValue::Number(2_450_000_000));
    assert_eq!(
        r.message.as_deref(),
        Some("coingecko: 2.500000, binance: 2.400000, median: 2.450000. Errors: kucoin: Price not found in response")
    );
}

#[test]
fn single_numeric_reading_has_no_detail_line() {
    let req = request(&["binance", "huobi"], AggregationMethod::WeightedAvg, 1);
    let readings = vec![reading("binance", DataValue::Number(7 * SCALE), 1)];
    let errors = vec!["huobi: HTTP 503".to_string()];
    let r = process_fetched_data(req, readings, errors, 0);
    assert_eq!(r.data.expect("result").value, DataValue::Number(7 * SCALE));
    assert_eq!(r.message.as_deref(), Some("huobi: HTTP 503"));
}

#[test]
fn same_readings_same_response() {
    let make = || {
        let req = request(&["binance", "coingecko", "gate"], AggregationMethod::Average, 2);
        let readings = vec![
            reading("binance", DataValue::Number(3 * SCALE), 1),
            reading("coingecko", DataValue::Number(3_030_000_000), 2),
        ];
        let errors = vec!["gate: HTTP 429".to_string()];
        process_fetched_data(req, readings, errors, 5 * SCALE)
    };
    let first = make();
    let second = make();
    assert_eq!(first, second);
    assert_eq!(format!("{:?}", first), format!("{:?}", second));
}

#[test]
fn boolean_counts_once_a_number_is_present() {
    let req = request(&["a", "b"], AggregationMethod::Average, 1);
    let readings = vec![
        reading("a", DataValue::Number(SCALE), 1),
        reading("b", DataValue::Boolean(true), 2),
    ];
    let r = process_fetched_data(req, readings, Vec::new(), 0);
    assert_eq!(r.data.expect("result").value, DataValue::Number(SCALE));
    assert_eq!(r.message.as_deref(), Some("a: 1.000000, b: 1.000000, avg: 1.000000"));
}

#[test]
fn single_reading_passes_any_threshold() {
    let req = request(&["binance"], AggregationMethod::Average, 1);
    let readings = vec![reading("binance", DataValue::Number(5 * SCALE), 1)];
    let r = process_fetched_data(req, readings, Vec::new(), -SCALE);
    assert_eq!(r.data.expect("result").value, DataValue::Number(5 * SCALE));
    assert_eq!(r.message, None);
}

#[test]
fn guard_uses_reported_deviation() {
    // 3 and 3.000000001: a deviation of 0.000000033 percent once rounded
    let readings = || {
        vec![
            reading("a", DataValue::Number(3 * SCALE), 1),
            reading("b", DataValue::Number(3 * SCALE + 1), 2),
        ]
    };
    let req = request(&["a", "b"], AggregationMethod::Average, 1);
    assert!(process_fetched_data(req, readings(), Vec::new(), 33).data.is_some());
    let req = request(&["a", "b"], AggregationMethod::Average, 1);
    let r = process_fetched_data(req, readings(), Vec::new(), 32);
    assert!(r.data.is_none());
    assert_eq!(r.message.as_deref(), Some("Price deviation too high: 0.00% (max: 0.00%)"));
}

#[test]
fn request_checks_and_failures() {
    assert_eq!(validate_request(&request(&["a"], AggregationMethod::Average, 1)), Ok(()));
    assert_eq!(
        validate_request(&request(&["a"], AggregationMethod::Average, 0)),
        Err("Invalid request: min_sources_num must be at least 1".to_string())
    );
    let r = failed_response(&"eth".to_string(), "Request processing failed");
    assert_eq!(r.id, "eth");
    assert!(r.data.is_none());
    assert_eq!(r.message.as_deref(), Some("Request processing failed"));
}
