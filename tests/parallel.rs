use price_oracle::parallel::{
    api_key_for, classify_outcome, lookup_batches, order_responses, plan_lookups, split_outcomes, ApiKeys,
};
use price_oracle::types::{AggregationMethod, DataRequest, DataResponse, DataValue, PriceSource, SourcePrice};

fn keys() -> ApiKeys {
    ApiKeys { coingecko: Some("cg-key".to_string()), coinmarketcap: None, twelvedata: Some("td-key".to_string()) }
}

fn response(id: &str) -> DataResponse {
    DataResponse { id: id.to_string(), data: None, message: Some(format!("{} done", id)) }
}

#[test]
fn batch_order_is_request_order() {
    // C finished first, A last
    let tagged = vec![(2, response("C")), (1, response("B")), (0, response("A"))];
    let ordered = order_responses(tagged);
    let ids: Vec<&str> = ordered.iter().map(|r| r.id.as_str()).collect();
    assert_eq!(ids, vec!["A", "B", "C"]);
    assert_eq!(ordered[0].message.as_deref(), Some("A done"));
}

#[test]
fn batch_order_mixed() {
    let tagged = vec![(1, response("B")), (3, response("D")), (0, response("A")), (2, response("C"))];
    let ids: Vec<String> = order_responses(tagged).into_iter().map(|r| r.id).collect();
    assert_eq!(ids, vec!["A", "B", "C", "D"]);
    assert!(order_responses(Vec::new()).is_empty());
}

#[test]
fn credentials_by_source_name() {
    let k = keys();
    assert_eq!(api_key_for("coingecko", &k).as_deref(), Some("cg-key"));
    assert_eq!(api_key_for("coinmarketcap", &k), None);
    assert_eq!(api_key_for("twelvedata", &k).as_deref(), Some("td-key"));
    assert_eq!(api_key_for("binance", &k), None);
}

#[test]
fn lookups_resolve_id_and_key() {
    let req = DataRequest {
        id: "bitcoin".to_string(),
        sources: vec![
            PriceSource { name: "coingecko".to_string(), id: None, custom: None },
            PriceSource { name: "binance".to_string(), id: Some("BTCUSDT".to_string()), custom: None },
        ],
        aggregation_method: AggregationMethod::Average,
        min_sources_num: 1,
    };
    let plan = plan_lookups(&req, &keys());
    assert_eq!(plan.len(), 2);
    assert_eq!(plan[0].source_index, 0);
    assert_eq!(plan[0].source_name, "coingecko");
    assert_eq!(plan[0].id, "bitcoin");
    assert_eq!(plan[0].api_key.as_deref(), Some("cg-key"));
    assert_eq!(plan[1].source_index, 1);
    assert_eq!(plan[1].id, "BTCUSDT");
    assert_eq!(plan[1].api_key, None);
}

#[test]
fn batches_respect_limit() {
    assert_eq!(lookup_batches(5, 2), vec![(0, 2), (2, 4), (4, 5)]);
    assert_eq!(lookup_batches(4, 2), vec![(0, 2), (2, 4)]);
    assert_eq!(lookup_batches(3, 10), vec![(0, 3)]);
    assert_eq!(lookup_batches(0, 3), Vec::<(usize, usize)>::new());
    assert_eq!(lookup_batches(3, 1), vec![(0, 1), (1, 2), (2, 3)]);
}

fn price(name: &str) -> SourcePrice {
    SourcePrice { source_name: name.to_string(), value: DataValue::Number(1), timestamp: 3 }
}

#[test]
fn timeout_overrides_result() {
    let r = classify_outcome("binance", Ok(price("binance")), 10_000_000_001, 10);
    assert_eq!(r, Err("binance: Request timeout after 10 seconds".to_string()));
    let r = classify_outcome("binance", Ok(price("binance")), 10_000_000_000, 10);
    assert_eq!(r, Ok(price("binance")));
}

#[test]
fn adapter_error_is_prefixed() {
    let r = classify_outcome("huobi", Err("HTTP 502".to_string()), 5, 10);
    assert_eq!(r, Err("huobi: HTTP 502".to_string()));
}

#[test]
fn outcomes_split_in_order() {
    let results = vec![
        Err("a: HTTP 500".to_string()),
        Ok(price("b")),
        Err("c: HTTP 404".to_string()),
        Ok(price("d")),
    ];
    let (prices, errors) = split_outcomes(&results);
    assert_eq!(prices, vec![price("b"), price("d")]);
    assert_eq!(errors, vec!["a: HTTP 500".to_string(), "c: HTTP 404".to_string()]);
}
