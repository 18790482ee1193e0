use price_oracle::sources::{
    check_status, combine_quotes, custom_request, method_of, mid_price, provider_request, source_kind, split_pair,
    HttpMethod, SourceKind,
};
use price_oracle::types::{default_aggregation_method, default_http_method, default_min_sources, AggregationMethod, CustomSourceConfig, ValueType};

#[test]
fn routing() {
    assert_eq!(source_kind("binance", false), Ok(SourceKind::Binance));
    assert_eq!(source_kind("exchangerate-api", false), Ok(SourceKind::ExchangeRateApi));
    assert_eq!(source_kind("custom", true), Ok(SourceKind::Custom));
    assert_eq!(source_kind("custom", false), Err("Custom source requires 'custom' config".to_string()));
    assert_eq!(source_kind("bitstamp", false), Err("Unknown source: bitstamp".to_string()));
}

#[test]
fn statuses() {
    assert_eq!(check_status(200), Ok(()));
    assert_eq!(check_status(299), Ok(()));
    assert_eq!(check_status(404), Err("HTTP 404".to_string()));
    assert_eq!(check_status(199), Err("HTTP 199".to_string()));
    assert_eq!(check_status(300), Err("HTTP 300".to_string()));
}

#[test]
fn provider_urls() {
    let q = provider_request(SourceKind::CoinGecko, "near", &None).unwrap();
    assert_eq!(q.url, "https://api.coingecko.com/api/v3/simple/price?ids=near&vs_currencies=usd");
    let q = provider_request(SourceKind::CoinGecko, "near", &Some("k".to_string())).unwrap();
    assert_eq!(q.url, "https://api.coingecko.com/api/v3/simple/price?ids=near&vs_currencies=usd&x_cg_pro_api_key=k");
    let q = provider_request(SourceKind::Binance, "BTCUSDT", &None).unwrap();
    assert_eq!(q.url, "https://api.binance.com/api/v3/ticker/price?symbol=BTCUSDT");
    assert_eq!(q.method, HttpMethod::Get);
    assert!(q.headers.is_empty());
    let q = provider_request(SourceKind::ExchangeRateApi, "EUR/USD", &None).unwrap();
    assert_eq!(q.url, "https://open.er-api.com/v6/latest/EUR");
}

#[test]
fn coinmarketcap_needs_key() {
    assert_eq!(
        provider_request(SourceKind::CoinMarketCap, "BTC", &None).err(),
        Some("CoinMarketCap requires API key".to_string())
    );
    let q = provider_request(SourceKind::CoinMarketCap, "BTC", &Some("abc".to_string())).unwrap();
    assert_eq!(q.url, "https://pro-api.coinmarketcap.com/v1/cryptocurrency/quotes/latest?symbol=BTC&convert=USD");
    assert_eq!(q.headers, vec![("X-CMC_PRO_API_KEY".to_string(), "abc".to_string())]);
}

#[test]
fn forex_pairs() {
    assert_eq!(split_pair("EUR/USD"), Some(("EUR".to_string(), "USD".to_string())));
    assert_eq!(split_pair("EURUSD"), None);
    assert_eq!(split_pair("A/B/C"), None);
    assert_eq!(
        provider_request(SourceKind::ExchangeRateApi, "EURUSD", &None).err(),
        Some("Invalid forex pair format: EURUSD. Expected BASE/TARGET (e.g. EUR/USD)".to_string())
    );
}

fn config(method: &str) -> CustomSourceConfig {
    CustomSourceConfig {
        url: "https://example.org/data".to_string(),
        json_path: "data.price".to_string(),
        value_type: ValueType::default(),
        method: method.to_string(),
        headers: vec![("Accept".to_string(), "application/json".to_string())],
        body: None,
    }
}

#[test]
fn custom_requests() {
    let q = custom_request(&config("post"), &None).unwrap();
    assert_eq!(q.method, HttpMethod::Post);
    assert_eq!(q.url, "https://example.org/data");
    assert_eq!(q.headers, vec![("Accept".to_string(), "application/json".to_string())]);
    let q = custom_request(&config("Get"), &Some("t0k".to_string())).unwrap();
    assert_eq!(q.method, HttpMethod::Get);
    assert_eq!(q.headers[1], ("Authorization".to_string(), "Bearer t0k".to_string()));
    assert_eq!(custom_request(&config("PATCH"), &None).err(), Some("Unsupported HTTP method: PATCH".to_string()));
    assert_eq!(method_of("DELETE", "delete"), Err("Unsupported HTTP method: delete".to_string()));
}

#[test]
fn quotes() {
    assert_eq!(combine_quotes(Some(3), Some(6), Some(9)), Some(6));
    assert_eq!(combine_quotes(Some(3), Some(6), None), Some(4));
    assert_eq!(combine_quotes(Some(3), None, Some(9)), Some(9));
    assert_eq!(combine_quotes(None, None, None), None);
    assert_eq!(mid_price(Some(10), Some(20)), Some(15));
    assert_eq!(mid_price(Some(10), None), None);
}

#[test]
fn defaults() {
    assert_eq!(default_http_method(), "GET");
    assert_eq!(default_aggregation_method(), AggregationMethod::Average);
    assert_eq!(default_min_sources(), 1);
    assert_eq!(ValueType::default(), ValueType::Number);
}
