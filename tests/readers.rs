use price_oracle::readers::{read_custom, read_provider, read_pyth};
use price_oracle::sources::SourceKind;
use price_oracle::tree::JsonTree;
use price_oracle::types::{CustomSourceConfig, DataValue, ValueType, SCALE};

fn obj(entries: Vec<(&str, JsonTree)>) -> JsonTree {
    JsonTree::Object(entries.into_iter().map(|(k, v)| (k.to_string(), v)).collect(), "{}".to_string())
}

fn num(v: i64) -> JsonTree {
    JsonTree::Number(Some(v), v.to_string())
}

fn text(s: &str) -> JsonTree {
    JsonTree::Text(s.to_string())
}

#[test]
fn coingecko_answer() {
    let json = obj(vec![("near", obj(vec![("usd", num(5 * SCALE))]))]);
    let p = read_provider(SourceKind::CoinGecko, &json, "near", 1000).unwrap();
    assert_eq!(p.source_name, "coingecko");
    assert_eq!(p.value, DataValue::Number(5 * SCALE));
    assert_eq!(p.timestamp, 1000);
    assert_eq!(
        read_provider(SourceKind::CoinGecko, &json, "bitcoin", 1000).err(),
        Some("Price not found in response".to_string())
    );
}

#[test]
fn binance_answer_is_text() {
    let json = obj(vec![("price", text("43250.12000000"))]);
    let p = read_provider(SourceKind::Binance, &json, "BTCUSDT", 7).unwrap();
    assert_eq!(p.value, DataValue::Number(43_250_120_000_000));
    let bad = obj(vec![("price", text("n/a"))]);
    assert_eq!(read_provider(SourceKind::Binance, &bad, "BTCUSDT", 7).err(), Some("Price not found in response".to_string()));
}

#[test]
fn huobi_midpoint() {
    let tick = obj(vec![
        ("bid", JsonTree::Array(vec![num(10 * SCALE), num(1)], "[]".to_string())),
        ("ask", JsonTree::Array(vec![num(12 * SCALE)], "[]".to_string())),
    ]);
    let json = obj(vec![("tick", tick)]);
    assert_eq!(read_provider(SourceKind::Huobi, &json, "btcusdt", 1).unwrap().value, DataValue::Number(11 * SCALE));
    let empty = obj(vec![]);
    assert_eq!(read_provider(SourceKind::Huobi, &empty, "btcusdt", 1).err(), Some("Bid/Ask not found in response".to_string()));
}

#[test]
fn gate_answers() {
    let ok = obj(vec![
        ("result", text("true")),
        ("highestBid", text("3")),
        ("lowestAsk", text("6")),
        ("last", text("9")),
    ]);
    assert_eq!(read_provider(SourceKind::Gate, &ok, "btc_usdt", 1).unwrap().value, DataValue::Number(6 * SCALE));
    let refused = obj(vec![("result", text("false"))]);
    assert_eq!(
        read_provider(SourceKind::Gate, &refused, "btc_usdt", 1).err(),
        Some("Gate.io API returned unsuccessful result".to_string())
    );
}

#[test]
fn exchange_rate_answer() {
    let json = obj(vec![("rates", obj(vec![("USD", num(1_054_200_000))]))]);
    assert_eq!(read_provider(SourceKind::ExchangeRateApi, &json, "EUR/USD", 2).unwrap().value, DataValue::Number(1_054_200_000));
    assert_eq!(read_provider(SourceKind::ExchangeRateApi, &json, "EUR/JPY", 2).err(), Some("Rate not found for JPY".to_string()));
}

fn pyth(mantissa: &str, expo: i64, published: i64) -> JsonTree {
    let price = obj(vec![("price", text(mantissa)), ("expo", num(expo * SCALE)), ("publish_time", num(published * SCALE))]);
    let entry = obj(vec![("price", price)]);
    obj(vec![("parsed", JsonTree::Array(vec![entry], "[]".to_string()))])
}

#[test]
fn pyth_answers() {
    let p = read_pyth(&pyth("6140993501", -8, 1_700_000_000), 1_700_000_030).unwrap();
    assert_eq!(p.value, DataValue::Number(61_409_935_010));
    assert_eq!(p.timestamp, 1_700_000_000);
    assert_eq!(p.source_name, "pyth");
    assert_eq!(
        read_pyth(&pyth("6140993501", -8, 1_700_000_000), 1_700_000_200).err(),
        Some("Pyth price is stale (published 200 seconds ago)".to_string())
    );
    assert_eq!(read_pyth(&obj(vec![]), 0).err(), Some("Price data not found".to_string()));
}

#[test]
fn custom_answer() {
    let config = CustomSourceConfig {
        url: "https://example.org".to_string(),
        json_path: "data.ok".to_string(),
        value_type: ValueType::Boolean,
        method: "GET".to_string(),
        headers: Vec::new(),
        body: None,
    };
    let json = obj(vec![("data", obj(vec![("ok", JsonTree::Bool(true))]))]);
    let p = read_custom(&config, &json, 9).unwrap();
    assert_eq!(p.value, DataValue::Boolean(true));
    assert_eq!(p.source_name, "custom");
}

#[test]
fn pyth_negative_price() {
    let p = read_pyth(&pyth("-5", 0, 1_700_000_000), 1_700_000_000).unwrap();
    assert_eq!(p.value, DataValue::Number(-5 * SCALE));
    let p = read_pyth(&pyth("-123", -2, 1_700_000_000), 1_700_000_000).unwrap();
    assert_eq!(p.value, DataValue::Number(-1_230_000_000));
    let p = read_pyth(&pyth("12.5", 0, 1_700_000_000), 1_700_000_000).unwrap();
    assert_eq!(p.value, DataValue::Number(12_500_000_000));
    let p = read_pyth(&pyth("1.5e2", -2, 1_700_000_000), 1_700_000_000).unwrap();
    assert_eq!(p.value, DataValue::Number(1_500_000_000));
    let p = read_pyth(&pyth("10000000000000", -8, 1_700_000_000), 1_700_000_000).unwrap();
    assert_eq!(p.value, DataValue::Number(100_000 * SCALE));
    assert_eq!(read_pyth(&pyth("abc", 0, 1_700_000_000), 1_700_000_000).err(), Some("Price value not found".to_string()));
    assert_eq!(read_pyth(&pyth("5", 20, 1_700_000_000), 1_700_000_000).err(), Some("Price value out of range".to_string()));
}

#[test]
fn twelvedata_empty_price() {
    let json = obj(vec![("price", text(""))]);
    assert_eq!(
        read_provider(SourceKind::TwelveData, &json, "XAU/USD", 1).err(),
        Some("cannot parse float from empty string".to_string())
    );
    let json = obj(vec![("price", text("abc"))]);
    assert_eq!(read_provider(SourceKind::TwelveData, &json, "XAU/USD", 1).err(), Some("invalid float literal".to_string()));
}
