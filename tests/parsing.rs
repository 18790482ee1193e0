use price_oracle::decimal::parse_integer;
use price_oracle::decimal::{parse_decimal, parse_index};
use price_oracle::text::{join_strings, push_fixed, push_nat, same_text};
use price_oracle::tree::{extract_json_value, split_path, JsonTree};
use price_oracle::types::{DataValue, ValueType, SCALE};

#[test]
fn decimals() {
    assert_eq!(parse_decimal("1850.25"), Some(1_850_250_000_000));
    assert_eq!(parse_decimal("-0.5"), Some(-500_000_000));
    assert_eq!(parse_decimal("+3"), Some(3 * SCALE));
    assert_eq!(parse_decimal(".5"), Some(500_000_000));
    assert_eq!(parse_decimal("7."), Some(7 * SCALE));
    assert_eq!(parse_decimal("0.0000000019"), Some(1));
    assert_eq!(parse_decimal(""), None);
    assert_eq!(parse_decimal("."), None);
    assert_eq!(parse_decimal("-"), None);
    assert_eq!(parse_decimal("abc"), None);
    assert_eq!(parse_decimal("1e5"), Some(100_000 * SCALE));
    assert_eq!(parse_decimal("1.5e3"), Some(1500 * SCALE));
    assert_eq!(parse_decimal("1E-7"), Some(100));
    assert_eq!(parse_decimal("-2.5E+2"), Some(-250 * SCALE));
    assert_eq!(parse_decimal("123456789012345e-10"), Some(12_345_678_901_234));
    assert_eq!(parse_decimal("1e-10"), Some(0));
    assert_eq!(parse_decimal("0e400"), Some(0));
    assert_eq!(parse_decimal("1e20"), None);
    assert_eq!(parse_decimal("1e"), None);
    assert_eq!(parse_decimal("e5"), None);
    assert_eq!(parse_decimal("1e5.0"), None);
    assert_eq!(parse_decimal("1.2.3"), None);
    assert_eq!(parse_decimal("99999999999"), None);
    assert_eq!(parse_decimal("9223372036.854775807"), Some(i64::MAX));
    assert_eq!(parse_decimal("-9223372036.854775808"), Some(i64::MIN));
    assert_eq!(parse_decimal("9223372036.854775808"), None);
}

#[test]
fn indices() {
    assert_eq!(parse_index("0"), Some(0));
    assert_eq!(parse_index("42"), Some(42));
    assert_eq!(parse_index("+7"), Some(7));
    assert_eq!(parse_index("-1"), None);
    assert_eq!(parse_index(""), None);
    assert_eq!(parse_index("+"), None);
    assert_eq!(parse_index("x1"), None);
    assert_eq!(parse_index("99999999999999999999999"), None);
}

#[test]
fn texts() {
    let mut s = String::from("v=");
    push_fixed(&mut s, -1_500_000_000, 6);
    assert_eq!(s, "v=-1.500000");
    let mut s = String::new();
    push_fixed(&mut s, 123_456_789_499, 6);
    assert_eq!(s, "123.456789");
    let mut s = String::new();
    push_fixed(&mut s, 4_995_000_000, 2);
    assert_eq!(s, "5.00");
    let mut s = String::new();
    push_nat(&mut s, 1200);
    assert_eq!(s, "1200");
    let parts = vec!["a".to_string(), "b".to_string(), "c".to_string()];
    assert_eq!(join_strings(&parts, ", "), "a, b, c");
    assert_eq!(join_strings(&Vec::new(), ", "), "");
    assert!(same_text("gate", "gate"));
    assert!(!same_text("gate", "gatE"));
}

#[test]
fn path_segments() {
    assert_eq!(split_path("data.price"), vec!["data".to_string(), "price".to_string()]);
    assert_eq!(split_path(""), vec!["".to_string()]);
    assert_eq!(split_path("a..b"), vec!["a".to_string(), "".to_string(), "b".to_string()]);
}

fn obj(entries: Vec<(&str, JsonTree)>, text: &str) -> JsonTree {
    JsonTree::Object(entries.into_iter().map(|(k, v)| (k.to_string(), v)).collect(), text.to_string())
}

fn num(v: i64, text: &str) -> JsonTree {
    JsonTree::Number(Some(v), text.to_string())
}

fn sample() -> JsonTree {
    // {"data":{"price":"1850.25","ok":true,"n":3},"blocks":[{"author":"alice.near"}]}
    let block = obj(vec![("author", JsonTree::Text("alice.near".to_string()))], "{\"author\":\"alice.near\"}");
    let data = obj(
        vec![
            ("price", JsonTree::Text("1850.25".to_string())),
            ("ok", JsonTree::Bool(true)),
            ("n", num(3 * SCALE, "3")),
        ],
        "{\"price\":\"1850.25\",\"ok\":true,\"n\":3}",
    );
    obj(
        vec![
            ("data", data),
            ("blocks", JsonTree::Array(vec![block], "[{\"author\":\"alice.near\"}]".to_string())),
        ],
        "{...}",
    )
}

#[test]
fn extraction_by_path() {
    let json = sample();
    assert_eq!(extract_json_value(&json, "data.price", &ValueType::Number), Ok(DataValue::Number(1_850_250_000_000)));
    assert_eq!(extract_json_value(&json, "data.n", &ValueType::Number), Ok(DataValue::Number(3 * SCALE)));
    assert_eq!(extract_json_value(&json, "data.ok", &ValueType::Boolean), Ok(DataValue::Boolean(true)));
    assert_eq!(
        extract_json_value(&json, "blocks.0.author", &ValueType::String),
        Ok(DataValue::Text("alice.near".to_string()))
    );
    assert_eq!(extract_json_value(&json, "data.n", &ValueType::String), Ok(DataValue::Text("3".to_string())));
    assert_eq!(
        extract_json_value(&json, "blocks.0", &ValueType::String),
        Ok(DataValue::Text("{\"author\":\"alice.near\"}".to_string()))
    );
}

#[test]
fn extraction_errors() {
    let json = sample();
    assert_eq!(
        extract_json_value(&json, "data.volume", &ValueType::Number),
        Err("JSON path 'data.volume' not found at 'volume'".to_string())
    );
    assert_eq!(
        extract_json_value(&json, "blocks.3.author", &ValueType::String),
        Err("JSON path 'blocks.3.author' array index '3' out of bounds".to_string())
    );
    assert_eq!(
        extract_json_value(&json, "blocks.0.author", &ValueType::Number),
        Err("Failed to parse 'alice.near' as number: invalid float literal".to_string())
    );
    assert_eq!(
        extract_json_value(&json, "data.ok", &ValueType::Number),
        Err("Value at 'data.ok' is not a number".to_string())
    );
    assert_eq!(
        extract_json_value(&json, "data.n", &ValueType::Boolean),
        Err("Value at 'data.n' is not a boolean".to_string())
    );
    let big = JsonTree::Number(None, "1e300".to_string());
    assert_eq!(
        extract_json_value(&big, "", &ValueType::Number),
        Err("JSON path '' not found at ''".to_string())
    );
}

#[test]
fn integers() {
    assert_eq!(parse_integer("-5"), Some(-5));
    assert_eq!(parse_integer("+12"), Some(12));
    assert_eq!(parse_integer("9223372036854775807"), Some(i64::MAX));
    assert_eq!(parse_integer("-9223372036854775808"), Some(i64::MIN));
    assert_eq!(parse_integer("9223372036854775808"), None);
    assert_eq!(parse_integer("-"), None);
    assert_eq!(parse_integer("1.0"), None);
}

#[test]
fn empty_text_is_no_number() {
    let json = JsonTree::Text(String::new());
    assert_eq!(
        extract_json_value(&json, "", &ValueType::Number),
        Err("JSON path '' not found at ''".to_string())
    );
    let tree = obj(vec![("v", JsonTree::Text(String::new()))], "{\"v\":\"\"}");
    assert_eq!(
        extract_json_value(&tree, "v", &ValueType::Number),
        Err("Failed to parse '' as number: cannot parse float from empty string".to_string())
    );
}
