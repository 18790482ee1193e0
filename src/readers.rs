//! Reading a price out of each provider's JSON answer.

use vstd::prelude::*;
use crate::decimal::{
    DecimalError, decimal_form, decimal_value, float_error, float_error_text, parse_decimal, read_decimal, scaled_decimal,
};
use crate::sources::{SourceKind, combine_quotes, mid_price, pair_parts, quote_price, split_pair};
use crate::text::{nat_text, push_nat, same_text};
use crate::tree::{JsonTree, extract_json_value, extracted, item_child, item_child_of, key_child, key_child_of};
use crate::types::{CustomSourceConfig, DataValue, SourcePrice, SCALE};

verus! {

pub open spec fn opt_tree(o: Option<&JsonTree>) -> Option<JsonTree> {
    match o {
        Some(t) => Some(*t),
        None => None,
    }
}

/// The child under `key` of an optional node.
pub open spec fn child(t: Option<JsonTree>, key: Seq<char>) -> Option<JsonTree> {
    match t {
        Some(n) => key_child(n, key),
        None => None,
    }
}

/// The item at `i` of an optional node.
pub open spec fn item(t: Option<JsonTree>, i: nat) -> Option<JsonTree> {
    match t {
        Some(n) => item_child(n, i),
        None => None,
    }
}

/// The number a node holds.
pub open spec fn number_in(t: Option<JsonTree>) -> Option<i64> {
    match t {
        Some(JsonTree::Number(Some(v), _)) => Some(v),
        _ => None,
    }
}

/// The string a node holds.
pub open spec fn text_in(t: Option<JsonTree>) -> Option<Seq<char>> {
    match t {
        Some(JsonTree::Text(s)) => Some(s@),
        _ => None,
    }
}

/// The decimal written in the string a node holds.
pub open spec fn decimal_in(t: Option<JsonTree>) -> Option<i64> {
    match text_in(t) {
        Some(s) => match decimal_value(s) {
            Some(v) => Some(v as i64),
            None => None,
        },
        None => None,
    }
}

fn sub_of<'a>(t: Option<&'a JsonTree>, key: &str) -> (r: Option<&'a JsonTree>)
    ensures
        opt_tree(r) == child(opt_tree(t), key@),
{
    match t {
        Some(n) => key_child_of(n, key),
        None => None,
    }
}

fn item_of<'a>(t: Option<&'a JsonTree>, i: usize) -> (r: Option<&'a JsonTree>)
    ensures
        opt_tree(r) == item(opt_tree(t), i as nat),
{
    match t {
        Some(n) => item_child_of(n, i),
        None => None,
    }
}

fn number_of(t: Option<&JsonTree>) -> (r: Option<i64>)
    ensures
        r == number_in(opt_tree(t)),
{
    match t {
        Some(JsonTree::Number(Some(v), _)) => Some(*v),
        _ => None,
    }
}

fn decimal_of(t: Option<&JsonTree>) -> (r: Option<i64>)
    ensures
        r == decimal_in(opt_tree(t)),
{
    match t {
        Some(JsonTree::Text(s)) => parse_decimal(s.as_str()),
        _ => None,
    }
}

pub open spec fn not_found() -> Seq<char> {
    "Price not found in response"@
}

/// The price that a provider's answer `json` holds for `id`, or the reason
/// there is none.
pub open spec fn provider_price(kind: SourceKind, json: JsonTree, id: Seq<char>) -> Result<i64, Seq<char>> {
    let root = Some(json);
    match kind {
        SourceKind::CoinGecko => match number_in(child(child(root, id), "usd"@)) {
            Some(v) => Ok(v),
            None => Err(not_found()),
        },
        SourceKind::CoinMarketCap => match number_in(
            child(child(child(child(child(root, "data"@), id), "quote"@), "USD"@), "price"@),
        ) {
            Some(v) => Ok(v),
            None => Err(not_found()),
        },
        SourceKind::TwelveData => match text_in(child(root, "price"@)) {
            Some(s) => match decimal_value(s) {
                Some(v) => Ok(v as i64),
                None => Err(float_error(s)),
            },
            None => Err(not_found()),
        },
        SourceKind::ExchangeRateApi => match pair_parts(id) {
            Some((_, target)) => match number_in(child(child(root, "rates"@), target)) {
                Some(v) => Ok(v),
                None => Err("Rate not found for "@ + target),
            },
            None => Err(not_found()),
        },
        SourceKind::Binance => match decimal_in(child(root, "price"@)) {
            Some(v) => Ok(v),
            None => Err(not_found()),
        },
        SourceKind::Huobi => {
            let tick = child(root, "tick"@);
            match (number_in(item(child(tick, "bid"@), 0)), number_in(item(child(tick, "ask"@), 0))) {
                (Some(b), Some(a)) => Ok(((b + a) / 2) as i64),
                _ => Err("Bid/Ask not found in response"@),
            }
        },
        SourceKind::CryptoCom => {
            let data = item(child(child(root, "result"@), "data"@), 0);
            if data is None {
                Err("Data array not found or empty"@)
            } else {
                match quote_price(
                    decimal_in(child(data, "b"@)),
                    decimal_in(child(data, "k"@)),
                    decimal_in(child(data, "a"@)),
                ) {
                    Some(v) => Ok(v as i64),
                    None => Err(not_found()),
                }
            }
        },
        SourceKind::KuCoin => {
            let data = child(root, "data"@);
            match quote_price(
                decimal_in(child(data, "bestBid"@)),
                decimal_in(child(data, "bestAsk"@)),
                decimal_in(child(data, "price"@)),
            ) {
                Some(v) => Ok(v as i64),
                None => Err(not_found()),
            }
        },
        SourceKind::Gate => match text_in(child(root, "result"@)) {
            None => Err("Result not found"@),
            Some(r) => if r != "true"@ {
                Err("Gate.io API returned unsuccessful result"@)
            } else {
                match quote_price(
                    decimal_in(child(root, "highestBid"@)),
                    decimal_in(child(root, "lowestAsk"@)),
                    decimal_in(child(root, "last"@)),
                ) {
                    Some(v) => Ok(v as i64),
                    None => Err(not_found()),
                }
            },
        },
        _ => Err(not_found()),
    }
}

/// The name under which a provider's readings are reported.
pub open spec fn provider_label(kind: SourceKind) -> Seq<char> {
    match kind {
        SourceKind::CoinGecko => "coingecko"@,
        SourceKind::CoinMarketCap => "coinmarketcap"@,
        SourceKind::TwelveData => "twelvedata"@,
        SourceKind::ExchangeRateApi => "exchangerate-api"@,
        SourceKind::Binance => "binance"@,
        SourceKind::Huobi => "huobi"@,
        SourceKind::CryptoCom => "cryptocom"@,
        SourceKind::KuCoin => "kucoin"@,
        SourceKind::Gate => "gate"@,
        SourceKind::Pyth => "pyth"@,
        SourceKind::Custom => "custom"@,
    }
}

/// The name under which a source's readings are reported.
pub fn source_label(kind: SourceKind) -> (r: String)
    ensures
        r@ == provider_label(kind),
{
    match kind {
        SourceKind::CoinGecko => String::from_str("coingecko"),
        SourceKind::CoinMarketCap => String::from_str("coinmarketcap"),
        SourceKind::TwelveData => String::from_str("twelvedata"),
        SourceKind::ExchangeRateApi => String::from_str("exchangerate-api"),
        SourceKind::Binance => String::from_str("binance"),
        SourceKind::Huobi => String::from_str("huobi"),
        SourceKind::CryptoCom => String::from_str("cryptocom"),
        SourceKind::KuCoin => String::from_str("kucoin"),
        SourceKind::Gate => String::from_str("gate"),
        SourceKind::Pyth => String::from_str("pyth"),
        SourceKind::Custom => String::from_str("custom"),
    }
}

fn price_or(v: Option<i64>, msg: &str) -> (r: Result<i64, String>)
    ensures
        v matches Some(x) ==> r == Ok::<i64, String>(x),
        v is None ==> (r matches Err(e) && e@ == msg@),
{
    match v {
        Some(x) => Ok(x),
        None => Err(String::from_str(msg)),
    }
}

fn price_in(json: &JsonTree, kind: SourceKind, id: &str) -> (r: Result<i64, String>)
    requires
        kind != SourceKind::Pyth,
        kind != SourceKind::Custom,
    ensures
        r matches Ok(v) ==> provider_price(kind, *json, id@) == Ok::<i64, Seq<char>>(v),
        r matches Err(e) ==> provider_price(kind, *json, id@) == Err::<i64, Seq<char>>(e@),
{
    let root = Some(json);
    match kind {
        SourceKind::CoinGecko => price_or(
            number_of(sub_of(sub_of(root, id), "usd")),
            "Price not found in response",
        ),
        SourceKind::CoinMarketCap => price_or(
            number_of(
                sub_of(sub_of(sub_of(sub_of(sub_of(root, "data"), id), "quote"), "USD"), "price"),
            ),
            "Price not found in response",
        ),
        SourceKind::TwelveData => match sub_of(root, "price") {
            Some(JsonTree::Text(s)) => match parse_decimal(s.as_str()) {
                Some(v) => Ok(v),
                None => Err(float_error_text(s.as_str())),
            },
            _ => Err(String::from_str("Price not found in response")),
        },
        SourceKind::ExchangeRateApi => match split_pair(id) {
            Some((_, target)) => match number_of(sub_of(sub_of(root, "rates"), target.as_str())) {
                Some(v) => Ok(v),
                None => {
                    let mut msg = String::from_str("Rate not found for ");
                    msg.append(target.as_str());
                    Err(msg)
                },
            },
            None => Err(String::from_str("Price not found in response")),
        },
        SourceKind::Binance => price_or(
            decimal_of(sub_of(root, "price")),
            "Price not found in response",
        ),
        SourceKind::Huobi => {
            let tick = sub_of(root, "tick");
            price_or(
                mid_price(
                    number_of(item_of(sub_of(tick, "bid"), 0)),
                    number_of(item_of(sub_of(tick, "ask"), 0)),
                ),
                "Bid/Ask not found in response",
            )
        },
        SourceKind::CryptoCom => {
            let data = item_of(sub_of(sub_of(root, "result"), "data"), 0);
            if data.is_none() {
                return Err(String::from_str("Data array not found or empty"));
            }
            price_or(
                combine_quotes(
                    decimal_of(sub_of(data, "b")),
                    decimal_of(sub_of(data, "k")),
                    decimal_of(sub_of(data, "a")),
                ),
                "Price not found in response",
            )
        },
        SourceKind::KuCoin => {
            let data = sub_of(root, "data");
            price_or(
                combine_quotes(
                    decimal_of(sub_of(data, "bestBid")),
                    decimal_of(sub_of(data, "bestAsk")),
                    decimal_of(sub_of(data, "price")),
                ),
                "Price not found in response",
            )
        },
        SourceKind::Gate => match sub_of(root, "result") {
            Some(JsonTree::Text(r)) => {
                if !same_text(r.as_str(), "true") {
                    return Err(String::from_str("Gate.io API returned unsuccessful result"));
                }
                price_or(
                    combine_quotes(
                        decimal_of(sub_of(root, "highestBid")),
                        decimal_of(sub_of(root, "lowestAsk")),
                        decimal_of(sub_of(root, "last")),
                    ),
                    "Price not found in response",
                )
            },
            _ => Err(String::from_str("Result not found")),
        },
        _ => Err(String::from_str("Price not found in response")),
    }
}

/// The reading that a provider's answer gives for `id`, observed at `now`.
pub fn read_provider(kind: SourceKind, json: &JsonTree, id: &str, now: u64) -> (r: Result<
    SourcePrice,
    String,
>)
    requires
        kind != SourceKind::Pyth,
        kind != SourceKind::Custom,
    ensures
        r matches Ok(p) ==> provider_price(kind, *json, id@) == Ok::<i64, Seq<char>>(p.value->Number_0)
            && p.value is Number && p.source_name@ == provider_label(kind) && p.timestamp == now,
        r matches Err(e) ==> provider_price(kind, *json, id@) == Err::<i64, Seq<char>>(e@),
{
    let v = price_in(json, kind, id)?;
    Ok(SourcePrice { source_name: source_label(kind), value: DataValue::Number(v), timestamp: now })
}

/// The whole number a node holds, in plain units.
pub open spec fn whole_in(t: Option<JsonTree>) -> Option<int> {
    match number_in(t) {
        Some(v) => if v % SCALE == 0 {
            Some(v / SCALE)
        } else {
            None
        },
        None => None,
    }
}

/// Age of a publication at time `now` (zero for one from the future).
pub open spec fn age(now: u64, published: int) -> int {
    if now >= published {
        now - published
    } else {
        0
    }
}

/// The fixed-point price and publication time in a Pyth answer: the price
/// (a decimal) scaled by ten to its exponent, rounded toward zero, refused
/// when it was published more than two minutes before `now`.
pub open spec fn pyth_reading(json: JsonTree, now: u64) -> Result<(i64, u64), Seq<char>> {
    let pd = child(item(child(Some(json), "parsed"@), 0), "price"@);
    if pd is None {
        Err("Price data not found"@)
    } else {
        match text_in(child(pd, "price"@)) {
            Some(m) if decimal_form(m) => match whole_in(child(pd, "expo"@)) {
                Some(expo) => match whole_in(child(pd, "publish_time"@)) {
                    Some(published) if 0 <= published <= u64::MAX => if age(now, published) > 120 {
                        Err("Pyth price is stale (published "@ + nat_text(age(now, published) as nat)
                            + " seconds ago)"@)
                    } else {
                        match scaled_decimal(m, expo) {
                            Some(v) => Ok((v as i64, published as u64)),
                            None => Err("Price value out of range"@),
                        }
                    },
                    _ => Err("Publish time not found"@),
                },
                None => Err("Exponent not found"@),
            },
            _ => Err("Price value not found"@),
        }
    }
}

fn whole_of(t: Option<&JsonTree>) -> (r: Option<i64>)
    ensures
        r matches Some(v) ==> whole_in(opt_tree(t)) == Some(v as int),
        r is None ==> whole_in(opt_tree(t)) is None,
{
    match number_of(t) {
        Some(v) => if v % SCALE == 0 {
            Some(v / SCALE)
        } else {
            None
        },
        None => None,
    }
}

/// Reads a Pyth answer at time `now`.
pub fn read_pyth(json: &JsonTree, now: u64) -> (r: Result<SourcePrice, String>)
    ensures
        r matches Ok(p) ==> pyth_reading(*json, now) == Ok::<(i64, u64), Seq<char>>(
            (p.value->Number_0, p.timestamp),
        ) && p.value is Number && p.source_name@ == "pyth"@,
        r matches Err(e) ==> pyth_reading(*json, now) == Err::<(i64, u64), Seq<char>>(e@),
{
    let pd = sub_of(item_of(sub_of(Some(json), "parsed"), 0), "price");
    if pd.is_none() {
        return Err(String::from_str("Price data not found"));
    }
    let mantissa = match sub_of(pd, "price") {
        Some(JsonTree::Text(m)) => {
            let form = read_decimal(m.as_str(), 0);
            if let Err(DecimalError::Malformed) = form {
                return Err(String::from_str("Price value not found"));
            }
            assert(decimal_form(m@));
            m
        },
        _ => {
            return Err(String::from_str("Price value not found"));
        },
    };
    let expo = match whole_of(sub_of(pd, "expo")) {
        Some(e) => e,
        None => {
            return Err(String::from_str("Exponent not found"));
        },
    };
    let published = match whole_of(sub_of(pd, "publish_time")) {
        Some(t) => if t >= 0 {
            t as u64
        } else {
            return Err(String::from_str("Publish time not found"));
        },
        None => {
            return Err(String::from_str("Publish time not found"));
        },
    };
    let age: u64 = if now >= published {
        now - published
    } else {
        0
    };
    if age > 120 {
        let mut msg = String::from_str("Pyth price is stale (published ");
        push_nat(&mut msg, age as u128);
        msg.append(" seconds ago)");
        return Err(msg);
    }
    let scaled = read_decimal(mantissa.as_str(), expo);
    let value = match scaled {
        Ok(v) => v,
        Err(DecimalError::Malformed) => {
            return Err(String::from_str("Price value out of range"));
        },
        Err(DecimalError::OutOfRange) => {
            return Err(String::from_str("Price value out of range"));
        },
    };
    proof {
        reveal_strlit("pyth");
    }
    Ok(SourcePrice { source_name: String::from_str("pyth"), value: DataValue::Number(value), timestamp: published })
}

/// Reads a custom source's answer at time `now`, as its configuration says.
pub fn read_custom(config: &CustomSourceConfig, json: &JsonTree, now: u64) -> (r: Result<SourcePrice, String>)
    ensures
        r matches Ok(p) ==> extracted(*json, config.json_path@, config.value_type) == Ok::<
            crate::types::ValueView,
            Seq<char>,
        >(p.value@) && p.source_name@ == "custom"@ && p.timestamp == now,
        r matches Err(e) ==> extracted(*json, config.json_path@, config.value_type) == Err::<
            crate::types::ValueView,
            Seq<char>,
        >(e@),
{
    let value = extract_json_value(json, config.json_path.as_str(), &config.value_type)?;
    Ok(SourcePrice { source_name: String::from_str("custom"), value, timestamp: now })
}

} // verus!
