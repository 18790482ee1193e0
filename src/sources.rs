//! What the source adapters decide: which adapter a source name selects,
//! which request each one sends, which HTTP statuses count as answers, and
//! how bid, ask and last quotes make one price. Sending the requests is the
//! caller's.

use vstd::prelude::*;
use crate::aggregation::floor_div;
use crate::text::{nat_text, push_nat, same_text};
use crate::types::CustomSourceConfig;

verus! {

/// The adapters.
#[derive(Clone, Copy, Debug, PartialEq, Eq, Structural)]
pub enum SourceKind {
    CoinGecko,
    CoinMarketCap,
    TwelveData,
    ExchangeRateApi,
    Binance,
    Huobi,
    CryptoCom,
    KuCoin,
    Gate,
    Pyth,
    Custom,
}

/// The adapter that a source name selects, among the provider adapters.
pub open spec fn provider_named(name: Seq<char>) -> Option<SourceKind> {
    if name == "coingecko"@ {
        Some(SourceKind::CoinGecko)
    } else if name == "coinmarketcap"@ {
        Some(SourceKind::CoinMarketCap)
    } else if name == "twelvedata"@ {
        Some(SourceKind::TwelveData)
    } else if name == "exchangerate-api"@ {
        Some(SourceKind::ExchangeRateApi)
    } else if name == "binance"@ {
        Some(SourceKind::Binance)
    } else if name == "huobi"@ {
        Some(SourceKind::Huobi)
    } else if name == "cryptocom"@ {
        Some(SourceKind::CryptoCom)
    } else if name == "kucoin"@ {
        Some(SourceKind::KuCoin)
    } else if name == "gate"@ {
        Some(SourceKind::Gate)
    } else if name == "pyth"@ {
        Some(SourceKind::Pyth)
    } else {
        None
    }
}

/// Selects the adapter of a source: "custom" needs its configuration; any
/// other name must be one of the providers.
pub fn source_kind(name: &str, has_custom_config: bool) -> (r: Result<SourceKind, String>)
    ensures
        name@ == "custom"@ && has_custom_config ==> r == Ok::<SourceKind, String>(SourceKind::Custom),
        name@ == "custom"@ && !has_custom_config ==> (r matches Err(e) && e@
            == "Custom source requires 'custom' config"@),
        name@ != "custom"@ && provider_named(name@) is Some ==> r == Ok::<SourceKind, String>(
            provider_named(name@)->0,
        ),
        name@ != "custom"@ && provider_named(name@) is None ==> (r matches Err(e) && e@
            == "Unknown source: "@ + name@),
{
    if same_text(name, "custom") {
        if has_custom_config {
            return Ok(SourceKind::Custom);
        }
        return Err(String::from_str("Custom source requires 'custom' config"));
    }
    if same_text(name, "coingecko") {
        Ok(SourceKind::CoinGecko)
    } else if same_text(name, "coinmarketcap") {
        Ok(SourceKind::CoinMarketCap)
    } else if same_text(name, "twelvedata") {
        Ok(SourceKind::TwelveData)
    } else if same_text(name, "exchangerate-api") {
        Ok(SourceKind::ExchangeRateApi)
    } else if same_text(name, "binance") {
        Ok(SourceKind::Binance)
    } else if same_text(name, "huobi") {
        Ok(SourceKind::Huobi)
    } else if same_text(name, "cryptocom") {
        Ok(SourceKind::CryptoCom)
    } else if same_text(name, "kucoin") {
        Ok(SourceKind::KuCoin)
    } else if same_text(name, "gate") {
        Ok(SourceKind::Gate)
    } else if same_text(name, "pyth") {
        Ok(SourceKind::Pyth)
    } else {
        let mut msg = String::from_str("Unknown source: ");
        msg.append(name);
        Err(msg)
    }
}

/// A response counts as an answer only with a 2xx status.
pub fn check_status(status: u16) -> (r: Result<(), String>)
    ensures
        200 <= status < 300 ==> r is Ok,
        !(200 <= status < 300) ==> (r matches Err(e) && e@ == "HTTP "@ + nat_text(status as nat)),
{
    if status < 200 || status >= 300 {
        let mut msg = String::from_str("HTTP ");
        push_nat(&mut msg, status as u128);
        return Err(msg);
    }
    Ok(())
}

/// HTTP methods a source request can use.
#[derive(Clone, Copy, Debug, PartialEq, Eq, Structural)]
pub enum HttpMethod {
    Get,
    Post,
}

/// A request to send to a source.
#[derive(Clone, Debug)]
pub struct SourceRequest {
    pub method: HttpMethod,
    pub url: String,
    /// Headers, in order.
    pub headers: Vec<(String, String)>,
}

pub open spec fn headers_view(h: Seq<(String, String)>) -> Seq<(Seq<char>, Seq<char>)> {
    h.map_values(|p: (String, String)| (p.0@, p.1@))
}

/// The address that a provider adapter fetches for `id`, with an optional
/// credential; None for the custom adapter.
pub open spec fn provider_url(kind: SourceKind, id: Seq<char>, key: Option<Seq<char>>) -> Option<Seq<char>> {
    match kind {
        SourceKind::CoinGecko => Some(
            match key {
                Some(k) => "https://api.coingecko.com/api/v3/simple/price?ids="@ + id
                    + "&vs_currencies=usd&x_cg_pro_api_key="@ + k,
                None => "https://api.coingecko.com/api/v3/simple/price?ids="@ + id
                    + "&vs_currencies=usd"@,
            },
        ),
        SourceKind::CoinMarketCap => Some(
            "https://pro-api.coinmarketcap.com/v1/cryptocurrency/quotes/latest?symbol="@ + id
                + "&convert=USD"@,
        ),
        SourceKind::TwelveData => Some(
            match key {
                Some(k) => "https://api.twelvedata.com/price?symbol="@ + id + "&apikey="@ + k,
                None => "https://api.twelvedata.com/price?symbol="@ + id,
            },
        ),
        SourceKind::ExchangeRateApi => Some("https://open.er-api.com/v6/latest/"@ + id),
        SourceKind::Binance => Some("https://api.binance.com/api/v3/ticker/price?symbol="@ + id),
        SourceKind::Huobi => Some("https://api.huobi.pro/market/detail/merged?symbol="@ + id),
        SourceKind::CryptoCom => Some(
            "https://api.crypto.com/v2/public/get-ticker?instrument_name="@ + id,
        ),
        SourceKind::KuCoin => Some(
            "https://api.kucoin.com/api/v1/market/orderbook/level1?symbol="@ + id,
        ),
        SourceKind::Gate => Some("https://data.gateapi.io/api2/1/ticker/"@ + id),
        SourceKind::Pyth => Some("https://hermes.pyth.network/v2/updates/price/latest?ids[]="@ + id),
        SourceKind::Custom => None,
    }
}

fn append_opt(s: &mut String, tail: &Option<String>)
    ensures
        final(s)@ == old(s)@ + match tail {
            Some(t) => t@,
            None => Seq::<char>::empty(),
        },
{
    match tail {
        Some(t) => s.append(t.as_str()),
        None => {
            assert(final(s)@ =~= old(s)@ + Seq::<char>::empty());
        },
    }
}

/// The base and target currencies of a forex pair written `BASE/TARGET`.
pub open spec fn pair_parts(id: Seq<char>) -> Option<(Seq<char>, Seq<char>)> {
    if exists|i: int|
        0 <= i < id.len() && id[i] == '/' && (forall|j: int|
            0 <= j < id.len() && j != i ==> id[j] != '/') {
        let i = choose|i: int| 0 <= i < id.len() && id[i] == '/';
        Some((id.take(i), id.skip(i + 1)))
    } else {
        None
    }
}

/// The base currency of a forex pair.
pub open spec fn pair_base(id: Seq<char>) -> Seq<char> {
    match pair_parts(id) {
        Some((base, _)) => base,
        None => Seq::<char>::empty(),
    }
}

/// Splits a forex pair `BASE/TARGET` at its only slash.
pub fn split_pair(id: &str) -> (r: Option<(String, String)>)
    ensures
        r matches Some(p) ==> pair_parts(id@) == Some((p.0@, p.1@)),
        r is None ==> pair_parts(id@) is None,
{
    let n = id.unicode_len();
    let mut slash: usize = n;
    let mut count: usize = 0;
    let mut i: usize = 0;
    while i < n
        invariant
            0 <= i <= n,
            n == id@.len(),
            count == 0 ==> slash == n && forall|j: int| 0 <= j < i ==> id@[j] != '/',
            count == 1 ==> slash < i && id@[slash as int] == '/' && forall|j: int|
                0 <= j < i && j != slash ==> id@[j] != '/',
            count >= 2 ==> exists|a: int, b: int| 0 <= a < b < n && id@[a] == '/' && id@[b] == '/',
            count <= 2,
        decreases n - i,
    {
        if id.get_char(i) == '/' {
            if count == 1 {
                assert(id@[slash as int] == '/' && id@[i as int] == '/');
                count = 2;
            } else if count == 0 {
                slash = i;
                count = 1;
            }
        }
        i = i + 1;
    }
    if count != 1 {
        proof {
            if count >= 2 {
                let (a, b) = choose|a: int, b: int| 0 <= a < b < n && id@[a] == '/' && id@[b] == '/';
                assert forall|k: int| !(0 <= k < id@.len() && id@[k] == '/' && (forall|j: int|
                    0 <= j < id@.len() && j != k ==> id@[j] != '/')) by {
                    if 0 <= k < id@.len() && id@[k] == '/' {
                        if k != a {
                            assert(id@[a] == '/');
                        } else {
                            assert(id@[b] == '/');
                        }
                    }
                }
            }
        }
        return None;
    }
    proof {
        assert(0 <= slash < id@.len() && id@[slash as int] == '/');
        let k = choose|k: int| 0 <= k < id@.len() && id@[k] == '/';
        assert(k == slash);
    }
    let base = id.substring_char(0, slash);
    let target = id.substring_char(slash + 1, n);
    Some((String::from_str(base), String::from_str(target)))
}

/// The request that provider adapter `kind` sends for `id`.
pub fn provider_request(kind: SourceKind, id: &str, api_key: &Option<String>) -> (r: Result<
    SourceRequest,
    String,
>)
    requires
        kind != SourceKind::Custom,
    ensures
        kind == SourceKind::CoinMarketCap && api_key is None ==> (r matches Err(e) && e@
            == "CoinMarketCap requires API key"@),
        kind == SourceKind::ExchangeRateApi && pair_parts(id@) is None ==> (r matches Err(e) && e@
            == "Invalid forex pair format: "@ + id@ + ". Expected BASE/TARGET (e.g. EUR/USD)"@),
        !(kind == SourceKind::CoinMarketCap && api_key is None) && !(kind
            == SourceKind::ExchangeRateApi && pair_parts(id@) is None) ==> (r matches Ok(q) && q.method
            == HttpMethod::Get && Some(q.url@) == provider_url(
            kind,
            if kind == SourceKind::ExchangeRateApi {
                pair_base(id@)
            } else {
                id@
            },
            crate::types::opt_text(*api_key),
        )),
        kind == SourceKind::CoinMarketCap && api_key is Some ==> (r matches Ok(q) && headers_view(
            q.headers@,
        ) == seq![("X-CMC_PRO_API_KEY"@, api_key->0@)]),
        kind != SourceKind::CoinMarketCap ==> (r matches Ok(q) ==> q.headers@.len() == 0),
{
    let mut headers: Vec<(String, String)> = Vec::new();
    let url = match kind {
        SourceKind::CoinGecko => {
            let mut u = String::from_str("https://api.coingecko.com/api/v3/simple/price?ids=");
            u.append(id);
            match api_key {
                Some(k) => {
                    u.append("&vs_currencies=usd&x_cg_pro_api_key=");
                    u.append(k.as_str());
                },
                None => u.append("&vs_currencies=usd"),
            }
            u
        },
        SourceKind::CoinMarketCap => {
            let key = match api_key {
                Some(k) => k,
                None => {
                    return Err(String::from_str("CoinMarketCap requires API key"));
                },
            };
            let mut u = String::from_str(
                "https://pro-api.coinmarketcap.com/v1/cryptocurrency/quotes/latest?symbol=",
            );
            u.append(id);
            u.append("&convert=USD");
            headers.push((String::from_str("X-CMC_PRO_API_KEY"), key.clone()));
            assert(headers_view(headers@) =~= seq![("X-CMC_PRO_API_KEY"@, key@)]);
            u
        },
        SourceKind::TwelveData => {
            let mut u = String::from_str("https://api.twelvedata.com/price?symbol=");
            u.append(id);
            match api_key {
                Some(k) => {
                    u.append("&apikey=");
                    u.append(k.as_str());
                },
                None => {},
            }
            u
        },
        SourceKind::ExchangeRateApi => {
            let base = match split_pair(id) {
                Some((base, _)) => base,
                None => {
                    let mut msg = String::from_str("Invalid forex pair format: ");
                    msg.append(id);
                    msg.append(". Expected BASE/TARGET (e.g. EUR/USD)");
                    return Err(msg);
                },
            };
            let mut u = String::from_str("https://open.er-api.com/v6/latest/");
            u.append(base.as_str());
            u
        },
        SourceKind::Binance => {
            let mut u = String::from_str("https://api.binance.com/api/v3/ticker/price?symbol=");
            u.append(id);
            u
        },
        SourceKind::Huobi => {
            let mut u = String::from_str("https://api.huobi.pro/market/detail/merged?symbol=");
            u.append(id);
            u
        },
        SourceKind::CryptoCom => {
            let mut u = String::from_str(
                "https://api.crypto.com/v2/public/get-ticker?instrument_name=",
            );
            u.append(id);
            u
        },
        SourceKind::KuCoin => {
            let mut u = String::from_str(
                "https://api.kucoin.com/api/v1/market/orderbook/level1?symbol=",
            );
            u.append(id);
            u
        },
        SourceKind::Gate => {
            let mut u = String::from_str("https://data.gateapi.io/api2/1/ticker/");
            u.append(id);
            u
        },
        SourceKind::Pyth => {
            let mut u = String::from_str(
                "https://hermes.pyth.network/v2/updates/price/latest?ids[]=",
            );
            u.append(id);
            u
        },
        SourceKind::Custom => {
            return Err(String::new());
        },
    };
    Ok(SourceRequest { method: HttpMethod::Get, url, headers })
}

/// The upper-case form of a text, as Unicode defines it.
pub uninterp spec fn upper_of(s: Seq<char>) -> Seq<char>;

/// Relies on str::to_uppercase: the upper-case form depends on the
/// characters alone.
#[verifier::external_body]
fn uppercase(s: &str) -> (r: String)
    ensures
        r@ == upper_of(s@),
{
    s.to_uppercase()
}

/// The HTTP method that a custom source names, given the name in upper case.
pub fn method_of(upper: &str, method: &str) -> (r: Result<HttpMethod, String>)
    ensures
        upper@ == "GET"@ ==> r == Ok::<HttpMethod, String>(HttpMethod::Get),
        upper@ == "POST"@ ==> r == Ok::<HttpMethod, String>(HttpMethod::Post),
        upper@ != "GET"@ && upper@ != "POST"@ ==> (r matches Err(e) && e@ == "Unsupported HTTP method: "@
            + method@),
{
    proof {
        reveal_strlit("GET");
        reveal_strlit("POST");
        assert("GET"@.len() == 3 && "POST"@.len() == 4);
        assert("GET"@ != "POST"@);
    }
    if same_text(upper, "GET") {
        Ok(HttpMethod::Get)
    } else if same_text(upper, "POST") {
        Ok(HttpMethod::Post)
    } else {
        let mut msg = String::from_str("Unsupported HTTP method: ");
        msg.append(method);
        Err(msg)
    }
}

/// The request of a custom source: its method (in any case), its address,
/// its headers, and a bearer authorization when a key is given.
pub fn custom_request(config: &CustomSourceConfig, bearer_key: &Option<String>) -> (r: Result<
    SourceRequest,
    String,
>)
    ensures
        upper_of(config.method@) != "GET"@ && upper_of(config.method@) != "POST"@ ==> (r matches Err(
            e,
        ) && e@ == "Unsupported HTTP method: "@ + config.method@),
        upper_of(config.method@) == "GET"@ ==> (r matches Ok(q) && q.method == HttpMethod::Get),
        upper_of(config.method@) == "POST"@ ==> (r matches Ok(q) && q.method == HttpMethod::Post),
        r matches Ok(q) ==> q.url@ == config.url@ && headers_view(q.headers@) == headers_view(
            config.headers@,
        ) + match bearer_key {
            Some(k) => seq![("Authorization"@, "Bearer "@ + k@)],
            None => Seq::<(Seq<char>, Seq<char>)>::empty(),
        },
{
    let upper = uppercase(config.method.as_str());
    let method = match method_of(upper.as_str(), config.method.as_str()) {
        Ok(m) => m,
        Err(e) => {
            return Err(e);
        },
    };
    let mut headers: Vec<(String, String)> = Vec::new();
    let mut i: usize = 0;
    while i < config.headers.len()
        invariant
            0 <= i <= config.headers.len(),
            headers_view(headers@) =~= headers_view(config.headers@.take(i as int)),
        decreases config.headers.len() - i,
    {
        let k = config.headers[i].0.clone();
        let v = config.headers[i].1.clone();
        let ghost before = headers@;
        headers.push((k, v));
        assert(headers_view(headers@) =~= headers_view(before).push((k@, v@)));
        assert(config.headers@.take(i + 1) =~= config.headers@.take(i as int).push(config.headers@[i as int]));
        assert(headers_view(config.headers@.take(i + 1)) =~= headers_view(config.headers@.take(i as int)).push((k@, v@)));
        i = i + 1;
    }
    assert(config.headers@.take(config.headers.len() as int) =~= config.headers@);
    match bearer_key {
        Some(k) => {
            let mut auth = String::from_str("Bearer ");
            auth.append(k.as_str());
            let ghost before = headers_view(headers@);
            headers.push((String::from_str("Authorization"), auth));
            assert(headers_view(headers@) =~= before + seq![("Authorization"@, "Bearer "@ + k@)]);
        },
        None => {
            assert(headers_view(headers@) =~= headers_view(config.headers@) + Seq::<
                (Seq<char>, Seq<char>),
            >::empty());
        },
    }
    Ok(SourceRequest { method, url: config.url.clone(), headers })
}

/// One price from a bid, an ask and a last-trade quote: the mean of all
/// three, else the mean of bid and ask, else the last trade.
pub open spec fn quote_price(bid: Option<i64>, ask: Option<i64>, last: Option<i64>) -> Option<int> {
    match (bid, ask, last) {
        (Some(b), Some(k), Some(a)) => Some((b + k + a) / 3),
        (Some(b), Some(k), None) => Some((b + k) / 2),
        (_, _, Some(a)) => Some(a as int),
        _ => None,
    }
}

/// Combines quotes into one price (rounded down to the fixed-point grid).
pub fn combine_quotes(bid: Option<i64>, ask: Option<i64>, last: Option<i64>) -> (r: Option<i64>)
    ensures
        r matches Some(v) ==> quote_price(bid, ask, last) == Some(v as int),
        r is None ==> quote_price(bid, ask, last) is None,
{
    match (bid, ask, last) {
        (Some(b), Some(k), Some(a)) => {
            let t: i128 = b as i128 + k as i128 + a as i128;
            let v = floor_div(t, 3);
            proof {
                vstd::arithmetic::div_mod::lemma_fundamental_div_mod(t as int, 3);
            }
            Some(v as i64)
        },
        (Some(b), Some(k), None) => {
            let t: i128 = b as i128 + k as i128;
            let v = floor_div(t, 2);
            proof {
                vstd::arithmetic::div_mod::lemma_fundamental_div_mod(t as int, 2);
            }
            Some(v as i64)
        },
        (_, _, Some(a)) => Some(a),
        _ => None,
    }
}

/// The midpoint of a bid and an ask, when both are there.
pub fn mid_price(bid: Option<i64>, ask: Option<i64>) -> (r: Option<i64>)
    ensures
        r matches Some(v) ==> bid is Some && ask is Some && v == (bid->0 + ask->0) / 2,
        r is None ==> bid is None || ask is None,
{
    match (bid, ask) {
        (Some(b), Some(a)) => {
            let t: i128 = b as i128 + a as i128;
            let v = floor_div(t, 2);
            proof {
                vstd::arithmetic::div_mod::lemma_fundamental_div_mod(t as int, 2);
            }
            Some(v as i64)
        },
        _ => None,
    }
}

} // verus!
