//! The data model: requests, readings, values and responses, each with the
//! mathematical view that the contracts speak of.

use vstd::prelude::*;

verus! {

/// Fixed-point scale: the integer `v` in a numeric field stands for `v / SCALE`.
pub const SCALE: i64 = 1_000_000_000;

/// Largest number of data requests that one oracle request may carry.
pub const MAX_TOKENS_PER_REQUEST: usize = 10;

/// How the numeric readings of one data request are combined.
#[derive(Clone, Copy, Debug, PartialEq, Eq, Structural)]
pub enum AggregationMethod {
    /// Arithmetic mean.
    Average,
    /// Middle value of the sorted readings.
    Median,
    /// Weighted mean; every source currently has the same weight.
    WeightedAvg,
}

/// What a custom source is expected to hold at its extraction path.
#[derive(Clone, Copy, Debug, PartialEq, Eq, Structural)]
pub enum ValueType {
    Number,
    String,
    Boolean,
}

impl Default for ValueType {
    fn default() -> (r: Self)
        ensures
            r == ValueType::Number,
    {
        ValueType::Number
    }
}

/// A user-defined source, read by the custom adapter.
#[derive(Clone, Debug)]
pub struct CustomSourceConfig {
    /// Address fetched.
    pub url: String,
    /// Dot-separated path to the value: object keys or array indices.
    pub json_path: String,
    /// Kind of value expected at the path.
    pub value_type: ValueType,
    /// HTTP method.
    pub method: String,
    /// Extra headers, in order.
    pub headers: Vec<(String, String)>,
    /// Optional JSON body.
    pub body: Option<serde_json::Value>,
}

/// serde_json's tree value, carried through unread as a request body.
#[verifier::external_type_specification]
#[verifier::external_body]
pub struct ExJsonValue(serde_json::Value);

/// The default HTTP method of a custom source.
pub fn default_http_method() -> (r: String)
    ensures
        r@ == "GET"@,
{
    String::from_str("GET")
}

/// One source to query for a data request.
#[derive(Clone, Debug)]
pub struct PriceSource {
    /// Adapter name ("coingecko", "binance", ..., or "custom").
    pub name: String,
    /// Identifier at that source; the request's id when absent.
    pub id: Option<String>,
    /// Configuration of the custom adapter.
    pub custom: Option<CustomSourceConfig>,
}

/// One query: which value, from which sources, combined how.
#[derive(Clone, Debug)]
pub struct DataRequest {
    pub id: String,
    pub sources: Vec<PriceSource>,
    pub aggregation_method: AggregationMethod,
    /// Least number of sources that must answer.
    pub min_sources_num: usize,
}

/// The aggregation method used when a request names none.
pub fn default_aggregation_method() -> (r: AggregationMethod)
    ensures
        r == AggregationMethod::Average,
{
    AggregationMethod::Average
}

/// The quorum used when a request names none.
pub fn default_min_sources() -> (r: usize)
    ensures
        r == 1,
{
    1
}

/// Limits of the source lookups of one batch.
#[derive(Clone, Copy, Debug, PartialEq, Eq, Structural)]
pub struct ExecutionConfig {
    /// Most lookups of one data request in flight at once.
    pub max_concurrent_requests: usize,
    /// A lookup that takes longer than this counts as failed.
    pub request_timeout_secs: u64,
}

impl Default for ExecutionConfig {
    fn default() -> (r: Self)
        ensures
            r.max_concurrent_requests == 5,
            r.request_timeout_secs == 30,
    {
        ExecutionConfig { max_concurrent_requests: 5, request_timeout_secs: 30 }
    }
}

/// A batch of data requests.
#[derive(Debug)]
pub struct OracleRequest {
    pub requests: Vec<DataRequest>,
    /// Largest accepted spread between sources, in percent (fixed-point).
    pub max_price_deviation_percent: i64,
    pub config: Option<ExecutionConfig>,
}

/// A value read from a source or returned to the caller.
#[derive(Clone, Debug, PartialEq)]
pub enum DataValue {
    /// A fixed-point number.
    Number(i64),
    Text(String),
    Boolean(bool),
}

/// The mathematical content of a [`DataValue`].
pub enum ValueView {
    Number(i64),
    Text(Seq<char>),
    Boolean(bool),
}

impl ValueView {
    /// The number a value counts as when numbers are combined: a boolean is
    /// one or zero, a text is no number.
    pub open spec fn number(self) -> Option<i64> {
        match self {
            ValueView::Number(n) => Some(n),
            ValueView::Boolean(b) => Some(if b { SCALE } else { 0 }),
            ValueView::Text(_) => None,
        }
    }
}

impl View for DataValue {
    type V = ValueView;

    open spec fn view(&self) -> ValueView {
        match self {
            DataValue::Number(n) => ValueView::Number(*n),
            DataValue::Text(s) => ValueView::Text(s@),
            DataValue::Boolean(b) => ValueView::Boolean(*b),
        }
    }
}

impl DataValue {
    /// The value as a number, for aggregation.
    pub fn as_number(&self) -> (r: Option<i64>)
        ensures
            r == self@.number(),
    {
        match self {
            DataValue::Number(n) => Some(*n),
            DataValue::Boolean(b) => Some(if *b { SCALE } else { 0 }),
            DataValue::Text(_) => None,
        }
    }

    /// A copy of the value.
    pub fn duplicate(&self) -> (r: DataValue)
        ensures
            r@ == self@,
    {
        match self {
            DataValue::Number(n) => DataValue::Number(*n),
            DataValue::Text(s) => DataValue::Text(s.clone()),
            DataValue::Boolean(b) => DataValue::Boolean(*b),
        }
    }
}

/// The result of one data request.
#[derive(Clone, Debug, PartialEq)]
pub struct PriceData {
    pub value: DataValue,
    /// Latest time of observation among the readings, in Unix seconds.
    pub timestamp: u64,
    /// Names of the sources that answered, in the order they answered.
    pub sources: Vec<String>,
}

pub struct PriceDataView {
    pub value: ValueView,
    pub timestamp: u64,
    pub sources: Seq<Seq<char>>,
}

impl View for PriceData {
    type V = PriceDataView;

    open spec fn view(&self) -> PriceDataView {
        PriceDataView {
            value: self.value@,
            timestamp: self.timestamp,
            sources: self.sources@.map_values(|s: String| s@),
        }
    }
}

/// The answer to one data request.
#[derive(Debug, PartialEq)]
pub struct DataResponse {
    pub id: String,
    /// Present on success only.
    pub data: Option<PriceData>,
    /// Diagnostic or informational text.
    pub message: Option<String>,
}

pub struct DataResponseView {
    pub id: Seq<char>,
    pub data: Option<PriceDataView>,
    pub message: Option<Seq<char>>,
}

pub open spec fn opt_text(s: Option<String>) -> Option<Seq<char>> {
    match s {
        Some(t) => Some(t@),
        None => None,
    }
}

impl View for DataResponse {
    type V = DataResponseView;

    open spec fn view(&self) -> DataResponseView {
        DataResponseView {
            id: self.id@,
            data: match self.data {
                Some(d) => Some(d@),
                None => None,
            },
            message: opt_text(self.message),
        }
    }
}

/// The answers to a batch, in request order.
#[derive(Debug)]
pub struct OracleResponse {
    pub results: Vec<DataResponse>,
}

/// One successful source lookup.
#[derive(Clone, Debug, PartialEq)]
pub struct SourcePrice {
    pub source_name: String,
    pub value: DataValue,
    /// Time of observation, in Unix seconds.
    pub timestamp: u64,
}

pub struct ReadingView {
    pub source_name: Seq<char>,
    pub value: ValueView,
    pub timestamp: u64,
}

impl View for SourcePrice {
    type V = ReadingView;

    open spec fn view(&self) -> ReadingView {
        ReadingView { source_name: self.source_name@, value: self.value@, timestamp: self.timestamp }
    }
}

impl SourcePrice {
    /// A copy of the reading.
    pub fn duplicate(&self) -> (r: SourcePrice)
        ensures
            r@ == self@,
    {
        SourcePrice {
            source_name: self.source_name.clone(),
            value: self.value.duplicate(),
            timestamp: self.timestamp,
        }
    }
}

/// The views of a sequence of readings.
pub open spec fn readings_view(s: Seq<SourcePrice>) -> Seq<ReadingView> {
    s.map_values(|p: SourcePrice| p@)
}

} // verus!
