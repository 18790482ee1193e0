//! Turning the readings and failures collected for one data request into its
//! response: quorum check, numeric or passthrough branch, deviation guard,
//! aggregation and the diagnostic message.

use vstd::prelude::*;
use crate::aggregation::{
    aggregate, aggregate_prices, calculate_price_deviation, deviation, guard_rejects, numbers,
};
use crate::text::{fixed_text, join_strings, join_text, nat_text, push_fixed, push_nat, texts};
use crate::types::{
    AggregationMethod, DataRequest, DataResponse, DataResponseView, DataValue, PriceData,
    PriceDataView, ReadingView, SourcePrice, ValueView, readings_view,
};

verus! {

/// Message of a request that too few sources answered.
pub open spec fn quorum_message(count: nat, required: nat, errors: Seq<Seq<char>>) -> Seq<char> {
    "Not enough sources responded ("@ + nat_text(count) + "/"@ + nat_text(required)
        + "). Errors: "@ + join_text(errors, ", "@)
}

/// Message of a request whose sources disagree too much.
pub open spec fn deviation_message(dev: int, max: int) -> Seq<char> {
    "Price deviation too high: "@ + fixed_text(dev, 2) + "% (max: "@ + fixed_text(max, 2)
        + "%)"@
}

/// Short name of an aggregation method, as the message reports it.
pub open spec fn method_label(m: AggregationMethod) -> Seq<char> {
    match m {
        AggregationMethod::Average => "avg"@,
        AggregationMethod::Median => "median"@,
        AggregationMethod::WeightedAvg => "weighted"@,
    }
}

/// `name: value` for each numeric reading, in order.
pub open spec fn source_details(rs: Seq<ReadingView>) -> Seq<Seq<char>>
    decreases rs.len(),
{
    if rs.len() == 0 {
        Seq::<Seq<char>>::empty()
    } else {
        match rs.last().value.number() {
            Some(n) => source_details(rs.drop_last()).push(
                rs.last().source_name + ": "@ + fixed_text(n as int, 6),
            ),
            None => source_details(rs.drop_last()),
        }
    }
}

/// The failures joined, when there were any.
pub open spec fn errors_note(errors: Seq<Seq<char>>) -> Option<Seq<char>> {
    if errors.len() > 0 {
        Some(join_text(errors, ", "@))
    } else {
        None
    }
}

/// Message of a numeric result that more than one number went into.
pub open spec fn detail_message(
    rs: Seq<ReadingView>,
    method: AggregationMethod,
    value: int,
    errors: Seq<Seq<char>>,
) -> Seq<char> {
    let info = join_text(source_details(rs), ", "@) + ", "@ + method_label(method) + ": "@
        + fixed_text(value, 6);
    if errors.len() > 0 {
        info + ". Errors: "@ + join_text(errors, ", "@)
    } else {
        info
    }
}

/// The latest observation time among the readings (zero when there is none).
pub open spec fn latest(rs: Seq<ReadingView>) -> u64
    decreases rs.len(),
{
    if rs.len() == 0 {
        0
    } else if rs.last().timestamp > latest(rs.drop_last()) {
        rs.last().timestamp
    } else {
        latest(rs.drop_last())
    }
}

pub open spec fn source_names(rs: Seq<ReadingView>) -> Seq<Seq<char>> {
    rs.map_values(|r: ReadingView| r.source_name)
}

pub open spec fn failure(id: Seq<char>, message: Seq<char>) -> DataResponseView {
    DataResponseView { id, data: None, message: Some(message) }
}

pub open spec fn success(
    id: Seq<char>,
    value: ValueView,
    rs: Seq<ReadingView>,
    message: Option<Seq<char>>,
) -> DataResponseView {
    DataResponseView {
        id,
        data: Some(PriceDataView { value, timestamp: latest(rs), sources: source_names(rs) }),
        message,
    }
}

/// Whether some reading holds a number (not a boolean or a text).
pub open spec fn carries_number(rs: Seq<ReadingView>) -> bool
    decreases rs.len(),
{
    if rs.len() == 0 {
        false
    } else {
        rs.last().value is Number || carries_number(rs.drop_last())
    }
}

proof fn lemma_number_counts(rs: Seq<ReadingView>)
    requires
        carries_number(rs),
    ensures
        numbers(rs).len() > 0,
    decreases rs.len(),
{
    if !(rs.last().value is Number) {
        lemma_number_counts(rs.drop_last());
    }
}

/// The response to a request, given the readings `rs` and the failure
/// messages `errors` that its sources produced and the largest accepted
/// deviation `max_dev`.
pub open spec fn fetched_response(
    id: Seq<char>,
    method: AggregationMethod,
    min_sources: nat,
    rs: Seq<ReadingView>,
    errors: Seq<Seq<char>>,
    max_dev: int,
) -> DataResponseView {
    let nums = numbers(rs);
    if rs.len() < min_sources {
        failure(id, quorum_message(rs.len(), min_sources, errors))
    } else if !carries_number(rs) {
        success(id, rs[0].value, rs, errors_note(errors))
    } else if guard_rejects(nums, max_dev) {
        failure(id, deviation_message(deviation(nums), max_dev))
    } else {
        let v = aggregate(nums, method);
        success(
            id,
            ValueView::Number(v as i64),
            rs,
            if nums.len() > 1 {
                Some(detail_message(rs, method, v, errors))
            } else {
                errors_note(errors)
            },
        )
    }
}

/// Running the request aggregator again on the same content gives the same
/// response: requests with the same id, method and quorum, readings with the
/// same names, values and times in the same order, the same failure texts
/// and the same threshold lead to one response view. With the contract of
/// `process_fetched_data` (`r@ == fetched_response(..)` over these views),
/// two runs on such inputs return equal views.
pub proof fn rerun_law(
    first_req: DataRequest,
    second_req: DataRequest,
    first_prices: Seq<SourcePrice>,
    second_prices: Seq<SourcePrice>,
    first_errors: Seq<String>,
    second_errors: Seq<String>,
    max_dev: int,
)
    requires
        first_req.id@ == second_req.id@,
        first_req.aggregation_method == second_req.aggregation_method,
        first_req.min_sources_num == second_req.min_sources_num,
        first_prices.len() == second_prices.len(),
        forall|i: int| 0 <= i < first_prices.len() ==> (#[trigger] first_prices[i])@ == second_prices[i]@,
        first_errors.len() == second_errors.len(),
        forall|i: int| 0 <= i < first_errors.len() ==> (#[trigger] first_errors[i])@ == second_errors[i]@,
    ensures
        fetched_response(
            first_req.id@,
            first_req.aggregation_method,
            first_req.min_sources_num as nat,
            readings_view(first_prices),
            texts(first_errors),
            max_dev,
        ) == fetched_response(
            second_req.id@,
            second_req.aggregation_method,
            second_req.min_sources_num as nat,
            readings_view(second_prices),
            texts(second_errors),
            max_dev,
        ),
{
    assert(readings_view(first_prices) =~= readings_view(second_prices));
    assert(texts(first_errors) =~= texts(second_errors));
}

/// Message of a request whose quorum is below one.
pub open spec fn quorum_too_low_message() -> Seq<char> {
    "Invalid request: min_sources_num must be at least 1"@
}

/// Checks what the aggregator asks of a request: a quorum of at least one.
pub fn validate_request(data_req: &DataRequest) -> (r: Result<(), String>)
    ensures
        data_req.min_sources_num >= 1 ==> r is Ok,
        data_req.min_sources_num < 1 ==> (r matches Err(e) && e@ == quorum_too_low_message()),
{
    if data_req.min_sources_num < 1 {
        return Err(String::from_str("Invalid request: min_sources_num must be at least 1"));
    }
    Ok(())
}

/// The response of a request that yields no result, with the reason.
pub fn failed_response(id: &String, reason: &str) -> (r: DataResponse)
    ensures
        r@ == failure(id@, reason@),
{
    DataResponse { id: id.clone(), data: None, message: Some(String::from_str(reason)) }
}

fn has_number(prices: &Vec<SourcePrice>) -> (r: bool)
    ensures
        r == carries_number(readings_view(prices@)),
{
    let ghost rs = readings_view(prices@);
    let mut i: usize = 0;
    while i < prices.len()
        invariant
            0 <= i <= prices.len(),
            rs == readings_view(prices@),
            !carries_number(rs.take(i as int)),
        decreases prices.len() - i,
    {
        assert(rs.take(i + 1).drop_last() =~= rs.take(i as int));
        if let DataValue::Number(_) = prices[i].value {
            proof {
                lemma_carries_prefix(rs, i + 1);
            }
            return true;
        }
        i = i + 1;
    }
    assert(rs.take(prices.len() as int) =~= rs);
    false
}

proof fn lemma_carries_prefix(rs: Seq<ReadingView>, k: int)
    requires
        0 <= k <= rs.len(),
        carries_number(rs.take(k)),
    ensures
        carries_number(rs),
    decreases rs.len() - k,
{
    if k < rs.len() {
        assert(rs.take(k + 1).drop_last() =~= rs.take(k));
        lemma_carries_prefix(rs, k + 1);
    } else {
        assert(rs.take(k) =~= rs);
    }
}

fn latest_timestamp(prices: &Vec<SourcePrice>) -> (r: u64)
    ensures
        r == latest(readings_view(prices@)),
{
    let ghost rs = readings_view(prices@);
    let mut t: u64 = 0;
    let mut i: usize = 0;
    while i < prices.len()
        invariant
            0 <= i <= prices.len(),
            rs == readings_view(prices@),
            t == latest(rs.take(i as int)),
        decreases prices.len() - i,
    {
        assert(rs.take(i + 1).drop_last() =~= rs.take(i as int));
        if prices[i].timestamp > t {
            t = prices[i].timestamp;
        }
        i = i + 1;
    }
    assert(rs.take(prices.len() as int) =~= rs);
    t
}

fn names_of(prices: &Vec<SourcePrice>) -> (r: Vec<String>)
    ensures
        texts(r@) == source_names(readings_view(prices@)),
{
    let mut r: Vec<String> = Vec::new();
    let mut i: usize = 0;
    while i < prices.len()
        invariant
            0 <= i <= prices.len(),
            texts(r@) =~= source_names(readings_view(prices@).take(i as int)),
        decreases prices.len() - i,
    {
        let name = prices[i].source_name.clone();
        let ghost before = r@;
        assert(name@ == readings_view(prices@)[i as int].source_name);
        r.push(name);
        assert(texts(r@) =~= texts(before).push(name@));
        assert(source_names(readings_view(prices@).take(i + 1)) =~= source_names(
            readings_view(prices@).take(i as int),
        ).push(name@));
        i = i + 1;
        assert(texts(r@) =~= source_names(readings_view(prices@).take(i as int)));
    }
    assert(readings_view(prices@).take(prices.len() as int) =~= readings_view(prices@));
    r
}

fn details_of(prices: &Vec<SourcePrice>) -> (r: Vec<String>)
    ensures
        texts(r@) == source_details(readings_view(prices@)),
{
    let ghost rs = readings_view(prices@);
    let mut r: Vec<String> = Vec::new();
    let mut i: usize = 0;
    while i < prices.len()
        invariant
            0 <= i <= prices.len(),
            rs == readings_view(prices@),
            texts(r@) =~= source_details(rs.take(i as int)),
        decreases prices.len() - i,
    {
        assert(rs.take(i + 1).drop_last() =~= rs.take(i as int));
        match prices[i].value.as_number() {
            Some(n) => {
                let mut line = prices[i].source_name.clone();
                line.append(": ");
                push_fixed(&mut line, n as i128, 6);
                r.push(line);
            },
            None => {},
        }
        i = i + 1;
        assert(texts(r@) =~= source_details(rs.take(i as int)));
    }
    assert(rs.take(prices.len() as int) =~= rs);
    r
}

fn label_of(method: &AggregationMethod) -> (r: &'static str)
    ensures
        r@ == method_label(*method),
{
    match method {
        AggregationMethod::Average => "avg",
        AggregationMethod::Median => "median",
        AggregationMethod::WeightedAvg => "weighted",
    }
}

fn joined_errors(errors: &Vec<String>) -> (r: Option<String>)
    ensures
        crate::types::opt_text(r) == errors_note(texts(errors@)),
{
    if errors.len() > 0 {
        Some(join_strings(errors, ", "))
    } else {
        None
    }
}

/// Builds the response to `data_req` from the readings and the failure
/// messages that its sources produced, in the order they completed.
pub fn process_fetched_data(
    data_req: DataRequest,
    source_prices: Vec<SourcePrice>,
    errors: Vec<String>,
    max_deviation: i64,
) -> (r: DataResponse)
    requires
        data_req.min_sources_num >= 1,
    ensures
        r@ == fetched_response(
            data_req.id@,
            data_req.aggregation_method,
            data_req.min_sources_num as nat,
            readings_view(source_prices@),
            texts(errors@),
            max_deviation as int,
        ),
{
    let ghost rs = readings_view(source_prices@);
    let ghost errs = texts(errors@);
    if source_prices.len() < data_req.min_sources_num {
        let mut msg = String::from_str("Not enough sources responded (");
        push_nat(&mut msg, source_prices.len() as u128);
        msg.append("/");
        push_nat(&mut msg, data_req.min_sources_num as u128);
        msg.append("). Errors: ");
        let joined = join_strings(&errors, ", ");
        msg.append(joined.as_str());
        return DataResponse { id: data_req.id.clone(), data: None, message: Some(msg) };
    }
    let numeric = crate::aggregation::numeric_values(source_prices.as_slice());
    let latest_ts = latest_timestamp(&source_prices);
    let names = names_of(&source_prices);
    if !has_number(&source_prices) {
        let value = source_prices[0].value.duplicate();
        let message = joined_errors(&errors);
        return DataResponse {
            id: data_req.id.clone(),
            data: Some(PriceData { value, timestamp: latest_ts, sources: names }),
            message,
        };
    }
    proof {
        lemma_number_counts(rs);
    }
    let dev = calculate_price_deviation(source_prices.as_slice());
    if numeric.len() >= 2 && dev > max_deviation as i128 {
        let mut msg = String::from_str("Price deviation too high: ");
        push_fixed(&mut msg, dev, 2);
        msg.append("% (max: ");
        push_fixed(&mut msg, max_deviation as i128, 2);
        msg.append("%)");
        return DataResponse { id: data_req.id.clone(), data: None, message: Some(msg) };
    }
    let price = match aggregate_prices(source_prices.as_slice(), &data_req.aggregation_method) {
        Ok(p) => p,
        Err(e) => {
            let mut msg = String::from_str("Aggregation failed: ");
            msg.append(e.as_str());
            return DataResponse { id: data_req.id.clone(), data: None, message: Some(msg) };
        },
    };
    let message = if numeric.len() > 1 {
        let details = details_of(&source_prices);
        let mut info = join_strings(&details, ", ");
        info.append(", ");
        info.append(label_of(&data_req.aggregation_method));
        info.append(": ");
        push_fixed(&mut info, price as i128, 6);
        if errors.len() > 0 {
            info.append(". Errors: ");
            let joined = join_strings(&errors, ", ");
            info.append(joined.as_str());
        }
        Some(info)
    } else {
        joined_errors(&errors)
    };
    DataResponse {
        id: data_req.id.clone(),
        data: Some(PriceData { value: DataValue::Number(price), timestamp: latest_ts, sources: names }),
        message,
    }
}

} // verus!
