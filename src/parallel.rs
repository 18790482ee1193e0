//! The decisions of the concurrent fetch: which lookups to run with which id
//! and credential, in which batches, how each outcome is classified, how the
//! outcomes are split, and how the responses of a batch return to request
//! order. Threads and clocks are the caller's.

use vstd::prelude::*;
use crate::text::{nat_text, push_nat, same_text, texts};
use crate::types::{DataRequest, DataResponse, ReadingView, SourcePrice, opt_text, readings_view};

verus! {

/// Credentials of the sources that take one; absent ones are anonymous.
#[derive(Clone, Debug)]
pub struct ApiKeys {
    pub coingecko: Option<String>,
    pub coinmarketcap: Option<String>,
    pub twelvedata: Option<String>,
}

/// The credential that goes with a source name.
pub open spec fn key_for(name: Seq<char>, keys: ApiKeys) -> Option<Seq<char>> {
    if name == "coingecko"@ {
        opt_text(keys.coingecko)
    } else if name == "coinmarketcap"@ {
        opt_text(keys.coinmarketcap)
    } else if name == "twelvedata"@ {
        opt_text(keys.twelvedata)
    } else {
        None
    }
}

fn copy_opt(s: &Option<String>) -> (r: Option<String>)
    ensures
        opt_text(r) == opt_text(*s),
{
    match s {
        Some(t) => Some(t.clone()),
        None => None,
    }
}

/// The credential of the source called `name`.
pub fn api_key_for(name: &str, keys: &ApiKeys) -> (r: Option<String>)
    ensures
        opt_text(r) == key_for(name@, *keys),
{
    if same_text(name, "coingecko") {
        copy_opt(&keys.coingecko)
    } else if same_text(name, "coinmarketcap") {
        copy_opt(&keys.coinmarketcap)
    } else if same_text(name, "twelvedata") {
        copy_opt(&keys.twelvedata)
    } else {
        None
    }
}

/// One lookup to perform: the source at `source_index` of the request.
#[derive(Clone, Debug)]
pub struct SourceLookup {
    pub source_index: usize,
    pub source_name: String,
    /// The source's own id, or else the request's.
    pub id: String,
    pub api_key: Option<String>,
}

/// The id under which source `i` of the request is looked up.
pub open spec fn effective_id(req: DataRequest, i: int) -> Seq<char> {
    match req.sources@[i].id {
        Some(id) => id@,
        None => req.id@,
    }
}

/// The lookup of source `i`, as `plan_lookups` makes it.
pub open spec fn is_lookup_of(l: SourceLookup, req: DataRequest, keys: ApiKeys, i: int) -> bool {
    &&& l.source_index == i
    &&& l.source_name@ == req.sources@[i].name@
    &&& l.id@ == effective_id(req, i)
    &&& opt_text(l.api_key) == key_for(req.sources@[i].name@, keys)
}

/// One lookup per source of the request, in the order of the sources.
pub fn plan_lookups(data_req: &DataRequest, keys: &ApiKeys) -> (r: Vec<SourceLookup>)
    ensures
        r.len() == data_req.sources.len(),
        forall|i: int| 0 <= i < r.len() ==> is_lookup_of(#[trigger] r@[i], *data_req, *keys, i),
{
    let mut r: Vec<SourceLookup> = Vec::new();
    let mut i: usize = 0;
    while i < data_req.sources.len()
        invariant
            0 <= i <= data_req.sources.len(),
            r.len() == i,
            forall|j: int| 0 <= j < i ==> is_lookup_of(#[trigger] r@[j], *data_req, *keys, j),
        decreases data_req.sources.len() - i,
    {
        let source = &data_req.sources[i];
        let id = match &source.id {
            Some(id) => id.clone(),
            None => data_req.id.clone(),
        };
        let api_key = api_key_for(source.name.as_str(), keys);
        r.push(SourceLookup { source_index: i, source_name: source.name.clone(), id, api_key });
        i = i + 1;
    }
    r
}

/// The batch that lookup position `p` falls in.
pub open spec fn batch_of(p: int, max: int) -> int {
    p / max
}

/// Splits `count` lookups into consecutive batches of at most `max` each,
/// every batch but the last holding exactly `max`. Each batch is a range
/// `(start, end)` of lookup positions.
pub fn lookup_batches(count: usize, max: usize) -> (r: Vec<(usize, usize)>)
    requires
        max >= 1,
    ensures
        (r.len() == 0) == (count == 0),
        forall|b: int| 0 <= b < r.len() ==> (#[trigger] r@[b]).0 == b * max,
        forall|b: int| 0 <= b < r.len() - 1 ==> (#[trigger] r@[b]).1 == (b + 1) * max,
        r.len() > 0 ==> r@.last().1 == count && r@.last().0 < count <= r@.last().0 + max,
        forall|b: int| 0 <= b < r.len() ==> (#[trigger] r@[b]).0 < r@[b].1 <= r@[b].0 + max,
        forall|p: int|
            0 <= p < count ==> #[trigger] batch_of(p, max as int) < r.len() && r@[batch_of(
                p,
                max as int,
            )].0 <= p < r@[batch_of(p, max as int)].1,
{
    let mut r: Vec<(usize, usize)> = Vec::new();
    let mut start: usize = 0;
    assert(r.len() * max == 0) by (nonlinear_arith)
        requires
            r.len() == 0,
    ;
    while count - start > max
        invariant
            max >= 1,
            start <= count,
            start == r.len() * max,
            forall|b: int| 0 <= b < r.len() ==> (#[trigger] r@[b]).0 == b * max,
            forall|b: int| 0 <= b < r.len() ==> (#[trigger] r@[b]).1 == (b + 1) * max,
        decreases count - start,
    {
        proof {
            assert((r.len() + 1) * max == r.len() * max + max) by (nonlinear_arith);
        }
        r.push((start, start + max));
        start = start + max;
    }
    if start < count {
        r.push((start, count));
    } else {
        proof {
            if r.len() > 0 {
                assert((r.len() as int - 1) * max == r.len() * max - max) by (nonlinear_arith);
            }
        }
    }
    proof {
        let m = max as int;
        let len = r.len() as int;
        assert forall|b: int| 0 <= b < r.len() implies (#[trigger] r@[b]).0 < r@[b].1 <= r@[b].0 + max by {
            assert((b + 1) * m == b * m + m) by (nonlinear_arith);
        }
        assert forall|p: int| 0 <= p < count implies #[trigger] batch_of(p, m) < r.len() && r@[batch_of(
            p,
            m,
        )].0 <= p < r@[batch_of(p, m)].1 by {
            let b = p / m;
            vstd::arithmetic::div_mod::lemma_fundamental_div_mod(p, m);
            assert(b * m <= p < b * m + m) by (nonlinear_arith)
                requires
                    p == m * b + p % m,
                    0 <= p % m < m,
            ;
            assert(len >= 1);
            assert(r@[len - 1].0 == (len - 1) * m);
            assert(p < (len - 1) * m + m);
            assert(b < len) by (nonlinear_arith)
                requires
                    b * m <= p,
                    p < (len - 1) * m + m,
                    m >= 1,
            ;
            assert((b + 1) * m == b * m + m) by (nonlinear_arith);
        }
    }
    r
}

/// Failure message of a lookup that outlived its timeout.
pub open spec fn timeout_message(name: Seq<char>, timeout_secs: nat) -> Seq<char> {
    name + ": Request timeout after "@ + nat_text(timeout_secs) + " seconds"@
}

/// The view of a lookup outcome: a reading, or a failure message.
pub open spec fn outcome_view(o: Result<SourcePrice, String>) -> Result<ReadingView, Seq<char>> {
    match o {
        Ok(p) => Ok(p@),
        Err(e) => Err(e@),
    }
}

/// The outcome of a lookup of source `name` that took `elapsed_nanos`: a
/// timeout failure when that exceeds `timeout_secs`, whatever the adapter
/// returned; otherwise the adapter's reading, or its error prefixed with the
/// source name.
pub fn classify_outcome(
    name: &str,
    result: Result<SourcePrice, String>,
    elapsed_nanos: u128,
    timeout_secs: u64,
) -> (r: Result<SourcePrice, String>)
    ensures
        elapsed_nanos > timeout_secs * 1_000_000_000 ==> outcome_view(r) == Err::<ReadingView, Seq<char>>(
            timeout_message(name@, timeout_secs as nat),
        ),
        elapsed_nanos <= timeout_secs * 1_000_000_000 ==> outcome_view(r) == match result {
            Ok(p) => Ok::<ReadingView, Seq<char>>(p@),
            Err(e) => Err(name@ + ": "@ + e@),
        },
{
    if elapsed_nanos > (timeout_secs as u128) * 1_000_000_000 {
        let mut msg = String::from_str(name);
        msg.append(": Request timeout after ");
        push_nat(&mut msg, timeout_secs as u128);
        msg.append(" seconds");
        return Err(msg);
    }
    match result {
        Ok(p) => Ok(p),
        Err(e) => {
            let mut msg = String::from_str(name);
            msg.append(": ");
            msg.append(e.as_str());
            Err(msg)
        },
    }
}

/// The readings among the outcomes, in order.
pub open spec fn ok_part(s: Seq<Result<ReadingView, Seq<char>>>) -> Seq<ReadingView>
    decreases s.len(),
{
    if s.len() == 0 {
        Seq::<ReadingView>::empty()
    } else {
        match s.last() {
            Ok(p) => ok_part(s.drop_last()).push(p),
            Err(_) => ok_part(s.drop_last()),
        }
    }
}

/// The failure messages among the outcomes, in order.
pub open spec fn err_part(s: Seq<Result<ReadingView, Seq<char>>>) -> Seq<Seq<char>>
    decreases s.len(),
{
    if s.len() == 0 {
        Seq::<Seq<char>>::empty()
    } else {
        match s.last() {
            Ok(_) => err_part(s.drop_last()),
            Err(e) => err_part(s.drop_last()).push(e),
        }
    }
}

pub open spec fn outcomes_view(s: Seq<Result<SourcePrice, String>>) -> Seq<Result<ReadingView, Seq<char>>> {
    s.map_values(|o: Result<SourcePrice, String>| outcome_view(o))
}

/// Splits collected outcomes into readings and failure messages, each in
/// the order of collection.
pub fn split_outcomes(results: &Vec<Result<SourcePrice, String>>) -> (r: (Vec<SourcePrice>, Vec<String>))
    ensures
        readings_view(r.0@) == ok_part(outcomes_view(results@)),
        texts(r.1@) == err_part(outcomes_view(results@)),
{
    let ghost os = outcomes_view(results@);
    let mut prices: Vec<SourcePrice> = Vec::new();
    let mut errors: Vec<String> = Vec::new();
    let mut i: usize = 0;
    while i < results.len()
        invariant
            0 <= i <= results.len(),
            os == outcomes_view(results@),
            readings_view(prices@) =~= ok_part(os.take(i as int)),
            texts(errors@) =~= err_part(os.take(i as int)),
        decreases results.len() - i,
    {
        assert(os.take(i + 1).drop_last() =~= os.take(i as int));
        let ghost before_p = prices@;
        let ghost before_e = errors@;
        match &results[i] {
            Ok(p) => {
                let c = p.duplicate();
                prices.push(c);
                assert(readings_view(prices@) =~= readings_view(before_p).push(c@));
            },
            Err(e) => {
                let c = e.clone();
                errors.push(c);
                assert(texts(errors@) =~= texts(before_e).push(c@));
            },
        }
        i = i + 1;
    }
    assert(os.take(results.len() as int) =~= os);
    (prices, errors)
}

/// The tags are the positions `0..n` of the `n` items, each once.
pub open spec fn tags_are_positions(tagged: Seq<(usize, DataResponse)>) -> bool {
    &&& forall|k: int| 0 <= k < tagged.len() ==> (#[trigger] tagged[k]).0 < tagged.len()
    &&& forall|a: int, b: int|
        0 <= a < b < tagged.len() ==> (#[trigger] tagged[a]).0 != (#[trigger] tagged[b]).0
}

/// Some item of `tagged` carries the tag `i`.
pub open spec fn has_tag(tagged: Seq<(usize, DataResponse)>, i: int) -> bool {
    exists|k: int| 0 <= k < tagged.len() && tagged[k].0 == i
}

/// Reassembling a batch depends on what was collected, not on the order of
/// collection: when two collections hold, tag for tag, responses of the same
/// content, the two results that `order_responses` promises for them agree
/// slot by slot.
pub proof fn batch_rerun_law(
    first: Seq<(usize, DataResponse)>,
    second: Seq<(usize, DataResponse)>,
    first_out: Seq<DataResponse>,
    second_out: Seq<DataResponse>,
)
    requires
        first.len() == second.len(),
        forall|k: int|
            0 <= k < first.len() ==> exists|k2: int|
                0 <= k2 < second.len() && second[k2].0 == (#[trigger] first[k]).0 && second[k2].1@
                    == first[k].1@,
        first_out.len() == first.len(),
        forall|k: int| 0 <= k < first.len() ==> first_out[(#[trigger] first[k]).0 as int] == first[k].1,
        forall|i: int| 0 <= i < first.len() ==> #[trigger] has_tag(first, i),
        second_out.len() == second.len(),
        forall|k: int| 0 <= k < second.len() ==> second_out[(#[trigger] second[k]).0 as int] == second[k].1,
    ensures
        forall|i: int| 0 <= i < first_out.len() ==> (#[trigger] first_out[i])@ == second_out[i]@,
{
    assert forall|i: int| 0 <= i < first_out.len() implies (#[trigger] first_out[i])@ == second_out[i]@ by {
        assert(has_tag(first, i));
        let k = choose|k: int| 0 <= k < first.len() && first[k].0 == i;
        assert(first_out[first[k].0 as int] == first[k].1);
        let k2 = choose|k2: int| 0 <= k2 < second.len() && second[k2].0 == first[k].0 && second[k2].1@ == first[k].1@;
        assert(second_out[second[k2].0 as int] == second[k2].1);
    }
}

/// `x` is one of the items of `orig` at positions `lo..hi`.
spec fn drawn_from(x: (usize, DataResponse), orig: Seq<(usize, DataResponse)>, lo: int, hi: int) -> bool {
    exists|k: int| lo <= k < hi && x == orig[k]
}

proof fn lemma_increasing_from(s: Seq<(usize, DataResponse)>, i: int)
    requires
        0 <= i < s.len(),
        forall|a: int, b: int| 0 <= a < b < s.len() ==> (#[trigger] s[a]).0 < (#[trigger] s[b]).0,
    ensures
        s[i].0 >= i,
    decreases i,
{
    if i > 0 {
        lemma_increasing_from(s, i - 1);
        assert(s[i - 1].0 < s[i].0);
    }
}

proof fn lemma_increasing_to(s: Seq<(usize, DataResponse)>, i: int)
    requires
        0 <= i < s.len(),
        forall|k: int| 0 <= k < s.len() ==> (#[trigger] s[k]).0 < s.len(),
        forall|a: int, b: int| 0 <= a < b < s.len() ==> (#[trigger] s[a]).0 < (#[trigger] s[b]).0,
    ensures
        s[i].0 <= i,
    decreases s.len() - i,
{
    if i < s.len() - 1 {
        lemma_increasing_to(s, i + 1);
        assert(s[i].0 < s[i + 1].0);
    }
}

/// Puts responses tagged with their request's position back in request
/// order, whatever order they were collected in.
pub fn order_responses(tagged: Vec<(usize, DataResponse)>) -> (r: Vec<DataResponse>)
    requires
        tags_are_positions(tagged@),
    ensures
        r.len() == tagged.len(),
        forall|k: int| 0 <= k < tagged.len() ==> r@[(#[trigger] tagged@[k]).0 as int] == tagged@[k].1,
        forall|i: int| 0 <= i < tagged.len() ==> #[trigger] has_tag(tagged@, i),
{
    let n = tagged.len();
    let ghost orig = tagged@;
    let mut rest = tagged;
    let mut sorted: Vec<(usize, DataResponse)> = Vec::new();
    while rest.len() > 0
        invariant
            rest.len() + sorted.len() == n,
            n == orig.len(),
            tags_are_positions(orig),
            rest@ == orig.take(rest.len() as int),
            forall|j: int|
                0 <= j < sorted.len() ==> drawn_from(#[trigger] sorted@[j], orig, rest.len() as int, n as int),
            forall|a: int, b: int|
                0 <= a < b < sorted.len() ==> (#[trigger] sorted@[a]).0 < (#[trigger] sorted@[b]).0,
        decreases rest.len(),
    {
        let ghost m = rest.len() - 1;
        let item = rest.pop().unwrap();
        assert(item == orig[m]);
        assert(rest@ =~= orig.take(rest.len() as int));
        let mut p: usize = 0;
        while p < sorted.len() && sorted[p].0 < item.0
            invariant
                p <= sorted.len(),
                forall|j: int| 0 <= j < p ==> (#[trigger] sorted@[j]).0 < item.0,
            decreases sorted.len() - p,
        {
            p = p + 1;
        }
        proof {
            assert forall|j: int| p <= j < sorted.len() implies (#[trigger] sorted@[j]).0 > item.0 by {
                assert(drawn_from(sorted@[j], orig, m + 1, n as int));
                let k = choose|k: int| m + 1 <= k < n && sorted@[j] == orig[k];
                assert(orig[k].0 != orig[m].0);
                if j > p {
                    assert(sorted@[p as int].0 < sorted@[j].0);
                }
            }
        }
        let ghost before = sorted@;
        sorted.insert(p, item);
        proof {
            assert forall|j: int| 0 <= j < sorted.len() implies drawn_from(
                #[trigger] sorted@[j],
                orig,
                rest.len() as int,
                n as int,
            ) by {
                if j < p {
                    assert(sorted@[j] == before[j]);
                    assert(drawn_from(before[j], orig, m + 1, n as int));
                } else if j == p {
                    assert(sorted@[j] == orig[m]);
                } else {
                    assert(sorted@[j] == before[j - 1]);
                    assert(drawn_from(before[j - 1], orig, m + 1, n as int));
                }
            }
            assert forall|a: int, b: int| 0 <= a < b < sorted.len() implies (#[trigger] sorted@[a]).0
                < (#[trigger] sorted@[b]).0 by {
                if b < p {
                    assert(sorted@[a] == before[a] && sorted@[b] == before[b]);
                } else if b == p {
                    assert(sorted@[a] == before[a]);
                } else if a < p {
                    assert(sorted@[a] == before[a] && sorted@[b] == before[b - 1]);
                } else if a == p {
                    assert(sorted@[b] == before[b - 1]);
                } else {
                    assert(sorted@[a] == before[a - 1] && sorted@[b] == before[b - 1]);
                }
            }
        }
    }
    assert(rest.len() == 0);
    proof {
        assert forall|j: int| 0 <= j < sorted.len() implies (#[trigger] sorted@[j]).0 < sorted.len() by {
            assert(drawn_from(sorted@[j], orig, 0, n as int));
            let k = choose|k: int| 0 <= k < n && sorted@[j] == orig[k];
        }
        assert forall|j: int| 0 <= j < sorted.len() implies (#[trigger] sorted@[j]).0 == j by {
            lemma_increasing_from(sorted@, j);
            lemma_increasing_to(sorted@, j);
        }
        assert forall|i: int| 0 <= i < n implies #[trigger] has_tag(orig, i) by {
            assert(sorted@[i].0 == i);
            assert(drawn_from(sorted@[i], orig, 0, n as int));
            let k = choose|k: int| 0 <= k < n && sorted@[i] == orig[k];
            assert(orig[k].0 == i);
        }
    }
    let mut r: Vec<DataResponse> = Vec::new();
    while sorted.len() > 0
        invariant
            r.len() + sorted.len() == n,
            forall|j: int| 0 <= j < sorted.len() ==> (#[trigger] sorted@[j]).0 == r.len() + j,
            forall|j: int| 0 <= j < sorted.len() ==> drawn_from(#[trigger] sorted@[j], orig, 0, n as int),
            forall|k: int| 0 <= k < n && orig[k].0 < r.len() ==> r@[(#[trigger] orig[k]).0 as int] == orig[k].1,
            tags_are_positions(orig),
            n == orig.len(),
        decreases sorted.len(),
    {
        let ghost before_r = r@;
        let ghost before_s = sorted@;
        let item = sorted.remove(0);
        assert forall|j: int| 0 <= j < sorted.len() implies (#[trigger] sorted@[j]).0 == r.len() + 1 + j by {
            assert(sorted@[j] == before_s[j + 1]);
        }
        assert forall|j: int| 0 <= j < sorted.len() implies drawn_from(#[trigger] sorted@[j], orig, 0, n as int) by {
            assert(sorted@[j] == before_s[j + 1]);
            assert(drawn_from(before_s[j + 1], orig, 0, n as int));
        }
        assert(drawn_from(before_s[0], orig, 0, n as int));
        let ghost k0 = choose|k: int| 0 <= k < n && before_s[0] == orig[k];
        r.push(item.1);
        proof {
            assert forall|k: int| 0 <= k < n && orig[k].0 < r.len() implies r@[(#[trigger] orig[k]).0 as int]
                == orig[k].1 by {
                if orig[k].0 < before_r.len() {
                    assert(r@[orig[k].0 as int] == before_r[orig[k].0 as int]);
                } else {
                    assert(orig[k].0 == orig[k0].0);
                    if k != k0 {
                        if k < k0 {
                            assert(orig[k].0 != orig[k0].0);
                        } else {
                            assert(orig[k0].0 != orig[k].0);
                        }
                    }
                }
            }
        }
    }
    r
}

} // verus!
