//! A JSON document as a tree, and the path interpreter of custom sources:
//! a dot-separated path is walked one segment at a time, each segment an
//! object key or else an array index.

use vstd::prelude::*;
use crate::decimal::{decimal_value, float_error, float_error_text, index_value, parse_decimal, parse_index};
use crate::text::{same_text, texts};
use crate::types::{DataValue, ValueType, ValueView};

verus! {

/// A JSON document.
#[derive(Debug)]
pub enum JsonTree {
    Null,
    Bool(bool),
    /// A number: its fixed-point value when it has one, and its JSON text.
    Number(Option<i64>, String),
    Text(String),
    /// The items, and the array's compact JSON text.
    Array(Vec<JsonTree>, String),
    /// The entries in order, keys distinct, and the object's compact JSON text.
    Object(Vec<(String, JsonTree)>, String),
}

/// The value stored under `key` among `entries`.
pub open spec fn entry_for(entries: Seq<(String, JsonTree)>, key: Seq<char>) -> Option<JsonTree>
    decreases entries.len(),
{
    if entries.len() == 0 {
        None
    } else if entries[0].0@ == key {
        Some(entries[0].1)
    } else {
        entry_for(entries.drop_first(), key)
    }
}

pub open spec fn key_child(t: JsonTree, key: Seq<char>) -> Option<JsonTree> {
    match t {
        JsonTree::Object(entries, _) => entry_for(entries@, key),
        _ => None,
    }
}

pub open spec fn item_child(t: JsonTree, i: nat) -> Option<JsonTree> {
    match t {
        JsonTree::Array(items, _) => if i < items.len() {
            Some(items@[i as int])
        } else {
            None
        },
        _ => None,
    }
}

pub open spec fn not_found_message(path: Seq<char>, part: Seq<char>) -> Seq<char> {
    "JSON path '"@ + path + "' not found at '"@ + part + "'"@
}

pub open spec fn out_of_bounds_message(path: Seq<char>, part: Seq<char>) -> Seq<char> {
    "JSON path '"@ + path + "' array index '"@ + part + "' out of bounds"@
}

/// One segment of a walk: the child under the key `part`, or else, when
/// `part` reads as an index, the array item at that index.
pub open spec fn step(t: JsonTree, part: Seq<char>, path: Seq<char>) -> Result<JsonTree, Seq<char>> {
    match key_child(t, part) {
        Some(c) => Ok(c),
        None => match index_value(part) {
            Some(i) => match item_child(t, i) {
                Some(c) => Ok(c),
                None => Err(out_of_bounds_message(path, part)),
            },
            None => Err(not_found_message(path, part)),
        },
    }
}

/// The node that the segments lead to, or the message of the first segment
/// that leads nowhere.
pub open spec fn walk(t: JsonTree, parts: Seq<Seq<char>>, path: Seq<char>) -> Result<
    JsonTree,
    Seq<char>,
>
    decreases parts.len(),
{
    if parts.len() == 0 {
        Ok(t)
    } else {
        match step(t, parts[0], path) {
            Ok(c) => walk(c, parts.drop_first(), path),
            Err(e) => Err(e),
        }
    }
}

/// The segments of `s` between dots (one empty segment for an empty `s`).
pub open spec fn split_dots(s: Seq<char>) -> Seq<Seq<char>>
    decreases s.len(),
{
    if s.len() == 0 {
        seq![Seq::<char>::empty()]
    } else {
        let rest = split_dots(s.drop_last());
        if s.last() == '.' {
            rest.push(Seq::<char>::empty())
        } else {
            rest.update(rest.len() - 1, rest.last().push(s.last()))
        }
    }
}

proof fn lemma_split_nonempty(s: Seq<char>)
    ensures
        split_dots(s).len() >= 1,
    decreases s.len(),
{
    if s.len() > 0 {
        lemma_split_nonempty(s.drop_last());
    }
}

/// The JSON text of a node other than a string.
pub open spec fn rendering(t: JsonTree) -> Seq<char> {
    match t {
        JsonTree::Null => "null"@,
        JsonTree::Bool(b) => if b {
            "true"@
        } else {
            "false"@
        },
        JsonTree::Number(_, text) => text@,
        JsonTree::Text(s) => s@,
        JsonTree::Array(_, text) => text@,
        JsonTree::Object(_, text) => text@,
    }
}

pub open spec fn not_number_message(path: Seq<char>) -> Seq<char> {
    "Value at '"@ + path + "' is not a number"@
}

pub open spec fn out_of_range_message(path: Seq<char>) -> Seq<char> {
    "Value at '"@ + path + "' is out of range"@
}

pub open spec fn unparsable_message(s: Seq<char>) -> Seq<char> {
    "Failed to parse '"@ + s + "' as number: "@ + float_error(s)
}

pub open spec fn not_boolean_message(path: Seq<char>) -> Seq<char> {
    "Value at '"@ + path + "' is not a boolean"@
}

/// The value of the kind `vt` that the node `t` holds.
pub open spec fn typed_value(t: JsonTree, path: Seq<char>, vt: ValueType) -> Result<ValueView, Seq<char>> {
    match vt {
        ValueType::Number => match t {
            JsonTree::Number(Some(v), _) => Ok(ValueView::Number(v)),
            JsonTree::Number(None, _) => Err(out_of_range_message(path)),
            JsonTree::Text(s) => match decimal_value(s@) {
                Some(v) => Ok(ValueView::Number(v as i64)),
                None => Err(unparsable_message(s@)),
            },
            _ => Err(not_number_message(path)),
        },
        ValueType::String => Ok(ValueView::Text(rendering(t))),
        ValueType::Boolean => match t {
            JsonTree::Bool(b) => Ok(ValueView::Boolean(b)),
            _ => Err(not_boolean_message(path)),
        },
    }
}

/// What a custom source reads from `json` at `path`.
pub open spec fn extracted(json: JsonTree, path: Seq<char>, vt: ValueType) -> Result<ValueView, Seq<char>> {
    match walk(json, split_dots(path), path) {
        Ok(t) => typed_value(t, path, vt),
        Err(e) => Err(e),
    }
}

pub open spec fn result_view(r: Result<DataValue, String>) -> Result<ValueView, Seq<char>> {
    match r {
        Ok(v) => Ok(v@),
        Err(e) => Err(e@),
    }
}

/// The segments of a dot-separated path.
pub fn split_path(s: &str) -> (r: Vec<String>)
    ensures
        texts(r@) == split_dots(s@),
{
    let n = s.unicode_len();
    let mut parts: Vec<String> = Vec::new();
    let mut start: usize = 0;
    let mut i: usize = 0;
    assert(s@.take(0) =~= Seq::<char>::empty());
    assert(texts(parts@).push(s@.subrange(0, 0)) =~= seq![Seq::<char>::empty()]);
    while i < n
        invariant
            start <= i <= n,
            n == s@.len(),
            split_dots(s@.take(i as int)) == texts(parts@).push(s@.subrange(start as int, i as int)),
        decreases n - i,
    {
        let c = s.get_char(i);
        let ghost prev = s@.take(i as int);
        assert(s@.take(i + 1).drop_last() =~= prev);
        assert(s@.take(i + 1).last() == c);
        if c == '.' {
            let part = s.substring_char(start, i);
            let ghost before = parts@;
            parts.push(String::from_str(part));
            assert(texts(parts@) =~= texts(before).push(s@.subrange(start as int, i as int)));
            start = i + 1;
            assert(s@.subrange(start as int, i + 1) =~= Seq::<char>::empty());
        } else {
            proof {
                lemma_split_nonempty(prev);
                assert(s@.subrange(start as int, i + 1) =~= s@.subrange(start as int, i as int).push(c));
                assert(split_dots(s@.take(i + 1)) =~= texts(parts@).push(
                    s@.subrange(start as int, i + 1),
                ));
            }
        }
        i = i + 1;
    }
    let last = s.substring_char(start, n);
    let ghost before = parts@;
    parts.push(String::from_str(last));
    assert(texts(parts@) =~= texts(before).push(s@.subrange(start as int, n as int)));
    assert(s@.take(n as int) =~= s@);
    parts
}

/// The child of `t` under `key`, when `t` is an object that has one.
pub fn key_child_of<'a>(t: &'a JsonTree, key: &str) -> (r: Option<&'a JsonTree>)
    ensures
        r matches Some(c) ==> key_child(*t, key@) == Some(*c),
        r is None ==> key_child(*t, key@) is None,
{
    match t {
        JsonTree::Object(entries, _) => {
            let mut i: usize = 0;
            assert(entries@.skip(0) =~= entries@);
            while i < entries.len()
                invariant
                    0 <= i <= entries.len(),
                    key_child(*t, key@) == entry_for(entries@, key@),
                    entry_for(entries@, key@) == entry_for(entries@.skip(i as int), key@),
                decreases entries.len() - i,
            {
                assert(entries@.skip(i as int).drop_first() =~= entries@.skip(i + 1));
                assert(entries@.skip(i as int)[0] == entries@[i as int]);
                if same_text(entries[i].0.as_str(), key) {
                    assert(entries@.skip(i as int).len() > 0);
                    assert(entries@.skip(i as int)[0].0@ == key@);
                    assert(entry_for(entries@.skip(i as int), key@) == Some(entries@[i as int].1));
                    return Some(&entries[i].1);
                }
                i = i + 1;
            }
            None
        },
        _ => None,
    }
}

/// The item of `t` at `index`, when `t` is an array that long.
pub fn item_child_of<'a>(t: &'a JsonTree, index: usize) -> (r: Option<&'a JsonTree>)
    ensures
        r matches Some(c) ==> item_child(*t, index as nat) == Some(*c),
        r is None ==> item_child(*t, index as nat) is None,
{
    match t {
        JsonTree::Array(items, _) => {
            if index < items.len() {
                Some(&items[index])
            } else {
                None
            }
        },
        _ => None,
    }
}

fn step_from<'a>(t: &'a JsonTree, part: &str, path: &str) -> (r: Result<&'a JsonTree, String>)
    ensures
        r matches Ok(c) ==> step(*t, part@, path@) == Ok::<JsonTree, Seq<char>>(*c),
        r matches Err(e) ==> step(*t, part@, path@) == Err::<JsonTree, Seq<char>>(e@),
{
    match key_child_of(t, part) {
        Some(c) => Ok(c),
        None => match parse_index(part) {
            Some(i) => match item_child_of(t, i) {
                Some(c) => Ok(c),
                None => {
                    let mut msg = String::from_str("JSON path '");
                    msg.append(path);
                    msg.append("' array index '");
                    msg.append(part);
                    msg.append("' out of bounds");
                    Err(msg)
                },
            },
            None => {
                let mut msg = String::from_str("JSON path '");
                msg.append(path);
                msg.append("' not found at '");
                msg.append(part);
                msg.append("'");
                Err(msg)
            },
        },
    }
}

/// The JSON text of a node (a string's own text).
pub fn rendered(t: &JsonTree) -> (r: String)
    ensures
        r@ == rendering(*t),
{
    match t {
        JsonTree::Null => String::from_str("null"),
        JsonTree::Bool(b) => if *b {
            String::from_str("true")
        } else {
            String::from_str("false")
        },
        JsonTree::Number(_, text) => text.clone(),
        JsonTree::Text(s) => s.clone(),
        JsonTree::Array(_, text) => text.clone(),
        JsonTree::Object(_, text) => text.clone(),
    }
}

fn value_of(t: &JsonTree, path: &str, value_type: &ValueType) -> (r: Result<DataValue, String>)
    ensures
        result_view(r) == typed_value(*t, path@, *value_type),
{
    match value_type {
        ValueType::Number => match t {
            JsonTree::Number(Some(v), _) => Ok(DataValue::Number(*v)),
            JsonTree::Number(None, _) => {
                let mut msg = String::from_str("Value at '");
                msg.append(path);
                msg.append("' is out of range");
                Err(msg)
            },
            JsonTree::Text(s) => match parse_decimal(s.as_str()) {
                Some(v) => Ok(DataValue::Number(v)),
                None => {
                    let mut msg = String::from_str("Failed to parse '");
                    msg.append(s.as_str());
                    msg.append("' as number: ");
                    let reason = float_error_text(s.as_str());
                    msg.append(reason.as_str());
                    Err(msg)
                },
            },
            _ => {
                let mut msg = String::from_str("Value at '");
                msg.append(path);
                msg.append("' is not a number");
                Err(msg)
            },
        },
        ValueType::String => Ok(DataValue::Text(rendered(t))),
        ValueType::Boolean => match t {
            JsonTree::Bool(b) => Ok(DataValue::Boolean(*b)),
            _ => {
                let mut msg = String::from_str("Value at '");
                msg.append(path);
                msg.append("' is not a boolean");
                Err(msg)
            },
        },
    }
}

/// Reads the value of kind `value_type` at the dot-separated `path` of
/// `json` (`"data.price"`, `"blocks.0.author"`).
pub fn extract_json_value(json: &JsonTree, path: &str, value_type: &ValueType) -> (r: Result<
    DataValue,
    String,
>)
    ensures
        result_view(r) == extracted(*json, path@, *value_type),
{
    let parts = split_path(path);
    let ghost segs = texts(parts@);
    let mut current: &JsonTree = json;
    let mut i: usize = 0;
    assert(segs.skip(0) =~= segs);
    while i < parts.len()
        invariant
            0 <= i <= parts.len(),
            segs == texts(parts@),
            segs == split_dots(path@),
            walk(*json, segs, path@) == walk(*current, segs.skip(i as int), path@),
        decreases parts.len() - i,
    {
        assert(segs.skip(i as int).drop_first() =~= segs.skip(i + 1));
        assert(segs.skip(i as int)[0] == parts@[i as int]@);
        match step_from(current, parts[i].as_str(), path) {
            Ok(c) => {
                current = c;
            },
            Err(e) => {
                return Err(e);
            },
        }
        i = i + 1;
    }
    assert(segs.skip(parts.len() as int) =~= Seq::<Seq<char>>::empty());
    value_of(current, path, value_type)
}

} // verus!
