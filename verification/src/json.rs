//! A JSON document as the library reads it, and the lookups that the
//! response mappers use: a member of an object, a string, an array.
//!
//! A number is kept as the text in which it was written.

use vstd::prelude::*;
use crate::text::views;
use serde_json::Value;

verus! {

/// A JSON value. The members of an object keep their order, and a lookup
/// by key finds the first member under that key.
#[derive(Debug)]
pub enum JsonValue {
    Null,
    Bool(bool),
    Number(String),
    Str(String),
    Array(Vec<JsonValue>),
    /// The keys of an object's members, and their values at the same places.
    Object(Vec<String>, Vec<JsonValue>),
}

/// The value of the first member under `key`, given the members' keys and
/// values.
pub open spec fn member(keys: Seq<String>, values: Seq<JsonValue>, key: Seq<char>) -> Option<JsonValue>
    decreases keys.len(),
{
    if keys.len() == 0 || values.len() == 0 {
        None
    } else if keys[0]@ == key {
        Some(values[0])
    } else {
        member(keys.drop_first(), values.drop_first(), key)
    }
}

/// The member of `v` under `key`, when `v` is an object that has one, as
/// `serde_json::Value::get` gives it.
pub open spec fn json_get(v: JsonValue, key: Seq<char>) -> Option<JsonValue> {
    match v {
        JsonValue::Object(keys, values) => member(keys@, values@, key),
        _ => None,
    }
}

/// The text of `v`, when it is a string.
pub open spec fn json_str(v: Option<JsonValue>) -> Option<Seq<char>> {
    match v {
        Some(JsonValue::Str(s)) => Some(s@),
        _ => None,
    }
}

/// The elements of `v`, when it is an array.
pub open spec fn json_array(v: Option<JsonValue>) -> Option<Seq<JsonValue>> {
    match v {
        Some(JsonValue::Array(a)) => Some(a@),
        _ => None,
    }
}

/// The text of `v`, when it is a number.
pub open spec fn json_number(v: Option<JsonValue>) -> Option<Seq<char>> {
    match v {
        Some(JsonValue::Number(n)) => Some(n@),
        _ => None,
    }
}

/// The member under `key`, or else the one under `alternative`.
pub open spec fn json_get_or(v: JsonValue, key: Seq<char>, alternative: Seq<char>) -> Option<JsonValue> {
    match json_get(v, key) {
        Some(x) => Some(x),
        None => json_get(v, alternative),
    }
}

/// The texts among `items`, in order; other values are passed over.
pub open spec fn strings_in(items: Seq<JsonValue>) -> Seq<Seq<char>>
    decreases items.len(),
{
    if items.len() == 0 {
        Seq::empty()
    } else {
        match items.last() {
            JsonValue::Str(s) => strings_in(items.drop_last()).push(s@),
            _ => strings_in(items.drop_last()),
        }
    }
}

/// Text or nothing, an absent text counting as empty.
pub open spec fn text_or_empty(t: Option<Seq<char>>) -> Seq<char> {
    match t {
        Some(s) => s,
        None => Seq::empty(),
    }
}

/// The member of `v` under `key`.
pub fn get<'a>(v: &'a JsonValue, key: &str) -> (r: Option<&'a JsonValue>)
    ensures
        match r {
            Some(x) => json_get(*v, key@) == Some(*x),
            None => json_get(*v, key@) is None,
        },
{
    match v {
        JsonValue::Object(keys, values) => {
            let k = key.to_owned();
            let mut i: usize = 0;
            assert(keys@.subrange(0, keys@.len() as int) =~= keys@);
            assert(values@.subrange(0, values@.len() as int) =~= values@);
            #[verifier::loop_isolation(false)]
            while i < keys.len() && i < values.len()
                invariant
                    i <= keys.len(),
                    i <= values.len(),
                    k@ == key@,
                    member(keys@, values@, key@) == member(
                        keys@.subrange(i as int, keys@.len() as int),
                        values@.subrange(i as int, values@.len() as int),
                        key@,
                    ),
                decreases keys.len() - i,
            {
                let ghost rk = keys@.subrange(i as int, keys@.len() as int);
                let ghost rv = values@.subrange(i as int, values@.len() as int);
                assert(rk[0] == keys@[i as int]);
                assert(rv[0] == values@[i as int]);
                if keys[i] == k {
                    return Some(&values[i]);
                }
                assert(rk.drop_first() =~= keys@.subrange(i + 1, keys@.len() as int));
                assert(rv.drop_first() =~= values@.subrange(i + 1, values@.len() as int));
                i = i + 1;
            }
            None
        },
        _ => None,
    }
}

/// The member of `v` under `key`, or else the one under `alternative`.
pub fn get_or<'a>(v: &'a JsonValue, key: &str, alternative: &str) -> (r: Option<&'a JsonValue>)
    ensures
        match r {
            Some(x) => json_get_or(*v, key@, alternative@) == Some(*x),
            None => json_get_or(*v, key@, alternative@) is None,
        },
{
    match get(v, key) {
        Some(x) => Some(x),
        None => get(v, alternative),
    }
}

/// The text of `v`, when it is a string.
pub fn as_text(v: Option<&JsonValue>) -> (r: Option<String>)
    ensures
        match r {
            Some(s) => json_str(match v {
                Some(x) => Some(*x),
                None => None,
            }) == Some(s@),
            None => json_str(match v {
                Some(x) => Some(*x),
                None => None,
            }) is None,
        },
{
    match v {
        Some(JsonValue::Str(s)) => Some(s.clone()),
        _ => None,
    }
}

/// The text of `v` when it is a number.
pub fn as_number_text(v: Option<&JsonValue>) -> (r: Option<String>)
    ensures
        match r {
            Some(s) => json_number(match v {
                Some(x) => Some(*x),
                None => None,
            }) == Some(s@),
            None => json_number(match v {
                Some(x) => Some(*x),
                None => None,
            }) is None,
        },
{
    match v {
        Some(JsonValue::Number(s)) => Some(s.clone()),
        _ => None,
    }
}

/// The texts among the elements of `items`, in order.
pub fn strings_of(items: &Vec<JsonValue>) -> (r: Vec<String>)
    ensures
        r@.map_values(|s: String| s@) == strings_in(items@),
{
    let mut r: Vec<String> = Vec::new();
    let mut i: usize = 0;
    while i < items.len()
        invariant
            i <= items.len(),
            r@.map_values(|s: String| s@) == strings_in(items@.take(i as int)),
        decreases items.len() - i,
    {
        let ghost t = items@.take(i + 1);
        assert(t.drop_last() =~= items@.take(i as int));
        assert(t.last() == items@[i as int]);
        let ghost prev = r@;
        match &items[i] {
            JsonValue::Str(s) => {
                r.push(s.clone());
                assert(r@.map_values(|s: String| s@) =~= prev.map_values(|s: String| s@).push(s@));
            },
            _ => {},
        }
        i = i + 1;
    }
    assert(items@.take(items.len() as int) =~= items@);
    r
}


// ---------------------------------------------------------------------------
// Reading JSON text

/// One level of a JSON document read from text: its kind and plain value,
/// with the value of each element or member given as the JSON text of that
/// value.
#[derive(Debug)]
pub enum JsonLevel {
    Null,
    Bool(bool),
    Number(String),
    Str(String),
    Array(Vec<String>),
    /// The keys of the members, and the texts of their values at the same places.
    Object(Vec<String>, Vec<String>),
}

/// The mathematical value of a [`JsonLevel`].
pub enum JsonLevelView {
    Null,
    Bool(bool),
    Number(Seq<char>),
    Str(Seq<char>),
    Array(Seq<Seq<char>>),
    Object(Seq<Seq<char>>, Seq<Seq<char>>),
}

pub open spec fn level_view(l: JsonLevel) -> JsonLevelView {
    match l {
        JsonLevel::Null => JsonLevelView::Null,
        JsonLevel::Bool(b) => JsonLevelView::Bool(b),
        JsonLevel::Number(n) => JsonLevelView::Number(n@),
        JsonLevel::Str(t) => JsonLevelView::Str(t@),
        JsonLevel::Array(items) => JsonLevelView::Array(views(items@)),
        JsonLevel::Object(keys, values) => JsonLevelView::Object(views(keys@), views(values@)),
    }
}

/// The top level of the JSON document in `text` as `serde_json` reads it,
/// or the message of its error.
pub uninterp spec fn json_level_of(text: Seq<char>) -> Result<JsonLevelView, Seq<char>>;

/// `serde_json::from_str` into a `serde_json::Value`: the top level of the
/// document in `text`, each element and member value written back as JSON
/// text with `Value`'s `to_string`, numbers as `Number`'s `to_string`, and
/// an object's members in the order of its map; or the error's message.
/// What is read is named by [`json_level_of`] and not stated further.
#[verifier::external_body]
fn parse_json_level(text: &str) -> (r: Result<JsonLevel, String>)
    ensures
        match r {
            Ok(l) => json_level_of(text@) == Ok::<JsonLevelView, Seq<char>>(level_view(l)),
            Err(m) => json_level_of(text@) == Err::<JsonLevelView, Seq<char>>(m@),
        },
{
    let v = match serde_json::from_str::<Value>(text) {
        Ok(v) => v,
        Err(e) => return Err(e.to_string()),
    };
    Ok(match v {
        Value::Null => JsonLevel::Null,
        Value::Bool(b) => JsonLevel::Bool(b),
        Value::Number(n) => JsonLevel::Number(n.to_string()),
        Value::String(t) => JsonLevel::Str(t),
        Value::Array(a) => JsonLevel::Array(a.iter().map(Value::to_string).collect()),
        Value::Object(m) => JsonLevel::Object(m.keys().cloned().collect(), m.values().map(Value::to_string).collect()),
    })
}

/// How deep a document is read: `serde_json` itself refuses documents
/// nested deeper than this, so no document it accepts is cut short here.
pub const JSON_DEPTH: usize = 128;

/// Whether `v` is the document in `text`, read level by level, at most
/// `depth` levels deep.
pub open spec fn decodes(v: JsonValue, text: Seq<char>, depth: nat) -> bool
    decreases depth,
{
    depth > 0 && match json_level_of(text) {
        Ok(JsonLevelView::Null) => v is Null,
        Ok(JsonLevelView::Bool(b)) => v == JsonValue::Bool(b),
        Ok(JsonLevelView::Number(n)) => v matches JsonValue::Number(s) && s@ == n,
        Ok(JsonLevelView::Str(t)) => v matches JsonValue::Str(s) && s@ == t,
        Ok(JsonLevelView::Array(items)) => v matches JsonValue::Array(a) && a@.len() == items.len() && forall|
            i: int,
        |
            0 <= i < items.len() ==> decodes(#[trigger] a@[i], items[i], (depth - 1) as nat),
        Ok(JsonLevelView::Object(keys, values)) => v matches JsonValue::Object(k, a) && views(k@) == keys
            && a@.len() == values.len() && forall|i: int|
            0 <= i < values.len() ==> decodes(#[trigger] a@[i], values[i], (depth - 1) as nat),
        Err(_) => false,
    }
}

/// Why the document in `text` cannot be read `depth` levels deep: the error
/// of the first level, in document order, that `serde_json` refuses; none
/// when it can be read.
pub open spec fn decode_error(text: Seq<char>, depth: nat) -> Option<Seq<char>>
    decreases depth, 0nat,
{
    if depth == 0 {
        Some("recursion limit exceeded"@)
    } else {
        match json_level_of(text) {
            Err(m) => Some(m),
            Ok(JsonLevelView::Array(items)) => first_decode_error(items, (depth - 1) as nat, 0),
            Ok(JsonLevelView::Object(_, values)) => first_decode_error(values, (depth - 1) as nat, 0),
            Ok(_) => None,
        }
    }
}

/// The first error among the documents `texts[i..]`, read `depth` levels deep.
pub open spec fn first_decode_error(texts: Seq<Seq<char>>, depth: nat, i: int) -> Option<Seq<char>>
    decreases depth, texts.len() - i + 1,
{
    if i < 0 || i >= texts.len() {
        None
    } else {
        match decode_error(texts[i], depth) {
            Some(m) => Some(m),
            None => first_decode_error(texts, depth, i + 1),
        }
    }
}

/// Reads the documents `texts`, in order, each `depth` levels deep.
fn decode_all(texts: &Vec<String>, depth: usize) -> (r: Result<Vec<JsonValue>, String>)
    ensures
        match r {
            Ok(vs) => first_decode_error(views(texts@), depth as nat, 0) is None && vs@.len() == texts@.len()
                && forall|i: int| 0 <= i < vs@.len() ==> decodes(#[trigger] vs@[i], texts@[i]@, depth as nat),
            Err(m) => first_decode_error(views(texts@), depth as nat, 0) == Some(m@),
        },
    decreases depth, 2nat,
{
    let ghost ts = views(texts@);
    let mut vs: Vec<JsonValue> = Vec::new();
    let mut i: usize = 0;
    while i < texts.len()
        invariant
            i <= texts.len(),
            ts == views(texts@),
            vs@.len() == i,
            first_decode_error(ts, depth as nat, 0) == first_decode_error(ts, depth as nat, i as int),
            forall|j: int| 0 <= j < i ==> decodes(#[trigger] vs@[j], texts@[j]@, depth as nat),
        decreases texts.len() - i,
    {
        assert(ts[i as int] == texts@[i as int]@);
        match decode_json(texts[i].as_str(), depth) {
            Ok(v) => {
                let ghost before = vs@;
                vs.push(v);
                assert forall|j: int| 0 <= j < i + 1 implies decodes(#[trigger] vs@[j], texts@[j]@, depth as nat) by {
                    if j < i {
                        assert(vs@[j] == before[j]);
                    }
                }
            },
            Err(m) => {
                return Err(m);
            },
        }
        i = i + 1;
    }
    Ok(vs)
}

/// Reads the JSON document in `text`, at most `depth` levels deep; the
/// error, when it cannot be read, is that of [`decode_error`].
pub fn decode_json(text: &str, depth: usize) -> (r: Result<JsonValue, String>)
    ensures
        match r {
            Ok(v) => decode_error(text@, depth as nat) is None && decodes(v, text@, depth as nat),
            Err(m) => decode_error(text@, depth as nat) == Some(m@),
        },
    decreases depth, 1nat,
{
    if depth == 0 {
        return Err("recursion limit exceeded".to_owned());
    }
    match parse_json_level(text) {
        Err(m) => Err(m),
        Ok(JsonLevel::Null) => Ok(JsonValue::Null),
        Ok(JsonLevel::Bool(b)) => Ok(JsonValue::Bool(b)),
        Ok(JsonLevel::Number(n)) => Ok(JsonValue::Number(n)),
        Ok(JsonLevel::Str(t)) => Ok(JsonValue::Str(t)),
        Ok(JsonLevel::Array(items)) => match decode_all(&items, depth - 1) {
            Ok(vs) => Ok(JsonValue::Array(vs)),
            Err(m) => Err(m),
        },
        Ok(JsonLevel::Object(keys, values)) => match decode_all(&values, depth - 1) {
            Ok(vs) => Ok(JsonValue::Object(keys, vs)),
            Err(m) => Err(m),
        },
    }
}

} // verus!
