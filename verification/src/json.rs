//! JSON values as plain data, and the text helpers that read `bd --json` and
//! `cmux identify --json` output.

use vstd::prelude::*;

use crate::text::{str_eq, views};

verus! {

/// A JSON value. Objects keep their entries with unique keys, in the order
/// the parser produced them.
#[derive(Debug)]
pub enum JsonValue {
    Null,
    Bool(bool),
    /// The number as written by the parser.
    Number(String),
    String(String),
    Array(Vec<JsonValue>),
    Object(Vec<(String, JsonValue)>),
}

/// The value under `key` in an object's entries (the first entry with that
/// key).
pub open spec fn obj_get(entries: Seq<(String, JsonValue)>, key: Seq<char>) -> Option<JsonValue>
    decreases entries.len(),
{
    if entries.len() == 0 {
        None
    } else if entries[0].0@ == key {
        Some(entries[0].1)
    } else {
        obj_get(entries.drop_first(), key)
    }
}


/// The text of a non-empty JSON string, if `v` is one.
pub open spec fn nonempty_text(v: Option<JsonValue>) -> Option<Seq<char>> {
    match v {
        Some(JsonValue::String(t)) => if t@.len() > 0 { Some(t@) } else { None },
        _ => None,
    }
}

/// Object keys under which `bd` stores a note, comment or label text, in the
/// order they are tried.
pub open spec fn text_keys() -> Seq<Seq<char>> {
    seq![
        seq!['t', 'e', 'x', 't'],
        seq!['c', 'o', 'n', 't', 'e', 'n', 't'],
        seq!['b', 'o', 'd', 'y'],
        seq!['n', 'o', 't', 'e'],
        seq!['c', 'o', 'm', 'm', 'e', 'n', 't'],
        seq!['n', 'a', 'm', 'e'],
    ]
}

/// The text of an object: the first of `keys` that holds a non-empty string.
pub open spec fn first_text(entries: Seq<(String, JsonValue)>, keys: Seq<Seq<char>>) -> Seq<Seq<char>>
    decreases keys.len(),
{
    if keys.len() == 0 {
        seq![]
    } else {
        match nonempty_text(obj_get(entries, keys[0])) {
            Some(t) => seq![t],
            None => first_text(entries, keys.drop_first()),
        }
    }
}

/// Human text held by a `bd --json` notes / labels / comments value: a
/// non-empty string, the texts of each array item in order, or an object's
/// text; nothing for anything else.
pub open spec fn texts(v: JsonValue) -> Seq<Seq<char>>
    decreases v, 1int,
{
    match v {
        JsonValue::String(t) => if t@.len() > 0 { seq![t@] } else { seq![] },
        JsonValue::Array(items) => texts_list(items@),
        JsonValue::Object(entries) => first_text(entries@, text_keys()),
        _ => seq![],
    }
}

/// The texts of each value of `items`, concatenated in order.
pub open spec fn texts_list(items: Seq<JsonValue>) -> Seq<Seq<char>>
    decreases items, 0int,
{
    if items.len() == 0 {
        seq![]
    } else {
        texts_list(items.subrange(0, items.len() - 1)) + texts(items[items.len() - 1])
    }
}


proof fn lemma_obj_get_skip(entries: Seq<(String, JsonValue)>, key: Seq<char>, i: int)
    requires
        0 <= i < entries.len(),
        entries[i].0@ != key,
    ensures
        obj_get(entries.skip(i), key) == obj_get(entries.skip(i + 1), key),
{
    assert(entries.skip(i).drop_first() =~= entries.skip(i + 1));
}

/// The value under `key` in an object's entries.
pub fn obj_lookup<'a>(entries: &'a Vec<(String, JsonValue)>, key: &str) -> (r: Option<&'a JsonValue>)
    ensures
        match r {
            Some(x) => obj_get(entries@, key@) == Some(*x),
            None => obj_get(entries@, key@) is None,
        },
{
    let mut i: usize = 0;
    assert(entries@.skip(0) =~= entries@);
    while i < entries.len()
        invariant
            i <= entries.len(),
            obj_get(entries@, key@) == obj_get(entries@.skip(i as int), key@),
        decreases entries.len() - i,
    {
        if str_eq(entries[i].0.as_str(), key) {
            return Some(&entries[i].1);
        }
        proof {
            lemma_obj_get_skip(entries@, key@, i as int);
        }
        i = i + 1;
    }
    None
}

proof fn lemma_first_text_skip(entries: Seq<(String, JsonValue)>, keys: Seq<Seq<char>>, k: int)
    requires
        0 <= k < keys.len(),
        nonempty_text(obj_get(entries, keys[k])) is None,
    ensures
        first_text(entries, keys.skip(k)) == first_text(entries, keys.skip(k + 1)),
{
    assert(keys.skip(k).drop_first() =~= keys.skip(k + 1));
}

/// The text of an object: the first text key that holds a non-empty string.
fn object_text(entries: &Vec<(String, JsonValue)>) -> (r: Vec<String>)
    ensures
        views(r@) == first_text(entries@, text_keys()),
{
    let keys: [&str; 6] = ["text", "content", "body", "note", "comment", "name"];
    proof {
        reveal_strlit("text");
        reveal_strlit("content");
        reveal_strlit("body");
        reveal_strlit("note");
        reveal_strlit("comment");
        reveal_strlit("name");
        assert("text"@ =~= text_keys()[0]);
        assert("content"@ =~= text_keys()[1]);
        assert("body"@ =~= text_keys()[2]);
        assert("note"@ =~= text_keys()[3]);
        assert("comment"@ =~= text_keys()[4]);
        assert("name"@ =~= text_keys()[5]);
        assert(keys@.map_values(|x: &str| x@) =~= text_keys());
        assert(text_keys().skip(0) =~= text_keys());
    }
    let mut k: usize = 0;
    while k < 6
        invariant
            k <= 6,
            keys@.map_values(|x: &str| x@) == text_keys(),
            first_text(entries@, text_keys()) == first_text(entries@, text_keys().skip(k as int)),
        decreases 6 - k,
    {
        let key = keys[k];
        assert(key@ == text_keys()[k as int]);
        let found = obj_lookup(entries, key);
        match found {
            Some(JsonValue::String(t)) => {
                if !t.as_str().is_empty() {
                    let mut out: Vec<String> = Vec::new();
                    out.push(t.clone());
                    assert(views(out@) =~= seq![t@]);
                    return out;
                }
            },
            _ => {},
        }
        proof {
            lemma_first_text_skip(entries@, text_keys(), k as int);
        }
        k = k + 1;
    }
    assert(text_keys().skip(6).len() == 0);
    Vec::new()
}

/// Pull human text out of a `bd --json` notes / labels / comments value.
pub fn extract_texts(value: &JsonValue) -> (r: Vec<String>)
    ensures
        views(r@) == texts(*value),
    decreases value,
{
    match value {
        JsonValue::String(t) => {
            let mut out: Vec<String> = Vec::new();
            if !t.as_str().is_empty() {
                out.push(t.clone());
            }
            assert(views(out@) =~= texts(*value));
            out
        },
        JsonValue::Array(items) => {
            let mut out: Vec<String> = Vec::new();
            let mut i: usize = 0;
            assert(items@.subrange(0, 0) =~= Seq::<JsonValue>::empty());
            while i < items.len()
                invariant
                    *value == JsonValue::Array(*items),
                    i <= items.len(),
                    views(out@) == texts_list(items@.subrange(0, i as int)),
                decreases items.len() - i,
            {
                proof {
                    assert(decreases_to!(*value => (*value)->Array_0));
                    assert(decreases_to!(*items => items@));
                    assert(decreases_to!(items@ => items@[i as int]));
                }
                let mut more = extract_texts(&items[i]);
                let ghost before = out@;
                out.append(&mut more);
                proof {
                    let sub = items@.subrange(0, i + 1);
                    assert(sub.subrange(0, sub.len() - 1) =~= items@.subrange(0, i as int));
                    assert(views(out@) =~= views(before) + texts(items@[i as int]));
                }
                i = i + 1;
            }
            assert(items@.subrange(0, items.len() as int) =~= items@);
            out
        },
        JsonValue::Object(entries) => object_text(entries),
        _ => {
            assert(views(Seq::<String>::empty()) =~= Seq::<Seq<char>>::empty());
            Vec::new()
        },
    }
}


#[verifier::external_type_specification]
#[verifier::external_body]
pub struct ExSerdeJsonValue(serde_json::Value);

/// The value that `serde_json` parses from `text`, or `None` when `text` is
/// not one JSON document.
pub uninterp spec fn json_parse(text: Seq<char>) -> Option<JsonValue>;

/// Copies a `serde_json::Value` into a `JsonValue`, one node for one node:
/// strings and booleans are kept, numbers keep their printed form, object
/// entries keep `serde_json`'s key order.
#[verifier::external_body]
fn json_from_serde(v: &serde_json::Value) -> JsonValue {
    match v {
        serde_json::Value::Null => JsonValue::Null,
        serde_json::Value::Bool(b) => JsonValue::Bool(*b),
        serde_json::Value::Number(n) => JsonValue::Number(n.to_string()),
        serde_json::Value::String(t) => JsonValue::String(t.clone()),
        serde_json::Value::Array(items) => JsonValue::Array(items.iter().map(json_from_serde).collect()),
        serde_json::Value::Object(map) => JsonValue::Object(
            map.iter().map(|(k, x)| (k.clone(), json_from_serde(x))).collect(),
        ),
    }
}

/// Calls `serde_json::from_str::<serde_json::Value>`; the contract names its
/// result `json_parse` (`None` where `serde_json` reports an error).
#[verifier::external_body]
pub(crate) fn parse_json(text: &str) -> (r: Option<JsonValue>)
    ensures
        r == json_parse(text@),
{
    match serde_json::from_str::<serde_json::Value>(text) {
        Ok(v) => Some(json_from_serde(&v)),
        Err(_) => None,
    }
}

/// The JSON document in `text`, or `None` when `text` is not one.
pub fn parse_json_text(text: &str) -> (r: Option<JsonValue>)
    ensures
        r == json_parse(text@),
{
    parse_json(text)
}

} // verus!
