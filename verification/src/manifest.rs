//! Ollama manifests: a model's manifest is a JSON document naming the blobs the
//! model is made of, and the model's size is the sum of their sizes.

use vstd::prelude::*;
use crate::text::same_text;

verus! {

/// A JSON document, as far as the cleaner reads it.
pub enum JsonValue {
    Null,
    Bool(bool),
    /// A number, with its value when it is an integer in the range of `u64`.
    Number(Option<u64>),
    Text(String),
    Array(Vec<JsonValue>),
    /// An object's members in order. A document that `serde_json` parsed
    /// holds each key once; nothing here relies on it.
    Object(Vec<(String, JsonValue)>),
}

#[verifier::external_type_specification]
#[verifier::external_body]
pub struct ExSerdeJsonValue(serde_json::Value);

/// What `serde_json::from_str::<serde_json::Value>` makes of a text: the
/// document when the text is valid JSON, else nothing.
pub uninterp spec fn parsed_json(text: Seq<char>) -> Option<JsonValue>;

/// A `serde_json::Value` as a `JsonValue`, variant by variant.
#[verifier::external_body]
fn json_value_from(v: serde_json::Value) -> JsonValue {
    match v {
        serde_json::Value::Null => JsonValue::Null,
        serde_json::Value::Bool(b) => JsonValue::Bool(b),
        serde_json::Value::Number(n) => JsonValue::Number(n.as_u64()),
        serde_json::Value::String(s) => JsonValue::Text(s),
        serde_json::Value::Array(a) => JsonValue::Array(a.into_iter().map(json_value_from).collect()),
        serde_json::Value::Object(o) => JsonValue::Object(
            o.into_iter().map(|(k, x)| (k, json_value_from(x))).collect(),
        ),
    }
}

/// Parses `text` with `serde_json::from_str` into a `serde_json::Value`.
/// The result is a function of the text alone, named `parsed_json`; what
/// that function is on a given text is not stated here.
#[verifier::external_body]
fn parse_json(text: &str) -> (doc: Option<JsonValue>)
    ensures
        doc == parsed_json(text@),
{
    serde_json::from_str::<serde_json::Value>(text).ok().map(json_value_from)
}

/// The value stored under `key` among `members`, the first one if the key
/// occurs more than once.
pub open spec fn member(members: Seq<(String, JsonValue)>, key: Seq<char>) -> Option<JsonValue>
    decreases members.len(),
{
    if members.len() == 0 {
        None
    } else if members[0].0@ == key {
        Some(members[0].1)
    } else {
        member(members.skip(1), key)
    }
}

/// `doc[key]`: the member `key` of an object, nothing for any other value.
pub open spec fn json_get(doc: JsonValue, key: Seq<char>) -> Option<JsonValue> {
    match doc {
        JsonValue::Object(members) => member(members@, key),
        _ => None,
    }
}

/// `doc[key]` as a `u64`, when it is one.
pub open spec fn u64_member(doc: JsonValue, key: Seq<char>) -> Option<u64> {
    match json_get(doc, key) {
        Some(JsonValue::Number(n)) => n,
        _ => None,
    }
}

/// The size a manifest entry declares, 0 where it declares none.
pub open spec fn declared_size(doc: JsonValue) -> nat {
    match u64_member(doc, "size"@) {
        Some(n) => n as nat,
        None => 0,
    }
}

/// The sum of the sizes that the entries of `layers` declare.
pub open spec fn layers_size(layers: Seq<JsonValue>) -> nat
    decreases layers.len(),
{
    if layers.len() == 0 {
        0
    } else {
        layers_size(layers.drop_last()) + declared_size(layers.last())
    }
}

/// The total size a manifest declares: that of its `config` plus those of
/// its `layers`.
pub open spec fn manifest_total(doc: JsonValue) -> nat {
    let config = match json_get(doc, "config"@) {
        Some(c) => declared_size(c),
        None => 0,
    };
    let layers = match json_get(doc, "layers"@) {
        Some(JsonValue::Array(items)) => layers_size(items@),
        _ => 0,
    };
    config + layers
}

/// The size a manifest text stands for: 0 when the text is no JSON document,
/// the declared total otherwise, or nothing when that total exceeds `u64`.
pub open spec fn manifest_size_spec(doc: Option<JsonValue>) -> Option<u64> {
    match doc {
        None => Some(0),
        Some(d) => if manifest_total(d) <= u64::MAX {
            Some(manifest_total(d) as u64)
        } else {
            None
        },
    }
}

/// `i` is the position of the first member named `key`.
pub open spec fn is_first_member(members: Seq<(String, JsonValue)>, key: Seq<char>, i: int) -> bool {
    &&& 0 <= i < members.len()
    &&& members[i].0@ == key
    &&& forall|j: int| 0 <= j < i ==> members[j].0@ != key
}

/// Looking a key up among an object's members finds the first member with
/// that key wherever it stands, and nothing when no member has it.
pub proof fn lemma_member_lookup(members: Seq<(String, JsonValue)>, key: Seq<char>)
    ensures
        forall|i: int| is_first_member(members, key, i) ==> member(members, key) == Some(
            #[trigger] members[i].1,
        ),
        (forall|j: int| 0 <= j < members.len() ==> members[j].0@ != key) ==> member(members, key)
            is None,
    decreases members.len(),
{
    if members.len() > 0 {
        let rest = members.skip(1);
        lemma_member_lookup(rest, key);
        assert forall|i: int| is_first_member(members, key, i) implies member(members, key)
            == Some(#[trigger] members[i].1) by {
            if i > 0 {
                assert(members[0].0@ != key);
                assert(rest[i - 1] == members[i]);
                assert forall|j: int| 0 <= j < i - 1 implies rest[j].0@ != key by {
                    assert(rest[j] == members[j + 1]);
                }
                assert(is_first_member(rest, key, i - 1));
            }
        }
        if forall|j: int| 0 <= j < members.len() ==> members[j].0@ != key {
            assert forall|j: int| 0 <= j < rest.len() implies rest[j].0@ != key by {
                assert(rest[j] == members[j + 1]);
            }
        }
    }
}

fn get_member<'a>(doc: &'a JsonValue, key: &str) -> (r: Option<&'a JsonValue>)
    ensures
        match r {
            Some(v) => json_get(*doc, key@) == Some(*v),
            None => json_get(*doc, key@) is None,
        },
        match *doc {
            JsonValue::Object(members) => {
                &&& forall|i: int| #[trigger]
                    is_first_member(members@, key@, i) ==> (r matches Some(v) && *v
                        == members@[i].1)
                &&& (forall|j: int| 0 <= j < members@.len() ==> members@[j].0@ != key@) ==> r is None
            },
            _ => r is None,
        },
{
    match doc {
        JsonValue::Object(members) => {
            proof {
                lemma_member_lookup(members@, key@);
            }
            let mut i: usize = 0;
            assert(members@.skip(0) =~= members@);
            while i < members.len()
                invariant
                    *doc == JsonValue::Object(*members),
                    i <= members.len(),
                    member(members@, key@) == member(members@.skip(i as int), key@),
                decreases members.len() - i,
            {
                assert(members@.skip(i as int).skip(1) =~= members@.skip(i + 1));
                assert(members@.skip(i as int)[0] == members@[i as int]);
                if same_text(members[i].0.as_str(), key) {
                    assert(member(members@.skip(i as int), key@) == Some(members@[i as int].1));
                    proof {
                        lemma_member_lookup(members@, key@);
                    }
                    return Some(&members[i].1);
                }
                i += 1;
            }
            None
        },
        _ => None,
    }
}

fn size_of_entry(doc: &JsonValue) -> (n: u64)
    ensures
        n == declared_size(*doc),
{
    match get_member(doc, "size") {
        Some(JsonValue::Number(Some(n))) => *n,
        _ => 0,
    }
}

/// The size a parsed manifest declares (0 for a text that did not parse),
/// or nothing when the sum does not fit in `u64`.
pub fn manifest_size(doc: &Option<JsonValue>) -> (size: Option<u64>)
    ensures
        size == manifest_size_spec(*doc),
{
    let d = match doc {
        None => return Some(0),
        Some(d) => d,
    };
    let mut total: u64 = match get_member(d, "config") {
        Some(c) => size_of_entry(c),
        None => 0,
    };
    let ghost config_size = total as nat;
    match get_member(d, "layers") {
        Some(JsonValue::Array(items)) => {
            let mut i: usize = 0;
            assert(manifest_total(*d) == config_size + layers_size(items@));
            while i < items.len()
                invariant
                    *doc == Some(*d),
                    manifest_total(*d) == config_size + layers_size(items@),
                    i <= items.len(),
                    total == config_size + layers_size(items@.take(i as int)),
                decreases items.len() - i,
            {
                assert(items@.take(i + 1).drop_last() =~= items@.take(i as int));
                let s = size_of_entry(&items[i]);
                match total.checked_add(s) {
                    Some(t) => total = t,
                    None => {
                        proof {
                            assert(items@.take(i + 1).last() == items@[i as int]);
                            assert(layers_size(items@.take(i + 1)) == layers_size(items@.take(i as int))
                                + declared_size(items@[i as int]));
                            lemma_layers_size_prefix(items@, i + 1);
                        }
                        return None;
                    },
                }
                i += 1;
            }
            assert(items@.take(items.len() as int) =~= items@);
        },
        _ => {},
    }
    Some(total)
}

proof fn lemma_layers_size_prefix(layers: Seq<JsonValue>, n: int)
    requires
        0 <= n <= layers.len(),
    ensures
        layers_size(layers.take(n)) <= layers_size(layers),
    decreases layers.len() - n,
{
    if n < layers.len() {
        lemma_layers_size_prefix(layers, n + 1);
        assert(layers.take(n + 1).drop_last() =~= layers.take(n));
    } else {
        assert(layers.take(n) =~= layers);
    }
}

/// The size of an Ollama model from the text of its manifest: the sizes of
/// the config and of the layers added up, 0 when the text is no JSON
/// document, nothing when the sum does not fit in `u64`.
pub fn manifest_text_size(text: &str) -> (size: Option<u64>)
    ensures
        size == manifest_size_spec(parsed_json(text@)),
{
    let doc = parse_json(text);
    manifest_size(&doc)
}

} // verus!
