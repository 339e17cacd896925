//! The JSON documents that the dashboard reads, as plain values.

use vstd::prelude::*;
use crate::text::{opt_view, owned, str_eq};

verus! {

/// A JSON value. Numbers, arrays and objects also carry `text`, their
/// compact JSON notation, which is how the dashboard prints identifiers
/// that are not strings; a number carries its value when it is an integer
/// that fits in `i64`.
#[derive(Debug)]
pub enum JsonValue {
    Null,
    Bool(bool),
    Number { text: String, integer: Option<i64> },
    Str(String),
    Array { items: Vec<JsonValue>, text: String },
    Object { entries: Vec<(String, JsonValue)>, text: String },
}

/// The value of the first entry whose key is `key`.
pub open spec fn entry_value(entries: Seq<(String, JsonValue)>, key: Seq<char>) -> Option<JsonValue>
    decreases entries.len(),
{
    if entries.len() == 0 {
        None
    } else if entries[0].0@ == key {
        Some(entries[0].1)
    } else {
        entry_value(entries.drop_first(), key)
    }
}

impl JsonValue {
    /// `self[key]`: the member `key` of an object, and `Null` for a missing
    /// member or a value that is not an object.
    pub open spec fn field(self, key: Seq<char>) -> JsonValue {
        match self {
            JsonValue::Object { entries, .. } => match entry_value(entries@, key) {
                Some(v) => v,
                None => JsonValue::Null,
            },
            _ => JsonValue::Null,
        }
    }

    /// The string of a string value.
    pub open spec fn str_of(self) -> Option<Seq<char>> {
        match self {
            JsonValue::Str(s) => Some(s@),
            _ => None,
        }
    }

    /// The boolean of a boolean value.
    pub open spec fn bool_of(self) -> Option<bool> {
        match self {
            JsonValue::Bool(b) => Some(b),
            _ => None,
        }
    }

    /// The integer of a number that fits in `i64`.
    pub open spec fn i64_of(self) -> Option<i64> {
        match self {
            JsonValue::Number { integer, .. } => integer,
            _ => None,
        }
    }

    /// The items of an array.
    pub open spec fn items_of(self) -> Option<Seq<JsonValue>> {
        match self {
            JsonValue::Array { items, .. } => Some(items@),
            _ => None,
        }
    }

    /// The entries of an object.
    pub open spec fn entries_of(self) -> Option<Seq<(String, JsonValue)>> {
        match self {
            JsonValue::Object { entries, .. } => Some(entries@),
            _ => None,
        }
    }

    /// How an identifier is printed: nothing for `null`, the string itself
    /// for a string, and the JSON notation otherwise.
    pub open spec fn text_of(self) -> Option<Seq<char>> {
        match self {
            JsonValue::Null => None,
            JsonValue::Bool(b) => Some(if b { "true"@ } else { "false"@ }),
            JsonValue::Number { text, .. } => Some(text@),
            JsonValue::Str(s) => Some(s@),
            JsonValue::Array { text, .. } => Some(text@),
            JsonValue::Object { text, .. } => Some(text@),
        }
    }

    /// The member `key` of an object; `None` where `self[key]` is `Null`
    /// because the member is missing or `self` is no object.
    pub fn get(&self, key: &str) -> (r: Option<&JsonValue>)
        ensures
            match r {
                Some(v) => *v == self.field(key@),
                None => self.field(key@) == JsonValue::Null,
            },
    {
        match self {
            JsonValue::Object { entries, .. } => {
                let mut i: usize = 0;
                assert(entries@.skip(0) =~= entries@);
                while i < entries.len()
                    invariant
                        i <= entries.len(),
                        self.entries_of() == Some(entries@),
                        entry_value(entries@, key@) == entry_value(entries@.skip(i as int), key@),
                    decreases entries.len() - i,
                {
                    proof {
                        assert(entries@.skip(i as int)[0] == entries@[i as int]);
                        assert(entries@.skip(i as int).drop_first() =~= entries@.skip(i + 1));
                    }
                    if str_eq(entries[i].0.as_str(), key) {
                        assert(entry_value(entries@, key@) == Some(entries@[i as int].1));
                        return Some(&entries[i].1);
                    }
                    i = i + 1;
                }
                None
            },
            _ => None,
        }
    }

    /// The string of a string value (`Value::as_str`).
    pub fn as_string(&self) -> (r: Option<String>)
        ensures
            opt_view(r) == self.str_of(),
    {
        match self {
            JsonValue::Str(s) => Some(s.clone()),
            _ => None,
        }
    }

    /// The boolean of a boolean value (`Value::as_bool`).
    pub fn as_bool(&self) -> (r: Option<bool>)
        ensures
            r == self.bool_of(),
    {
        match self {
            JsonValue::Bool(b) => Some(*b),
            _ => None,
        }
    }

    /// The integer of a number that fits in `i64` (`Value::as_i64`).
    pub fn as_i64(&self) -> (r: Option<i64>)
        ensures
            r == self.i64_of(),
    {
        match self {
            JsonValue::Number { integer, .. } => *integer,
            _ => None,
        }
    }

    /// The items of an array (`Value::as_array`).
    pub fn as_array(&self) -> (r: Option<&Vec<JsonValue>>)
        ensures
            r is Some == self.items_of() is Some,
            r is Some ==> r->0@ == self.items_of()->0,
    {
        match self {
            JsonValue::Array { items, .. } => Some(items),
            _ => None,
        }
    }

    /// The entries of an object (`Value::as_object`).
    pub fn as_object(&self) -> (r: Option<&Vec<(String, JsonValue)>>)
        ensures
            r is Some == self.entries_of() is Some,
            r is Some ==> r->0@ == self.entries_of()->0,
    {
        match self {
            JsonValue::Object { entries, .. } => Some(entries),
            _ => None,
        }
    }

    /// The string member `key` (`value[key].as_str()`).
    pub fn field_string(&self, key: &str) -> (r: Option<String>)
        ensures
            opt_view(r) == self.field(key@).str_of(),
    {
        match self.get(key) {
            Some(v) => v.as_string(),
            None => None,
        }
    }

    /// The boolean member `key` (`value[key].as_bool()`).
    pub fn field_bool(&self, key: &str) -> (r: Option<bool>)
        ensures
            r == self.field(key@).bool_of(),
    {
        match self.get(key) {
            Some(v) => v.as_bool(),
            None => None,
        }
    }
}

/// How an identifier is printed: `None` for `null`, the string itself for a
/// string, and the JSON notation of any other value.
pub fn value_to_string(value: &JsonValue) -> (r: Option<String>)
    ensures
        opt_view(r) == value.text_of(),
{
    match value {
        JsonValue::Null => None,
        JsonValue::Bool(b) => Some(if *b { owned("true") } else { owned("false") }),
        JsonValue::Number { text, .. } => Some(text.clone()),
        JsonValue::Str(s) => Some(s.clone()),
        JsonValue::Array { text, .. } => Some(text.clone()),
        JsonValue::Object { text, .. } => Some(text.clone()),
    }
}

/// `value_to_string` of the member `key`.
pub fn field_to_string(value: &JsonValue, key: &str) -> (r: Option<String>)
    ensures
        opt_view(r) == value.field(key@).text_of(),
{
    match value.get(key) {
        Some(v) => value_to_string(v),
        None => None,
    }
}

/// A member is the value of the first entry under its key; a missing key
/// gives nothing.
pub proof fn entry_value_is_first_under_key(entries: Seq<(String, JsonValue)>, key: Seq<char>)
    ensures
        forall|k: int|
            0 <= k < entries.len() && (#[trigger] entries[k]).0@ == key && (forall|i: int| 0 <= i < k ==> entries[i].0@ != key)
                ==> entry_value(entries, key) == Some(entries[k].1),
        (forall|k: int| 0 <= k < entries.len() ==> (#[trigger] entries[k]).0@ != key) ==> entry_value(entries, key) is None,
    decreases entries.len(),
{
    if entries.len() > 0 {
        let rest = entries.drop_first();
        entry_value_is_first_under_key(rest, key);
        assert forall|k: int|
            0 <= k < entries.len() && (#[trigger] entries[k]).0@ == key && (forall|i: int| 0 <= i < k ==> entries[i].0@ != key)
                implies entry_value(entries, key) == Some(entries[k].1) by {
            if k > 0 {
                assert(entries[0].0@ != key);
                assert(rest[k - 1] == entries[k]);
                assert forall|i: int| 0 <= i < k - 1 implies rest[i].0@ != key by {
                    assert(rest[i] == entries[i + 1]);
                }
            }
        }
        if forall|k: int| 0 <= k < entries.len() ==> (#[trigger] entries[k]).0@ != key {
            assert(entries[0].0@ != key);
            assert forall|k: int| 0 <= k < rest.len() implies (#[trigger] rest[k]).0@ != key by {
                assert(rest[k] == entries[k + 1]);
            }
        }
    }
}

/// How each kind of value is printed as an identifier: `null` not at all,
/// a boolean as `true` or `false`, a string as itself, a number, array or
/// object as the JSON text it carries.
pub proof fn identifier_text_by_kind(v: JsonValue)
    ensures
        v is Null <==> v.text_of() is None,
        v matches JsonValue::Bool(b) ==> v.text_of() == Some(if b { "true"@ } else { "false"@ }),
        v matches JsonValue::Str(s) ==> v.text_of() == Some(s@),
        v matches JsonValue::Number { text, .. } ==> v.text_of() == Some(text@),
        v matches JsonValue::Array { text, .. } ==> v.text_of() == Some(text@),
        v matches JsonValue::Object { text, .. } ==> v.text_of() == Some(text@),
{
}

// ---------------------------------------------------------------- parsing

#[verifier::external_type_specification]
#[verifier::external_body]
pub struct ExJsonDocument(serde_json::Value);

/// A document parsed by serde_json, as the dashboard reads it: numbers,
/// arrays and objects keep the text `Value::to_string` gives them.
#[verifier::external_body]
fn json_from_value(value: &serde_json::Value) -> JsonValue {
    match value {
        serde_json::Value::Null => JsonValue::Null,
        serde_json::Value::Bool(b) => JsonValue::Bool(*b),
        serde_json::Value::Number(n) => JsonValue::Number { text: n.to_string(), integer: n.as_i64() },
        serde_json::Value::String(s) => JsonValue::Str(s.clone()),
        serde_json::Value::Array(items) => JsonValue::Array {
            items: items.iter().map(json_from_value).collect(),
            text: value.to_string(),
        },
        serde_json::Value::Object(map) => JsonValue::Object {
            entries: map.iter().map(|(k, v)| (k.clone(), json_from_value(v))).collect(),
            text: value.to_string(),
        },
    }
}

/// The document that serde_json parses from `bytes`, or `None` where they
/// are no JSON.
pub uninterp spec fn parsed_json(bytes: Seq<u8>) -> Option<JsonValue>;

/// The reason serde_json gives for refusing `bytes`.
pub uninterp spec fn json_error_of(bytes: Seq<u8>) -> Seq<char>;

/// `serde_json::from_slice::<Value>`: the document in `bytes`, or the text of
/// serde_json's error. Its results are taken to depend on the bytes alone;
/// nothing is stated of the JSON grammar serde_json accepts or of its
/// error messages.
#[verifier::external_body]
pub(crate) fn parse_json(bytes: &[u8]) -> (r: Result<JsonValue, String>)
    ensures
        match r {
            Ok(v) => parsed_json(bytes@) == Some(v),
            Err(e) => parsed_json(bytes@) is None && e@ == json_error_of(bytes@),
        },
{
    match serde_json::from_slice::<serde_json::Value>(bytes) {
        Ok(v) => Ok(json_from_value(&v)),
        Err(e) => Err(e.to_string()),
    }
}

/// The JSON document in `bytes`, or why they hold none.
pub fn parse_document(bytes: &[u8]) -> (r: Result<JsonValue, String>)
    ensures
        match r {
            Ok(v) => parsed_json(bytes@) == Some(v),
            Err(e) => parsed_json(bytes@) is None && e@ == json_error_of(bytes@),
        },
{
    parse_json(bytes)
}

/// What `String::from_utf8_lossy` makes of `bytes`.
pub uninterp spec fn lossy_text_of(bytes: Seq<u8>) -> Seq<char>;

/// `String::from_utf8_lossy`: the text of `bytes`, each invalid sequence
/// replaced by U+FFFD. Stated: the text is decoded as is when the bytes are
/// valid UTF-8; not stated: where replacement characters go otherwise.
#[verifier::external_body]
pub(crate) fn lossy_text(bytes: &[u8]) -> (r: String)
    ensures
        r@ == lossy_text_of(bytes@),
        vstd::utf8::valid_utf8(bytes@) ==> r@ == vstd::utf8::decode_utf8(bytes@),
{
    String::from_utf8_lossy(bytes).into_owned()
}

} // verus!
