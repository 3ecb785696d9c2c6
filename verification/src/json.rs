//! The JSON documents that the Aparat APIs answer with, as plain values.

use vstd::prelude::*;
use vstd::string::*;
use serde_json::Value;

verus! {

/// A JSON number: what JSON writes, and its value where it is an unsigned integer.
pub struct JsonNumber {
    /// The value, where the number is an integer from 0 to `u64::MAX`.
    pub unsigned: Option<u64>,
    /// The number as JSON writes it (digits, sign, fraction, exponent).
    pub text: String,
}

/// A JSON value.
pub enum JsonValue {
    Null,
    Bool(bool),
    Number(JsonNumber),
    Str(String),
    Array(Vec<JsonValue>),
    /// The members of an object, in order.
    Object(Vec<(String, JsonValue)>),
}

/// The value behind an optional reference.
pub open spec fn deref_opt<T>(o: Option<&T>) -> Option<T> {
    match o {
        Some(x) => Some(*x),
        None => None,
    }
}

/// The characters of an optional string.
pub open spec fn opt_chars(o: Option<String>) -> Option<Seq<char>> {
    match o {
        Some(s) => Some(s@),
        None => None,
    }
}

/// The value an object holds under `key`. Where a key repeats, the last
/// member counts, as a JSON reader keeps the last one.
pub open spec fn member(entries: Seq<(String, JsonValue)>, key: Seq<char>) -> Option<JsonValue>
    decreases entries.len(),
{
    if entries.len() == 0 {
        None
    } else if entries.last().0@ == key {
        Some(entries.last().1)
    } else {
        member(entries.drop_last(), key)
    }
}

#[verifier::external_type_specification]
#[verifier::external_body]
pub struct ExSerdeValue(Value);

/// What `serde_json::from_str` reads from `text` as a `serde_json::Value`:
/// the value, or the text of its error where it refuses `text`.
pub uninterp spec fn json_read(text: Seq<char>) -> Result<JsonValue, Seq<char>>;

/// Reads `text` with `serde_json::from_str`; the error is turned into its message.
#[verifier::external_body]
fn read_json(text: &str) -> (r: Result<JsonValue, String>)
    ensures
        match r {
            Ok(v) => json_read(text@) == Ok::<JsonValue, Seq<char>>(v),
            Err(e) => json_read(text@) == Err::<JsonValue, Seq<char>>(e@),
        },
{
    match serde_json::from_str::<Value>(text) {
        Ok(v) => Ok(JsonValue::from_serde(v)),
        Err(e) => Err(e.to_string()),
    }
}

/// Reads a JSON document.
pub fn parse_document(text: &str) -> (r: Result<JsonValue, String>)
    ensures
        match r {
            Ok(v) => json_read(text@) == Ok::<JsonValue, Seq<char>>(v),
            Err(e) => json_read(text@) == Err::<JsonValue, Seq<char>>(e@),
        },
{
    read_json(text)
}

impl JsonValue {
    /// Turns a `serde_json::Value` into a `JsonValue`, variant for variant and
    /// member for member; a number keeps `Number::as_u64` and its `Display` text.
    #[verifier::external_body]
    fn from_serde(v: Value) -> JsonValue {
        match v {
            Value::Null => JsonValue::Null,
            Value::Bool(b) => JsonValue::Bool(b),
            Value::Number(n) => JsonValue::Number(
                JsonNumber { unsigned: n.as_u64(), text: n.to_string() },
            ),
            Value::String(s) => JsonValue::Str(s),
            Value::Array(a) => JsonValue::Array(a.into_iter().map(JsonValue::from_serde).collect()),
            Value::Object(m) => JsonValue::Object(
                m.into_iter().map(|(k, v)| (k, JsonValue::from_serde(v))).collect(),
            ),
        }
    }

    /// The member `key` of an object; nothing for any other value.
    pub open spec fn at_key(self, key: Seq<char>) -> Option<JsonValue> {
        match self {
            JsonValue::Object(entries) => member(entries@, key),
            _ => None,
        }
    }

    /// The text of a string value.
    pub open spec fn str_value(self) -> Option<Seq<char>> {
        match self {
            JsonValue::Str(s) => Some(s@),
            _ => None,
        }
    }

    /// The elements of an array value.
    pub open spec fn array_items(self) -> Option<Seq<JsonValue>> {
        match self {
            JsonValue::Array(items) => Some(items@),
            _ => None,
        }
    }

    /// The value of a number that is an unsigned integer.
    pub open spec fn u64_value(self) -> Option<u64> {
        match self {
            JsonValue::Number(n) => n.unsigned,
            _ => None,
        }
    }

    /// How JSON writes a number value.
    pub open spec fn number_text(self) -> Option<Seq<char>> {
        match self {
            JsonValue::Number(n) => Some(n.text@),
            _ => None,
        }
    }

    /// The member `key` of an object.
    pub fn get(&self, key: &str) -> (r: Option<&JsonValue>)
        ensures
            deref_opt(r) == self.at_key(key@),
    {
        match self {
            JsonValue::Object(entries) => {
                let k = String::from_str(key);
                let mut i: usize = entries.len();
                assert(entries@.take(i as int) =~= entries@);
                while i > 0
                    invariant
                        i <= entries@.len(),
                        k@ == key@,
                        self.at_key(key@) == member(entries@, key@),
                        member(entries@, key@) == member(entries@.take(i as int), key@),
                    decreases i,
                {
                    assert(entries@.take(i as int).drop_last() =~= entries@.take(i - 1));
                    assert(entries@.take(i as int).last() == entries@[i - 1]);
                    if entries[i - 1].0 == k {
                        return Some(&entries[i - 1].1);
                    }
                    i = i - 1;
                }
                None
            },
            _ => None,
        }
    }

    /// The text of a string value.
    pub fn as_str(&self) -> (r: Option<&String>)
        ensures
            opt_chars(deref_opt(r)) == self.str_value(),
    {
        match self {
            JsonValue::Str(s) => Some(s),
            _ => None,
        }
    }

    /// The elements of an array value.
    pub fn as_array(&self) -> (r: Option<&Vec<JsonValue>>)
        ensures
            match r {
                Some(v) => self.array_items() == Some(v@),
                None => self.array_items() is None,
            },
    {
        match self {
            JsonValue::Array(items) => Some(items),
            _ => None,
        }
    }

    /// The value of a number that is an unsigned integer.
    pub fn as_u64(&self) -> (r: Option<u64>)
        ensures
            r == self.u64_value(),
    {
        match self {
            JsonValue::Number(n) => n.unsigned,
            _ => None,
        }
    }

    /// How JSON writes a number value.
    pub fn as_number_text(&self) -> (r: Option<&String>)
        ensures
            opt_chars(deref_opt(r)) == self.number_text(),
    {
        match self {
            JsonValue::Number(n) => Some(&n.text),
            _ => None,
        }
    }
}

/// The member `key` of an optional value.
pub open spec fn key_in(v: Option<JsonValue>, key: Seq<char>) -> Option<JsonValue> {
    match v {
        Some(x) => x.at_key(key),
        None => None,
    }
}

/// The text of an optional string value.
pub open spec fn str_in(v: Option<JsonValue>) -> Option<Seq<char>> {
    match v {
        Some(x) => x.str_value(),
        None => None,
    }
}

/// The elements of an optional array value.
pub open spec fn items_in(v: Option<JsonValue>) -> Option<Seq<JsonValue>> {
    match v {
        Some(x) => x.array_items(),
        None => None,
    }
}

/// The value of an optional number that is an unsigned integer.
pub open spec fn u64_in(v: Option<JsonValue>) -> Option<u64> {
    match v {
        Some(x) => x.u64_value(),
        None => None,
    }
}

/// How JSON writes an optional number value.
pub open spec fn number_text_in(v: Option<JsonValue>) -> Option<Seq<char>> {
    match v {
        Some(x) => x.number_text(),
        None => None,
    }
}

/// `a` where it is present, else `b`.
pub open spec fn either<T>(a: Option<T>, b: Option<T>) -> Option<T> {
    if a is Some {
        a
    } else {
        b
    }
}

/// A text, where it is not empty.
pub open spec fn filled(o: Option<Seq<char>>) -> Option<Seq<char>> {
    match o {
        Some(s) => if s.len() > 0 {
            Some(s)
        } else {
            None
        },
        None => None,
    }
}

/// A number, where it is not zero.
pub open spec fn positive(o: Option<u64>) -> Option<u64> {
    match o {
        Some(n) => if n > 0 {
            Some(n)
        } else {
            None
        },
        None => None,
    }
}

/// The member `key` of an optional value.
pub fn get_in<'a>(v: Option<&'a JsonValue>, key: &str) -> (r: Option<&'a JsonValue>)
    ensures
        deref_opt(r) == key_in(deref_opt(v), key@),
{
    match v {
        Some(x) => x.get(key),
        None => None,
    }
}

/// The text of an optional string value.
pub fn text_of<'a>(v: Option<&'a JsonValue>) -> (r: Option<&'a String>)
    ensures
        opt_chars(deref_opt(r)) == str_in(deref_opt(v)),
{
    match v {
        Some(x) => x.as_str(),
        None => None,
    }
}

/// The elements of an optional array value.
pub fn items_of<'a>(v: Option<&'a JsonValue>) -> (r: Option<&'a Vec<JsonValue>>)
    ensures
        match r {
            Some(a) => items_in(deref_opt(v)) == Some(a@),
            None => items_in(deref_opt(v)) is None,
        },
{
    match v {
        Some(x) => x.as_array(),
        None => None,
    }
}

/// The value of an optional number that is an unsigned integer.
pub fn u64_of(v: Option<&JsonValue>) -> (r: Option<u64>)
    ensures
        r == u64_in(deref_opt(v)),
{
    match v {
        Some(x) => x.as_u64(),
        None => None,
    }
}

/// How JSON writes an optional number value.
pub fn number_text_of<'a>(v: Option<&'a JsonValue>) -> (r: Option<&'a String>)
    ensures
        opt_chars(deref_opt(r)) == number_text_in(deref_opt(v)),
{
    match v {
        Some(x) => x.as_number_text(),
        None => None,
    }
}

/// `a` where it is present, else `b`.
pub fn or_else<'a>(a: Option<&'a JsonValue>, b: Option<&'a JsonValue>) -> (r: Option<&'a JsonValue>)
    ensures
        deref_opt(r) == either(deref_opt(a), deref_opt(b)),
{
    match a {
        Some(x) => Some(x),
        None => b,
    }
}

/// A copy of an optional text.
pub fn copied(s: Option<&String>) -> (r: Option<String>)
    ensures
        opt_chars(r) == opt_chars(deref_opt(s)),
{
    match s {
        Some(t) => Some(t.clone()),
        None => None,
    }
}

/// A copy of an optional text, where it is not empty.
pub fn copied_filled(s: Option<&String>) -> (r: Option<String>)
    ensures
        opt_chars(r) == filled(opt_chars(deref_opt(s))),
{
    match s {
        Some(t) => if t.as_str().is_empty() {
            None
        } else {
            Some(t.clone())
        },
        None => None,
    }
}

/// A number, where it is not zero.
pub fn positive_of(n: Option<u64>) -> (r: Option<u64>)
    ensures
        r == positive(n),
{
    match n {
        Some(x) => if x > 0 {
            Some(x)
        } else {
            None
        },
        None => None,
    }
}

/// The member an object holds under `key` is the value of its last member
/// named `key`; an object with no member of that name holds none.
pub proof fn law_member_is_last_with_key(entries: Seq<(String, JsonValue)>, key: Seq<char>)
    ensures
        member(entries, key) is None <==> forall|k: int| 0 <= k < entries.len() ==> (#[trigger] entries[k]).0@ != key,
        member(entries, key) is Some ==> exists|k: int|
            0 <= k < entries.len() && (#[trigger] entries[k]).0@ == key && member(entries, key) == Some(
                entries[k].1,
            ) && forall|j: int| k < j < entries.len() ==> (#[trigger] entries[j]).0@ != key,
    decreases entries.len(),
{
    if entries.len() > 0 {
        let front = entries.drop_last();
        law_member_is_last_with_key(front, key);
        assert forall|k: int| 0 <= k < front.len() implies front[k] == entries[k] by {}
        if entries.last().0@ == key {
            assert(entries[entries.len() - 1].0@ == key);
        } else if member(front, key) is Some {
            let k = choose|k: int|
                0 <= k < front.len() && (#[trigger] front[k]).0@ == key && member(front, key) == Some(
                    front[k].1,
                ) && forall|j: int| k < j < front.len() ==> (#[trigger] front[j]).0@ != key;
            assert(entries[k] == front[k]);
            assert forall|j: int| k < j < entries.len() implies (#[trigger] entries[j]).0@ != key by {
                if j < front.len() {
                    assert(front[j] == entries[j]);
                }
            }
        } else {
            assert forall|k: int| 0 <= k < entries.len() implies (#[trigger] entries[k]).0@ != key by {
                if k < front.len() {
                    assert(front[k] == entries[k]);
                }
            }
        }
    }
}

} // verus!
