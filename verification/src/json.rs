//! JSON documents as trees of plain values, and the few text operations the
//! wire formats need.
//!
//! Reading JSON text and quoting a string are done by `serde_json`; what it
//! computes is named here and believed. Everything built on top of those two
//! names — looking members up, rendering numbers, decoding messages — is
//! verified.

use vstd::prelude::*;

verus! {

/// A JSON document.
#[derive(Debug, PartialEq, Eq)]
pub enum JsonValue {
    Null,
    Bool(bool),
    /// A number that is a non-negative integer below 2^64.
    Unsigned(u64),
    /// Any other number: negative, fractional or out of range.
    OtherNumber,
    Text(String),
    Array(Vec<JsonValue>),
    /// The members of an object, each under its key.
    Object(Vec<(String, JsonValue)>),
}

/// The mathematical value of a [`JsonValue`].
pub enum JsonModel {
    Null,
    Bool(bool),
    Unsigned(u64),
    OtherNumber,
    Text(Seq<char>),
    Array(Seq<JsonModel>),
    Object(Seq<(Seq<char>, JsonModel)>),
}

/// The mathematical value of a document: strings by their characters,
/// arrays and objects by the values of what they hold, in order.
pub open spec fn model_of(value: JsonValue) -> JsonModel
    decreases value,
{
    match value {
        JsonValue::Null => JsonModel::Null,
        JsonValue::Bool(b) => JsonModel::Bool(b),
        JsonValue::Unsigned(n) => JsonModel::Unsigned(n),
        JsonValue::OtherNumber => JsonModel::OtherNumber,
        JsonValue::Text(s) => JsonModel::Text(s@),
        JsonValue::Array(items) => JsonModel::Array(
            Seq::new(
                items@.len(),
                |i: int|
                    if 0 <= i < items@.len() {
                        model_of(items@[i])
                    } else {
                        JsonModel::Null
                    },
            ),
        ),
        JsonValue::Object(members) => JsonModel::Object(
            Seq::new(
                members@.len(),
                |i: int|
                    if 0 <= i < members@.len() {
                        (members@[i].0@, model_of(members@[i].1))
                    } else {
                        (Seq::<char>::empty(), JsonModel::Null)
                    },
            ),
        ),
    }
}

impl View for JsonValue {
    type V = JsonModel;

    open spec fn view(&self) -> JsonModel {
        model_of(*self)
    }
}

/// The view of an array has the views of its items, in order.
pub proof fn lemma_array_view(items: Vec<JsonValue>)
    ensures
        JsonValue::Array(items)@ matches JsonModel::Array(models) && models.len() == items@.len()
            && forall|i: int| 0 <= i < items@.len() ==> models[i] == #[trigger] items@[i]@,
{
    let whole = JsonValue::Array(items);
    assert(whole@ is Array);
    assert(whole@->Array_0.len() == items@.len());
}

/// The view of an object has the keys and the views of its members, in order.
pub proof fn lemma_object_view(members: Vec<(String, JsonValue)>)
    ensures
        JsonValue::Object(members)@ matches JsonModel::Object(models) && models.len()
            == members@.len() && forall|i: int|
            0 <= i < members@.len() ==> #[trigger] models[i] == (members@[i].0@, members@[i].1@),
{
    let whole = JsonValue::Object(members);
    assert(whole@ is Object);
    assert(whole@->Object_0.len() == members@.len());
}

impl JsonModel {
    /// The value under `key` of an object: that of the first member with
    /// that key. `None` for a missing key and for anything but an object.
    pub open spec fn member(self, key: Seq<char>) -> Option<JsonModel> {
        match self {
            JsonModel::Object(members) => first_under(members, key),
            _ => None,
        }
    }

    /// The string a value holds, if it is a string.
    pub open spec fn as_text(self) -> Option<Seq<char>> {
        match self {
            JsonModel::Text(s) => Some(s),
            _ => None,
        }
    }

    /// The integer a value holds, if it is a non-negative integer below 2^64.
    pub open spec fn as_unsigned(self) -> Option<u64> {
        match self {
            JsonModel::Unsigned(n) => Some(n),
            _ => None,
        }
    }

    /// The truth value a value holds, if it is `true` or `false`.
    pub open spec fn as_bool(self) -> Option<bool> {
        match self {
            JsonModel::Bool(b) => Some(b),
            _ => None,
        }
    }

    /// The elements of a value, if it is an array.
    pub open spec fn as_array(self) -> Option<Seq<JsonModel>> {
        match self {
            JsonModel::Array(items) => Some(items),
            _ => None,
        }
    }
}

/// The value of the first member with the given key.
pub open spec fn first_under(members: Seq<(Seq<char>, JsonModel)>, key: Seq<char>) -> Option<
    JsonModel,
>
    decreases members.len(),
{
    if members.len() == 0 {
        None
    } else if members[0].0 == key {
        Some(members[0].1)
    } else {
        first_under(members.subrange(1, members.len() as int), key)
    }
}

/// What `serde_json` reads from a text: the document, or the message of the
/// syntax error it reports.
pub uninterp spec fn json_parse(text: Seq<char>) -> Result<JsonModel, Seq<char>>;

/// What `serde_json` writes for a string: the string as a JSON string
/// literal, quoted and escaped.
pub uninterp spec fn json_quote(text: Seq<char>) -> Seq<char>;

#[verifier::external_type_specification]
#[verifier::external_body]
pub struct ExSerdeValue(serde_json::Value);

/// Moves a `serde_json::Value` into a [`JsonValue`], variant by variant. A
/// number becomes `Unsigned` where `Number::as_u64` gives one, and
/// `OtherNumber` where it does not.
#[verifier::external_body]
fn lift(value: serde_json::Value) -> JsonValue {
    match value {
        serde_json::Value::Null => JsonValue::Null,
        serde_json::Value::Bool(b) => JsonValue::Bool(b),
        serde_json::Value::Number(n) => n.as_u64().map_or(JsonValue::OtherNumber, JsonValue::Unsigned),
        serde_json::Value::String(s) => JsonValue::Text(s),
        serde_json::Value::Array(items) => JsonValue::Array(items.into_iter().map(lift).collect()),
        serde_json::Value::Object(map) => JsonValue::Object(
            map.into_iter().map(|(key, value)| (key, lift(value))).collect(),
        ),
    }
}

/// `serde_json::from_str` on a `serde_json::Value`: the document the text
/// holds, or the text of the error. The contract only names the outcome; it
/// claims that the same text always gives the same outcome.
#[verifier::external_body]
fn read_document(text: &str) -> (outcome: Result<JsonValue, String>)
    ensures
        match outcome {
            Ok(value) => json_parse(text@) == Ok::<JsonModel, Seq<char>>(value@),
            Err(message) => json_parse(text@) == Err::<JsonModel, Seq<char>>(message@),
        },
{
    match serde_json::from_str::<serde_json::Value>(text) {
        Ok(value) => Ok(lift(value)),
        Err(error) => Err(error.to_string()),
    }
}

/// `serde_json::to_string` on a string slice: the JSON string literal for it.
/// The contract only names the result.
#[verifier::external_body]
fn quote(text: &str) -> (quoted: String)
    ensures
        quoted@ == json_quote(text@),
{
    serde_json::to_string(text).unwrap_or_default()
}

/// `String::push`: appends one character.
pub assume_specification[ String::push ](s: &mut String, ch: char)
    ensures
        final(s)@ == old(s)@.push(ch),
;

impl JsonValue {
    /// Reads a JSON text.
    pub fn parse(text: &str) -> (outcome: Result<JsonValue, String>)
        ensures
            match outcome {
                Ok(value) => json_parse(text@) == Ok::<JsonModel, Seq<char>>(value@),
                Err(message) => json_parse(text@) == Err::<JsonModel, Seq<char>>(message@),
            },
    {
        read_document(text)
    }

    /// The value under `key`, if this is an object that has the key.
    pub fn member(&self, key: &str) -> (found: Option<&JsonValue>)
        ensures
            match found {
                Some(value) => self@.member(key@) == Some(value@),
                None => self@.member(key@) is None,
            },
    {
        match self {
            JsonValue::Object(members) => {
                let ghost all = self@->Object_0;
                proof {
                    lemma_object_view(*members);
                    assert(self@ == JsonModel::Object(all));
                    assert(all.subrange(0, all.len() as int) =~= all);
                }
                let wanted: String = key.to_string();
                let mut i: usize = 0;
                while i < members.len()
                    invariant
                        0 <= i <= members.len(),
                        wanted@ == key@,
                        self@ == JsonModel::Object(all),
                        all.len() == members@.len(),
                        forall|j: int|
                            0 <= j < members@.len() ==> #[trigger] all[j] == (
                                members@[j].0@,
                                members@[j].1@,
                            ),
                        first_under(all, key@) == first_under(
                            all.subrange(i as int, all.len() as int),
                            key@,
                        ),
                    decreases members.len() - i,
                {
                    let ghost rest = all.subrange(i as int, all.len() as int);
                    assert(rest[0] == all[i as int]);
                    assert(rest.subrange(1, rest.len() as int) =~= all.subrange(
                        i as int + 1,
                        all.len() as int,
                    ));
                    if members[i].0 == wanted {
                        proof {
                            assert(rest[0].0 == key@);
                            assert(first_under(rest, key@) == Some(rest[0].1));
                        }
                        return Some(&members[i].1);
                    }
                    i = i + 1;
                }
                None
            },
            _ => None,
        }
    }

    /// The string this value holds, if it is a string.
    pub fn as_text(&self) -> (text: Option<&String>)
        ensures
            match text {
                Some(s) => self@.as_text() == Some(s@),
                None => self@.as_text() is None,
            },
    {
        match self {
            JsonValue::Text(s) => Some(s),
            _ => None,
        }
    }

    /// The integer this value holds, if it is a non-negative integer below
    /// 2^64.
    pub fn as_unsigned(&self) -> (number: Option<u64>)
        ensures
            number == self@.as_unsigned(),
    {
        match self {
            JsonValue::Unsigned(n) => Some(*n),
            _ => None,
        }
    }

    /// The truth value this value holds, if it is `true` or `false`.
    pub fn as_bool(&self) -> (flag: Option<bool>)
        ensures
            flag == self@.as_bool(),
    {
        match self {
            JsonValue::Bool(b) => Some(*b),
            _ => None,
        }
    }

    /// The elements of this value, if it is an array.
    pub fn as_array(&self) -> (items: Option<&Vec<JsonValue>>)
        ensures
            match items {
                Some(list) => {
                    &&& self@.as_array() matches Some(models)
                    &&& models.len() == list@.len()
                    &&& forall|i: int| 0 <= i < list@.len() ==> models[i] == #[trigger] list@[i]@
                },
                None => self@.as_array() is None,
            },
    {
        match self {
            JsonValue::Array(items) => {
                proof {
                    lemma_array_view(*items);
                }
                Some(items)
            },
            _ => None,
        }
    }
}

/// The decimal digits of a natural number, most significant first, without
/// leading zeros; `0` is written "0".
pub open spec fn decimal(n: nat) -> Seq<char>
    decreases n,
{
    if n < 10 {
        seq![digit_char(n)]
    } else {
        decimal(n / 10).push(digit_char(n % 10))
    }
}

/// The character of one decimal digit.
pub open spec fn digit_char(d: nat) -> char
    recommends
        d < 10,
{
    if d == 0 {
        '0'
    } else if d == 1 {
        '1'
    } else if d == 2 {
        '2'
    } else if d == 3 {
        '3'
    } else if d == 4 {
        '4'
    } else if d == 5 {
        '5'
    } else if d == 6 {
        '6'
    } else if d == 7 {
        '7'
    } else if d == 8 {
        '8'
    } else {
        '9'
    }
}

/// The character of the last decimal digit of `n`.
fn last_digit(n: u64) -> (c: char)
    ensures
        c == digit_char((n % 10) as nat),
{
    let d: u64 = n % 10;
    if d == 0 {
        '0'
    } else if d == 1 {
        '1'
    } else if d == 2 {
        '2'
    } else if d == 3 {
        '3'
    } else if d == 4 {
        '4'
    } else if d == 5 {
        '5'
    } else if d == 6 {
        '6'
    } else if d == 7 {
        '7'
    } else if d == 8 {
        '8'
    } else {
        '9'
    }
}

/// Appends the decimal digits of `n`.
pub fn push_decimal(out: &mut String, n: u64)
    ensures
        final(out)@ == old(out)@ + decimal(n as nat),
    decreases n,
{
    if n >= 10 {
        push_decimal(out, n / 10);
    }
    out.push(last_digit(n));
    proof {
        if n >= 10 {
            assert(final(out)@ =~= old(out)@ + decimal(n as nat));
        } else {
            assert(final(out)@ =~= old(out)@ + decimal(n as nat));
        }
    }
}

/// The decimal digits of an integer, with a leading minus sign if it is
/// negative.
pub open spec fn signed_decimal(n: int) -> Seq<char> {
    if n < 0 {
        seq!['-'] + decimal((-n) as nat)
    } else {
        decimal(n as nat)
    }
}

/// Appends the decimal digits of `n`, with a leading minus sign if it is
/// negative.
pub fn push_signed_decimal(out: &mut String, n: i64)
    ensures
        final(out)@ == old(out)@ + signed_decimal(n as int),
{
    if n < 0 {
        out.push('-');
        let magnitude: u64 = if n == i64::MIN {
            0x8000_0000_0000_0000
        } else {
            (-n) as u64
        };
        push_decimal(out, magnitude);
        proof {
            assert(final(out)@ =~= old(out)@ + signed_decimal(n as int));
        }
    } else {
        push_decimal(out, n as u64);
    }
}

/// Appends `text` as a JSON string literal.
pub fn push_quoted(out: &mut String, text: &str)
    ensures
        final(out)@ == old(out)@ + json_quote(text@),
{
    let quoted = quote(text);
    out.append(quoted.as_str());
}

} // verus!
