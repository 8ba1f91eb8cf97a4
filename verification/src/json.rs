//! JSON values, as far as the messages of the local services are read.
use vstd::prelude::*;

use crate::text;

verus! {

/// A JSON value. A number is kept as the text that it is written with.
#[derive(Debug)]
pub enum Json {
    Null,
    Bool(bool),
    Number(String),
    Text(String),
    Array(Vec<Json>),
    Object(Vec<JsonMember>),
}

/// One member of a JSON object.
#[derive(Debug)]
pub struct JsonMember {
    pub key: String,
    pub value: Json,
}

/// What a JSON value is.
pub enum JsonModel {
    Null,
    Bool(bool),
    Number(Seq<char>),
    Text(Seq<char>),
    Array(Seq<JsonModel>),
    Object(Seq<(Seq<char>, JsonModel)>),
}

impl Json {
    /// What this value is.
    pub open spec fn model(self) -> JsonModel
        decreases self,
    {
        match self {
            Json::Null => JsonModel::Null,
            Json::Bool(b) => JsonModel::Bool(b),
            Json::Number(n) => JsonModel::Number(n@),
            Json::Text(t) => JsonModel::Text(t@),
            Json::Array(items) => JsonModel::Array(
                Seq::new(
                    items@.len(),
                    |i: int|
                        if 0 <= i < items@.len() {
                            items@[i].model()
                        } else {
                            JsonModel::Null
                        },
                ),
            ),
            Json::Object(members) => JsonModel::Object(
                Seq::new(
                    members@.len(),
                    |i: int|
                        if 0 <= i < members@.len() {
                            (members@[i].key@, members@[i].value.model())
                        } else {
                            (Seq::empty(), JsonModel::Null)
                        },
                ),
            ),
        }
    }
}

/// `serde_json::Value`, which is carried from the parser to the conversion and
/// not looked into.
#[verifier::external_type_specification]
#[verifier::external_body]
pub struct ExJsonValue(serde_json::Value);

/// What a parsed value holds.
pub uninterp spec fn value_model(value: serde_json::Value) -> JsonModel;

/// What becomes of a text that is parsed as JSON: what it holds, or the message
/// that says why it is no JSON text.
pub uninterp spec fn parse_outcome(source: Seq<char>) -> Result<JsonModel, Seq<char>>;

/// What a text parses to as JSON; `None` where it is no JSON text.
pub open spec fn parsed_model(source: Seq<char>) -> Option<JsonModel> {
    match parse_outcome(source) {
        Ok(model) => Some(model),
        Err(_) => None,
    }
}

/// `serde_json::from_str` at the type `serde_json::Value`: whether it succeeds,
/// what the value holds and what the error says depends on the text alone. The
/// error comes back as its message.
#[verifier::external_body]
fn read_value(source: &str) -> (res: Result<serde_json::Value, String>)
    ensures
        match res {
            Ok(value) => parse_outcome(source@) == Ok::<JsonModel, Seq<char>>(value_model(value)),
            Err(message) => parse_outcome(source@) == Err::<JsonModel, Seq<char>>(message@),
        },
{
    serde_json::from_str::<serde_json::Value>(source).map_err(|error| error.to_string())
}

/// The contents of a `serde_json::Value`, arm for arm: `Value::Null`, `Bool`,
/// `Number` (by its `Display`), `String`, `Array` and `Object`, the members in
/// the order in which the map hands them out.
#[verifier::external_body]
fn value_contents(value: serde_json::Value) -> (res: Json)
    ensures
        res.model() == value_model(value),
{
    match value {
        serde_json::Value::Null => Json::Null,
        serde_json::Value::Bool(b) => Json::Bool(b),
        serde_json::Value::Number(n) => Json::Number(n.to_string()),
        serde_json::Value::String(s) => Json::Text(s),
        serde_json::Value::Array(items) => Json::Array(items.into_iter().map(value_contents).collect()),
        serde_json::Value::Object(map) => Json::Object(
            map.into_iter().map(|(key, v)| JsonMember { key, value: value_contents(v) }).collect(),
        ),
    }
}

/// Parses a JSON text. The error is the parser's message.
pub fn parse_json(source: &str) -> (res: Result<Json, String>)
    ensures
        match res {
            Ok(json) => parse_outcome(source@) == Ok::<JsonModel, Seq<char>>(json.model()),
            Err(message) => parse_outcome(source@) == Err::<JsonModel, Seq<char>>(message@),
        },
{
    match read_value(source) {
        Ok(value) => Ok(value_contents(value)),
        Err(message) => Err(message),
    }
}

/// What becomes of some bytes that are parsed as JSON: what they hold, or the
/// message that says why they are no JSON text.
pub uninterp spec fn parse_bytes_outcome(source: Seq<u8>) -> Result<JsonModel, Seq<char>>;

/// What some bytes parse to as JSON; `None` where they are no JSON text.
pub open spec fn parsed_bytes_model(source: Seq<u8>) -> Option<JsonModel> {
    match parse_bytes_outcome(source) {
        Ok(model) => Some(model),
        Err(_) => None,
    }
}

/// `serde_json::from_slice` at the type `serde_json::Value`: whether it
/// succeeds, what the value holds and what the error says depends on the bytes
/// alone. The error comes back as its message.
#[verifier::external_body]
fn read_value_bytes(source: &[u8]) -> (res: Result<serde_json::Value, String>)
    ensures
        match res {
            Ok(value) => parse_bytes_outcome(source@) == Ok::<JsonModel, Seq<char>>(
                value_model(value),
            ),
            Err(message) => parse_bytes_outcome(source@) == Err::<JsonModel, Seq<char>>(message@),
        },
{
    serde_json::from_slice::<serde_json::Value>(source).map_err(|error| error.to_string())
}

/// Parses the bytes of a JSON text. The error is the parser's message.
pub fn parse_json_bytes(source: &[u8]) -> (res: Result<Json, String>)
    ensures
        match res {
            Ok(json) => parse_bytes_outcome(source@) == Ok::<JsonModel, Seq<char>>(json.model()),
            Err(message) => parse_bytes_outcome(source@) == Err::<JsonModel, Seq<char>>(message@),
        },
{
    match read_value_bytes(source) {
        Ok(value) => Ok(value_contents(value)),
        Err(message) => Err(message),
    }
}

impl JsonModel {
    /// The value of the first member with that key.
    pub open spec fn member_from(members: Seq<(Seq<char>, JsonModel)>, key: Seq<char>) -> Option<
        JsonModel,
    >
        decreases members.len(),
    {
        if members.len() == 0 {
            None
        } else if members[0].0 == key {
            Some(members[0].1)
        } else {
            Self::member_from(members.drop_first(), key)
        }
    }

    /// The member of an object with that key.
    pub open spec fn get(self, key: Seq<char>) -> Option<JsonModel> {
        match self {
            JsonModel::Object(members) => Self::member_from(members, key),
            _ => None,
        }
    }

    /// The item of an array at that index.
    pub open spec fn at(self, index: int) -> Option<JsonModel> {
        match self {
            JsonModel::Array(items) => if 0 <= index < items.len() {
                Some(items[index])
            } else {
                None
            },
            _ => None,
        }
    }

    pub open spec fn as_text(self) -> Option<Seq<char>> {
        match self {
            JsonModel::Text(t) => Some(t),
            _ => None,
        }
    }

    pub open spec fn as_bool(self) -> Option<bool> {
        match self {
            JsonModel::Bool(b) => Some(b),
            _ => None,
        }
    }

    /// The text of the member with that key, if it is there and a text.
    pub open spec fn text_member(self, key: Seq<char>) -> Option<Seq<char>> {
        match self.get(key) {
            Some(value) => value.as_text(),
            None => None,
        }
    }

    /// The truth value of the member with that key, if it is there and one.
    pub open spec fn bool_member(self, key: Seq<char>) -> Option<bool> {
        match self.get(key) {
            Some(value) => value.as_bool(),
            None => None,
        }
    }
}

impl Json {
    /// The member of an object with that key.
    pub fn get(&self, key: &str) -> (res: Option<&Json>)
        ensures
            match res {
                Some(value) => self.model().get(key@) == Some(value.model()),
                None => self.model().get(key@) is None,
            },
    {
        match self {
            Json::Object(members) => {
                let ghost all = self.model()->Object_0;
                assert(all.skip(0) == all);
                let mut i: usize = 0;
                while i < members.len()
                    invariant
                        i <= members@.len(),
                        self.model() == JsonModel::Object(all),
                        all.len() == members@.len(),
                        forall|k: int|
                            0 <= k < members@.len() ==> #[trigger] all[k] == (
                                members@[k].key@,
                                members@[k].value.model(),
                            ),
                        JsonModel::member_from(all, key@) == JsonModel::member_from(
                            all.skip(i as int),
                            key@,
                        ),
                    decreases members@.len() - i,
                {
                    assert(all.skip(i as int)[0] == all[i as int]);
                    assert(all.skip(i as int).drop_first() == all.skip(i + 1));
                    if text::same_text(members[i].key.as_str(), key) {
                        return Some(&members[i].value);
                    }
                    i += 1;
                }
                None
            },
            _ => None,
        }
    }

    /// The item of an array at that index.
    pub fn at(&self, index: usize) -> (res: Option<&Json>)
        ensures
            match res {
                Some(value) => self.model().at(index as int) == Some(value.model()),
                None => self.model().at(index as int) is None,
            },
    {
        match self {
            Json::Array(items) => if index < items.len() {
                Some(&items[index])
            } else {
                None
            },
            _ => None,
        }
    }

    pub fn as_text(&self) -> (res: Option<&String>)
        ensures
            match res {
                Some(t) => self.model().as_text() == Some(t@),
                None => self.model().as_text() is None,
            },
    {
        match self {
            Json::Text(t) => Some(t),
            _ => None,
        }
    }

    pub fn as_bool(&self) -> (res: Option<bool>)
        ensures
            res == self.model().as_bool(),
    {
        match self {
            Json::Bool(b) => Some(*b),
            _ => None,
        }
    }

    /// The text of the member with that key, if it is there and a text.
    pub fn text_member(&self, key: &str) -> (res: Option<&String>)
        ensures
            match res {
                Some(t) => self.model().text_member(key@) == Some(t@),
                None => self.model().text_member(key@) is None,
            },
    {
        match self.get(key) {
            Some(value) => value.as_text(),
            None => None,
        }
    }

    /// The truth value of the member with that key, if it is there and one.
    pub fn bool_member(&self, key: &str) -> (res: Option<bool>)
        ensures
            res == self.model().bool_member(key@),
    {
        match self.get(key) {
            Some(value) => value.as_bool(),
            None => None,
        }
    }
}

/// What the members of an object are.
pub open spec fn member_models(members: Seq<JsonMember>) -> Seq<(Seq<char>, JsonModel)> {
    members.map_values(|m: JsonMember| (m.key@, m.value.model()))
}

/// What the items of an array are.
pub open spec fn item_models(items: Seq<Json>) -> Seq<JsonModel> {
    items.map_values(|item: Json| item.model())
}

/// An object with the given members.
pub fn object(members: Vec<JsonMember>) -> (res: Json)
    ensures
        res.model() == JsonModel::Object(member_models(members@)),
        res == Json::Object(members),
{
    let res = Json::Object(members);
    assert(res.model()->Object_0 == member_models(members@));
    res
}

/// An array with the given items.
pub fn array(items: Vec<Json>) -> (res: Json)
    ensures
        res.model() == JsonModel::Array(item_models(items@)),
        res == Json::Array(items),
{
    let res = Json::Array(items);
    assert(res.model()->Array_0 == item_models(items@));
    res
}

/// A member of an object.
pub fn member(key: &str, value: Json) -> (res: JsonMember)
    ensures
        res.key@ == key@,
        res.value == value,
{
    JsonMember { key: key.to_owned(), value }
}

/// A text value.
pub fn string_value(value: &str) -> (res: Json)
    ensures
        res.model() == JsonModel::Text(value@),
{
    Json::Text(value.to_owned())
}

/// The hexadecimal digit of a number below sixteen.
pub open spec fn hex_digit(d: int) -> char {
    if d < 10 {
        (48 + d) as char
    } else {
        (87 + d) as char
    }
}

/// How a character stands in a JSON string literal.
pub open spec fn escaped_char(c: char) -> Seq<char> {
    let code = c as int;
    if c == '"' {
        seq!['\\', '"']
    } else if c == '\\' {
        seq!['\\', '\\']
    } else if code == 8 {
        seq!['\\', 'b']
    } else if code == 9 {
        seq!['\\', 't']
    } else if code == 10 {
        seq!['\\', 'n']
    } else if code == 12 {
        seq!['\\', 'f']
    } else if code == 13 {
        seq!['\\', 'r']
    } else if code < 0x20 {
        seq!['\\', 'u', '0', '0', hex_digit(code / 16), hex_digit(code % 16)]
    } else {
        seq![c]
    }
}

/// A text written as a JSON string literal.
pub open spec fn json_literal(source: Seq<char>) -> Seq<char> {
    seq!['"'] + source.flat_map(|c: char| escaped_char(c)) + seq!['"']
}

/// `serde_json::to_string` on a `str`: the text between quotation marks, with
/// quotation marks, backslashes and the control characters below the space
/// escaped. Writing a `str` does not fail.
#[verifier::external_body]
fn write_literal(source: &str) -> (res: Option<String>)
    ensures
        res is Some,
        res->0@ == json_literal(source@),
{
    serde_json::to_string(source).ok()
}

/// A text written as a JSON string literal.
pub fn quoted(source: &str) -> (res: String)
    ensures
        res@ == json_literal(source@),
{
    match write_literal(source) {
        Some(literal) => literal,
        None => String::new(),
    }
}

/// A member of an object is found by its key, the first of them where there are
/// several; nothing is found in what is no object.
pub proof fn law_members_are_found_by_their_key(
    members: Seq<(Seq<char>, JsonModel)>,
    key: Seq<char>,
    at: int,
)
    ensures
        0 <= at < members.len() && members[at].0 == key && (forall|j: int|
            0 <= j < at ==> (#[trigger] members[j]).0 != key) ==> JsonModel::Object(members).get(
            key,
        ) == Some(members[at].1),
        (forall|j: int| 0 <= j < members.len() ==> (#[trigger] members[j]).0 != key)
            ==> JsonModel::Object(members).get(key) is None,
        JsonModel::Null.get(key) is None,
    decreases members.len(),
{
    if members.len() > 0 {
        let rest = members.drop_first();
        assert(forall|j: int| 0 <= j < rest.len() ==> #[trigger] rest[j] == members[j + 1]);
        law_members_are_found_by_their_key(rest, key, at - 1);
        assert((forall|j: int| 0 <= j < members.len() ==> (#[trigger] members[j]).0 != key)
            ==> forall|j: int| 0 <= j < rest.len() ==> (#[trigger] rest[j]).0 != key);
        assert((forall|j: int| 0 <= j < at ==> (#[trigger] members[j]).0 != key) && at
            <= members.len() ==> forall|j: int|
            0 <= j < at - 1 ==> (#[trigger] rest[j]).0 != key);
        if 0 < at < members.len() {
            assert(rest[at - 1] == members[at]);
        }
        if at > 0 {
            assert((forall|j: int| 0 <= j < at ==> (#[trigger] members[j]).0 != key)
                ==> members[0].0 != key);
        }
    }
}

/// An item is found by its place in an array, and a text or a truth value only
/// where the value is one.
pub proof fn law_values_are_what_they_are(
    items: Seq<JsonModel>,
    value: JsonModel,
    said: Seq<char>,
    flag: bool,
    i: int,
)
    ensures
        0 <= i < items.len() ==> JsonModel::Array(items).at(i) == Some(items[i]),
        !(0 <= i < items.len()) ==> JsonModel::Array(items).at(i) is None,
        !(value is Array) ==> value.at(i) is None,
        JsonModel::Text(said).as_text() == Some(said),
        !(value is Text) ==> value.as_text() is None,
        JsonModel::Bool(flag).as_bool() == Some(flag),
        !(value is Bool) ==> value.as_bool() is None,
        value.get(said) matches Some(member) ==> value.text_member(said) == member.as_text()
            && value.bool_member(said) == member.as_bool(),
        value.get(said) is None ==> value.text_member(said) is None && value.bool_member(
            said,
        ) is None,
{
}

/// In a JSON literal quotation marks, backslashes and control characters stand
/// behind a backslash, and every other character as it is.
pub proof fn law_control_characters_are_escaped(c: char, k: int)
    ensures
        c == '"' || c == '\\' ==> escaped_char(c) == seq!['\\', c],
        c == '\u{8}' ==> escaped_char(c) == seq!['\\', 'b'],
        c == '\t' ==> escaped_char(c) == seq!['\\', 't'],
        c == '\n' ==> escaped_char(c) == seq!['\\', 'n'],
        c == '\u{c}' ==> escaped_char(c) == seq!['\\', 'f'],
        c == '\r' ==> escaped_char(c) == seq!['\\', 'r'],
        c < ' ' && c != '\u{8}' && c != '\t' && c != '\n' && c != '\u{c}' && c != '\r'
            ==> escaped_char(c).len() == 6 && escaped_char(c)[1] == 'u',
        c >= ' ' && c != '"' && c != '\\' ==> escaped_char(c) == seq![c],
        0 <= k < escaped_char(c).len() ==> escaped_char(c)[k] >= ' ',
{
}

} // verus!
