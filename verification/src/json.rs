use vstd::prelude::*;

verus! {

/// A JSON document as the console logic reads it. Numbers are kept as their
/// text: the logic never reads them.
#[derive(Debug)]
pub enum JsonValue {
    Null,
    Bool(bool),
    Number(String),
    Str(String),
    Array(Vec<JsonValue>),
    Object(Vec<(String, JsonValue)>),
}

/// The value of the first member named `key`.
pub open spec fn find_member(members: Seq<(String, JsonValue)>, key: Seq<char>) -> Option<JsonValue>
    decreases members.len(),
{
    if members.len() == 0 {
        None
    } else if members[0].0@ == key {
        Some(members[0].1)
    } else {
        find_member(members.drop_first(), key)
    }
}

/// The member `key` of an object; nothing for any other value.
pub open spec fn json_get(v: JsonValue, key: Seq<char>) -> Option<JsonValue> {
    match v {
        JsonValue::Object(members) => find_member(members@, key),
        _ => None,
    }
}

/// The member `key` of an object when it is a string.
pub open spec fn json_get_str(v: JsonValue, key: Seq<char>) -> Option<Seq<char>> {
    match json_get(v, key) {
        Some(JsonValue::Str(s)) => Some(s@),
        _ => None,
    }
}

/// Whether two texts are equal.
pub fn same_text(a: &str, b: &str) -> (r: bool)
    ensures
        r == (a@ == b@),
{
    let x = String::from_str(a);
    let y = String::from_str(b);
    x == y
}

fn find_in<'a>(members: &'a Vec<(String, JsonValue)>, key: &str) -> (r: Option<&'a JsonValue>)
    ensures
        r is None <==> find_member(members@, key@) is None,
        r matches Some(v) ==> find_member(members@, key@) == Some(*v),
{
    let n = members.len();
    proof {
        assert(members@.skip(0) =~= members@);
    }
    for k in 0..n
        invariant
            n == members@.len(),
            find_member(members@, key@) == find_member(members@.skip(k as int), key@),
    {
        let ghost rest = members@.skip(k as int);
        proof {
            assert(rest.drop_first() =~= members@.skip(k + 1));
            assert(rest[0] == members@[k as int]);
        }
        if same_text(members[k].0.as_str(), key) {
            return Some(&members[k].1);
        }
    }
    proof {
        assert(members@.skip(n as int).len() == 0);
    }
    None
}

impl JsonValue {
    /// The member `key` of an object; `None` for any other value.
    pub fn get(&self, key: &str) -> (r: Option<&JsonValue>)
        ensures
            r is None <==> json_get(*self, key@) is None,
            r matches Some(v) ==> json_get(*self, key@) == Some(*v),
    {
        match self {
            JsonValue::Object(members) => find_in(members, key),
            _ => None,
        }
    }

    /// The text of a string value; `None` for any other value.
    pub fn as_str(&self) -> (r: Option<&String>)
        ensures
            r is None <==> !(*self is Str),
            r matches Some(s) ==> *self == JsonValue::Str(*s),
    {
        match self {
            JsonValue::Str(s) => Some(s),
            _ => None,
        }
    }

    /// The member `key` of an object when it is a string.
    pub fn get_str(&self, key: &str) -> (r: Option<String>)
        ensures
            r is None <==> json_get_str(*self, key@) is None,
            r matches Some(s) ==> json_get_str(*self, key@) == Some(s@),
    {
        match self.get(key) {
            Some(v) => match v.as_str() {
                Some(s) => Some(s.clone()),
                None => None,
            },
            None => None,
        }
    }
}

// ---------------------------------------------------------------------------
// Reading and writing JSON text, through serde_json.
// ---------------------------------------------------------------------------

#[verifier::external_type_specification]
#[verifier::external_body]
pub struct ExJsonValue(serde_json::Value);

/// What `serde_json::from_str::<serde_json::Value>` makes of a text, as a
/// `JsonValue`: `None` when the text is not JSON.
pub uninterp spec fn parsed_json(text: Seq<char>) -> Option<JsonValue>;

/// Converts a `serde_json::Value` into a `JsonValue`, variant by variant
/// (a number becomes its text, as `Number`'s `Display` writes it; an
/// object's members come in the order the map yields them). Only
/// `parse_json` uses it, and nothing is claimed of it on its own.
#[verifier::external_body]
fn from_serde(v: &serde_json::Value) -> JsonValue {
    match v {
        serde_json::Value::Null => JsonValue::Null,
        serde_json::Value::Bool(b) => JsonValue::Bool(*b),
        serde_json::Value::Number(n) => JsonValue::Number(n.to_string()),
        serde_json::Value::String(s) => JsonValue::Str(s.clone()),
        serde_json::Value::Array(a) => JsonValue::Array(a.iter().map(from_serde).collect()),
        serde_json::Value::Object(m) => JsonValue::Object(
            m.iter().map(|(k, x)| (k.clone(), from_serde(x))).collect(),
        ),
    }
}

/// A lower-case hexadecimal digit.
pub open spec fn hex_digit(d: nat) -> char {
    if d < 10 {
        crate::text::digit_char(d)
    } else if d == 10 {
        'a'
    } else if d == 11 {
        'b'
    } else if d == 12 {
        'c'
    } else if d == 13 {
        'd'
    } else if d == 14 {
        'e'
    } else {
        'f'
    }
}

/// One character written inside a JSON string literal: `"` and `\` after a
/// backslash, the usual short escapes, other control characters as
/// `\u00xx`, everything else as it is.
pub open spec fn json_escape(c: char) -> Seq<char> {
    let v = c as u32;
    if c == '"' {
        seq!['\\', '"']
    } else if c == '\\' {
        seq!['\\', '\\']
    } else if v == 0x08 {
        seq!['\\', 'b']
    } else if v == 0x09 {
        seq!['\\', 't']
    } else if v == 0x0a {
        seq!['\\', 'n']
    } else if v == 0x0c {
        seq!['\\', 'f']
    } else if v == 0x0d {
        seq!['\\', 'r']
    } else if v < 0x20 {
        seq!['\\', 'u', '0', '0', hex_digit((v / 16) as nat), hex_digit((v % 16) as nat)]
    } else {
        seq![c]
    }
}

/// The escaped characters of a text.
pub open spec fn json_escaped(s: Seq<char>) -> Seq<char>
    decreases s.len(),
{
    if s.len() == 0 {
        Seq::empty()
    } else {
        json_escape(s[0]) + json_escaped(s.drop_first())
    }
}

/// A text written as a JSON string literal.
pub open spec fn json_quote(s: Seq<char>) -> Seq<char> {
    seq!['"'] + json_escaped(s) + seq!['"']
}

/// The string literals of a list, separated by commas.
pub open spec fn json_string_list(ss: Seq<Seq<char>>) -> Seq<char>
    decreases ss.len(),
{
    if ss.len() == 0 {
        Seq::empty()
    } else if ss.len() == 1 {
        json_quote(ss[0])
    } else {
        json_string_list(ss.drop_last()) + seq![','] + json_quote(ss.last())
    }
}

/// A JSON array of strings, written without white space.
pub open spec fn json_string_array_text(ss: Seq<Seq<char>>) -> Seq<char> {
    seq!['['] + json_string_list(ss) + seq![']']
}

/// `serde_json::from_str::<serde_json::Value>`: the text read as JSON, or
/// `None` when serde_json refuses it. The result is a function of the text
/// alone. Of which texts are JSON and what they read as, the contract
/// states one case, from serde_json's parser (`de.rs`, arrays and strings):
/// an array of string literals reads as an array with one string per
/// literal, in order, each decoded back to its text. Nothing else is stated.
#[verifier::external_body]
pub(crate) fn parse_json(text: &str) -> (r: Option<JsonValue>)
    ensures
        r == parsed_json(text@),
        forall|ss: Seq<Seq<char>>|
            #[trigger] json_string_array_text(ss) == text@ ==> (r matches Some(
                JsonValue::Array(items),
            ) && items@.len() == ss.len() && forall|i: int|
                0 <= i < ss.len() ==> (#[trigger] items@[i] matches JsonValue::Str(s) && s@
                    == ss[i])),
{
    match serde_json::from_str::<serde_json::Value>(text) {
        Ok(v) => Some(from_serde(&v)),
        Err(_) => None,
    }
}

/// The views of a list of string pairs.
pub open spec fn pairs_view(members: Seq<(String, String)>) -> Seq<(Seq<char>, Seq<char>)> {
    members.map_values(|m: (String, String)| (m.0@, m.1@))
}

/// The text that serde_json writes (compact, with `Display`) for a JSON
/// object whose members, inserted in this order, are strings.
pub uninterp spec fn json_object_text(members: Seq<(Seq<char>, Seq<char>)>) -> Seq<char>;

/// Builds a `serde_json::Map` by inserting each pair as a string member, in
/// order, and writes `serde_json::Value::Object` of it with `to_string`.
/// The result is a function of the pairs alone (for the features serde_json
/// is built with); the key order and the escaping are serde_json's and are
/// not stated. What is stated is that the text reads back, with
/// `serde_json::from_str`, as an object in which a key given once has its
/// string value unchanged: serde_json writes every key and string escaped
/// so that its parser decodes them to the same text.
#[verifier::external_body]
pub(crate) fn json_object(members: &Vec<(String, String)>) -> (r: String)
    ensures
        r@ == json_object_text(pairs_view(members@)),
        parsed_json(r@) is Some,
        parsed_json(r@)->0 is Object,
        forall|i: int|
            0 <= i < members@.len() && (forall|j: int|
                0 <= j < members@.len() && j != i ==> members@[j].0@ != (#[trigger] members@[i]).0@)
                ==> json_get_str(parsed_json(r@)->0, members@[i].0@) == Some(members@[i].1@),
{
    let mut map = serde_json::Map::new();
    for (k, v) in members.iter() {
        map.insert(k.clone(), serde_json::Value::String(v.clone()));
    }
    serde_json::Value::Object(map).to_string()
}

} // verus!
