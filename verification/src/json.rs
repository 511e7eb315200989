//! Flat JSON objects (string, integer and boolean members) and their text,
//! which `serde_json` writes.
use vstd::prelude::*;
use crate::text::{decimal, owned, strictly_sorted};

verus! {

/// A JSON scalar member value.
pub enum JsonScalar {
    Str(String),
    Int(i64),
    Bool(bool),
}

/// The mathematical value of a [`JsonScalar`].
pub enum JsonScalarView {
    Str(Seq<char>),
    Int(int),
    Bool(bool),
}

impl View for JsonScalar {
    type V = JsonScalarView;

    open spec fn view(&self) -> JsonScalarView {
        match self {
            JsonScalar::Str(s) => JsonScalarView::Str(s@),
            JsonScalar::Int(i) => JsonScalarView::Int(*i as int),
            JsonScalar::Bool(b) => JsonScalarView::Bool(*b),
        }
    }
}

/// One member of a JSON object.
pub struct JsonMember {
    pub key: String,
    pub value: JsonScalar,
}

/// A flat JSON object: its members in insertion order. As in a
/// `serde_json::Map`, a later member replaces an earlier one with the same
/// key, and the text lists the keys in sorted order.
pub struct JsonObject {
    pub members: Vec<JsonMember>,
}

/// The members of an object, as `(key, value)` views in insertion order.
pub open spec fn members_view(m: Seq<JsonMember>) -> Seq<(Seq<char>, JsonScalarView)> {
    m.map_values(|x: JsonMember| (x.key@, x.value@))
}

impl View for JsonObject {
    type V = Seq<(Seq<char>, JsonScalarView)>;

    open spec fn view(&self) -> Seq<(Seq<char>, JsonScalarView)> {
        members_view(self.members@)
    }
}

/// The lowercase hexadecimal digit for `d < 16`.
pub open spec fn hex_digit(d: int) -> char {
    seq!['0', '1', '2', '3', '4', '5', '6', '7', '8', '9', 'a', 'b', 'c', 'd', 'e', 'f'][d]
}

/// How `serde_json` writes one character inside a string literal: `"` and
/// `\` behind a backslash, the control characters below U+0020 as `\b`,
/// `\t`, `\n`, `\f`, `\r` or `\u00XX` (lowercase hex), anything else as it is.
pub open spec fn json_escape_char(c: char) -> Seq<char> {
    if c == '"' {
        seq!['\\', '"']
    } else if c == '\\' {
        seq!['\\', '\\']
    } else if c == '\u{8}' {
        seq!['\\', 'b']
    } else if c == '\t' {
        seq!['\\', 't']
    } else if c == '\n' {
        seq!['\\', 'n']
    } else if c == '\u{c}' {
        seq!['\\', 'f']
    } else if c == '\r' {
        seq!['\\', 'r']
    } else if (c as int) < 0x20 {
        seq!['\\', 'u', '0', '0', hex_digit((c as int) / 16), hex_digit((c as int) % 16)]
    } else {
        seq![c]
    }
}

/// The characters of `s`, each written as inside a JSON string literal.
pub open spec fn json_escape(s: Seq<char>) -> Seq<char>
    decreases s.len(),
{
    if s.len() == 0 {
        Seq::empty()
    } else {
        json_escape(s.drop_last()) + json_escape_char(s.last())
    }
}

/// The JSON string literal `serde_json` writes for `s`: quoted and escaped.
pub open spec fn json_string_literal(s: Seq<char>) -> Seq<char> {
    seq!['"'] + json_escape(s) + seq!['"']
}

/// The compact text `serde_json` writes for a scalar value: a string
/// literal, a decimal integer with a leading `-` when negative, or
/// `true`/`false`.
pub open spec fn json_scalar_text(v: JsonScalarView) -> Seq<char> {
    match v {
        JsonScalarView::Str(s) => json_string_literal(s),
        JsonScalarView::Int(i) => if i < 0 {
            seq!['-'] + decimal((-i) as nat)
        } else {
            decimal(i as nat)
        },
        JsonScalarView::Bool(b) => if b {
            seq!['t', 'r', 'u', 'e']
        } else {
            seq!['f', 'a', 'l', 's', 'e']
        },
    }
}

/// Inside a JSON string literal, `"` and `\` are written behind a
/// backslash, every control character below U+0020 becomes a backslash
/// escape (`\n`, `\t`, `\r`, `\b`, `\f`, or `\u00` and two
/// lowercase hex digits), and every other character is written as it is; the
/// literal is the escaped text between two `"`.
pub proof fn law_json_string_escapes(c: char, s: Seq<char>)
    ensures
        c == '"' ==> json_escape_char(c) == seq!['\\', '"'],
        c == '\\' ==> json_escape_char(c) == seq!['\\', '\\'],
        c == '\n' ==> json_escape_char(c) == seq!['\\', 'n'],
        c == '\t' ==> json_escape_char(c) == seq!['\\', 't'],
        c == '\r' ==> json_escape_char(c) == seq!['\\', 'r'],
        (c as int) < 0x20 ==> json_escape_char(c)[0] == '\\' && json_escape_char(c).len() >= 2,
        (c as int) < 0x20 && c != '\u{8}' && c != '\t' && c != '\n' && c != '\u{c}' && c != '\r' ==> json_escape_char(c)
            == seq!['\\', 'u', '0', '0', hex_digit((c as int) / 16), hex_digit((c as int) % 16)],
        (c as int) >= 0x20 && c != '"' && c != '\\' ==> json_escape_char(c) == seq![c],
        json_string_literal(s)[0] == '"',
        json_string_literal(s).last() == '"',
        json_string_literal(s).len() == json_escape(s).len() + 2,
        json_escape(s.push(c)) == json_escape(s) + json_escape_char(c),
{
    assert(s.push(c).drop_last() =~= s);
}

/// `k` is the key of some member.
pub open spec fn has_key(members: Seq<(Seq<char>, JsonScalarView)>, k: Seq<char>) -> bool {
    exists|i: int| 0 <= i < members.len() && members[i].0 == k
}

/// The value of the last member with key `k`: inserting into a map replaces
/// the value of a key already there.
pub open spec fn last_value(members: Seq<(Seq<char>, JsonScalarView)>, k: Seq<char>) -> JsonScalarView
    decreases members.len(),
{
    if members.len() == 0 {
        JsonScalarView::Bool(false)
    } else if members.last().0 == k {
        members.last().1
    } else {
        last_value(members.drop_last(), k)
    }
}

/// The keys of the members, each once, in increasing order (a map without
/// `preserve_order` keeps its keys sorted).
pub open spec fn sorted_keys(members: Seq<(Seq<char>, JsonScalarView)>) -> Seq<Seq<char>> {
    choose|ks: Seq<Seq<char>>|
        strictly_sorted(ks) && forall|k: Seq<char>| #[trigger] ks.contains(k) <==> has_key(members, k)
}

/// `"key":value` for one key of the object.
pub open spec fn member_text(members: Seq<(Seq<char>, JsonScalarView)>, k: Seq<char>) -> Seq<char> {
    json_string_literal(k) + seq![':'] + json_scalar_text(last_value(members, k))
}

/// The texts joined by commas.
pub open spec fn comma_join(ts: Seq<Seq<char>>) -> Seq<char>
    decreases ts.len(),
{
    if ts.len() == 0 {
        Seq::empty()
    } else if ts.len() == 1 {
        ts[0]
    } else {
        comma_join(ts.drop_last()) + seq![','] + ts.last()
    }
}

/// The compact text `serde_json` writes for the object built by inserting
/// `members` in order into a `serde_json::Map`: `{`, the members in key
/// order, one per key with its last value, separated by commas, and `}`.
pub open spec fn json_object_text(members: Seq<(Seq<char>, JsonScalarView)>) -> Seq<char> {
    seq!['{'] + comma_join(sorted_keys(members).map_values(|k: Seq<char>| member_text(members, k))) + seq!['}']
}

impl JsonObject {
    /// The empty object.
    pub fn new() -> (r: JsonObject)
        ensures
            r@ == Seq::<(Seq<char>, JsonScalarView)>::empty(),
    {
        let r = JsonObject { members: Vec::new() };
        assert(r@ =~= Seq::<(Seq<char>, JsonScalarView)>::empty());
        r
    }

    /// Adds a member (a member with the same key is replaced, as in `serde_json::Map::insert`).
    pub fn insert(&mut self, key: String, value: JsonScalar)
        ensures
            final(self)@ == old(self)@.push((key@, value@)),
    {
        let ghost k = key@;
        let ghost v = value@;
        self.members.push(JsonMember { key, value });
        assert(self@ =~= old(self)@.push((k, v)));
    }

    /// A string member, with owned copies of `key` and `value`.
    pub fn insert_str(&mut self, key: &str, value: &str)
        ensures
            final(self)@ == old(self)@.push((key@, JsonScalarView::Str(value@))),
    {
        self.insert(owned(key), JsonScalar::Str(owned(value)));
    }

    /// A boolean member.
    pub fn insert_bool(&mut self, key: &str, value: bool)
        ensures
            final(self)@ == old(self)@.push((key@, JsonScalarView::Bool(value))),
    {
        self.insert(owned(key), JsonScalar::Bool(value));
    }
}

/// `serde_json`'s text for a flat object: the members are inserted in order
/// into a `serde_json::Map` and the resulting `Value::Object` is displayed.
/// Claimed: the text is `json_object_text` of the members (keys sorted, the
/// last value of a repeated key kept, compact form), and an object without
/// members is written `{}`.
#[verifier::external_body]
pub(crate) fn json_object_to_string(obj: &JsonObject) -> (r: String)
    ensures
        r@ == json_object_text(obj@),
        obj@.len() == 0 ==> r@ == "{}"@,
{
    let mut m = serde_json::Map::new();
    for x in obj.members.iter() {
        let v = match &x.value {
            JsonScalar::Str(s) => serde_json::Value::String(s.clone()),
            JsonScalar::Int(i) => serde_json::Value::from(*i),
            JsonScalar::Bool(b) => serde_json::Value::Bool(*b),
        };
        m.insert(x.key.clone(), v);
    }
    serde_json::Value::Object(m).to_string()
}

/// `serde_json::to_string` on a `str`: the quoted, escaped JSON string
/// literal, which can also be embedded in JavaScript. Claimed: the text is
/// `json_string_literal(s)` (the escape table of `serde_json`'s serializer),
/// and it begins and ends with `"`.
/// Serializing a `str` into a `String` cannot fail.
#[verifier::external_body]
pub(crate) fn json_string(s: &str) -> (r: String)
    ensures
        r@ == json_string_literal(s@),
        r@.len() >= 2,
        r@[0] == '"',
        r@.last() == '"',
{
    serde_json::to_string(s).unwrap()
}

/// `serde_json`'s compact text for a scalar (`Value::to_string` on the
/// corresponding `serde_json::Value`). Claimed: the text is
/// `json_scalar_text(v)`.
#[verifier::external_body]
pub(crate) fn json_scalar_to_string(v: &JsonScalar) -> (r: String)
    ensures
        r@ == json_scalar_text(v@),
{
    match v {
        JsonScalar::Str(s) => serde_json::Value::String(s.clone()).to_string(),
        JsonScalar::Int(i) => serde_json::Value::from(*i).to_string(),
        JsonScalar::Bool(b) => serde_json::Value::Bool(*b).to_string(),
    }
}

} // verus!
