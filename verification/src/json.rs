//! JSON documents: a tree that the library reads and writes.
//!
//! Parsing is the work of `serde_json`; the tree is what the rest of the library
//! looks into. Writing puts a tree on a single line, without spaces, or on indented
//! lines; the members of an object keep the order in which they stand.
use vstd::prelude::*;

use crate::text;
use crate::text::{decimal_text, same_text};

verus! {

/// A JSON document.
#[derive(Debug, PartialEq, Eq)]
pub enum Json {
    Null,
    Bool(bool),
    /// A number: its value when it is an integer in the range of `u64`, and
    /// nothing for every other number.
    Number(Option<u64>),
    Text(String),
    Array(Vec<Json>),
    /// The members, in order.
    Object(Vec<(String, Json)>),
}

/// The content of a JSON document.
#[verifier::ext_equal]
pub enum JsonTree {
    Null,
    Bool(bool),
    Number(Option<u64>),
    Text(Seq<char>),
    Array(Seq<JsonTree>),
    Object(Seq<(Seq<char>, JsonTree)>),
}

impl Json {
    /// The content of the document.
    pub open spec fn tree(self) -> JsonTree
        decreases self,
    {
        match self {
            Json::Null => JsonTree::Null,
            Json::Bool(b) => JsonTree::Bool(b),
            Json::Number(n) => JsonTree::Number(n),
            Json::Text(s) => JsonTree::Text(s@),
            Json::Array(v) => JsonTree::Array(
                Seq::new(
                    v@.len(),
                    |i: int|
                        if 0 <= i < v@.len() {
                            v@[i].tree()
                        } else {
                            JsonTree::Null
                        },
                ),
            ),
            Json::Object(v) => JsonTree::Object(
                Seq::new(
                    v@.len(),
                    |i: int|
                        if 0 <= i < v@.len() {
                            (v@[i].0@, v@[i].1.tree())
                        } else {
                            (Seq::empty(), JsonTree::Null)
                        },
                ),
            ),
        }
    }
}

impl View for Json {
    type V = JsonTree;

    open spec fn view(&self) -> JsonTree {
        self.tree()
    }
}

/// The contents of the elements of an array.
pub open spec fn trees(v: Seq<Json>) -> Seq<JsonTree> {
    v.map_values(|j: Json| j@)
}

/// The contents of the members of an object.
pub open spec fn members(v: Seq<(String, Json)>) -> Seq<(Seq<char>, JsonTree)> {
    v.map_values(|m: (String, Json)| (m.0@, m.1@))
}

/// The content of an array or an object is that of its parts.
pub broadcast proof fn tree_parts(json: Json)
    ensures
        #![trigger json@]
        json matches Json::Array(v) ==> json@ == JsonTree::Array(trees(v@)),
        json matches Json::Object(v) ==> json@ == JsonTree::Object(members(v@)),
{
    match json {
        Json::Array(v) => assert(json.tree()->Array_0 =~= trees(v@)),
        Json::Object(v) => assert(json.tree()->Object_0 =~= members(v@)),
        _ => {},
    }
}

// ---------------------------------------------------------------------------
// Reading
// ---------------------------------------------------------------------------

/// A JSON value of `serde_json`.
#[verifier::external_type_specification]
#[verifier::external_body]
pub struct ExValue(serde_json::Value);

/// What a [`serde_json::Value`] holds: a number by its value as a `u64`, an
/// object by its members in the order of its map.
pub uninterp spec fn value_tree(value: serde_json::Value) -> JsonTree;

/// What [`serde_json::from_str`] makes of a text: the value, or the text of the
/// error.
pub uninterp spec fn parsed(text: Seq<char>) -> Result<JsonTree, Seq<char>>;

/// Calls [`serde_json::from_str`] for a [`serde_json::Value`], and takes the text
/// of its error. Both are named by [`parsed`].
#[verifier::external_body]
fn parse_value(text: &str) -> (r: Result<serde_json::Value, String>)
    ensures
        match r {
            Ok(value) => parsed(text@) == Ok::<JsonTree, Seq<char>>(value_tree(value)),
            Err(error) => parsed(text@) == Err::<JsonTree, Seq<char>>(error@),
        },
{
    serde_json::from_str(text).map_err(|error: serde_json::Error| error.to_string())
}

/// Moves the contents of a [`serde_json::Value`] into a [`Json`], variant by
/// variant; a number by [`serde_json::Number::as_u64`].
#[verifier::external_body]
fn json_of_value(value: serde_json::Value) -> (r: Json)
    ensures
        r@ == value_tree(value),
{
    match value {
        serde_json::Value::Null => Json::Null,
        serde_json::Value::Bool(b) => Json::Bool(b),
        serde_json::Value::Number(n) => Json::Number(n.as_u64()),
        serde_json::Value::String(s) => Json::Text(s),
        serde_json::Value::Array(v) => Json::Array(v.into_iter().map(json_of_value).collect()),
        serde_json::Value::Object(m) => Json::Object(
            m.into_iter().map(|(key, value)| (key, json_of_value(value))).collect(),
        ),
    }
}

/// The document that a text holds, or the parser's account of what is wrong
/// with it.
pub fn parse_json(text: &str) -> (r: Result<Json, String>)
    ensures
        match r {
            Ok(json) => parsed(text@) == Ok::<JsonTree, Seq<char>>(json@),
            Err(error) => parsed(text@) == Err::<JsonTree, Seq<char>>(error@),
        },
{
    match parse_value(text) {
        Ok(value) => Ok(json_of_value(value)),
        Err(error) => Err(error),
    }
}

/// The value of the first member named `key`.
pub open spec fn member_of(object: Seq<(Seq<char>, JsonTree)>, key: Seq<char>) -> Option<JsonTree>
    decreases object.len(),
{
    if object.len() == 0 {
        None
    } else if object[0].0 == key {
        Some(object[0].1)
    } else {
        member_of(object.drop_first(), key)
    }
}

/// A member that no earlier one hides is found.
pub proof fn member_stands_at(object: Seq<(Seq<char>, JsonTree)>, i: int, key: Seq<char>)
    requires
        0 <= i < object.len(),
        object[i].0 == key,
        forall|j: int| 0 <= j < i ==> (#[trigger] object[j]).0 != key,
    ensures
        member_of(object, key) == Some(object[i].1),
    decreases object.len(),
{
    if i > 0 {
        assert(object[0].0 != key);
        let rest = object.drop_first();
        assert forall|j: int| 0 <= j < i - 1 implies (#[trigger] rest[j]).0 != key by {
            assert(rest[j] == object[j + 1]);
        }
        member_stands_at(rest, i - 1, key);
    }
}

/// A member that is not there is not found.
pub proof fn member_is_missing(object: Seq<(Seq<char>, JsonTree)>, key: Seq<char>)
    requires
        forall|j: int| 0 <= j < object.len() ==> (#[trigger] object[j]).0 != key,
    ensures
        member_of(object, key) is None,
    decreases object.len(),
{
    if object.len() > 0 {
        assert(object[0].0 != key);
        let rest = object.drop_first();
        assert forall|j: int| 0 <= j < rest.len() implies (#[trigger] rest[j]).0 != key by {
            assert(rest[j] == object[j + 1]);
        }
        member_is_missing(rest, key);
    }
}

impl JsonTree {
    /// The value of a member, when this is an object that has it.
    pub open spec fn get(self, key: Seq<char>) -> Option<JsonTree> {
        match self {
            JsonTree::Object(object) => member_of(object, key),
            _ => None,
        }
    }

    /// The text of a member, when it is there and is a text.
    pub open spec fn get_text(self, key: Seq<char>) -> Option<Seq<char>> {
        match self.get(key) {
            Some(JsonTree::Text(s)) => Some(s),
            _ => None,
        }
    }

    /// The truth value of a member, when it is there and is one.
    pub open spec fn get_bool(self, key: Seq<char>) -> Option<bool> {
        match self.get(key) {
            Some(JsonTree::Bool(b)) => Some(b),
            _ => None,
        }
    }

    /// The number of a member, when it is there and is a `u64`.
    pub open spec fn get_number(self, key: Seq<char>) -> Option<u64> {
        match self.get(key) {
            Some(JsonTree::Number(n)) => n,
            _ => None,
        }
    }
}

impl Json {
    /// The value of a member, when this is an object that has it.
    pub fn get(&self, key: &str) -> (r: Option<&Json>)
        ensures
            match r {
                Some(json) => self@.get(key@) == Some(json@),
                None => self@.get(key@) is None,
            },
    {
        broadcast use tree_parts;

        match self {
            Json::Object(v) => {
                let mut i: usize = 0;
                assert(members(v@).skip(0) =~= members(v@));
                while i < v.len()
                    invariant
                        self@ == JsonTree::Object(members(v@)),
                        i <= v@.len(),
                        member_of(members(v@).skip(i as int), key@) == member_of(
                            members(v@),
                            key@,
                        ),
                    decreases v@.len() - i,
                {
                    let ghost rest = members(v@).skip(i as int);
                    assert(rest[0] == (v@[i as int].0@, v@[i as int].1@));
                    assert(rest.drop_first() =~= members(v@).skip(i + 1));
                    if same_text(v[i].0.as_str(), key) {
                        return Some(&v[i].1);
                    }
                    i = i + 1;
                }
                None
            },
            _ => None,
        }
    }

    /// The text of a member, when it is there and is a text.
    pub fn get_text(&self, key: &str) -> (r: Option<&str>)
        ensures
            match r {
                Some(s) => self@.get_text(key@) == Some(s@),
                None => self@.get_text(key@) is None,
            },
    {
        match self.get(key) {
            Some(Json::Text(s)) => Some(s.as_str()),
            _ => None,
        }
    }

    /// The truth value of a member, when it is there and is one.
    pub fn get_bool(&self, key: &str) -> (r: Option<bool>)
        ensures
            r == self@.get_bool(key@),
    {
        match self.get(key) {
            Some(Json::Bool(b)) => Some(*b),
            _ => None,
        }
    }

    /// The number of a member, when it is there and is a `u64`.
    pub fn get_number(&self, key: &str) -> (r: Option<u64>)
        ensures
            r == self@.get_number(key@),
    {
        match self.get(key) {
            Some(Json::Number(n)) => *n,
            _ => None,
        }
    }
}

// ---------------------------------------------------------------------------
// Writing
// ---------------------------------------------------------------------------

/// A hexadecimal digit in lower case.
pub open spec fn hex_digit(d: int) -> char {
    if d < 10 {
        ('0' as int + d) as char
    } else {
        ('a' as int + d - 10) as char
    }
}

/// How a character stands inside a JSON text.
pub open spec fn escaped_char(c: char) -> Seq<char> {
    if c == '"' {
        seq!['\\', '"']
    } else if c == '\\' {
        seq!['\\', '\\']
    } else if c == '\u{8}' {
        seq!['\\', 'b']
    } else if c == '\t' {
        seq!['\\', 't']
    } else if c == '\n' {
        seq!['\\', 'n']
    } else if c == '\u{c}' {
        seq!['\\', 'f']
    } else if c == '\r' {
        seq!['\\', 'r']
    } else if c <= '\u{1f}' {
        seq!['\\', 'u', '0', '0', hex_digit(c as int / 16), hex_digit(c as int % 16)]
    } else {
        seq![c]
    }
}

/// How a run of characters stands inside a JSON text.
pub open spec fn escaped(s: Seq<char>) -> Seq<char>
    decreases s.len(),
{
    if s.len() == 0 {
        Seq::empty()
    } else {
        escaped(s.drop_last()) + escaped_char(s.last())
    }
}

/// A JSON text: the escaped characters in double quotes.
pub open spec fn quoted(s: Seq<char>) -> Seq<char> {
    seq!['"'] + escaped(s) + seq!['"']
}

/// Calls [`serde_json::to_string`] on a text: double quotes around the text, with
/// `"`, `\` and the ASCII control characters escaped and everything else kept.
#[verifier::external_body]
fn quote(s: &str) -> (r: String)
    ensures
        r@ == quoted(s@),
{
    serde_json::to_string(s).unwrap_or_default()
}

/// A document on one line, without spaces. A number that is no `u64` is written
/// as `null`.
pub open spec fn compact(t: JsonTree) -> Seq<char>
    decreases t,
{
    match t {
        JsonTree::Null => "null"@,
        JsonTree::Bool(b) => if b {
            "true"@
        } else {
            "false"@
        },
        JsonTree::Number(Some(n)) => text::decimal(n as nat),
        JsonTree::Number(None) => "null"@,
        JsonTree::Text(s) => quoted(s),
        JsonTree::Array(items) => "["@ + text::joined(written_items(items), ","@) + "]"@,
        JsonTree::Object(object) => "{"@ + text::joined(written_members(object), ","@) + "}"@,
    }
}

/// The elements of an array, written.
pub open spec fn written_items(items: Seq<JsonTree>) -> Seq<Seq<char>>
    decreases items,
{
    if items.len() == 0 {
        Seq::empty()
    } else {
        let n = items.len() as int;
        written_items(items.subrange(0, n - 1)).push(compact(items[n - 1]))
    }
}

/// The members of an object, written.
pub open spec fn written_members(object: Seq<(Seq<char>, JsonTree)>) -> Seq<Seq<char>>
    decreases object,
{
    if object.len() == 0 {
        Seq::empty()
    } else {
        let n = object.len() as int;
        written_members(object.subrange(0, n - 1)).push(
            quoted(object[n - 1].0) + ":"@ + compact(object[n - 1].1),
        )
    }
}

impl Json {
    /// The document on one line, without spaces.
    pub fn to_text(&self) -> (r: String)
        ensures
            r@ == compact(self@),
        decreases self,
    {
        broadcast use tree_parts;

        match self {
            Json::Null => "null".to_owned(),
            Json::Bool(b) => if *b {
                "true".to_owned()
            } else {
                "false".to_owned()
            },
            Json::Number(n) => match n {
                Some(n) => decimal_text(*n),
                None => "null".to_owned(),
            },
            Json::Text(s) => quote(s.as_str()),
            Json::Array(v) => {
                let mut parts: Vec<String> = Vec::new();
                let mut i: usize = 0;
                while i < v.len()
                    invariant
                        *self == Json::Array(*v),
                        i <= v@.len(),
                        text::texts(parts@) == written_items(trees(v@).take(i as int)),
                    decreases v@.len() - i,
                {
                    assert(decreases_to!(*self => self->Array_0));
                    assert(decreases_to!(*v => v@));
                    assert(decreases_to!(v@ => v@[i as int]));
                    let part = v[i].to_text();
                    let ghost before = parts@;
                    parts.push(part);
                    assert(text::texts(parts@) =~= text::texts(before).push(part@));
                    assert(trees(v@).take(i + 1).subrange(0, i as int) =~= trees(v@).take(i as int));
                    i = i + 1;
                }
                assert(trees(v@).take(i as int) =~= trees(v@));
                let body = text::join(&parts, ",");
                text::cat3("[", body.as_str(), "]")
            },
            Json::Object(v) => {
                let mut parts: Vec<String> = Vec::new();
                let mut i: usize = 0;
                while i < v.len()
                    invariant
                        *self == Json::Object(*v),
                        i <= v@.len(),
                        text::texts(parts@) == written_members(members(v@).take(i as int)),
                    decreases v@.len() - i,
                {
                    assert(decreases_to!(*self => self->Object_0));
                    assert(decreases_to!(*v => v@));
                    assert(decreases_to!(v@ => v@[i as int]));
                    assert(decreases_to!(v@[i as int] => v@[i as int].1));
                    let key = quote(v[i].0.as_str());
                    let value = v[i].1.to_text();
                    let part = text::cat3(key.as_str(), ":", value.as_str());
                    let ghost before = parts@;
                    parts.push(part);
                    assert(text::texts(parts@) =~= text::texts(before).push(part@));
                    assert(members(v@).take(i + 1).subrange(0, i as int) =~= members(v@).take(
                        i as int,
                    ));
                    i = i + 1;
                }
                assert(members(v@).take(i as int) =~= members(v@));
                let body = text::join(&parts, ",");
                text::cat3("{", body.as_str(), "}")
            },
        }
    }
}

// ---------------------------------------------------------------------------
// Writing on indented lines
// ---------------------------------------------------------------------------

/// A document on lines for people to read. Each element and each member has lines
/// of its own, two spaces further in than what it stands in; `indent` is how far in
/// the document stands itself.
pub open spec fn pretty(t: JsonTree, indent: Seq<char>) -> Seq<char>
    decreases t,
{
    let inner = indent + "  "@;
    match t {
        JsonTree::Array(items) => if items.len() == 0 {
            "[]"@
        } else {
            "[\n"@ + text::joined(pretty_items(items, inner), ",\n"@) + "\n"@ + indent + "]"@
        },
        JsonTree::Object(object) => if object.len() == 0 {
            "{}"@
        } else {
            "{\n"@ + text::joined(pretty_members(object, inner), ",\n"@) + "\n"@ + indent + "}"@
        },
        _ => compact(t),
    }
}

/// The elements of an array, on indented lines.
pub open spec fn pretty_items(items: Seq<JsonTree>, indent: Seq<char>) -> Seq<Seq<char>>
    decreases items,
{
    if items.len() == 0 {
        Seq::empty()
    } else {
        let n = items.len() as int;
        pretty_items(items.subrange(0, n - 1), indent).push(
            indent + pretty(items[n - 1], indent),
        )
    }
}

/// The members of an object, on indented lines.
pub open spec fn pretty_members(
    object: Seq<(Seq<char>, JsonTree)>,
    indent: Seq<char>,
) -> Seq<Seq<char>>
    decreases object,
{
    if object.len() == 0 {
        Seq::empty()
    } else {
        let n = object.len() as int;
        pretty_members(object.subrange(0, n - 1), indent).push(
            indent + quoted(object[n - 1].0) + ": "@ + pretty(object[n - 1].1, indent),
        )
    }
}

impl Json {
    /// The document on indented lines.
    pub fn to_pretty_text(&self) -> (r: String)
        ensures
            r@ == pretty(self@, ""@),
    {
        self.indented("")
    }

    fn indented(&self, indent: &str) -> (r: String)
        ensures
            r@ == pretty(self@, indent@),
        decreases self,
    {
        broadcast use tree_parts;

        let inner = text::cat2(indent, "  ");
        match self {
            Json::Array(v) => {
                if v.len() == 0 {
                    return "[]".to_owned();
                }
                let mut parts: Vec<String> = Vec::new();
                let mut i: usize = 0;
                while i < v.len()
                    invariant
                        *self == Json::Array(*v),
                        i <= v@.len(),
                        text::texts(parts@) == pretty_items(trees(v@).take(i as int), inner@),
                    decreases v@.len() - i,
                {
                    assert(decreases_to!(*self => self->Array_0));
                    assert(decreases_to!(*v => v@));
                    assert(decreases_to!(v@ => v@[i as int]));
                    let value = v[i].indented(inner.as_str());
                    let part = text::cat2(inner.as_str(), value.as_str());
                    let ghost before = parts@;
                    parts.push(part);
                    assert(text::texts(parts@) =~= text::texts(before).push(part@));
                    assert(trees(v@).take(i + 1).subrange(0, i as int) =~= trees(v@).take(i as int));
                    i = i + 1;
                }
                assert(trees(v@).take(i as int) =~= trees(v@));
                let body = text::join(&parts, ",\n");
                text::cat5("[\n", body.as_str(), "\n", indent, "]")
            },
            Json::Object(v) => {
                if v.len() == 0 {
                    return "{}".to_owned();
                }
                let mut parts: Vec<String> = Vec::new();
                let mut i: usize = 0;
                while i < v.len()
                    invariant
                        *self == Json::Object(*v),
                        i <= v@.len(),
                        text::texts(parts@) == pretty_members(members(v@).take(i as int), inner@),
                    decreases v@.len() - i,
                {
                    assert(decreases_to!(*self => self->Object_0));
                    assert(decreases_to!(*v => v@));
                    assert(decreases_to!(v@ => v@[i as int]));
                    assert(decreases_to!(v@[i as int] => v@[i as int].1));
                    let key = quote(v[i].0.as_str());
                    let value = v[i].1.indented(inner.as_str());
                    let part = text::cat4(inner.as_str(), key.as_str(), ": ", value.as_str());
                    let ghost before = parts@;
                    parts.push(part);
                    assert(text::texts(parts@) =~= text::texts(before).push(part@));
                    assert(members(v@).take(i + 1).subrange(0, i as int) =~= members(v@).take(
                        i as int,
                    ));
                    i = i + 1;
                }
                assert(members(v@).take(i as int) =~= members(v@));
                let body = text::join(&parts, ",\n");
                text::cat5("{\n", body.as_str(), "\n", indent, "}")
            },
            _ => self.to_text(),
        }
    }
}

// ---------------------------------------------------------------------------
// Laws
// ---------------------------------------------------------------------------

/// Whether a text holds no line break.
pub open spec fn single_line(s: Seq<char>) -> bool {
    forall|i: int| 0 <= i < s.len() ==> s[i] != '\n' && s[i] != '\r'
}

proof fn single_line_concat(a: Seq<char>, b: Seq<char>)
    requires
        single_line(a),
        single_line(b),
    ensures
        single_line(a + b),
{
}

proof fn escaped_char_is_single_line(c: char)
    ensures
        single_line(escaped_char(c)),
{
    assert forall|d: int| 0 <= d < 16 implies hex_digit(d) != '\n' && hex_digit(d) != '\r' by {}
    if c <= '\u{1f}' {
        assert(0 <= c as int / 16 < 16 && 0 <= c as int % 16 < 16);
    }
}

proof fn quoted_is_single_line(s: Seq<char>)
    ensures
        single_line(escaped(s)),
        single_line(quoted(s)),
    decreases s.len(),
{
    if s.len() > 0 {
        quoted_is_single_line(s.drop_last());
        escaped_char_is_single_line(s.last());
        single_line_concat(escaped(s.drop_last()), escaped_char(s.last()));
    }
    single_line_concat(seq!['"'], escaped(s));
    single_line_concat(seq!['"'] + escaped(s), seq!['"']);
}

proof fn joined_is_single_line(parts: Seq<Seq<char>>, sep: Seq<char>)
    requires
        single_line(sep),
        forall|i: int| 0 <= i < parts.len() ==> single_line(#[trigger] parts[i]),
    ensures
        single_line(text::joined(parts, sep)),
    decreases parts.len(),
{
    if parts.len() > 1 {
        assert forall|i: int| 0 <= i < parts.drop_last().len() implies single_line(
            #[trigger] parts.drop_last()[i],
        ) by {
            assert(parts.drop_last()[i] == parts[i]);
        }
        joined_is_single_line(parts.drop_last(), sep);
        single_line_concat(text::joined(parts.drop_last(), sep), sep);
        single_line_concat(text::joined(parts.drop_last(), sep) + sep, parts.last());
    }
}

proof fn decimal_is_single_line(n: nat)
    ensures
        single_line(text::decimal(n)),
    decreases n,
{
    if n >= 10 {
        decimal_is_single_line(n / 10);
    }
}

/// Every document is written on a single line.
pub proof fn documents_are_written_on_one_line(t: JsonTree)
    ensures
        single_line(compact(t)),
    decreases t,
{
    reveal_strlit("null");
    reveal_strlit("true");
    reveal_strlit("false");
    reveal_strlit("[");
    reveal_strlit("]");
    reveal_strlit("{");
    reveal_strlit("}");
    reveal_strlit(",");
    match t {
        JsonTree::Number(Some(n)) => decimal_is_single_line(n as nat),
        JsonTree::Text(s) => quoted_is_single_line(s),
        JsonTree::Array(items) => {
            items_are_written_on_one_line(items);
            let parts = written_items(items);
            joined_is_single_line(parts, ","@);
            single_line_concat("["@, text::joined(parts, ","@));
            single_line_concat("["@ + text::joined(parts, ","@), "]"@);
        },
        JsonTree::Object(object) => {
            members_are_written_on_one_line(object);
            let parts = written_members(object);
            joined_is_single_line(parts, ","@);
            single_line_concat("{"@, text::joined(parts, ","@));
            single_line_concat("{"@ + text::joined(parts, ","@), "}"@);
        },
        _ => {},
    }
}

proof fn items_are_written_on_one_line(items: Seq<JsonTree>)
    ensures
        forall|i: int|
            0 <= i < written_items(items).len() ==> single_line(#[trigger] written_items(items)[i]),
    decreases items,
{
    if items.len() > 0 {
        let n = items.len() as int;
        items_are_written_on_one_line(items.subrange(0, n - 1));
        documents_are_written_on_one_line(items[n - 1]);
        let before = written_items(items.subrange(0, n - 1));
        assert forall|i: int| 0 <= i < written_items(items).len() implies single_line(
            #[trigger] written_items(items)[i],
        ) by {
            if i < before.len() {
                assert(written_items(items)[i] == before[i]);
            }
        }
    }
}

proof fn members_are_written_on_one_line(object: Seq<(Seq<char>, JsonTree)>)
    ensures
        forall|i: int|
            0 <= i < written_members(object).len() ==> single_line(
                #[trigger] written_members(object)[i],
            ),
    decreases object,
{
    if object.len() > 0 {
        reveal_strlit(":");
        let n = object.len() as int;
        members_are_written_on_one_line(object.subrange(0, n - 1));
        assert(decreases_to!(object => object[n - 1]));
        assert(decreases_to!(object[n - 1] => object[n - 1].1));
        documents_are_written_on_one_line(object[n - 1].1);
        quoted_is_single_line(object[n - 1].0);
        single_line_concat(quoted(object[n - 1].0), ":"@);
        single_line_concat(quoted(object[n - 1].0) + ":"@, compact(object[n - 1].1));
        let before = written_members(object.subrange(0, n - 1));
        assert forall|i: int| 0 <= i < written_members(object).len() implies single_line(
            #[trigger] written_members(object)[i],
        ) by {
            if i < before.len() {
                assert(written_members(object)[i] == before[i]);
            }
        }
    }
}

} // verus!
