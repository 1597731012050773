//! JSON values: reading them from text, taking them apart, and writing them.

use serde_json::Value;
use vstd::prelude::*;

use crate::text::{is_space, same, text_le};

verus! {

/// A JSON value, as plain data. A number that is no integer is carried as it
/// is written.
#[derive(Debug, PartialEq, Eq)]
pub enum Json {
    Null,
    Bool(bool),
    Unsigned(u64),
    Negative(i64),
    Fraction(String),
    Text(String),
    List(Vec<Json>),
    Table(Vec<(String, Json)>),
}

/// What a JSON value holds. The entries of a table stand in the order of their
/// keys.
#[verifier::ext_equal]
pub ghost enum JsonView {
    Null,
    Bool(bool),
    Unsigned(u64),
    Negative(i64),
    Fraction(Seq<char>),
    Text(Seq<char>),
    List(Seq<JsonView>),
    Table(Seq<(Seq<char>, JsonView)>),
}

impl View for Json {
    type V = JsonView;

    open spec fn view(&self) -> JsonView
        decreases self,
    {
        match self {
            Json::Null => JsonView::Null,
            Json::Bool(b) => JsonView::Bool(*b),
            Json::Unsigned(n) => JsonView::Unsigned(*n),
            Json::Negative(n) => JsonView::Negative(*n),
            Json::Fraction(t) => JsonView::Fraction(t@),
            Json::Text(t) => JsonView::Text(t@),
            Json::List(items) => JsonView::List(
                Seq::new(
                    items@.len(),
                    |i: int|
                        if 0 <= i < items@.len() {
                            items@[i].view()
                        } else {
                            JsonView::Null
                        },
                ),
            ),
            Json::Table(entries) => JsonView::Table(
                Seq::new(
                    entries@.len(),
                    |i: int|
                        if 0 <= i < entries@.len() {
                            (entries@[i].0@, entries@[i].1.view())
                        } else {
                            (Seq::empty(), JsonView::Null)
                        },
                ),
            ),
        }
    }
}

/// A JSON value of `serde_json`.
#[verifier::external_type_specification]
#[verifier::external_body]
pub struct ExValue(Value);

/// What a `serde_json::Value` holds.
pub uninterp spec fn value_view(value: Value) -> JsonView;

/// How deeply a `serde_json::Value` is nested.
pub uninterp spec fn value_depth(value: Value) -> nat;

/// What `serde_json::from_str` reads from a text: a value, or the words for
/// why there is none.
pub uninterp spec fn parsed_json(text: Seq<char>) -> Result<JsonView, Seq<char>>;

/// Whether `text` reads as the value.
pub open spec fn reads_as(text: Seq<char>, value: JsonView) -> bool {
    parsed_json(text) == Ok::<JsonView, Seq<char>>(value)
}

/// Whether `text` reads as no value, for the reason given.
pub open spec fn refused_as(text: Seq<char>, reason: Seq<char>) -> bool {
    parsed_json(text) == Err::<JsonView, Seq<char>>(reason)
}

/// What `Value::to_string` writes for a value.
pub uninterp spec fn written_json(value: JsonView) -> Seq<char>;

/// What `serde_json::to_string_pretty` writes for a value.
pub uninterp spec fn pretty_json(value: JsonView) -> Option<Seq<char>>;

/// One level of a JSON value.
pub enum Node {
    Null,
    Bool(bool),
    Unsigned(u64),
    Negative(i64),
    Fraction(String),
    Text(String),
    List(Vec<Value>),
    Table(Vec<(String, Value)>),
}

/// What one level of a JSON value holds.
pub open spec fn node_view(node: Node) -> JsonView {
    match node {
        Node::Null => JsonView::Null,
        Node::Bool(b) => JsonView::Bool(b),
        Node::Unsigned(n) => JsonView::Unsigned(n),
        Node::Negative(n) => JsonView::Negative(n),
        Node::Fraction(t) => JsonView::Fraction(t@),
        Node::Text(t) => JsonView::Text(t@),
        Node::List(items) => JsonView::List(items@.map_values(|v: Value| value_view(v))),
        Node::Table(entries) => JsonView::Table(
            entries@.map_values(|e: (String, Value)| (e.0@, value_view(e.1))),
        ),
    }
}

/// `serde_json::from_str`: reads one JSON value from the whole text, and gives
/// the error's own words where there is none.
#[verifier::external_body]
pub(crate) fn read_value(text: &str) -> (r: Result<Value, String>)
    ensures
        match r {
            Ok(value) => parsed_json(text@) is Ok && parsed_json(text@)->Ok_0 == value_view(value),
            Err(error) => parsed_json(text@) is Err && parsed_json(text@)->Err_0 == error@,
        },
{
    serde_json::from_str(text).map_err(|error| error.to_string())
}

/// The variants of `serde_json::Value`: which one a value is, and what that
/// variant holds. What a value holds is nested less deeply than the value.
#[verifier::external_body]
pub(crate) fn open_value(value: Value) -> (node: Node)
    ensures
        node_view(node) == value_view(value),
        node matches Node::List(items) ==> forall|i: int|
            0 <= i < items@.len() ==> value_depth(#[trigger] items@[i]) < value_depth(value),
        node matches Node::Table(entries) ==> forall|i: int|
            0 <= i < entries@.len() ==> value_depth((#[trigger] entries@[i]).1) < value_depth(
                value,
            ),
{
    match value {
        Value::Null => Node::Null,
        Value::Bool(b) => Node::Bool(b),
        Value::Number(n) => match (n.as_u64(), n.as_i64()) {
            (Some(u), _) => Node::Unsigned(u),
            (None, Some(i)) => Node::Negative(i),
            (None, None) => Node::Fraction(n.to_string()),
        },
        Value::String(s) => Node::Text(s),
        Value::Array(items) => Node::List(items),
        Value::Object(map) => Node::Table(map.into_iter().collect()),
    }
}

/// Whether the keys stand in dictionary order with none twice.
pub open spec fn keys_ordered(entries: Seq<(String, Value)>) -> bool {
    forall|i: int, j: int|
        0 <= i < j < entries.len() ==> text_le(
            (#[trigger] entries[i]).0@,
            (#[trigger] entries[j]).0@,
        ) && entries[i].0@ != entries[j].0@
}

/// `serde_json::Value` built from one level: the value of that variant,
/// holding what it was given.
#[verifier::external_body]
pub(crate) fn close_node(node: Node) -> (value: Value)
    requires
        node !is Fraction,
        node matches Node::Negative(n) ==> n < 0,
        node matches Node::Table(entries) ==> keys_ordered(entries@),
    ensures
        value_view(value) == node_view(node),
{
    match node {
        Node::Null | Node::Fraction(_) => Value::Null,
        Node::Bool(b) => Value::Bool(b),
        Node::Unsigned(n) => Value::from(n),
        Node::Negative(n) => Value::from(n),
        Node::Text(s) => Value::String(s),
        Node::List(items) => Value::Array(items),
        Node::Table(entries) => Value::Object(entries.into_iter().collect()),
    }
}

/// Whether a value holds no number but integers and is nested at most `depth`
/// levels deep.
pub open spec fn plain(value: JsonView, depth: nat) -> bool
    decreases depth,
{
    match value {
        JsonView::Fraction(_) => false,
        JsonView::List(items) => depth > 0 && forall|i: int|
            0 <= i < items.len() ==> plain(#[trigger] items[i], (depth - 1) as nat),
        JsonView::Table(entries) => depth > 0 && forall|i: int|
            0 <= i < entries.len() ==> plain((#[trigger] entries[i]).1, (depth - 1) as nat),
        _ => true,
    }
}

/// `Value::to_string`: the value on one line, since every control character
/// in a text is written escaped, and with no white space before it. Reading it
/// gives the value back; that is claimed only where all numbers are integers
/// and the nesting is well within what the reader accepts.
#[verifier::external_body]
pub(crate) fn write_value(value: &Value) -> (text: String)
    ensures
        text@ == written_json(value_view(*value)),
        !text@.contains('\n'),
        text@.len() > 0,
        !is_space(text@[0]),
        plain(value_view(*value), 100) ==> reads_as(text@, value_view(*value)),
{
    value.to_string()
}

/// What the serializer of `serde_json` writes for a map with these entries.
pub uninterp spec fn written_entries(entries: Seq<(Seq<char>, JsonView)>) -> Seq<char>;

/// What entries of a table hold.
pub open spec fn entry_views(entries: Seq<(String, Value)>) -> Seq<(Seq<char>, JsonView)> {
    entries.map_values(|e: (String, Value)| (e.0@, value_view(e.1)))
}

/// Whether no key stands in the entries twice.
pub open spec fn keys_differ(entries: Seq<(Seq<char>, JsonView)>) -> bool {
    forall|i: int, j: int|
        0 <= i < j < entries.len() ==> (#[trigger] entries[i]).0 != (#[trigger] entries[j]).0
}

/// Whether `text` reads as a table that holds the same under every key as the
/// entries do.
pub open spec fn reads_as_entries(
    text: Seq<char>,
    entries: Seq<(Seq<char>, JsonView)>,
) -> bool {
    &&& parsed_json(text) matches Ok(JsonView::Table(_))
    &&& forall|key: Seq<char>| #[trigger]
        field(parsed_json(text)->Ok_0, key) == field(JsonView::Table(entries), key)
}

/// `serde::Serializer::collect_map` with the compact serializer of `serde_json`:
/// a table with the entries in the order given, on one line, since every control
/// character in a text is written escaped, and with no white space before it.
/// Reading it gives a table with the same entries; that is claimed only where no
/// key stands twice, all numbers are integers and the nesting is well within what
/// the reader accepts.
#[verifier::external_body]
pub(crate) fn write_entries(entries: Vec<(String, Value)>) -> (text: String)
    ensures
        text@ == written_entries(entry_views(entries@)),
        !text@.contains('\n'),
        text@.len() > 0,
        !is_space(text@[0]),
        keys_differ(entry_views(entries@)) && plain(JsonView::Table(entry_views(entries@)), 100)
            ==> reads_as_entries(text@, entry_views(entries@)),
{
    let mut out: Vec<u8> = Vec::new();
    let written = serde::Serializer::collect_map(&mut serde_json::Serializer::new(&mut out), entries);
    written.ok().and_then(|()| String::from_utf8(out).ok()).unwrap_or_default()
}

/// `serde_json::to_string_pretty`, on several lines.
#[verifier::external_body]
pub(crate) fn write_pretty(value: &Value) -> (text: Option<String>)
    ensures
        crate::text::view_of(text) == pretty_json(value_view(*value)),
{
    serde_json::to_string_pretty(value).ok()
}

/// The value as plain data.
pub fn import(value: Value) -> (json: Json)
    ensures
        json@ == value_view(value),
    decreases value_depth(value),
{
    match open_value(value) {
        Node::Null => Json::Null,
        Node::Bool(b) => Json::Bool(b),
        Node::Unsigned(n) => Json::Unsigned(n),
        Node::Negative(n) => Json::Negative(n),
        Node::Fraction(t) => Json::Fraction(t),
        Node::Text(t) => Json::Text(t),
        Node::List(items) => {
            let ghost all = items@;
            let mut rest = items;
            let mut r: Vec<Json> = Vec::new();
            while rest.len() > 0
                invariant
                    all.len() == r@.len() + rest@.len(),
                    rest@ == all.skip(r@.len() as int),
                    forall|i: int|
                        0 <= i < all.len() ==> value_depth(#[trigger] all[i]) < value_depth(value),
                    forall|i: int|
                        0 <= i < r@.len() ==> (#[trigger] r@[i])@ == value_view(all[i]),
                decreases rest@.len(),
            {
                let item = rest.remove(0);
                assert(item == all[r@.len() as int]);
                assert(all.skip(r@.len() as int).remove(0) =~= all.skip(r@.len() as int + 1));
                r.push(import(item));
            }
            let json = Json::List(r);
            assert(json@ =~= JsonView::List(all.map_values(|v: Value| value_view(v)))) by {
                assert(json@->List_0 =~= all.map_values(|v: Value| value_view(v)));
            }
            json
        },
        Node::Table(entries) => {
            let ghost all = entries@;
            let mut rest = entries;
            let mut r: Vec<(String, Json)> = Vec::new();
            while rest.len() > 0
                invariant
                    all.len() == r@.len() + rest@.len(),
                    rest@ == all.skip(r@.len() as int),
                    forall|i: int|
                        0 <= i < all.len() ==> value_depth((#[trigger] all[i]).1) < value_depth(
                            value,
                        ),
                    forall|i: int|
                        0 <= i < r@.len() ==> (#[trigger] r@[i]).0@ == all[i].0@ && r@[i].1@
                            == value_view(all[i].1),
                decreases rest@.len(),
            {
                let (key, item) = rest.remove(0);
                assert((key, item) == all[r@.len() as int]);
                assert(all.skip(r@.len() as int).remove(0) =~= all.skip(r@.len() as int + 1));
                r.push((key, import(item)));
            }
            let json = Json::Table(r);
            assert(json@ =~= JsonView::Table(
                all.map_values(|e: (String, Value)| (e.0@, value_view(e.1))),
            )) by {
                assert(json@->Table_0 =~= all.map_values(
                    |e: (String, Value)| (e.0@, value_view(e.1)),
                ));
            }
            json
        },
    }
}

/// Read one JSON value from the whole text, or say why there is none.
pub fn parse_json(text: &str) -> (r: Result<Json, String>)
    ensures
        match r {
            Ok(json) => reads_as(text@, json@),
            Err(error) => refused_as(text@, error@),
        },
{
    match read_value(text) {
        Ok(value) => Ok(import(value)),
        Err(error) => Err(error),
    }
}

// --- Building ----------------------------------------------------------------

/// A text as a JSON value.
pub(crate) fn text_value(text: &str) -> (r: Value)
    ensures
        value_view(r) == JsonView::Text(text@),
{
    close_node(Node::Text(text.to_owned()))
}

/// A natural number as a JSON value.
pub(crate) fn number_value(n: u64) -> (r: Value)
    ensures
        value_view(r) == JsonView::Unsigned(n),
{
    close_node(Node::Unsigned(n))
}

/// A list of one value.
pub(crate) fn list_of_one(item: Value) -> (r: Value)
    ensures
        value_view(r) == JsonView::List(seq![value_view(item)]),
{
    let mut items: Vec<Value> = Vec::new();
    items.push(item);
    assert(items@.map_values(|v: Value| value_view(v)) =~= seq![value_view(item)]);
    close_node(Node::List(items))
}

/// A table with one entry.
pub(crate) fn table_of_one(key: &str, value: Value) -> (r: Value)
    ensures
        value_view(r) == JsonView::Table(seq![(key@, value_view(value))]),
{
    let mut entries: Vec<(String, Value)> = Vec::new();
    entries.push((key.to_owned(), value));
    assert(entries@.map_values(|e: (String, Value)| (e.0@, value_view(e.1))) =~= seq![
        (key@, value_view(value)),
    ]);
    close_node(Node::Table(entries))
}

/// Whether `a` comes before `b` in dictionary order.
pub open spec fn key_before(a: Seq<char>, b: Seq<char>) -> bool {
    text_le(a, b) && a != b
}

/// A table with two entries, given in the order of their keys.
pub(crate) fn table_of_two(k1: &str, v1: Value, k2: &str, v2: Value) -> (r: Value)
    requires
        key_before(k1@, k2@),
    ensures
        value_view(r) == JsonView::Table(seq![(k1@, value_view(v1)), (k2@, value_view(v2))]),
{
    let mut entries: Vec<(String, Value)> = Vec::new();
    entries.push((k1.to_owned(), v1));
    entries.push((k2.to_owned(), v2));
    assert(entries@.map_values(|e: (String, Value)| (e.0@, value_view(e.1))) =~= seq![
        (k1@, value_view(v1)),
        (k2@, value_view(v2)),
    ]);
    close_node(Node::Table(entries))
}

/// A table with three entries, given in the order of their keys.
pub(crate) fn table_of_three(k1: &str, v1: Value, k2: &str, v2: Value, k3: &str, v3: Value) -> (r:
    Value)
    requires
        key_before(k1@, k2@),
        key_before(k2@, k3@),
    ensures
        value_view(r) == JsonView::Table(
            seq![(k1@, value_view(v1)), (k2@, value_view(v2)), (k3@, value_view(v3))],
        ),
{
    let mut entries: Vec<(String, Value)> = Vec::new();
    entries.push((k1.to_owned(), v1));
    entries.push((k2.to_owned(), v2));
    entries.push((k3.to_owned(), v3));
    proof {
        crate::text::lemma_text_le_chain(k1@, k2@, k3@);
        if k1@ == k3@ {
            crate::text::lemma_text_le_same(k1@, k2@);
        }
    }
    assert(entries@.map_values(|e: (String, Value)| (e.0@, value_view(e.1))) =~= seq![
        (k1@, value_view(v1)),
        (k2@, value_view(v2)),
        (k3@, value_view(v3)),
    ]);
    close_node(Node::Table(entries))
}

// --- Looking inside ----------------------------------------------------------

/// The position of the first entry under `key`, or the number of entries.
pub open spec fn entry_at(entries: Seq<(Seq<char>, JsonView)>, key: Seq<char>) -> int
    decreases entries.len(),
{
    if entries.len() == 0 || entries[0].0 == key {
        0
    } else {
        1 + entry_at(entries.skip(1), key)
    }
}

/// What a table holds under `key`; nothing for any other value.
pub open spec fn field(value: JsonView, key: Seq<char>) -> Option<JsonView> {
    match value {
        JsonView::Table(entries) => {
            let i = entry_at(entries, key);
            if i < entries.len() {
                Some(entries[i].1)
            } else {
                None
            }
        },
        _ => None,
    }
}

/// The text a value is; nothing for any other value.
pub open spec fn text_in(value: JsonView) -> Option<Seq<char>> {
    match value {
        JsonView::Text(t) => Some(t),
        _ => None,
    }
}

/// The text a table holds under `key`.
pub open spec fn text_field(value: JsonView, key: Seq<char>) -> Option<Seq<char>> {
    match field(value, key) {
        Some(inner) => text_in(inner),
        None => None,
    }
}

proof fn lemma_entry_at(entries: Seq<(Seq<char>, JsonView)>, key: Seq<char>, i: int)
    requires
        0 <= i <= entries.len(),
        forall|j: int| 0 <= j < i ==> (#[trigger] entries[j]).0 != key,
        i < entries.len() ==> entries[i].0 == key,
    ensures
        entry_at(entries, key) == i,
    decreases entries.len(),
{
    if i > 0 {
        assert(entries[0].0 != key);
        let rest = entries.skip(1);
        assert forall|j: int| 0 <= j < i - 1 implies (#[trigger] rest[j]).0 != key by {
            assert(entries[j + 1].0 != key);
        }
        lemma_entry_at(rest, key, i - 1);
    }
}

/// The view of a list holds the views of its items.
pub proof fn lemma_list_view(json: Json)
    requires
        json is List,
    ensures
        json@ is List,
        json@->List_0.len() == json->List_0@.len(),
        forall|i: int|
            0 <= i < json->List_0@.len() ==> #[trigger] json@->List_0[i] == json->List_0@[i]@,
{
    reveal_with_fuel(<Json as View>::view, 2);
}

/// The view of a table holds the views of its entries.
proof fn lemma_table_view(json: Json)
    requires
        json is Table,
    ensures
        json@ is Table,
        json@->Table_0.len() == json->Table_0@.len(),
        forall|i: int|
            0 <= i < json->Table_0@.len() ==> #[trigger] json@->Table_0[i] == (
                json->Table_0@[i].0@,
                json->Table_0@[i].1@,
            ),
{
    reveal_with_fuel(<Json as View>::view, 2);
}

impl Json {
    /// What a table holds under `key`.
    pub fn get(&self, key: &str) -> (r: Option<&Json>)
        ensures
            match r {
                Some(inner) => field(self@, key@) == Some(inner@),
                None => field(self@, key@) is None,
            },
    {
        match self {
            Json::Table(entries) => {
                let ghost listed = self@->Table_0;
                proof {
                    lemma_table_view(*self);
                }
                let mut i: usize = 0;
                while i < entries.len()
                    invariant
                        i <= entries@.len(),
                        *self == Json::Table(*entries),
                        self@ == JsonView::Table(listed),
                        listed.len() == entries@.len(),
                        forall|j: int|
                            0 <= j < entries@.len() ==> #[trigger] listed[j] == (
                                entries@[j].0@,
                                entries@[j].1@,
                            ),
                        forall|j: int|
                            0 <= j < i ==> (#[trigger] listed[j]).0 != key@,
                    decreases entries.len() - i,
                {
                    assert(listed[i as int] == (entries@[i as int].0@, entries@[i as int].1@));
                    if same(entries[i].0.as_str(), key) {
                        proof {
                            lemma_entry_at(listed, key@, i as int);
                        }
                        return Some(&entries[i].1);
                    }
                    i = i + 1;
                }
                proof {
                    lemma_entry_at(listed, key@, i as int);
                }
                None
            },
            _ => None,
        }
    }

    /// The text this value is.
    pub fn as_text(&self) -> (r: Option<&str>)
        ensures
            match r {
                Some(t) => text_in(self@) == Some(t@),
                None => text_in(self@) is None,
            },
    {
        match self {
            Json::Text(t) => Some(t.as_str()),
            _ => None,
        }
    }

    /// The text a table holds under `key`.
    pub fn text_at(&self, key: &str) -> (r: Option<&str>)
        ensures
            match r {
                Some(t) => text_field(self@, key@) == Some(t@),
                None => text_field(self@, key@) is None,
            },
    {
        match self.get(key) {
            Some(inner) => inner.as_text(),
            None => None,
        }
    }
}

} // verus!
