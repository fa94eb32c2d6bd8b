//! JSON documents.

use crate::digest::hex_digit;
use crate::same::{Replica, Same};
use crate::text::{decimal, decimal_text, join, lemma_join_push, same_text};
use crate::text_map::{sorted_keys, TextMap};
use vstd::prelude::*;

verus! {

/// A number of a JSON document. A number that is no integer is held as the shortest text that
/// reads back as the same number.
#[derive(Clone, Debug, PartialEq, Eq)]
pub enum JsonNumber {
    Unsigned(u64),
    Negative(i64),
    Fraction(String),
}

/// What a JSON number holds.
#[verifier::ext_equal]
pub enum NumberView {
    Unsigned(u64),
    Negative(i64),
    Fraction(Seq<char>),
}

impl DeepView for JsonNumber {
    type V = NumberView;

    open spec fn deep_view(&self) -> NumberView {
        match self {
            JsonNumber::Unsigned(n) => NumberView::Unsigned(*n),
            JsonNumber::Negative(n) => NumberView::Negative(*n),
            JsonNumber::Fraction(text) => NumberView::Fraction(text@),
        }
    }
}

impl Replica for JsonNumber {
    fn replica(&self) -> (r: Self) {
        match self {
            JsonNumber::Unsigned(n) => JsonNumber::Unsigned(*n),
            JsonNumber::Negative(n) => JsonNumber::Negative(*n),
            JsonNumber::Fraction(text) => JsonNumber::Fraction(text.clone()),
        }
    }
}

impl Same for JsonNumber {
    fn same(&self, other: &Self) -> (r: bool) {
        match (self, other) {
            (JsonNumber::Unsigned(a), JsonNumber::Unsigned(b)) => *a == *b,
            (JsonNumber::Negative(a), JsonNumber::Negative(b)) => *a == *b,
            (JsonNumber::Fraction(a), JsonNumber::Fraction(b)) => same_text(a.as_str(), b.as_str()),
            _ => false,
        }
    }
}

/// A text that is the one or the other zero.
fn is_zero(text: &str) -> (r: bool)
    ensures
        r == (text@ == "0.0"@ || text@ == "-0.0"@),
{
    same_text(text, "0.0") || same_text(text, "-0.0")
}

impl JsonNumber {
    /// Tells whether two numbers compare equal.
    fn alike(&self, other: &Self) -> (r: bool)
        ensures
            r == (leveled_number(self.deep_view()) == leveled_number(other.deep_view())),
    {
        match (self, other) {
            (JsonNumber::Fraction(a), JsonNumber::Fraction(b)) => same_text(a.as_str(), b.as_str())
                || (is_zero(a.as_str()) && is_zero(b.as_str())),
            _ => self.same(other),
        }
    }
}

/// A JSON document. The members of an object are kept by key, in ascending order.
#[derive(Debug, PartialEq, Eq)]
pub enum Json {
    Null,
    Bool(bool),
    Number(JsonNumber),
    Text(String),
    Array(Vec<Json>),
    Object(TextMap<Json>),
}

/// What a JSON document holds.
#[verifier::ext_equal]
pub enum JsonView {
    Null,
    Bool(bool),
    Number(NumberView),
    Text(Seq<char>),
    Array(Seq<JsonView>),
    Object(Map<Seq<char>, JsonView>),
}

/// What a document holds.
pub open spec fn json_view(json: Json) -> JsonView
    decreases json,
{
    match json {
        Json::Null => JsonView::Null,
        Json::Bool(b) => JsonView::Bool(b),
        Json::Number(n) => JsonView::Number(n.deep_view()),
        Json::Text(text) => JsonView::Text(text@),
        Json::Array(items) => JsonView::Array(
            Seq::new(
                items@.len(),
                |i: int|
                    if 0 <= i < items@.len() {
                        json_view(items@[i])
                    } else {
                        JsonView::Null
                    },
            ),
        ),
        Json::Object(members) => JsonView::Object(
            Map::new(
                |key: Seq<char>| members@.contains_key(key),
                |key: Seq<char>|
                    if members@.contains_key(key) {
                        proof {
                            members.lemma_value_smaller(key);
                        }
                        json_view(members@[key])
                    } else {
                        JsonView::Null
                    },
            ),
        ),
    }
}

impl DeepView for Json {
    type V = JsonView;

    open spec fn deep_view(&self) -> JsonView {
        json_view(*self)
    }
}

/// An array holds what its items hold.
pub broadcast proof fn lemma_array_view(items: Vec<Json>)
    ensures
        #[trigger] Json::Array(items).deep_view() == JsonView::Array(items.deep_view()),
{
    assert(Json::Array(items).deep_view()->Array_0 =~= items.deep_view());
}

/// An object holds what its members hold.
pub broadcast proof fn lemma_object_view(members: TextMap<Json>)
    ensures
        #[trigger] Json::Object(members).deep_view() == JsonView::Object(members.deep_view()),
{
    assert(Json::Object(members).deep_view()->Object_0 =~= members.deep_view());
}

/// A copy of `json`.
fn json_replica(json: &Json) -> (r: Json)
    ensures
        r.deep_view() == json.deep_view(),
    decreases json,
{
    match json {
        Json::Null => Json::Null,
        Json::Bool(b) => Json::Bool(*b),
        Json::Number(n) => Json::Number(n.replica()),
        Json::Text(text) => Json::Text(text.clone()),
        Json::Array(items) => {
            let mut copies: Vec<Json> = Vec::new();
            for i in 0..items.len()
                invariant
                    copies@.len() == i,
                    json == Json::Array(*items),
                    forall|j: int|
                        0 <= j < i ==> (#[trigger] copies@[j]).deep_view() == items@[j].deep_view(),
            {
                assert(decreases_to!(*json => json->Array_0));
                assert(decreases_to!(*items => items@));
                assert(decreases_to!(items@ => items@[i as int]));
                copies.push(json_replica(&items[i]));
            }
            assert(copies.deep_view() =~= items.deep_view());
            proof {
                lemma_array_view(copies);
                lemma_array_view(*items);
            }
            Json::Array(copies)
        },
        Json::Object(members) => {
            let mut copies: TextMap<Json> = TextMap::new();
            let n: usize = members.walk();
            for i in 0..n
                invariant
                    n == members.keys().len(),
                    json == Json::Object(*members),
                    forall|k: Seq<char>| #[trigger]
                        copies@.contains_key(k) <==> members.keys().take(i as int).contains(k),
                    forall|k: Seq<char>| #[trigger]
                        copies@.contains_key(k) ==> members@.contains_key(k)
                            && copies@[k].deep_view() == members@[k].deep_view(),
            {
                let key = members.key_at(i);
                let value = members.value_at(i);
                proof {
                    assert(decreases_to!(*json => json->Object_0));
                    members.lemma_value_smaller(key@);
                    assert(members.keys().take(i + 1) =~= members.keys().take(i as int).push(key@));
                }
                let copy = json_replica(value);
                let ghost before = copies@;
                copies.insert(key.clone(), copy);
                assert forall|k: Seq<char>| #[trigger]
                    copies@.contains_key(k) <==> members.keys().take(i + 1).contains(k) by {
                    let now = members.keys().take(i + 1);
                    if before.contains_key(k) {
                        let a = choose|a: int|
                            0 <= a < members.keys().take(i as int).len()
                                && members.keys().take(i as int)[a]
                                == k;
                        assert(now[a] == k);
                    }
                    assert(now[i as int] == key@);
                    if now.contains(k) && k != key@ {
                        let a = choose|a: int| 0 <= a < now.len() && now[a] == k;
                        assert(members.keys().take(i as int)[a] == k);
                    }
                }
            }
            assert(members.keys().take(n as int) =~= members.keys());
            assert(copies.deep_view() =~= members.deep_view());
            proof {
                lemma_object_view(copies);
                lemma_object_view(*members);
            }
            Json::Object(copies)
        },
    }
}

impl Replica for Json {
    fn replica(&self) -> (r: Self) {
        json_replica(self)
    }
}

impl Clone for Json {
    fn clone(&self) -> (r: Self)
        ensures
            r.deep_view() == self.deep_view(),
    {
        json_replica(self)
    }
}

/// A number as it is compared: zero is zero, whatever its sign.
pub open spec fn leveled_number(number: NumberView) -> NumberView {
    if number == NumberView::Fraction("-0.0"@) {
        NumberView::Fraction("0.0"@)
    } else {
        number
    }
}

/// A document as it is compared: numbers are equal where their values are.
pub open spec fn leveled(json: JsonView) -> JsonView
    decreases json,
{
    match json {
        JsonView::Number(number) => JsonView::Number(leveled_number(number)),
        JsonView::Array(items) => JsonView::Array(
            Seq::new(
                items.len(),
                |i: int|
                    if 0 <= i < items.len() {
                        leveled(items[i])
                    } else {
                        JsonView::Null
                    },
            ),
        ),
        JsonView::Object(members) => JsonView::Object(
            Map::new(
                |key: Seq<char>| members.contains_key(key),
                |key: Seq<char>|
                    if members.contains_key(key) {
                        leveled(members[key])
                    } else {
                        JsonView::Null
                    },
            ),
        ),
        _ => json,
    }
}

/// The text of a number in a document.
pub open spec fn number_text(number: NumberView) -> Seq<char> {
    match number {
        NumberView::Unsigned(n) => decimal(n as nat),
        NumberView::Negative(n) => if n < 0 {
            "-"@ + decimal((-n) as nat)
        } else {
            decimal(n as nat)
        },
        NumberView::Fraction(text) => text,
    }
}

/// A character inside a JSON string.
pub open spec fn escaped_char(c: char) -> Seq<char> {
    if c == '"' || c == '\\' {
        seq!['\\', c]
    } else if c == '\u{8}' {
        seq!['\\', 'b']
    } else if c == '\t' {
        seq!['\\', 't']
    } else if c == '\n' {
        seq!['\\', 'n']
    } else if c == '\u{c}' {
        seq!['\\', 'f']
    } else if c == '\r' {
        seq!['\\', 'r']
    } else if 32 > c as int {
        seq!['\\', 'u', '0', '0', hex_digit(c as int / 16), hex_digit(c as int % 16)]
    } else {
        seq![c]
    }
}

/// A text inside a JSON string.
pub open spec fn escaped(text: Seq<char>) -> Seq<char>
    decreases text.len(),
{
    if text.len() == 0 {
        Seq::empty()
    } else {
        escaped(text.drop_last()) + escaped_char(text.last())
    }
}

/// A text as a JSON string.
pub open spec fn json_quoted(text: Seq<char>) -> Seq<char> {
    seq!['"'] + escaped(text) + seq!['"']
}

/// Calls `serde_json` on a string value, whose `Display` writes the JSON string: double quotes
/// around the text, in which quotes, backslashes and control characters below the space are
/// escaped, those without a letter of their own by four hexadecimal digits. It does not fail.
#[verifier::external_body]
pub(crate) fn quoted(text: &str) -> (r: String)
    ensures
        r@ == json_quoted(text@),
{
    serde_json::Value::String(text.to_owned()).to_string()
}

/// A document without white space, the members of each object in ascending key order.
pub open spec fn compact(json: JsonView) -> Seq<char>
    decreases json, 1nat, 0nat,
{
    match json {
        JsonView::Null => "null"@,
        JsonView::Bool(b) => if b {
            "true"@
        } else {
            "false"@
        },
        JsonView::Number(n) => number_text(n),
        JsonView::Text(text) => json_quoted(text),
        JsonView::Array(items) => "["@ + join(compact_items(items), ","@) + "]"@,
        JsonView::Object(members) => "{"@ + join(
            compact_members(json, sorted_keys(members.dom())),
            ","@,
        ) + "}"@,
    }
}

/// The items of an array, each without white space.
pub open spec fn compact_items(items: Seq<JsonView>) -> Seq<Seq<char>>
    decreases items, 0nat, 0nat,
{
    if items.len() == 0 {
        Seq::empty()
    } else {
        compact_items(items.drop_last()).push(compact(items.last()))
    }
}

/// The members of `json` for the given keys, each without white space.
pub open spec fn compact_members(json: JsonView, keys: Seq<Seq<char>>) -> Seq<Seq<char>>
    decreases json, 0nat, keys.len(),
{
    if keys.len() == 0 {
        Seq::empty()
    } else {
        compact_members(json, keys.drop_last()).push(
            json_quoted(keys.last()) + ":"@ + (if json is Object && json->Object_0.contains_key(
                keys.last(),
            ) {
                compact(json->Object_0[keys.last()])
            } else {
                "null"@
            }),
        )
    }
}

pub(crate) fn write_number(number: &JsonNumber, out: &mut String)
    ensures
        final(out)@ == old(out)@ + number_text(number.deep_view()),
{
    match number {
        JsonNumber::Unsigned(n) => {
            out.append(decimal_text(*n as u128).as_str());
        },
        JsonNumber::Negative(n) => {
            if *n < 0 {
                let size: i128 = -(*n as i128);
                out.append("-");
                out.append(decimal_text(size as u128).as_str());
                assert(out@ =~= old(out)@ + number_text(number.deep_view()));
            } else {
                out.append(decimal_text(*n as u128).as_str());
            }
        },
        JsonNumber::Fraction(text) => {
            out.append(text.as_str());
        },
    }
}

/// Appends `json` without white space.
fn write_compact(json: &Json, out: &mut String)
    ensures
        final(out)@ == old(out)@ + compact(json.deep_view()),
    decreases json,
{
    match json {
        Json::Null => {
            out.append("null");
        },
        Json::Bool(b) => {
            if *b {
                out.append("true");
            } else {
                out.append("false");
            }
        },
        Json::Number(n) => {
            write_number(n, out);
        },
        Json::Text(text) => {
            out.append(quoted(text.as_str()).as_str());
        },
        Json::Array(items) => {
            let ghost views = items.deep_view();
            let ghost start = out@ + "["@;
            out.append("[");
            assert(views.take(0) =~= Seq::empty());
            assert(out@ =~= start + join(compact_items(views.take(0)), ","@));
            for i in 0..items.len()
                invariant
                    json == Json::Array(*items),
                    views == items.deep_view(),
                    compact_items(views.take(i as int)).len() == i,
                    out@ == start + join(compact_items(views.take(i as int)), ","@),
            {
                assert(decreases_to!(*json => json->Array_0));
                assert(decreases_to!(*items => items@));
                assert(decreases_to!(items@ => items@[i as int]));
                let ghost before = out@;
                if i > 0 {
                    out.append(",");
                }
                write_compact(&items[i], out);
                proof {
                    let parts = compact_items(views.take(i as int));
                    lemma_join_push(parts, compact(views[i as int]), ","@);
                    assert(views.take(i + 1).drop_last() =~= views.take(i as int));
                    assert(views.take(i + 1).last() == views[i as int]);
                    if i == 0 {
                        assert(before =~= start);
                    }
                    assert(out@ =~= start + join(compact_items(views.take(i + 1)), ","@));
                }
            }
            out.append("]");
            proof {
                assert(views.take(items.len() as int) =~= views);
                lemma_array_view(*items);
                assert(out@ =~= old(out)@ + compact(json.deep_view()));
            }
        },
        Json::Object(members) => {
            let n: usize = members.walk();
            let ghost view = json.deep_view();
            let ghost keys = members.keys();
            let ghost start = out@ + "{"@;
            out.append("{");
            proof {
                lemma_object_view(*members);
                assert(members.deep_view().dom() =~= members@.dom());
                assert(keys.take(0) =~= Seq::empty());
                assert(out@ =~= start + join(compact_members(view, keys.take(0)), ","@));
            }
            for i in 0..n
                invariant
                    json == Json::Object(*members),
                    n == members.keys().len(),
                    keys == members.keys(),
                    view == JsonView::Object(members.deep_view()),
                    compact_members(view, keys.take(i as int)).len() == i,
                    out@ == start + join(compact_members(view, keys.take(i as int)), ","@),
            {
                let key = members.key_at(i);
                let value = members.value_at(i);
                proof {
                    assert(decreases_to!(*json => json->Object_0));
                    members.lemma_value_smaller(key@);
                }
                let ghost before = out@;
                if i > 0 {
                    out.append(",");
                }
                out.append(quoted(key.as_str()).as_str());
                out.append(":");
                write_compact(value, out);
                proof {
                    let parts = compact_members(view, keys.take(i as int));
                    let part = json_quoted(key@) + ":"@ + compact(value.deep_view());
                    lemma_join_push(parts, part, ","@);
                    assert(keys.take(i + 1).drop_last() =~= keys.take(i as int));
                    assert(keys.take(i + 1).last() == key@);
                    if i == 0 {
                        assert(before =~= start);
                    }
                    assert(out@ =~= start + join(compact_members(view, keys.take(i + 1)), ","@));
                }
            }
            out.append("}");
            proof {
                assert(keys.take(n as int) =~= keys);
                assert(out@ =~= old(out)@ + compact(json.deep_view()));
            }
        },
    }
}

impl Json {
    /// The document without white space.
    pub fn to_text(&self) -> (r: String)
        ensures
            r@ == compact(self.deep_view()),
    {
        let mut out = String::new();
        write_compact(self, &mut out);
        assert(out@ =~= compact(self.deep_view()));
        out
    }
}

/// Whether two documents hold the same.
fn json_same(a: &Json, b: &Json) -> (r: bool)
    ensures
        r == (a.deep_view() == b.deep_view()),
    decreases a,
{
    match (a, b) {
        (Json::Null, Json::Null) => true,
        (Json::Bool(x), Json::Bool(y)) => *x == *y,
        (Json::Number(x), Json::Number(y)) => x.same(y),
        (Json::Text(x), Json::Text(y)) => same_text(x.as_str(), y.as_str()),
        (Json::Array(x), Json::Array(y)) => {
            proof {
                lemma_array_view(*x);
                lemma_array_view(*y);
            }
            if x.len() != y.len() {
                assert(x.deep_view().len() != y.deep_view().len());
                return false;
            }
            for i in 0..x.len()
                invariant
                    a == Json::Array(*x),
                    a.deep_view() == JsonView::Array(x.deep_view()),
                    b.deep_view() == JsonView::Array(y.deep_view()),
                    x.len() == y.len(),
                    forall|j: int| 0 <= j < i ==> #[trigger] x.deep_view()[j] == y.deep_view()[j],
            {
                assert(decreases_to!(*a => a->Array_0));
                assert(decreases_to!(*x => x@));
                assert(decreases_to!(x@ => x@[i as int]));
                if !json_same(&x[i], &y[i]) {
                    assert(x.deep_view()[i as int] != y.deep_view()[i as int]);
                    return false;
                }
            }
            assert(x.deep_view() =~= y.deep_view());
            true
        },
        (Json::Object(x), Json::Object(y)) => {
            proof {
                lemma_object_view(*x);
                lemma_object_view(*y);
                assert(x@.dom() =~= x.deep_view().dom());
                assert(y@.dom() =~= y.deep_view().dom());
            }
            let n: usize = x.walk();
            if n != y.walk() {
                return false;
            }
            for i in 0..n
                invariant
                    a == Json::Object(*x),
                    a.deep_view() == JsonView::Object(x.deep_view()),
                    b.deep_view() == JsonView::Object(y.deep_view()),
                    n == x.keys().len(),
                    n == y.keys().len(),
                    x@.dom() == x.deep_view().dom(),
                    y@.dom() == y.deep_view().dom(),
                    forall|j: int| 0 <= j < i ==> #[trigger] x.keys()[j] == y.keys()[j],
                    forall|j: int|
                        0 <= j < i ==> x.deep_view()[#[trigger] x.keys()[j]]
                            == y.deep_view()[x.keys()[j]],
            {
                let key = x.key_at(i);
                if !same_text(key.as_str(), y.key_at(i).as_str()) {
                    assert(x.keys()[i as int] != y.keys()[i as int]);
                    return false;
                }
                let value = x.value_at(i);
                proof {
                    assert(decreases_to!(*a => a->Object_0));
                    x.lemma_value_smaller(key@);
                }
                if !json_same(value, y.value_at(i)) {
                    assert(x.deep_view()[key@] != y.deep_view()[key@]);
                    return false;
                }
            }
            proof {
                assert(x.keys() =~= y.keys());
                assert(x.deep_view() =~= y.deep_view()) by {
                    assert(x@.dom() == y@.dom());
                    assert forall|k: Seq<char>| x.deep_view().contains_key(k) implies x.deep_view()[k]
                        == y.deep_view()[k] by {
                        assert(x.keys().contains(k));
                        let j = choose|j: int| 0 <= j < x.keys().len() && x.keys()[j] == k;
                        assert(x.keys()[j] == k);
                    }
                }
            }
            true
        },
        _ => false,
    }
}

fn json_alike(a: &Json, b: &Json) -> (r: bool)
    ensures
        r == (leveled(a.deep_view()) == leveled(b.deep_view())),
    decreases a,
{
    match (a, b) {
        (Json::Null, Json::Null) => true,
        (Json::Bool(x), Json::Bool(y)) => *x == *y,
        (Json::Number(x), Json::Number(y)) => x.alike(y),
        (Json::Text(x), Json::Text(y)) => same_text(x.as_str(), y.as_str()),
        (Json::Array(x), Json::Array(y)) => {
            proof {
                lemma_array_view(*x);
                lemma_array_view(*y);
            }
            if x.len() != y.len() {
                assert(leveled(a.deep_view())->Array_0.len() != leveled(b.deep_view())->Array_0.len());
                return false;
            }
            for i in 0..x.len()
                invariant
                    a == Json::Array(*x),
                    a.deep_view() == JsonView::Array(x.deep_view()),
                    b.deep_view() == JsonView::Array(y.deep_view()),
                    x.len() == y.len(),
                    forall|j: int|
                        0 <= j < i ==> leveled(#[trigger] x.deep_view()[j])
                            == leveled(y.deep_view()[j]),
            {
                assert(decreases_to!(*a => a->Array_0));
                assert(decreases_to!(*x => x@));
                assert(decreases_to!(x@ => x@[i as int]));
                if !json_alike(&x[i], &y[i]) {
                    assert(leveled(a.deep_view())->Array_0[i as int] == leveled(
                        x.deep_view()[i as int],
                    ));
                    assert(leveled(b.deep_view())->Array_0[i as int] == leveled(
                        y.deep_view()[i as int],
                    ));
                    return false;
                }
            }
            assert(leveled(a.deep_view())->Array_0 =~= leveled(b.deep_view())->Array_0);
            true
        },
        (Json::Object(x), Json::Object(y)) => {
            proof {
                lemma_object_view(*x);
                lemma_object_view(*y);
                assert(x@.dom() =~= x.deep_view().dom());
                assert(y@.dom() =~= y.deep_view().dom());
            }
            assert(leveled(a.deep_view())->Object_0.dom() =~= x@.dom());
            assert(leveled(b.deep_view())->Object_0.dom() =~= y@.dom());
            let n: usize = x.walk();
            if n != y.walk() {
                return false;
            }
            for i in 0..n
                invariant
                    a == Json::Object(*x),
                    a.deep_view() == JsonView::Object(x.deep_view()),
                    b.deep_view() == JsonView::Object(y.deep_view()),
                    n == x.keys().len(),
                    n == y.keys().len(),
                    x@.dom() == x.deep_view().dom(),
                    y@.dom() == y.deep_view().dom(),
                    leveled(a.deep_view())->Object_0.dom() == x@.dom(),
                    leveled(b.deep_view())->Object_0.dom() == y@.dom(),
                    forall|j: int| 0 <= j < i ==> #[trigger] x.keys()[j] == y.keys()[j],
                    forall|j: int|
                        0 <= j < i ==> leveled(x.deep_view()[#[trigger] x.keys()[j]])
                            == leveled(y.deep_view()[x.keys()[j]]),
            {
                let key = x.key_at(i);
                if !same_text(key.as_str(), y.key_at(i).as_str()) {
                    assert(x.keys()[i as int] != y.keys()[i as int]);
                    return false;
                }
                let value = x.value_at(i);
                proof {
                    assert(decreases_to!(*a => a->Object_0));
                    x.lemma_value_smaller(key@);
                }
                if !json_alike(value, y.value_at(i)) {
                    assert(leveled(a.deep_view())->Object_0[key@] == leveled(
                        x.deep_view()[key@],
                    ));
                    assert(leveled(b.deep_view())->Object_0[key@] == leveled(
                        y.deep_view()[key@],
                    ));
                    return false;
                }
            }
            proof {
                assert(x.keys() =~= y.keys());
                let one = leveled(a.deep_view())->Object_0;
                let two = leveled(b.deep_view())->Object_0;
                assert(x@.dom() == y@.dom());
                assert forall|k: Seq<char>| one.contains_key(k) implies one[k] == two[k] by {
                    assert(x.keys().contains(k));
                    let j = choose|j: int| 0 <= j < x.keys().len() && x.keys()[j] == k;
                    assert(leveled(x.deep_view()[x.keys()[j]]) == leveled(
                        y.deep_view()[x.keys()[j]],
                    ));
                }
                assert(one =~= two);
            }
            true
        },
        _ => false,
    }
}

impl Json {
    /// Tells whether two documents compare equal: as they are written, but for the sign of a zero.
    pub fn alike(&self, other: &Json) -> (r: bool)
        ensures
            r == (leveled(self.deep_view()) == leveled(other.deep_view())),
    {
        json_alike(self, other)
    }
}

impl Same for Json {
    fn same(&self, other: &Self) -> (r: bool) {
        json_same(self, other)
    }
}

/// The member of an object.
pub open spec fn member(json: JsonView, key: Seq<char>) -> Option<JsonView> {
    if json is Object && json->Object_0.contains_key(key) {
        Some(json->Object_0[key])
    } else {
        None
    }
}

/// The member of an object when it is a text.
pub open spec fn text_member(json: JsonView, key: Seq<char>) -> Option<Seq<char>> {
    match member(json, key) {
        Some(JsonView::Text(text)) => Some(text),
        _ => None,
    }
}

/// The member of an object when it is an unsigned integer.
pub open spec fn unsigned_member(json: JsonView, key: Seq<char>) -> Option<u64> {
    match member(json, key) {
        Some(JsonView::Number(NumberView::Unsigned(n))) => Some(n),
        _ => None,
    }
}

/// The member of an object when it is an array.
pub open spec fn array_member(json: JsonView, key: Seq<char>) -> Option<Seq<JsonView>> {
    match member(json, key) {
        Some(JsonView::Array(items)) => Some(items),
        _ => None,
    }
}

impl Json {
    /// A text.
    pub fn text(text: &str) -> (r: Self)
        ensures
            r.deep_view() == JsonView::Text(text@),
    {
        Json::Text(text.to_owned())
    }

    /// An unsigned integer.
    pub fn unsigned(n: u64) -> (r: Self)
        ensures
            r.deep_view() == JsonView::Number(NumberView::Unsigned(n)),
    {
        Json::Number(JsonNumber::Unsigned(n))
    }

    /// An array.
    pub fn array(items: Vec<Json>) -> (r: Self)
        ensures
            r.deep_view() == JsonView::Array(items.deep_view()),
    {
        proof {
            lemma_array_view(items);
        }
        Json::Array(items)
    }

    /// An object.
    pub fn object(members: TextMap<Json>) -> (r: Self)
        ensures
            r.deep_view() == JsonView::Object(members.deep_view()),
    {
        proof {
            lemma_object_view(members);
        }
        Json::Object(members)
    }

    /// The member of an object.
    pub fn get(&self, key: &str) -> (r: Option<&Json>)
        ensures
            r.deep_view() == member(self.deep_view(), key@),
    {
        match self {
            Json::Object(members) => {
                proof {
                    lemma_object_view(*members);
                }
                members.get(key)
            },
            _ => None,
        }
    }

    /// The text, where the document is one.
    pub fn as_text(&self) -> (r: Option<&String>)
        ensures
            r.deep_view() == (match self.deep_view() {
                JsonView::Text(text) => Some(text),
                _ => None,
            }),
    {
        match self {
            Json::Text(text) => Some(text),
            _ => None,
        }
    }

    /// The unsigned integer, where the document is one.
    pub fn as_unsigned(&self) -> (r: Option<u64>)
        ensures
            r == (match self.deep_view() {
                JsonView::Number(NumberView::Unsigned(n)) => Some(n),
                _ => None,
            }),
    {
        match self {
            Json::Number(JsonNumber::Unsigned(n)) => Some(*n),
            _ => None,
        }
    }

    /// The items, where the document is an array.
    pub fn as_array(&self) -> (r: Option<&Vec<Json>>)
        ensures
            r.deep_view() == (match self.deep_view() {
                JsonView::Array(items) => Some(items),
                _ => None,
            }),
    {
        match self {
            Json::Array(items) => {
                proof {
                    lemma_array_view(*items);
                }
                Some(items)
            },
            _ => None,
        }
    }

    /// The member of an object when it is a text.
    pub fn get_text(&self, key: &str) -> (r: Option<&String>)
        ensures
            r.deep_view() == text_member(self.deep_view(), key@),
    {
        match self.get(key) {
            Some(value) => value.as_text(),
            None => None,
        }
    }

    /// The member of an object when it is an unsigned integer.
    pub fn get_unsigned(&self, key: &str) -> (r: Option<u64>)
        ensures
            r == unsigned_member(self.deep_view(), key@),
    {
        match self.get(key) {
            Some(value) => value.as_unsigned(),
            None => None,
        }
    }

    /// The member of an object when it is an array.
    pub fn get_array(&self, key: &str) -> (r: Option<&Vec<Json>>)
        ensures
            r.deep_view() == array_member(self.deep_view(), key@),
    {
        match self.get(key) {
            Some(value) => value.as_array(),
            None => None,
        }
    }
}

/// An empty set of members.
pub fn no_members() -> (r: TextMap<Json>)
    ensures
        r.deep_view() == Map::<Seq<char>, JsonView>::empty(),
{
    let members: TextMap<Json> = TextMap::new();
    assert(members.deep_view() =~= Map::<Seq<char>, JsonView>::empty());
    members
}

} // verus!
