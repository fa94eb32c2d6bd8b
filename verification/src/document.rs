//! Reading JSON texts with `serde_json`.

use crate::json::{lemma_array_view, lemma_object_view, Json, JsonNumber, JsonView};
use crate::spelling::{depth_limit, is_plain, laid_out, meant, spelled, Spelling};
use crate::text_map::{ascending, TextMap};
use vstd::prelude::*;

verus! {

/// A value as `serde_json` holds it.
#[verifier::external_type_specification]
#[verifier::external_body]
pub struct ExValue(serde_json::Value);

/// What a `serde_json` value holds, the whole tree.
pub uninterp spec fn value_view(value: serde_json::Value) -> JsonView;

/// Why a text is no JSON document.
#[derive(Clone, Debug, PartialEq, Eq)]
pub struct JsonError {
    /// What is wrong and where.
    pub message: String,
    /// The class of the error: `Syntax`, `Eof`, `Data` or `Io`.
    pub category: String,
}

/// What a [`JsonError`] holds.
#[verifier::ext_equal]
pub struct JsonErrorView {
    pub message: Seq<char>,
    pub category: Seq<char>,
}

impl DeepView for JsonError {
    type V = JsonErrorView;

    open spec fn deep_view(&self) -> JsonErrorView {
        JsonErrorView { message: self.message@, category: self.category@ }
    }
}

/// The document that a text is, or why it is none.
pub uninterp spec fn json_document(text: Seq<char>) -> Result<JsonView, JsonErrorView>;

/// What is read from a text that spells a plain document is that document.
pub open spec fn is_read_as(text: Seq<char>, document: Option<JsonView>) -> bool {
    &&& forall|spelling: Spelling|
        text == #[trigger] spelled(spelling) && is_plain(spelling, depth_limit()) ==> document
            == Some(meant(spelling))
    &&& forall|spelling: Spelling|
        text == #[trigger] laid_out(spelling, ""@) && is_plain(spelling, depth_limit())
            ==> document == Some(meant(spelling))
}

/// Calls `serde_json::from_str` for a `serde_json::Value`. What it returns depends on the text
/// alone. An error is taken by its `Display` text and by its class.
///
/// A document that is spelled without white space or laid out over lines is read as what it stands
/// for, as long as its keys are distinct, it is nested no deeper than the reader allows and its
/// numbers are whole or fractions of at most fifteen significant digits in their shortest form: such
/// a fraction is a quotient of two floats that are exact, and `Display` writes the shortest text that
/// stands for the float.
/// Nothing is said of how longer fractions and numbers with an exponent are rounded.
#[verifier::external_body]
fn read_value(text: &str) -> (r: Result<serde_json::Value, JsonError>)
    ensures
        match r {
            Ok(value) => json_document(text@) == Ok::<JsonView, JsonErrorView>(value_view(value))
                && is_read_as(text@, Some(value_view(value))),
            Err(error) => json_document(text@) == Err::<JsonView, JsonErrorView>(error.deep_view())
                && is_read_as(text@, None),
        },
{
    serde_json::from_str::<serde_json::Value>(text).map_err(
        |error| JsonError {
            message: error.to_string(),
            category: format!("{:?}", error.classify()),
        },
    )
}

/// One level of a `serde_json` value.
pub enum Level {
    Null,
    Bool(bool),
    Number(JsonNumber),
    Text(String),
    Array(Vec<serde_json::Value>),
    Object(Vec<(String, serde_json::Value)>),
}

/// Whether the member at a position has the given key.
pub open spec fn has_key(
    members: Seq<(String, serde_json::Value)>,
    key: Seq<char>,
    i: int,
) -> bool {
    0 <= i < members.len() && members[i].0@ == key
}

/// A position at which a key stands.
pub open spec fn key_slot(members: Seq<(String, serde_json::Value)>, key: Seq<char>) -> int {
    choose|i: int| has_key(members, key, i)
}

/// What the members of one level hold.
pub open spec fn member_views(
    members: Seq<(String, serde_json::Value)>,
) -> Map<Seq<char>, JsonView> {
    Map::new(
        |key: Seq<char>| exists|i: int| has_key(members, key, i),
        |key: Seq<char>| value_view(members[key_slot(members, key)].1),
    )
}

/// What a level holds.
pub open spec fn level_view(level: Level) -> JsonView {
    match level {
        Level::Null => JsonView::Null,
        Level::Bool(b) => JsonView::Bool(b),
        Level::Number(n) => JsonView::Number(n.deep_view()),
        Level::Text(text) => JsonView::Text(text@),
        Level::Array(items) => JsonView::Array(
            Seq::new(items@.len(), |i: int| value_view(items@[i])),
        ),
        Level::Object(members) => JsonView::Object(member_views(members@)),
    }
}

/// Tells the variants of `serde_json::Value` apart and moves their contents out. `serde_json`
/// keeps the members of an object in a `BTreeMap`, so that they come out in ascending key order,
/// each key once; its integers are those of `as_u64` and `as_i64`, and another number is taken
/// by the text that its `Display` writes.
#[verifier::external_body]
fn level_of(value: serde_json::Value) -> (r: Level)
    ensures
        value_view(value) == level_view(r),
        r matches Level::Object(members) ==> ascending(
            Seq::new(members@.len(), |i: int| members@[i].0@),
        ),
{
    match value {
        serde_json::Value::Null => Level::Null,
        serde_json::Value::Bool(b) => Level::Bool(b),
        serde_json::Value::Number(n) => Level::Number(
            n.as_u64().map(JsonNumber::Unsigned).or(
                n.as_i64().map(JsonNumber::Negative),
            ).unwrap_or_else(
                || JsonNumber::Fraction(n.to_string()),
            ),
        ),
        serde_json::Value::String(text) => Level::Text(text),
        serde_json::Value::Array(items) => Level::Array(items),
        serde_json::Value::Object(members) => Level::Object(members.into_iter().collect()),
    }
}

/// The document that a `serde_json` value holds.
fn json_of(value: serde_json::Value) -> (r: Json)
    ensures
        r.deep_view() == value_view(value),
    decreases value_view(value),
{
    let ghost view = value_view(value);
    match level_of(value) {
        Level::Null => Json::Null,
        Level::Bool(b) => Json::Bool(b),
        Level::Number(n) => Json::Number(n),
        Level::Text(text) => Json::Text(text),
        Level::Array(items) => {
            let ghost values = items@;
            let mut out: Vec<Json> = Vec::new();
            for item in it: items.into_iter()
                invariant
                    it.seq() == values,
                    view == value_view(value),
                    view == JsonView::Array(Seq::new(values.len(), |i: int| value_view(values[i]))),
                    out@.len() == it.index(),
                    forall|i: int|
                        0 <= i < it.index() ==> (#[trigger] out@[i]).deep_view()
                            == value_view(values[i]),
            {
                let ghost i = it.index() as int;
                assert(decreases_to!(view => view->Array_0));
                assert(decreases_to!(view->Array_0 => view->Array_0[i]));
                out.push(json_of(item));
            }
            proof {
                lemma_array_view(out);
                assert(out.deep_view() =~= view->Array_0);
            }
            Json::Array(out)
        },
        Level::Object(members) => {
            let ghost values = members@;
            let ghost keys = Seq::new(values.len(), |i: int| values[i].0@);
            let mut out: TextMap<Json> = TextMap::new();
            for entry in it: members.into_iter()
                invariant
                    it.seq() == values,
                    view == value_view(value),
                    view == JsonView::Object(member_views(values)),
                    keys == Seq::new(values.len(), |i: int| values[i].0@),
                    ascending(keys),
                    forall|k: Seq<char>| #[trigger]
                        out@.contains_key(k) <==> keys.take(it.index() as int).contains(k),
                    forall|i: int|
                        0 <= i < it.index() ==> out@.contains_key(#[trigger] keys[i])
                            && out@[keys[i]].deep_view() == value_view(values[i].1),
            {
                let ghost i = it.index() as int;
                let ghost before = out@;
                let (key, member) = entry;
                proof {
                    lemma_member(values, i);
                    assert(view->Object_0[key@] == value_view(member));
                    assert(view->Object_0.contains_key(key@));
                    lemma_member_smaller(view, key@);
                }
                let json = json_of(member);
                let ghost name = key@;
                out.insert(key, json);
                proof {
                    let now = keys.take(i + 1);
                    assert(now =~= keys.take(i).push(name));
                    assert forall|k: Seq<char>| #[trigger] out@.contains_key(k) <==> now.contains(k) by {
                        if before.contains_key(k) {
                            let a = choose|a: int| 0 <= a < keys.take(
                                i,
                            ).len() && keys.take(i)[a] == k;
                            assert(now[a] == k);
                        }
                        assert(now[i] == name);
                        if now.contains(k) && k != name {
                            let a = choose|a: int| 0 <= a < now.len() && now[a] == k;
                            assert(keys.take(i)[a] == k);
                        }
                    }
                    assert forall|a: int| 0 <= a < i + 1 implies out@.contains_key(#[trigger] keys[a])
                        && out@[keys[a]].deep_view() == value_view(values[a].1) by {
                        crate::text::lemma_text_less_irreflexive(name);
                        if a < i {
                            assert(keys[i] == name);
                        }
                    }
                }
            }
            proof {
                lemma_object_view(out);
                assert(keys.take(keys.len() as int) =~= keys);
                let want = member_views(values);
                assert forall|k: Seq<char>| #[trigger]
                    out.deep_view().contains_key(k) <==> want.contains_key(k) by {
                    if keys.contains(k) {
                        let a = choose|a: int| 0 <= a < keys.len() && keys[a] == k;
                        assert(has_key(values, k, a));
                    }
                    if want.contains_key(k) {
                        assert(keys[key_slot(values, k)] == k);
                    }
                }
                assert forall|k: Seq<char>| #[trigger] want.contains_key(k) implies out.deep_view()[k]
                    == want[k] by {
                    let a = key_slot(values, k);
                    assert(keys[a] == k);
                    lemma_member(values, a);
                }
                assert(out.deep_view() =~= want);
            }
            Json::Object(out)
        },
    }
}

proof fn lemma_member_smaller(view: JsonView, key: Seq<char>)
    requires
        view is Object,
        view->Object_0.contains_key(key),
    ensures
        decreases_to!(view => view->Object_0[key]),
{
}

proof fn lemma_member(members: Seq<(String, serde_json::Value)>, i: int)
    requires
        ascending(Seq::new(members.len(), |i: int| members[i].0@)),
        0 <= i < members.len(),
    ensures
        member_views(members).contains_key(members[i].0@),
        member_views(members)[members[i].0@] == value_view(members[i].1),
{
    let keys = Seq::new(members.len(), |i: int| members[i].0@);
    let key = members[i].0@;
    assert(has_key(members, key, i));
    let j = key_slot(members, key);
    crate::text::lemma_text_less_irreflexive(key);
    assert(keys[i] == key);
    assert(keys[j] == key);
}

/// Reads a JSON document.
pub fn parse(text: &str) -> (r: Result<Json, JsonError>)
    ensures
        match r {
            Ok(json) => json_document(text@) == Ok::<JsonView, JsonErrorView>(json.deep_view())
                && is_read_as(text@, Some(json.deep_view())),
            Err(error) => json_document(text@) == Err::<JsonView, JsonErrorView>(error.deep_view())
                && is_read_as(text@, None),
        },
{
    match read_value(text) {
        Ok(value) => Ok(json_of(value)),
        Err(error) => Err(error),
    }
}

} // verus!
