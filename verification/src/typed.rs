//! Values of fixed types in documents, and what is said of documents that hold others.

use crate::json::{lemma_array_view, member, number_text, Json, JsonNumber, JsonView, NumberView};
use crate::text::{decimal, decimal_text, glue2, glue3, glue4};
use vstd::prelude::*;

verus! {

/// How `Debug` shows a text.
pub uninterp spec fn shown_text(text: Seq<char>) -> Seq<char>;

/// Formats a text with `Debug`, as `{:?}` does: within quotes and with what is not printable
/// escaped. What it gives depends on the text alone.
#[verifier::external_body]
fn shown(text: &str) -> (r: String)
    ensures
        r@ == shown_text(text@),
{
    format!("{:?}", text)
}

/// What a document is called when another was wanted.
pub open spec fn described(json: JsonView) -> Seq<char> {
    match json {
        JsonView::Null => "null"@,
        JsonView::Bool(b) => if b {
            "boolean `true`"@
        } else {
            "boolean `false`"@
        },
        JsonView::Number(NumberView::Fraction(text)) => "floating point `"@ + text + "`"@,
        JsonView::Number(number) => "integer `"@ + number_text(number) + "`"@,
        JsonView::Text(text) => "string "@ + shown_text(text),
        JsonView::Array(_) => "sequence"@,
        JsonView::Object(_) => "map"@,
    }
}

/// Tells what a document is called when another was wanted.
pub fn describe(json: &Json) -> (r: String)
    ensures
        r@ == described(json.deep_view()),
{
    match json {
        Json::Null => "null".to_owned(),
        Json::Bool(true) => "boolean `true`".to_owned(),
        Json::Bool(false) => "boolean `false`".to_owned(),
        Json::Number(JsonNumber::Fraction(text)) => glue3("floating point `", text.as_str(), "`"),
        Json::Number(_) => glue3("integer `", json.to_text().as_str(), "`"),
        Json::Text(text) => glue2("string ", shown(text.as_str()).as_str()),
        Json::Array(_) => "sequence".to_owned(),
        Json::Object(_) => "map".to_owned(),
    }
}

/// What is said of a document of another type than the wanted one.
pub open spec fn wrong_type(json: JsonView, wanted: Seq<char>) -> Seq<char> {
    "invalid type: "@ + described(json) + ", expected "@ + wanted
}

/// What is said of a document of another type than the wanted one.
pub fn say_wrong_type(json: &Json, wanted: &str) -> (r: String)
    ensures
        r@ == wrong_type(json.deep_view(), wanted@),
{
    glue4("invalid type: ", describe(json).as_str(), ", expected ", wanted)
}

/// What is said of a document whose value is out of range.
pub open spec fn wrong_value(json: JsonView, wanted: Seq<char>) -> Seq<char> {
    "invalid value: "@ + described(json) + ", expected "@ + wanted
}

/// What is said of a document whose value is out of range.
pub fn say_wrong_value(json: &Json, wanted: &str) -> (r: String)
    ensures
        r@ == wrong_value(json.deep_view(), wanted@),
{
    glue4("invalid value: ", describe(json).as_str(), ", expected ", wanted)
}

/// What is said of an array that has too few or too many items.
pub open spec fn wrong_length(length: nat, wanted: Seq<char>) -> Seq<char> {
    "invalid length "@ + decimal(length) + ", expected "@ + wanted
}

/// What is said of an array that has too few or too many items.
pub fn say_wrong_length(length: usize, wanted: &str) -> (r: String)
    ensures
        r@ == wrong_length(length as nat, wanted@),
{
    glue4("invalid length ", decimal_text(length as u128).as_str(), ", expected ", wanted)
}

/// A text.
pub open spec fn text_of(json: JsonView) -> Result<Seq<char>, Seq<char>> {
    match json {
        JsonView::Text(text) => Ok(text),
        _ => Err(wrong_type(json, "a string"@)),
    }
}

/// Reads a text.
pub fn read_text(json: &Json) -> (r: Result<String, String>)
    ensures
        match r {
            Ok(text) => text_of(json.deep_view()) == Ok::<Seq<char>, Seq<char>>(text@),
            Err(error) => text_of(json.deep_view()) == Err::<Seq<char>, Seq<char>>(error@),
        },
{
    match json {
        Json::Text(text) => Ok(text.clone()),
        _ => Err(say_wrong_type(json, "a string")),
    }
}

/// A text or null.
pub open spec fn nullable_text_of(json: JsonView) -> Result<Option<Seq<char>>, Seq<char>> {
    match json {
        JsonView::Null => Ok(None),
        _ => match text_of(json) {
            Ok(text) => Ok(Some(text)),
            Err(error) => Err(error),
        },
    }
}

/// Reads a text or null.
pub fn read_nullable_text(json: &Json) -> (r: Result<Option<String>, String>)
    ensures
        match r {
            Ok(text) => nullable_text_of(json.deep_view()) == Ok::<Option<Seq<char>>, Seq<char>>(
                text.deep_view(),
            ),
            Err(error) => nullable_text_of(json.deep_view()) == Err::<
                Option<Seq<char>>,
                Seq<char>,
            >(error@),
        },
{
    match json {
        Json::Null => Ok(None),
        _ => match read_text(json) {
            Ok(text) => Ok(Some(text)),
            Err(error) => Err(error),
        },
    }
}

/// A member that can be left out and otherwise is a text.
pub open spec fn text_field(
    json: JsonView,
    key: Seq<char>,
) -> Result<Option<Seq<char>>, Seq<char>> {
    match member(json, key) {
        None => Ok(None),
        Some(value) => match text_of(value) {
            Ok(text) => Ok(Some(text)),
            Err(error) => Err(error),
        },
    }
}

/// Reads a member that can be left out and otherwise is a text.
pub fn read_text_field(json: &Json, key: &str) -> (r: Result<Option<String>, String>)
    ensures
        match r {
            Ok(text) => text_field(json.deep_view(), key@) == Ok::<Option<Seq<char>>, Seq<char>>(
                text.deep_view(),
            ),
            Err(error) => text_field(json.deep_view(), key@) == Err::<Option<Seq<char>>, Seq<char>>(
                error@,
            ),
        },
{
    match json.get(key) {
        None => Ok(None),
        Some(value) => match read_text(value) {
            Ok(text) => Ok(Some(text)),
            Err(error) => Err(error),
        },
    }
}

/// A member that can be left out or be null, and otherwise is a text.
pub open spec fn nullable_text_field(json: JsonView, key: Seq<char>) -> Result<
    Option<Seq<char>>,
    Seq<char>,
> {
    match member(json, key) {
        None => Ok(None),
        Some(value) => nullable_text_of(value),
    }
}

/// Reads a member that can be left out or be null, and otherwise is a text.
pub fn read_nullable_text_field(json: &Json, key: &str) -> (r: Result<Option<String>, String>)
    ensures
        match r {
            Ok(text) => nullable_text_field(json.deep_view(), key@) == Ok::<
                Option<Seq<char>>,
                Seq<char>,
            >(text.deep_view()),
            Err(error) => nullable_text_field(json.deep_view(), key@) == Err::<
                Option<Seq<char>>,
                Seq<char>,
            >(error@),
        },
{
    match json.get(key) {
        None => Ok(None),
        Some(value) => read_nullable_text(value),
    }
}

/// A number of things or null.
pub open spec fn nullable_count_of(json: JsonView) -> Result<Option<usize>, Seq<char>> {
    match json {
        JsonView::Null => Ok(None),
        JsonView::Number(NumberView::Unsigned(n)) => if n <= usize::MAX {
            Ok(Some(n as usize))
        } else {
            Err(wrong_value(json, "usize"@))
        },
        JsonView::Number(NumberView::Negative(_)) => Err(wrong_value(json, "usize"@)),
        _ => Err(wrong_type(json, "usize"@)),
    }
}

/// Reads a number of things or null.
pub fn read_nullable_count(json: &Json) -> (r: Result<Option<usize>, String>)
    ensures
        match r {
            Ok(count) => nullable_count_of(json.deep_view()) == Ok::<Option<usize>, Seq<char>>(
                count,
            ),
            Err(error) => nullable_count_of(json.deep_view()) == Err::<Option<usize>, Seq<char>>(
                error@,
            ),
        },
{
    match json {
        Json::Null => Ok(None),
        Json::Number(JsonNumber::Unsigned(n)) => {
            if *n <= usize::MAX as u64 {
                Ok(Some(*n as usize))
            } else {
                Err(say_wrong_value(json, "usize"))
            }
        },
        Json::Number(JsonNumber::Negative(_)) => Err(say_wrong_value(json, "usize")),
        _ => Err(say_wrong_type(json, "usize")),
    }
}

/// The texts that items are, or what is said of the first that is none.
pub open spec fn texts_of(items: Seq<JsonView>) -> Result<Seq<Seq<char>>, Seq<char>>
    decreases items.len(),
{
    if items.len() == 0 {
        Ok(Seq::empty())
    } else {
        match texts_of(items.drop_last()) {
            Err(error) => Err(error),
            Ok(texts) => match text_of(items.last()) {
                Err(error) => Err(error),
                Ok(text) => Ok(texts.push(text)),
            },
        }
    }
}

proof fn lemma_first_error(items: Seq<JsonView>, n: int)
    requires
        0 <= n <= items.len(),
        texts_of(items.take(n)) is Err,
    ensures
        texts_of(items) == texts_of(items.take(n)),
    decreases items.len(),
{
    if n < items.len() {
        assert(items.drop_last().take(n) =~= items.take(n));
        lemma_first_error(items.drop_last(), n);
    } else {
        assert(items.take(n) =~= items);
    }
}

/// A list of texts or null.
pub open spec fn nullable_texts_of(json: JsonView) -> Result<Option<Seq<Seq<char>>>, Seq<char>> {
    match json {
        JsonView::Null => Ok(None),
        JsonView::Array(items) => match texts_of(items) {
            Ok(texts) => Ok(Some(texts)),
            Err(error) => Err(error),
        },
        _ => Err(wrong_type(json, "a sequence"@)),
    }
}

/// Reads a list of texts or null.
pub fn read_nullable_texts(json: &Json) -> (r: Result<Option<Vec<String>>, String>)
    ensures
        match r {
            Ok(texts) => nullable_texts_of(json.deep_view()) == Ok::<
                Option<Seq<Seq<char>>>,
                Seq<char>,
            >(texts.deep_view()),
            Err(error) => nullable_texts_of(json.deep_view()) == Err::<
                Option<Seq<Seq<char>>>,
                Seq<char>,
            >(error@),
        },
{
    match json {
        Json::Null => Ok(None),
        Json::Array(items) => {
            proof {
                lemma_array_view(*items);
            }
            let ghost views = items.deep_view();
            let mut texts: Vec<String> = Vec::new();
            assert(texts.deep_view() =~= Seq::empty());
            for i in 0..items.len()
                invariant
                    views == items.deep_view(),
                    json.deep_view() == JsonView::Array(views),
                    texts_of(views.take(i as int)) == Ok::<Seq<Seq<char>>, Seq<char>>(
                        texts.deep_view(),
                    ),
            {
                let ghost before = texts.deep_view();
                assert(views.take(i + 1).drop_last() =~= views.take(i as int));
                assert(views.take(i + 1).last() == items@[i as int].deep_view());
                match read_text(&items[i]) {
                    Ok(text) => {
                        texts.push(text);
                        assert(texts.deep_view() =~= before.push(text@));
                    },
                    Err(error) => {
                        proof {
                            lemma_first_error(views, i + 1);
                        }
                        return Err(error);
                    },
                }
            }
            assert(views.take(items.len() as int) =~= views);
            Ok(Some(texts))
        },
        _ => Err(say_wrong_type(json, "a sequence")),
    }
}

} // verus!
