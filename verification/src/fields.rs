//! Typed members of JSON objects.

use crate::json::{lemma_array_view, lemma_object_view, member, no_members, Json, JsonView};
use crate::same::Replica;
use crate::text::glue3;
use vstd::prelude::*;

verus! {

/// The texts of a list of names.
pub open spec fn names_of(names: Seq<&str>) -> Seq<Seq<char>> {
    names.map_values(|name: &str| name@)
}

/// The members that items are when each has the name that stands at its position.
pub open spec fn named_members(items: Seq<JsonView>, names: Seq<Seq<char>>) -> Map<
    Seq<char>,
    JsonView,
>
    decreases items.len(),
{
    if items.len() == 0 {
        Map::empty()
    } else {
        named_members(items.drop_last(), names).insert(
            names[items.len() - 1],
            items[items.len() - 1],
        )
    }
}

/// The object that a record with the given fields is read from. A record can stand as an array of
/// its fields in order, where at most those after the first `least` are left out. Anything else is
/// no record, and null stands for it.
pub open spec fn fielded(json: JsonView, names: Seq<Seq<char>>, least: nat) -> JsonView {
    match json {
        JsonView::Object(_) => json,
        JsonView::Array(items) => if least <= items.len() <= names.len() {
            JsonView::Object(named_members(items, names))
        } else {
            JsonView::Null
        },
        _ => JsonView::Null,
    }
}

/// The object that a record with the given fields is read from, or null.
pub fn as_fields(json: &Json, names: &Vec<&str>, least: usize) -> (r: Json)
    ensures
        r.deep_view() == fielded(json.deep_view(), names_of(names@), least as nat),
{
    match json {
        Json::Object(members) => {
            proof {
                lemma_object_view(*members);
            }
            json.replica()
        },
        Json::Array(items) => {
            proof {
                lemma_array_view(*items);
            }
            let ghost views = items.deep_view();
            let ghost texts = names_of(names@);
            if items.len() < least || items.len() > names.len() {
                return Json::Null;
            }
            let mut members = no_members();
            assert(views.take(0) =~= Seq::<JsonView>::empty());
            for i in 0..items.len()
                invariant
                    items.len() <= names.len(),
                    views == items.deep_view(),
                    texts == names_of(names@),
                    members.deep_view() == named_members(views.take(i as int), texts),
            {
                members = members.with(names[i], items[i].replica());
                assert(views.take(i + 1).drop_last() =~= views.take(i as int));
                assert(views.take(i + 1)[i as int] == items@[i as int].deep_view());
            }
            assert(views.take(items.len() as int) =~= views);
            Json::object(members)
        },
        _ => Json::Null,
    }
}

/// A member that must be there and be a text.
pub open spec fn required_text_of(json: JsonView, key: Seq<char>) -> Option<Seq<char>> {
    match member(json, key) {
        Some(JsonView::Text(text)) => Some(text),
        _ => None,
    }
}

/// Reads a member that must be there and be a text.
pub fn required_text(json: &Json, key: &str) -> (r: Result<String, String>)
    ensures
        match r {
            Ok(text) => required_text_of(json.deep_view(), key@)
                == Some(text@),
            Err(_) => required_text_of(json.deep_view(), key@) is None,
        },
{
    match json.get(key) {
        Some(Json::Text(text)) => Ok(text.clone()),
        Some(_) => Err(glue3("field `", key, "` is not a string")),
        None => Err(glue3("missing field `", key, "`")),
    }
}

/// A member that may be left out or be null, and else must be a text.
pub open spec fn optional_text_of(json: JsonView, key: Seq<char>) -> Option<Option<Seq<char>>> {
    match member(json, key) {
        None => Some(None),
        Some(JsonView::Null) => Some(None),
        Some(JsonView::Text(text)) => Some(Some(text)),
        Some(_) => None,
    }
}

/// Reads a member that may be left out or be null, and else must be a text.
pub fn optional_text(json: &Json, key: &str) -> (r: Result<Option<String>, String>)
    ensures
        match r {
            Ok(text) => optional_text_of(json.deep_view(), key@) == Some(text.deep_view()),
            Err(_) => optional_text_of(json.deep_view(), key@) is None,
        },
{
    match json.get(key) {
        None => Ok(None),
        Some(Json::Null) => Ok(None),
        Some(Json::Text(text)) => Ok(Some(text.clone())),
        Some(_) => Err(glue3("field `", key, "` is not a string")),
    }
}

} // verus!
