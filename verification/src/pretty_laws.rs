//! What is read from a document that is written over several lines.

use crate::document::is_read_as;
use crate::json::{JsonView, NumberView};
use crate::pretty::{pretty, pretty_items, pretty_members};
use crate::spelling::{
    depth_limit, in_order, is_plain_json, items_in_order, laid_out, laid_out_fields,
    laid_out_items, lemma_plain_in_order, members_in_order, Spelling,
};
use crate::text_map::sorted_keys;
use vstd::prelude::*;

verus! {

proof fn lemma_laid_out(json: JsonView, margin: Seq<char>)
    ensures
        laid_out(in_order(json), margin) == pretty(json, margin),
    decreases json, 1nat, 0nat,
{
    match json {
        JsonView::Array(items) => {
            assert(decreases_to!(json => json->Array_0));
            lemma_laid_out_items(items, margin + "  "@);
        },
        JsonView::Object(members) => {
            lemma_laid_out_members(json, sorted_keys(members.dom()), margin + "  "@);
        },
        _ => {},
    }
}

proof fn lemma_laid_out_items(items: Seq<JsonView>, margin: Seq<char>)
    ensures
        items_in_order(items).len() == items.len(),
        laid_out_items(items_in_order(items), margin) == pretty_items(items, margin),
    decreases items, 0nat, 0nat,
{
    if items.len() > 0 {
        let spellings = items_in_order(items);
        lemma_laid_out_items(items.drop_last(), margin);
        lemma_laid_out(items.last(), margin);
        assert(spellings.drop_last() =~= items_in_order(items.drop_last()));
    }
}

proof fn lemma_laid_out_members(json: JsonView, keys: Seq<Seq<char>>, margin: Seq<char>)
    requires
        json is Object,
    ensures
        members_in_order(json, keys).len() == keys.len(),
        laid_out_fields(members_in_order(json, keys), margin) == pretty_members(json, keys, margin),
    decreases json, 0nat, keys.len(),
{
    let fields = members_in_order(json, keys);
    if keys.len() > 0 {
        let key = keys.last();
        lemma_laid_out_members(json, keys.drop_last(), margin);
        assert(fields.drop_last() =~= members_in_order(json, keys.drop_last()));
        if json->Object_0.contains_key(key) {
            assert(decreases_to!(json => json->Object_0[key]));
            lemma_laid_out(json->Object_0[key], margin);
        }
        assert(laid_out(Spelling::Null, margin) == "null"@);
    }
}

/// A plain document that is written over several lines is read as that document, by a reader that
/// takes plain texts for what they spell.
pub proof fn law_pretty_is_read_back(json: JsonView, document: Option<JsonView>)
    requires
        is_plain_json(json, depth_limit()),
        is_read_as(pretty(json, Seq::empty()), document),
    ensures
        document == Some(json),
{
    reveal_strlit("");
    assert(""@ =~= Seq::<char>::empty());
    lemma_laid_out(json, ""@);
    lemma_plain_in_order(json, depth_limit());
    assert(laid_out(in_order(json), ""@) == pretty(json, Seq::empty()));
}

/// Texts, whole numbers, and arrays and finite objects of plain documents are plain, as long as they
/// are not nested too deep.
pub proof fn law_ordinary_documents_are_plain(json: JsonView, depth: nat)
    ensures
        json is Null || json is Bool || json is Text ==> is_plain_json(json, depth),
        json matches JsonView::Number(NumberView::Unsigned(_)) ==> is_plain_json(json, depth),
        json matches JsonView::Number(NumberView::Negative(n)) ==> (n < 0 ==> is_plain_json(
            json,
            depth,
        )),
        json matches JsonView::Array(items) ==> (is_plain_json(json, depth + 1) <==> forall|i: int|
            0 <= i < items.len() ==> is_plain_json(#[trigger] items[i], depth)),
        json matches JsonView::Object(members) ==> (members.dom().finite() ==> (is_plain_json(
            json,
            depth + 1,
        ) <==> forall|key: Seq<char>|
            members.contains_key(key) ==> is_plain_json(#[trigger] members[key], depth))),
        depth_limit() > 100,
{
}

} // verus!
