//! How documents are spelled without white space, with the members of each object in any order.

use crate::codec::{array_text, field_texts, object_text, FieldText};
use crate::json::{
    compact, compact_items, compact_members, json_quoted, number_text, JsonView, NumberView,
};
use crate::text::{join, lemma_text_less_irreflexive, text_less};
use crate::text_map::{ascending, lemma_finite_is_walked, sorted_keys};
use vstd::prelude::*;

verus! {

/// A document as it is spelled: the members of an object stand in an order.
pub enum Spelling {
    Null,
    Bool(bool),
    Number(NumberView),
    Text(Seq<char>),
    Array(Seq<Spelling>),
    Object(Seq<(Seq<char>, Spelling)>),
}

/// The text of a spelling.
pub open spec fn spelled(spelling: Spelling) -> Seq<char>
    decreases spelling,
{
    match spelling {
        Spelling::Null => "null"@,
        Spelling::Bool(b) => if b {
            "true"@
        } else {
            "false"@
        },
        Spelling::Number(n) => number_text(n),
        Spelling::Text(text) => json_quoted(text),
        Spelling::Array(items) => array_text(spelled_items(items)),
        Spelling::Object(fields) => object_text(spelled_fields(fields)),
    }
}

/// The texts of the items of an array.
pub open spec fn spelled_items(items: Seq<Spelling>) -> Seq<Seq<char>>
    decreases items,
{
    if items.len() == 0 {
        Seq::empty()
    } else {
        spelled_items(items.drop_last()).push(spelled(items.last()))
    }
}

/// The texts of the members of an object.
pub open spec fn spelled_fields(fields: Seq<(Seq<char>, Spelling)>) -> Seq<FieldText>
    decreases fields,
{
    if fields.len() == 0 {
        Seq::empty()
    } else {
        spelled_fields(fields.drop_last()).push((fields.last().0, spelled(fields.last().1)))
    }
}

/// The text of a spelling with each item and member on a line of its own, two spaces further in
/// than what holds it.
pub open spec fn laid_out(spelling: Spelling, margin: Seq<char>) -> Seq<char>
    decreases spelling,
{
    match spelling {
        Spelling::Array(items) => if items.len() == 0 {
            "[]"@
        } else {
            "[\n"@ + join(laid_out_items(items, margin + "  "@), ",\n"@) + "\n"@ + margin + "]"@
        },
        Spelling::Object(fields) => if fields.len() == 0 {
            "{}"@
        } else {
            "{\n"@ + join(laid_out_fields(fields, margin + "  "@), ",\n"@) + "\n"@ + margin + "}"@
        },
        _ => spelled(spelling),
    }
}

/// The items of an array, each with its margin.
pub open spec fn laid_out_items(items: Seq<Spelling>, margin: Seq<char>) -> Seq<Seq<char>>
    decreases items,
{
    if items.len() == 0 {
        Seq::empty()
    } else {
        laid_out_items(items.drop_last(), margin).push(margin + laid_out(items.last(), margin))
    }
}

/// The members of an object, each with its margin.
pub open spec fn laid_out_fields(fields: Seq<(Seq<char>, Spelling)>, margin: Seq<char>) -> Seq<
    Seq<char>,
>
    decreases fields,
{
    if fields.len() == 0 {
        Seq::empty()
    } else {
        laid_out_fields(fields.drop_last(), margin).push(
            margin + json_quoted(fields.last().0) + ": "@ + laid_out(fields.last().1, margin),
        )
    }
}

/// The document that a spelling stands for.
pub open spec fn meant(spelling: Spelling) -> JsonView
    decreases spelling,
{
    match spelling {
        Spelling::Null => JsonView::Null,
        Spelling::Bool(b) => JsonView::Bool(b),
        Spelling::Number(n) => JsonView::Number(n),
        Spelling::Text(text) => JsonView::Text(text),
        Spelling::Array(items) => JsonView::Array(meant_items(items)),
        Spelling::Object(fields) => JsonView::Object(meant_fields(fields)),
    }
}

/// The items that the items of an array stand for.
pub open spec fn meant_items(items: Seq<Spelling>) -> Seq<JsonView>
    decreases items,
{
    if items.len() == 0 {
        Seq::empty()
    } else {
        meant_items(items.drop_last()).push(meant(items.last()))
    }
}

/// The members that the members of an object stand for.
pub open spec fn meant_fields(fields: Seq<(Seq<char>, Spelling)>) -> Map<Seq<char>, JsonView>
    decreases fields,
{
    if fields.len() == 0 {
        Map::empty()
    } else {
        meant_fields(fields.drop_last()).insert(fields.last().0, meant(fields.last().1))
    }
}

/// Digits, at least one.
pub open spec fn are_digits(text: Seq<char>) -> bool {
    text.len() > 0 && forall|i: int| 0 <= i < text.len() ==> '0' <= #[trigger] text[i] <= '9'
}

/// How many zeros a text begins with.
pub open spec fn leading_zeros(text: Seq<char>) -> nat
    decreases text.len(),
{
    if text.len() > 0 && text[0] == '0' {
        1 + leading_zeros(text.drop_first())
    } else {
        0
    }
}

/// How many significant digits a decimal number has, by what stands before and behind its point.
/// Zeros at the end count only before the point.
pub open spec fn significant_digits(whole: Seq<char>, part: Seq<char>) -> int {
    if part == "0"@ {
        whole.len() as int
    } else if whole == "0"@ {
        part.len() - leading_zeros(part)
    } else {
        (whole.len() + part.len()) as int
    }
}

/// A decimal number with at most fifteen significant digits, in its shortest form with a point: no
/// zero that could be left out, and at most four zeros between the point and the first other digit.
pub open spec fn is_decimal(sign: Seq<char>, whole: Seq<char>, part: Seq<char>) -> bool {
    &&& sign == ""@ || sign == "-"@
    &&& are_digits(whole) && (whole[0] == '0' ==> whole == "0"@)
    &&& are_digits(part) && (part.last() == '0' ==> part == "0"@)
    &&& whole == "0"@ && part != "0"@ ==> leading_zeros(part) <= 4
    &&& significant_digits(whole, part) <= 15
}

/// The text of a decimal number with at most fifteen significant digits, in its shortest form.
pub open spec fn is_short_fraction(text: Seq<char>) -> bool {
    exists|sign: Seq<char>, whole: Seq<char>, part: Seq<char>|
        text == sign + whole + "."@ + part && #[trigger] is_decimal(sign, whole, part)
}

/// A spelling that is nested at most `depth` deep and whose numbers are whole or short fractions.
pub open spec fn is_plain(spelling: Spelling, depth: nat) -> bool
    decreases spelling,
{
    match spelling {
        Spelling::Number(NumberView::Negative(n)) => n < 0,
        Spelling::Number(NumberView::Fraction(text)) => is_short_fraction(text),
        Spelling::Array(items) => depth > 0 && all_plain(items, (depth - 1) as nat),
        Spelling::Object(fields) => depth > 0 && fields_plain(fields, (depth - 1) as nat),
        _ => true,
    }
}

/// All items are plain.
pub open spec fn all_plain(items: Seq<Spelling>, depth: nat) -> bool
    decreases items,
{
    items.len() == 0 || (all_plain(items.drop_last(), depth) && is_plain(items.last(), depth))
}

/// All members are plain, and no two have the same key.
pub open spec fn fields_plain(fields: Seq<(Seq<char>, Spelling)>, depth: nat) -> bool
    decreases fields,
{
    fields.len() == 0 || (fields_plain(fields.drop_last(), depth) && is_plain(
        fields.last().1,
        depth,
    ) && !meant_fields(fields.drop_last()).contains_key(fields.last().0))
}

/// How deep a document may be nested for `serde_json` to read it.
pub open spec fn depth_limit() -> nat {
    127
}

/// The spelling of a document, the members of each object in ascending key order.
pub open spec fn in_order(json: JsonView) -> Spelling
    decreases json, 1nat, 0nat,
{
    match json {
        JsonView::Null => Spelling::Null,
        JsonView::Bool(b) => Spelling::Bool(b),
        JsonView::Number(n) => Spelling::Number(n),
        JsonView::Text(text) => Spelling::Text(text),
        JsonView::Array(items) => Spelling::Array(items_in_order(items)),
        JsonView::Object(members) => Spelling::Object(
            members_in_order(json, sorted_keys(members.dom())),
        ),
    }
}

/// The spellings of the items of an array.
pub open spec fn items_in_order(items: Seq<JsonView>) -> Seq<Spelling>
    decreases items, 0nat, 0nat,
{
    if items.len() == 0 {
        Seq::empty()
    } else {
        items_in_order(items.drop_last()).push(in_order(items.last()))
    }
}

/// The spellings of the members of `json` with the given keys.
pub open spec fn members_in_order(json: JsonView, keys: Seq<Seq<char>>) -> Seq<
    (Seq<char>, Spelling),
>
    decreases json, 0nat, keys.len(),
{
    if keys.len() == 0 {
        Seq::empty()
    } else {
        members_in_order(json, keys.drop_last()).push(
            (
                keys.last(),
                if json is Object && json->Object_0.contains_key(keys.last()) {
                    in_order(json->Object_0[keys.last()])
                } else {
                    Spelling::Null
                },
            ),
        )
    }
}

/// A document that is nested at most `depth` deep, whose numbers are whole or short fractions and
/// whose objects are finite.
pub open spec fn is_plain_json(json: JsonView, depth: nat) -> bool
    decreases depth,
{
    match json {
        JsonView::Number(NumberView::Negative(n)) => n < 0,
        JsonView::Number(NumberView::Fraction(text)) => is_short_fraction(text),
        JsonView::Array(items) => depth > 0 && forall|i: int|
            0 <= i < items.len() ==> is_plain_json(#[trigger] items[i], (depth - 1) as nat),
        JsonView::Object(members) => depth > 0 && members.dom().finite() && forall|key: Seq<char>|
            members.contains_key(key) ==> is_plain_json(
                #[trigger] members[key],
                (depth - 1) as nat,
            ),
        _ => true,
    }
}

/// The spelling of a document in order is the document without white space.
pub proof fn lemma_in_order_is_compact(json: JsonView)
    ensures
        spelled(in_order(json)) == compact(json),
    decreases json, 1nat, 0nat,
{
    match json {
        JsonView::Array(items) => {
            assert(decreases_to!(json => json->Array_0));
            lemma_items_are_compact(items);
        },
        JsonView::Object(members) => {
            lemma_members_are_compact(json, sorted_keys(members.dom()));
        },
        _ => {},
    }
}

proof fn lemma_items_are_compact(items: Seq<JsonView>)
    ensures
        spelled_items(items_in_order(items)) == compact_items(items),
    decreases items, 0nat, 0nat,
{
    if items.len() > 0 {
        let spellings = items_in_order(items);
        lemma_items_are_compact(items.drop_last());
        lemma_in_order_is_compact(items.last());
        assert(spellings.drop_last() =~= items_in_order(items.drop_last()));
        assert(spellings.last() == in_order(items.last()));
    }
}

proof fn lemma_members_are_compact(json: JsonView, keys: Seq<Seq<char>>)
    requires
        json is Object,
    ensures
        field_texts(spelled_fields(members_in_order(json, keys))) == compact_members(json, keys),
    decreases json, 0nat, keys.len(),
{
    let fields = members_in_order(json, keys);
    if keys.len() > 0 {
        let key = keys.last();
        lemma_members_are_compact(json, keys.drop_last());
        assert(fields.drop_last() =~= members_in_order(json, keys.drop_last()));
        if json->Object_0.contains_key(key) {
            assert(decreases_to!(json => json->Object_0[key]));
            lemma_in_order_is_compact(json->Object_0[key]);
        }
        let texts = spelled_fields(fields);
        assert(texts.drop_last() =~= spelled_fields(fields.drop_last()));
        assert(texts.last() == (key, spelled(fields.last().1)));
        assert(spelled(Spelling::Null) == "null"@);
        assert(field_texts(texts) =~= field_texts(texts.drop_last()).push(
            json_quoted(texts.last().0) + ":"@ + texts.last().1,
        ));
    }
    assert(field_texts(spelled_fields(fields)) =~= compact_members(json, keys));
}

/// A plain document is spelled plainly, and its spelling in order stands for it.
pub proof fn lemma_plain_in_order(json: JsonView, depth: nat)
    requires
        is_plain_json(json, depth),
    ensures
        is_plain(in_order(json), depth),
        meant(in_order(json)) == json,
    decreases depth, 0nat,
{
    match json {
        JsonView::Array(items) => {
            lemma_plain_items(items, (depth - 1) as nat);
        },
        JsonView::Object(members) => {
            let keys = sorted_keys(members.dom());
            lemma_finite_is_walked(members.dom());
            lemma_plain_members(json, keys, (depth - 1) as nat);
            let meant_members = meant_fields(members_in_order(json, keys));
            assert forall|key: Seq<char>| #[trigger] meant_members.contains_key(key)
                <==> members.contains_key(key) by {
                assert(keys.contains(key) <==> members.dom().contains(key));
            }
            assert(meant_members =~= members);
        },
        _ => {},
    }
}

proof fn lemma_plain_items(items: Seq<JsonView>, depth: nat)
    requires
        forall|i: int| 0 <= i < items.len() ==> is_plain_json(#[trigger] items[i], depth),
    ensures
        all_plain(items_in_order(items), depth),
        meant_items(items_in_order(items)) == items,
    decreases depth, items.len(),
{
    let spellings = items_in_order(items);
    if items.len() > 0 {
        let init = items.drop_last();
        assert forall|i: int| 0 <= i < init.len() implies is_plain_json(#[trigger] init[i], depth) by {
            assert(init[i] == items[i]);
        }
        lemma_plain_items(init, depth);
        assert(is_plain_json(items[items.len() - 1], depth));
        lemma_plain_in_order(items.last(), depth);
        assert(spellings.drop_last() =~= items_in_order(init));
        assert(meant_items(spellings) =~= items);
    } else {
        assert(meant_items(spellings) =~= items);
    }
}

proof fn lemma_plain_members(json: JsonView, keys: Seq<Seq<char>>, depth: nat)
    requires
        json is Object,
        ascending(keys),
        forall|key: Seq<char>| #[trigger]
            keys.contains(key) ==> json->Object_0.contains_key(key) && is_plain_json(
                json->Object_0[key],
                depth,
            ),
    ensures
        fields_plain(members_in_order(json, keys), depth),
        forall|key: Seq<char>| #[trigger]
            meant_fields(members_in_order(json, keys)).contains_key(key) <==> keys.contains(key),
        forall|key: Seq<char>| #[trigger]
            keys.contains(key) ==> meant_fields(members_in_order(json, keys))[key]
                == json->Object_0[key],
    decreases depth, keys.len(),
{
    let fields = members_in_order(json, keys);
    if keys.len() > 0 {
        let init = keys.drop_last();
        let last = keys.last();
        assert(ascending(init)) by {
            assert forall|i: int, j: int| 0 <= i < j < init.len() implies text_less(
                #[trigger] init[i],
                #[trigger] init[j],
            ) by {
                assert(text_less(keys[i], keys[j]));
            }
        }
        assert forall|key: Seq<char>| #[trigger] keys.contains(key) <==> init.contains(key) || key
            == last by {
            if keys.contains(key) && key != last {
                let i = choose|i: int| 0 <= i < keys.len() && keys[i] == key;
                assert(init[i] == key);
            }
            if init.contains(key) {
                let i = choose|i: int| 0 <= i < init.len() && init[i] == key;
                assert(keys[i] == key);
            }
            assert(keys[keys.len() - 1] == last);
        }
        assert(!init.contains(last)) by {
            lemma_text_less_irreflexive(last);
            if init.contains(last) {
                let i = choose|i: int| 0 <= i < init.len() && init[i] == last;
                assert(text_less(keys[i], keys[keys.len() - 1]));
            }
        }
        assert(keys.contains(last));
        assert forall|key: Seq<char>| #[trigger] init.contains(key) implies json->Object_0.contains_key(
            key,
        ) && is_plain_json(json->Object_0[key], depth) by {
            assert(keys.contains(key));
        }
        lemma_plain_members(json, init, depth);
        lemma_plain_in_order(json->Object_0[last], depth);
        assert(fields.drop_last() =~= members_in_order(json, init));
    }
}

/// An object with one more member.
pub proof fn lemma_one_more(
    fields: Seq<(Seq<char>, Spelling)>,
    key: Seq<char>,
    spelling: Spelling,
    depth: nat,
)
    ensures
        spelled_fields(fields.push((key, spelling))) == spelled_fields(fields).push(
            (key, spelled(spelling)),
        ),
        meant_fields(fields.push((key, spelling))) == meant_fields(fields).insert(
            key,
            meant(spelling),
        ),
        fields_plain(fields.push((key, spelling)), depth) == (fields_plain(fields, depth)
            && is_plain(spelling, depth) && !meant_fields(fields).contains_key(key)),
{
    assert(fields.push((key, spelling)).drop_last() =~= fields);
}

/// An object without members.
pub proof fn lemma_no_fields(depth: nat)
    ensures
        spelled_fields(Seq::empty()) == Seq::<FieldText>::empty(),
        meant_fields(Seq::empty()) == Map::<Seq<char>, JsonView>::empty(),
        fields_plain(Seq::empty(), depth),
{
}

/// The items of an array one by one.
pub proof fn lemma_each_item(items: Seq<Spelling>, depth: nat)
    ensures
        spelled_items(items) == Seq::new(items.len(), |i: int| spelled(items[i])),
        meant_items(items) == Seq::new(items.len(), |i: int| meant(items[i])),
        (forall|i: int| 0 <= i < items.len() ==> is_plain(#[trigger] items[i], depth))
            ==> all_plain(items, depth),
    decreases items.len(),
{
    if items.len() > 0 {
        lemma_each_item(items.drop_last(), depth);
        if forall|i: int| 0 <= i < items.len() ==> is_plain(#[trigger] items[i], depth) {
            assert forall|i: int| 0 <= i < items.drop_last().len() implies is_plain(
                #[trigger] items.drop_last()[i],
                depth,
            ) by {
                assert(items.drop_last()[i] == items[i]);
            }
            assert(is_plain(items[items.len() - 1], depth));
        }
    }
    assert(spelled_items(items) =~= Seq::new(items.len(), |i: int| spelled(items[i])));
    assert(meant_items(items) =~= Seq::new(items.len(), |i: int| meant(items[i])));
}

/// The keys of members.
pub open spec fn field_keys(fields: Seq<(Seq<char>, Spelling)>) -> Seq<Seq<char>> {
    Seq::new(fields.len(), |i: int| fields[i].0)
}

/// The members of an object one by one, where the keys ascend.
pub proof fn lemma_each_field(fields: Seq<(Seq<char>, Spelling)>, depth: nat)
    requires
        ascending(field_keys(fields)),
    ensures
        spelled_fields(fields) == Seq::new(
            fields.len(),
            |i: int| (fields[i].0, spelled(fields[i].1)),
        ),
        forall|key: Seq<char>| #[trigger]
            meant_fields(fields).contains_key(key) <==> field_keys(fields).contains(key),
        forall|i: int|
            0 <= i < fields.len() ==> meant_fields(fields)[(#[trigger] fields[i]).0] == meant(
                fields[i].1,
            ),
        (forall|i: int| 0 <= i < fields.len() ==> is_plain((#[trigger] fields[i]).1, depth))
            ==> fields_plain(fields, depth),
    decreases fields.len(),
{
    let keys = field_keys(fields);
    if fields.len() > 0 {
        let init = fields.drop_last();
        let last = fields.last();
        assert(field_keys(init) =~= keys.drop_last());
        assert forall|i: int, j: int| 0 <= i < j < field_keys(init).len() implies text_less(
            #[trigger] field_keys(init)[i],
            #[trigger] field_keys(init)[j],
        ) by {
            assert(text_less(keys[i], keys[j]));
        }
        lemma_each_field(init, depth);
        assert forall|i: int| 0 <= i < init.len() implies (#[trigger] init[i]).0 != last.0 by {
            lemma_text_less_irreflexive(last.0);
            assert(text_less(keys[i], keys[keys.len() - 1]));
        }
        assert(!field_keys(init).contains(last.0));
        assert forall|key: Seq<char>| #[trigger] meant_fields(fields).contains_key(key)
            <==> keys.contains(key) by {
            if keys.contains(key) && key != last.0 {
                let i = choose|i: int| 0 <= i < keys.len() && keys[i] == key;
                assert(field_keys(init)[i] == key);
            }
            if field_keys(init).contains(key) {
                let i = choose|i: int| 0 <= i < init.len() && field_keys(init)[i] == key;
                assert(keys[i] == key);
            }
            assert(keys[keys.len() - 1] == last.0);
        }
        assert forall|i: int| 0 <= i < fields.len() implies meant_fields(fields)[(
        #[trigger] fields[i]).0] == meant(fields[i].1) by {
            if i < init.len() {
                assert(init[i] == fields[i]);
            }
        }
        if forall|i: int| 0 <= i < fields.len() ==> is_plain((#[trigger] fields[i]).1, depth) {
            assert forall|i: int| 0 <= i < init.len() implies is_plain((#[trigger] init[i]).1, depth) by {
                assert(init[i] == fields[i]);
            }
            assert(is_plain(fields[fields.len() - 1].1, depth));
        }
    }
    assert(spelled_fields(fields) =~= Seq::new(
        fields.len(),
        |i: int| (fields[i].0, spelled(fields[i].1)),
    ));
}

} // verus!
