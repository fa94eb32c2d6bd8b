//! When two documents hold the same, and how a document is written.

use crate::json::{
    compact, compact_items, compact_members, json_quoted, leveled, JsonView, NumberView,
};
use crate::text::{decimal, join};
use crate::text_map::{lemma_finite_is_walked, sorted_keys};
use vstd::prelude::*;

verus! {

/// An object has a value under a key.
pub open spec fn holds(json: JsonView, key: Seq<char>, value: JsonView) -> bool {
    json is Object && json->Object_0.contains_key(key) && json->Object_0[key] == value
}

/// A fraction that is zero.
pub open spec fn is_zero(number: NumberView) -> bool {
    number == NumberView::Fraction("0.0"@) || number == NumberView::Fraction("-0.0"@)
}

/// Two documents hold the same: the same parts at the same places, where the two zeros are one
/// number.
pub open spec fn equals(a: JsonView, b: JsonView) -> bool
    decreases a,
{
    match (a, b) {
        (JsonView::Number(x), JsonView::Number(y)) => x == y || is_zero(x) && is_zero(y),
        (JsonView::Array(x), JsonView::Array(y)) => x.len() == y.len() && forall|i: int|
            0 <= i < x.len() ==> equals(#[trigger] x[i], y[i]),
        (JsonView::Object(x), JsonView::Object(y)) => (forall|key: Seq<char>|
            x.contains_key(key) <==> y.contains_key(key)) && forall|key: Seq<char>|
            #[trigger]
            x.contains_key(key) ==> equals(x[key], y[key]),
        _ => a == b,
    }
}

/// Values compare equal where they hold the same.
pub proof fn law_values_compare_by_what_they_hold(a: JsonView, b: JsonView)
    ensures
        leveled(a) == leveled(b) <==> equals(a, b),
    decreases a,
{
    let x = leveled(a);
    let y = leveled(b);
    if a is Number && b is Number {
        reveal_strlit("0.0");
        reveal_strlit("-0.0");
        assert("0.0"@.len() != "-0.0"@.len());
    } else if a is Array && b is Array {
        let p = a->Array_0;
        let q = b->Array_0;
        assert forall|i: int| 0 <= i < p.len() && i < q.len() implies (equals(#[trigger] p[i], q[i])
            <==> leveled(p[i]) == leveled(q[i])) by {
            assert(decreases_to!(a => a->Array_0[i]));
            law_values_compare_by_what_they_hold(p[i], q[i]);
        }
        if equals(a, b) {
            assert(x->Array_0 =~= y->Array_0) by {
                assert forall|i: int| 0 <= i < p.len() implies x->Array_0[i] == y->Array_0[i] by {
                    assert(equals(p[i], q[i]));
                }
            }
        }
        if x == y {
            assert(p.len() == x->Array_0.len());
            assert(q.len() == y->Array_0.len());
            assert forall|i: int| 0 <= i < p.len() implies equals(#[trigger] p[i], q[i]) by {
                assert(x->Array_0[i] == leveled(p[i]));
                assert(y->Array_0[i] == leveled(q[i]));
            }
        }
    } else if a is Object && b is Object {
        let p = a->Object_0;
        let q = b->Object_0;
        assert forall|key: Seq<char>| #[trigger] p.contains_key(key) && q.contains_key(
            key,
        ) implies (equals(p[key], q[key]) <==> leveled(p[key]) == leveled(q[key])) by {
            assert(decreases_to!(a => a->Object_0[key]));
            law_values_compare_by_what_they_hold(p[key], q[key]);
        }
        if equals(a, b) {
            assert(x->Object_0 =~= y->Object_0);
        }
        if x == y {
            assert forall|key: Seq<char>| p.contains_key(key) <==> q.contains_key(key) by {
                assert(x->Object_0.contains_key(key) <==> p.contains_key(key));
                assert(y->Object_0.contains_key(key) <==> q.contains_key(key));
            }
            assert forall|key: Seq<char>| #[trigger] p.contains_key(key) implies equals(
                p[key],
                q[key],
            ) by {
                assert(q.contains_key(key));
                assert(x->Object_0[key] == leveled(p[key]));
                assert(y->Object_0[key] == leveled(q[key]));
            }
        }
    }
}

/// What holds the same as another is held the same by it.
pub proof fn lemma_equals_both_ways(a: JsonView, b: JsonView)
    ensures
        equals(a, b) == equals(b, a),
{
    law_values_compare_by_what_they_hold(a, b);
    law_values_compare_by_what_they_hold(b, a);
}

/// An array is written as its items in their order between brackets, with commas between them, and an
/// object as its members in the order of their keys between braces, each key before its value. A
/// number is written in its digits, with its sign where it is negative.
pub proof fn law_documents_are_written_in_order(json: JsonView)
    ensures
        json matches JsonView::Array(items) ==> compact(json) == seq!['['] + join(
            Seq::new(items.len(), |i: int| compact(items[i])),
            seq![','],
        ) + seq![']'],
        json matches JsonView::Object(members) ==> members.dom().finite() ==> compact(json) == seq![
            '{',
        ] + join(
            Seq::new(
                sorted_keys(members.dom()).len(),
                |i: int|
                    json_quoted(sorted_keys(members.dom())[i]) + seq![':'] + compact(
                        members[sorted_keys(members.dom())[i]],
                    ),
            ),
            seq![','],
        ) + seq!['}'],
        json matches JsonView::Number(NumberView::Unsigned(n)) ==> compact(json) == decimal(
            n as nat,
        ),
        json matches JsonView::Number(NumberView::Negative(n)) ==> n < 0 ==> compact(json) == seq![
            '-',
        ] + decimal((-n) as nat),
        json matches JsonView::Text(text) ==> compact(json) == json_quoted(text),
{
    reveal_strlit("[");
    reveal_strlit("]");
    reveal_strlit("{");
    reveal_strlit("}");
    reveal_strlit(",");
    reveal_strlit("-");
    assert("["@ =~= seq!['[']);
    assert("]"@ =~= seq![']']);
    assert("{"@ =~= seq!['{']);
    assert("}"@ =~= seq!['}']);
    assert(","@ =~= seq![',']);
    assert("-"@ =~= seq!['-']);
    match json {
        JsonView::Array(items) => {
            lemma_items_in_order(items);
        },
        JsonView::Object(members) => {
            if members.dom().finite() {
                let keys = sorted_keys(members.dom());
                lemma_finite_is_walked(members.dom());
                assert forall|i: int| 0 <= i < keys.len() implies members.contains_key(
                    #[trigger] keys[i],
                ) by {
                    assert(keys.contains(keys[i]));
                }
                lemma_members_in_order(json, keys);
            }
        },
        _ => {},
    }
}

proof fn lemma_items_in_order(items: Seq<JsonView>)
    ensures
        compact_items(items) == Seq::new(items.len(), |i: int| compact(items[i])),
    decreases items.len(),
{
    if items.len() > 0 {
        lemma_items_in_order(items.drop_last());
    }
    assert(compact_items(items) =~= Seq::new(items.len(), |i: int| compact(items[i])));
}

proof fn lemma_members_in_order(json: JsonView, keys: Seq<Seq<char>>)
    requires
        json is Object,
        forall|i: int| 0 <= i < keys.len() ==> json->Object_0.contains_key(#[trigger] keys[i]),
    ensures
        compact_members(json, keys) == Seq::new(
            keys.len(),
            |i: int| json_quoted(keys[i]) + seq![':'] + compact(json->Object_0[keys[i]]),
        ),
    decreases keys.len(),
{
    reveal_strlit(":");
    assert(":"@ =~= seq![':']);
    if keys.len() > 0 {
        let init = keys.drop_last();
        assert forall|i: int| 0 <= i < init.len() implies json->Object_0.contains_key(
            #[trigger] init[i],
        ) by {
            assert(init[i] == keys[i]);
        }
        lemma_members_in_order(json, init);
        assert(json->Object_0.contains_key(keys[keys.len() - 1]));
    }
    assert(compact_members(json, keys) =~= Seq::new(
        keys.len(),
        |i: int| json_quoted(keys[i]) + seq![':'] + compact(json->Object_0[keys[i]]),
    ));
}

} // verus!
