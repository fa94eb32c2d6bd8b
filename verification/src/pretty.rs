//! Documents written over several lines.

use crate::json::{
    json_quoted, lemma_array_view, lemma_object_view, number_text, quoted, write_number, Json,
    JsonView,
};
use crate::text::{glue2, join, lemma_join_push};
use crate::text_map::sorted_keys;
use vstd::prelude::*;

verus! {

/// A document with each item and member on a line of its own, two spaces further in than what
/// holds it, the members of each object in ascending key order.
pub open spec fn pretty(json: JsonView, margin: Seq<char>) -> Seq<char>
    decreases json, 1nat, 0nat,
{
    match json {
        JsonView::Null => "null"@,
        JsonView::Bool(b) => if b {
            "true"@
        } else {
            "false"@
        },
        JsonView::Number(n) => number_text(n),
        JsonView::Text(text) => json_quoted(text),
        JsonView::Array(items) => if items.len() == 0 {
            "[]"@
        } else {
            "[\n"@ + join(pretty_items(items, margin + "  "@), ",\n"@) + "\n"@ + margin + "]"@
        },
        JsonView::Object(members) => if sorted_keys(members.dom()).len() == 0 {
            "{}"@
        } else {
            "{\n"@ + join(
                pretty_members(json, sorted_keys(members.dom()), margin + "  "@),
                ",\n"@,
            ) + "\n"@ + margin + "}"@
        },
    }
}

/// The items of an array, each with its margin.
pub open spec fn pretty_items(items: Seq<JsonView>, margin: Seq<char>) -> Seq<Seq<char>>
    decreases items, 0nat, 0nat,
{
    if items.len() == 0 {
        Seq::empty()
    } else {
        pretty_items(items.drop_last(), margin).push(margin + pretty(items.last(), margin))
    }
}

/// The members of `json` for the given keys, each with its margin.
pub open spec fn pretty_members(json: JsonView, keys: Seq<Seq<char>>, margin: Seq<char>) -> Seq<
    Seq<char>,
>
    decreases json, 0nat, keys.len(),
{
    if keys.len() == 0 {
        Seq::empty()
    } else {
        pretty_members(json, keys.drop_last(), margin).push(
            margin + json_quoted(keys.last()) + ": "@ + (if json is Object
                && json->Object_0.contains_key(keys.last()) {
                pretty(json->Object_0[keys.last()], margin)
            } else {
                "null"@
            }),
        )
    }
}

/// Appends `json` over several lines.
fn write_pretty(json: &Json, margin: &str, out: &mut String)
    ensures
        final(out)@ == old(out)@ + pretty(json.deep_view(), margin@),
    decreases json,
{
    match json {
        Json::Null => {
            out.append("null");
        },
        Json::Bool(b) => {
            if *b {
                out.append("true");
            } else {
                out.append("false");
            }
        },
        Json::Number(n) => {
            write_number(n, out);
        },
        Json::Text(text) => {
            out.append(quoted(text.as_str()).as_str());
        },
        Json::Array(items) => {
            proof {
                lemma_array_view(*items);
            }
            if items.len() == 0 {
                out.append("[]");
                return;
            }
            let inner = glue2(margin, "  ");
            let ghost views = items.deep_view();
            let ghost start = out@ + "[\n"@;
            out.append("[\n");
            assert(views.take(0) =~= Seq::empty());
            assert(out@ =~= start + join(pretty_items(views.take(0), inner@), ",\n"@));
            for i in 0..items.len()
                invariant
                    json == Json::Array(*items),
                    views == items.deep_view(),
                    pretty_items(views.take(i as int), inner@).len() == i,
                    out@ == start + join(pretty_items(views.take(i as int), inner@), ",\n"@),
            {
                assert(decreases_to!(*json => json->Array_0));
                assert(decreases_to!(*items => items@));
                assert(decreases_to!(items@ => items@[i as int]));
                let ghost before = out@;
                if i > 0 {
                    out.append(",\n");
                }
                out.append(inner.as_str());
                write_pretty(&items[i], inner.as_str(), out);
                proof {
                    let parts = pretty_items(views.take(i as int), inner@);
                    lemma_join_push(parts, inner@ + pretty(views[i as int], inner@), ",\n"@);
                    assert(views.take(i + 1).drop_last() =~= views.take(i as int));
                    assert(views.take(i + 1).last() == views[i as int]);
                    if i == 0 {
                        assert(before =~= start);
                    }
                    assert(out@ =~= start + join(pretty_items(views.take(i + 1), inner@), ",\n"@));
                }
            }
            out.append("\n");
            out.append(margin);
            out.append("]");
            proof {
                assert(views.take(items.len() as int) =~= views);
                assert(out@ =~= old(out)@ + pretty(json.deep_view(), margin@));
            }
        },
        Json::Object(members) => {
            let n: usize = members.walk();
            let ghost view = json.deep_view();
            let ghost keys = members.keys();
            proof {
                lemma_object_view(*members);
                assert(members.deep_view().dom() =~= members@.dom());
            }
            if n == 0 {
                out.append("{}");
                return;
            }
            let inner = glue2(margin, "  ");
            let ghost start = out@ + "{\n"@;
            out.append("{\n");
            proof {
                assert(keys.take(0) =~= Seq::empty());
                assert(out@ =~= start + join(pretty_members(view, keys.take(0), inner@), ",\n"@));
            }
            for i in 0..n
                invariant
                    json == Json::Object(*members),
                    n == members.keys().len(),
                    keys == members.keys(),
                    view == JsonView::Object(members.deep_view()),
                    pretty_members(view, keys.take(i as int), inner@).len() == i,
                    out@ == start + join(pretty_members(view, keys.take(i as int), inner@), ",\n"@),
            {
                let key = members.key_at(i);
                let value = members.value_at(i);
                proof {
                    assert(decreases_to!(*json => json->Object_0));
                    members.lemma_value_smaller(key@);
                }
                let ghost before = out@;
                if i > 0 {
                    out.append(",\n");
                }
                out.append(inner.as_str());
                out.append(quoted(key.as_str()).as_str());
                out.append(": ");
                write_pretty(value, inner.as_str(), out);
                proof {
                    let parts = pretty_members(view, keys.take(i as int), inner@);
                    let part = inner@ + json_quoted(key@) + ": "@ + pretty(
                        value.deep_view(),
                        inner@,
                    );
                    lemma_join_push(parts, part, ",\n"@);
                    assert(keys.take(i + 1).drop_last() =~= keys.take(i as int));
                    assert(keys.take(i + 1).last() == key@);
                    if i == 0 {
                        assert(before =~= start);
                    }
                    assert(out@ =~= start + join(
                        pretty_members(view, keys.take(i + 1), inner@),
                        ",\n"@,
                    ));
                }
            }
            out.append("\n");
            out.append(margin);
            out.append("}");
            proof {
                assert(keys.take(n as int) =~= keys);
                assert(out@ =~= old(out)@ + pretty(json.deep_view(), margin@));
            }
        },
    }
}

impl Json {
    /// The document over several lines.
    pub fn to_pretty_text(&self) -> (r: String)
        ensures
            r@ == pretty(self.deep_view(), Seq::empty()),
    {
        let mut out = String::new();
        proof {
            reveal_strlit("");
            assert(""@ =~= Seq::<char>::empty());
        }
        write_pretty(self, "", &mut out);
        assert(out@ =~= pretty(self.deep_view(), Seq::empty()));
        out
    }
}

} // verus!
