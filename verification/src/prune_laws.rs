//! What is kept of a record when the members that are no fields are passed over.

use crate::codec::FieldText;
use crate::json::json_quoted;
use crate::prune::{behind, comma, pruned_members, pruned_shape};
use crate::repeat_laws::{are_members, lemma_field_at};
use crate::shape::{after_comma, after_shape, field_at, fields, form, is_space, Form, Shape};
use crate::shape_laws::{
    ends, is_blank_space, is_name, lemma_after_blank, lemma_key, lemma_members_begin,
    lemma_members_from, lemma_quoted_key, member_texts, members_from, record_text,
};
use crate::text::join;
use vstd::prelude::*;

verus! {

/// The fields of a record are texts or anything, and none is a record itself.
pub open spec fn is_flat(shape: Shape) -> bool {
    forall|i: int|
        0 <= i < fields(shape).len() ==> form((#[trigger] fields(shape)[i]).2) == Form::Text || form(
            fields(shape)[i].2,
        ) == Form::Anything
}

/// A field is kept as it is written, and null stands for any other member.
pub open spec fn kept(pair: FieldText, shape: Shape) -> Seq<char> {
    if exists|i: int| 0 <= i < fields(shape).len() && (#[trigger] fields(shape)[i]).0 == pair.0 {
        pair.1
    } else {
        "null"@
    }
}

/// What is written from a member on.
spec fn written_from(pairs: Seq<FieldText>, shape: Shape, k: nat, first: bool) -> Seq<char>
    decreases pairs.len() - k,
{
    if k >= pairs.len() {
        "}"@
    } else {
        comma(first) + json_quoted(pairs[k as int].0) + ":"@ + kept(pairs[k as int], shape)
            + written_from(pairs, shape, k + 1, false)
    }
}

proof fn lemma_pruned(
    pairs: Seq<FieldText>,
    shape: Shape,
    line: Seq<char>,
    lead: Seq<char>,
    gap: Seq<char>,
    k: nat,
    first: bool,
    tail: Seq<char>,
    bound: nat,
)
    requires
        is_flat(shape),
        are_members(pairs, shape),
        is_blank_space(line),
        is_blank_space(lead),
        is_blank_space(gap),
        k <= pairs.len(),
        (members_from(pairs, line, lead, gap, k) + tail).len() < bound,
    ensures
        pruned_members(members_from(pairs, line, lead, gap, k) + tail, shape, first, bound) == Some(
            (written_from(pairs, shape, k, first), tail),
        ),
    decreases pairs.len() - k,
{
    let s = members_from(pairs, line, lead, gap, k) + tail;
    if k == pairs.len() {
        assert(s.skip(1) =~= tail);
    } else {
        let (name, text) = pairs[k as int];
        let next = members_from(pairs, line, lead, gap, k + 1) + tail;
        let more = if k + 1 < pairs.len() {
            seq![','] + (line + lead + next)
        } else {
            line + next
        };
        lemma_members_begin(pairs, line, lead, gap, k + 1);
        assert(ends(more)) by {
            if k + 1 >= pairs.len() && line.len() > 0 {
                assert(is_space(line[0]));
            }
        }
        assert(is_name(pairs[k as int].0));
        assert(s =~= json_quoted(name) + (seq![':'] + gap + (text + more)));
        lemma_quoted_key(name, gap, text + more);
        lemma_key(name);
        lemma_field_at(fields(shape), name);
        assert(after_comma(more) == next) by {
            if k + 1 < pairs.len() {
                assert(is_blank_space(line + lead)) by {
                    assert forall|i: int| 0 <= i < (line + lead).len() implies is_space(
                        #[trigger] (line + lead)[i],
                    ) by {
                        if i < line.len() {
                            assert(is_space(line[i]));
                        } else {
                            assert(is_space(lead[i - line.len()]));
                        }
                    }
                }
                lemma_after_blank(line + lead, next);
                assert(more.skip(1) =~= line + lead + next);
                lemma_after_blank(Seq::empty(), more);
                assert(Seq::<char>::empty() + more =~= more);
            } else {
                lemma_after_blank(line, next);
            }
        }
        let whole = text + more;
        match field_at(fields(shape), name) {
            None => {
                assert(after_shape(whole, Shape::Anything) == Some(more));
                assert(kept(pairs[k as int], shape) == "null"@);
            },
            Some(i) => {
                assert(after_shape(whole, fields(shape)[i].2) == Some(more));
                assert(fields(shape)[i].0 == name);
                assert(whole.take(whole.len() - more.len()) =~= text);
                assert(kept(pairs[k as int], shape) == text);
                assert(pruned_shape(whole, fields(shape)[i].2) == Some((text, more)));
            },
        }
        let value = kept(pairs[k as int], shape);
        assert(crate::prune::pruned_member(json_quoted(name), whole, shape) == Some((value, more)));
        lemma_pruned(pairs, shape, line, lead, gap, k + 1, false, tail, s.len());
        assert(pruned_members(s, shape, first, bound) == behind(
            comma(first) + json_quoted(name) + ":"@ + value,
            pruned_members(next, shape, false, s.len()),
        ));
        let own = comma(first) + json_quoted(name) + ":"@ + kept(pairs[k as int], shape);
        assert(own + written_from(pairs, shape, k + 1, false) =~= written_from(
            pairs,
            shape,
            k,
            first,
        ));
    }
}

proof fn lemma_written(pairs: Seq<FieldText>, shape: Shape, k: nat)
    requires
        k < pairs.len(),
    ensures
        written_from(pairs, shape, k, true) == join(
            Seq::new(
                (pairs.len() - k) as nat,
                |i: int| json_quoted(pairs[k + i].0) + seq![':'] + kept(pairs[k + i], shape),
            ),
            seq![','],
        ) + seq!['}'],
    decreases pairs.len() - k,
{
    reveal_strlit("");
    reveal_strlit(",");
    reveal_strlit(":");
    reveal_strlit("}");
    assert(""@ =~= Seq::<char>::empty());
    assert(","@ =~= seq![',']);
    assert(":"@ =~= seq![':']);
    assert("}"@ =~= seq!['}']);
    let parts = Seq::new(
        (pairs.len() - k) as nat,
        |i: int| json_quoted(pairs[k + i].0) + seq![':'] + kept(pairs[k + i], shape),
    );
    let rest = Seq::new(
        (pairs.len() - (k + 1)) as nat,
        |i: int| json_quoted(pairs[k + 1 + i].0) + seq![':'] + kept(pairs[k + 1 + i], shape),
    );
    assert(parts =~= seq![parts[0]] + rest);
    crate::text_laws::law_parts_are_joined_in_order(parts[0], rest, seq![',']);
    if k + 1 < pairs.len() {
        lemma_written(pairs, shape, k + 1);
        assert(written_from(pairs, shape, k + 1, false) =~= seq![','] + written_from(
            pairs,
            shape,
            k + 1,
            true,
        ));
        assert(written_from(pairs, shape, k, true) =~= parts[0] + (seq![','] + (join(
            rest,
            seq![','],
        ) + seq!['}'])));
        assert(parts[0] + (seq![','] + (join(rest, seq![',']) + seq!['}'])) =~= parts[0] + seq![','] + join(
            rest,
            seq![','],
        ) + seq!['}']);
    } else {
        assert(written_from(pairs, shape, k + 1, false) == "}"@);
        assert(written_from(pairs, shape, k, true) =~= parts[0] + seq!['}']);
    }
}

/// Of a record whose fields are not records themselves, every member is kept under its name and in
/// its place: a field as it is written, and any other as null.
pub proof fn law_fields_are_kept_as_they_are_written(
    pairs: Seq<FieldText>,
    shape: Shape,
    line: Seq<char>,
    lead: Seq<char>,
    gap: Seq<char>,
)
    requires
        form(shape) == Form::Record,
        is_flat(shape),
        pairs.len() > 0,
        are_members(pairs, shape),
        is_blank_space(line),
        is_blank_space(lead),
        is_blank_space(gap),
    ensures
        pruned_shape(record_text(pairs, line, lead, gap), shape) == Some(
            (
                seq!['{'] + join(
                    Seq::new(
                        pairs.len(),
                        |i: int| json_quoted(pairs[i].0) + seq![':'] + kept(pairs[i], shape),
                    ),
                    seq![','],
                ) + seq!['}'],
                Seq::<char>::empty(),
            ),
        ),
{
    reveal_strlit("{");
    assert("{"@ =~= seq!['{']);
    let text = record_text(pairs, line, lead, gap);
    let none = Seq::<char>::empty();
    let inner = members_from(pairs, line, lead, gap, 0) + none;
    lemma_members_from(pairs, line, lead, gap, 0);
    assert(member_texts(pairs, lead, gap).skip(0) =~= member_texts(pairs, lead, gap));
    let joined = join(member_texts(pairs, lead, gap), seq![','] + line);
    let close = line + seq!['}'];
    assert(joined + close == lead + members_from(pairs, line, lead, gap, 0));
    assert(text.skip(1) =~= line + (joined + close));
    assert(text.skip(1) =~= line + lead + inner);
    assert(is_blank_space(line + lead)) by {
        assert forall|i: int| 0 <= i < (line + lead).len() implies is_space(
            #[trigger] (line + lead)[i],
        ) by {
            if i < line.len() {
                assert(is_space(line[i]));
            } else {
                assert(is_space(lead[i - line.len()]));
            }
        }
    }
    lemma_members_begin(pairs, line, lead, gap, 0);
    lemma_after_blank(line + lead, inner);
    assert(text[0] == '{');
    lemma_pruned(pairs, shape, line, lead, gap, 0, true, none, text.len());
    lemma_written(pairs, shape, 0);
    let parts = Seq::new(
        pairs.len(),
        |i: int| json_quoted(pairs[i].0) + seq![':'] + kept(pairs[i], shape),
    );
    assert(parts =~= Seq::new(
        (pairs.len() - 0) as nat,
        |i: int| json_quoted(pairs[0 + i].0) + seq![':'] + kept(pairs[0 + i], shape),
    ));
    assert(seq!['{'] + (join(parts, seq![',']) + seq!['}']) =~= seq!['{'] + join(parts, seq![','])
        + seq!['}']);
}

} // verus!
