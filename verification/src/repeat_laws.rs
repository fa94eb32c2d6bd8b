//! Records that hold a field twice, or lack one, are told apart from those that can be read.

use crate::codec::FieldText;
use crate::shape::{
    after_comma, after_members, after_shape, after_space, field_at, fields, form, is_complete,
    is_space, is_unambiguous, unseen, Form, Shape,
};
use crate::shape_laws::{
    ends, is_blank_space, is_name, is_value, lemma_after_blank, lemma_key, lemma_members_begin,
    lemma_members_from, lemma_quoted_key, member_texts, members_from, record_text,
};
use crate::text::join;
use vstd::prelude::*;

verus! {

/// Members of a record: each has a name that is quoted as it is, and a value, of the shape of the
/// field where the name is that of a field.
pub open spec fn are_members(pairs: Seq<FieldText>, shape: Shape) -> bool {
    forall|k: int|
        0 <= k < pairs.len() ==> is_name((#[trigger] pairs[k]).0) && match field_at(
            fields(shape),
            pairs[k].0,
        ) {
            Some(i) => is_value(pairs[k].1, fields(shape)[i].2),
            None => is_value(pairs[k].1, Shape::Anything),
        }
}

/// A field stands twice among the members from a position on, or was seen before it, or one that must
/// be there is not.
spec fn is_bad(pairs: Seq<FieldText>, shape: Shape, k: nat, seen: Seq<bool>) -> bool
    decreases pairs.len() - k,
{
    if k >= pairs.len() {
        !is_complete(fields(shape), seen)
    } else {
        match field_at(fields(shape), pairs[k as int].0) {
            None => is_bad(pairs, shape, k + 1, seen),
            Some(i) => seen[i] || is_bad(pairs, shape, k + 1, seen.update(i, true)),
        }
    }
}

/// The position of a field is that of its name.
pub proof fn lemma_field_at(names: Seq<(Seq<char>, bool, Shape)>, name: Seq<char>)
    ensures
        field_at(names, name) matches Some(i) ==> 0 <= i < names.len() && names[i].0 == name,
        field_at(names, name) is None ==> forall|i: int|
            0 <= i < names.len() ==> (#[trigger] names[i]).0 != name,
    decreases names.len(),
{
    if names.len() > 0 {
        let init = names.drop_last();
        lemma_field_at(init, name);
        if field_at(names, name) is None {
            assert forall|i: int| 0 <= i < names.len() implies (#[trigger] names[i]).0 != name by {
                if i < init.len() {
                    assert(init[i] == names[i]);
                }
            }
        }
    }
}

proof fn lemma_walk(
    pairs: Seq<FieldText>,
    shape: Shape,
    line: Seq<char>,
    lead: Seq<char>,
    gap: Seq<char>,
    k: nat,
    seen: Seq<bool>,
    tail: Seq<char>,
    bound: nat,
)
    requires
        are_members(pairs, shape),
        seen.len() == fields(shape).len(),
        is_blank_space(line),
        is_blank_space(lead),
        is_blank_space(gap),
        k <= pairs.len(),
        (members_from(pairs, line, lead, gap, k) + tail).len() < bound,
    ensures
        after_members(members_from(pairs, line, lead, gap, k) + tail, shape, seen, bound)
            == if is_bad(pairs, shape, k, seen) {
            None
        } else {
            Some(tail)
        },
    decreases pairs.len() - k,
{
    let s = members_from(pairs, line, lead, gap, k) + tail;
    if k == pairs.len() {
        assert(s.skip(1) =~= tail);
    } else {
        let (name, text) = pairs[k as int];
        let next = members_from(pairs, line, lead, gap, k + 1) + tail;
        let more = if k + 1 < pairs.len() {
            seq![','] + (line + lead + next)
        } else {
            line + next
        };
        lemma_members_begin(pairs, line, lead, gap, k + 1);
        assert(ends(more)) by {
            if k + 1 >= pairs.len() && line.len() > 0 {
                assert(is_space(line[0]));
            }
        }
        assert(is_name(pairs[k as int].0));
        assert(s =~= crate::json::json_quoted(name) + (seq![':'] + gap + (text + more)));
        lemma_quoted_key(name, gap, text + more);
        lemma_key(name);
        lemma_field_at(fields(shape), name);
        assert(after_comma(more) == next) by {
            if k + 1 < pairs.len() {
                assert(is_blank_space(line + lead)) by {
                    assert forall|i: int| 0 <= i < (line + lead).len() implies is_space(
                        #[trigger] (line + lead)[i],
                    ) by {
                        if i < line.len() {
                            assert(is_space(line[i]));
                        } else {
                            assert(is_space(lead[i - line.len()]));
                        }
                    }
                }
                lemma_after_blank(line + lead, next);
                assert(more.skip(1) =~= line + lead + next);
                lemma_after_blank(Seq::empty(), more);
                assert(Seq::<char>::empty() + more =~= more);
            } else {
                lemma_after_blank(line, next);
            }
        }
        match field_at(fields(shape), name) {
            None => {
                assert(after_shape(text + more, Shape::Anything) == Some(more));
                lemma_walk(pairs, shape, line, lead, gap, k + 1, seen, tail, s.len());
            },
            Some(i) => {
                assert(after_shape(text + more, fields(shape)[i].2) == Some(more));
                lemma_walk(
                    pairs,
                    shape,
                    line,
                    lead,
                    gap,
                    k + 1,
                    seen.update(i, true),
                    tail,
                    s.len(),
                );
            },
        }
    }
}

proof fn lemma_seen_is_bad(
    pairs: Seq<FieldText>,
    shape: Shape,
    k: nat,
    seen: Seq<bool>,
    i: int,
    j: int,
)
    requires
        seen.len() == fields(shape).len(),
        0 <= i < seen.len(),
        seen[i],
        k <= j < pairs.len(),
        field_at(fields(shape), pairs[j].0) == Some(i),
    ensures
        is_bad(pairs, shape, k, seen),
    decreases j - k,
{
    lemma_field_at(fields(shape), pairs[k as int].0);
    if k < j {
        match field_at(fields(shape), pairs[k as int].0) {
            None => lemma_seen_is_bad(pairs, shape, k + 1, seen, i, j),
            Some(other) => lemma_seen_is_bad(pairs, shape, k + 1, seen.update(other, true), i, j),
        }
    }
}

proof fn lemma_twice_is_bad(
    pairs: Seq<FieldText>,
    shape: Shape,
    k: nat,
    seen: Seq<bool>,
    i: int,
    a: int,
    b: int,
)
    requires
        seen.len() == fields(shape).len(),
        k <= a < b < pairs.len(),
        field_at(fields(shape), pairs[a].0) == Some(i),
        field_at(fields(shape), pairs[b].0) == Some(i),
    ensures
        is_bad(pairs, shape, k, seen),
    decreases a - k,
{
    lemma_field_at(fields(shape), pairs[a].0);
    lemma_field_at(fields(shape), pairs[k as int].0);
    if k == a {
        lemma_seen_is_bad(pairs, shape, k + 1, seen.update(i, true), i, b);
    } else {
        match field_at(fields(shape), pairs[k as int].0) {
            None => lemma_twice_is_bad(pairs, shape, k + 1, seen, i, a, b),
            Some(other) => lemma_twice_is_bad(
                pairs,
                shape,
                k + 1,
                seen.update(other, true),
                i,
                a,
                b,
            ),
        }
    }
}

proof fn lemma_lacking_is_bad(
    pairs: Seq<FieldText>,
    shape: Shape,
    k: nat,
    seen: Seq<bool>,
    i: int,
)
    requires
        seen.len() == fields(shape).len(),
        0 <= i < seen.len(),
        fields(shape)[i].1,
        !seen[i],
        k <= pairs.len(),
        forall|j: int|
            k <= j < pairs.len() ==> field_at(fields(shape), (#[trigger] pairs[j]).0) != Some(i),
    ensures
        is_bad(pairs, shape, k, seen),
    decreases pairs.len() - k,
{
    if k < pairs.len() {
        lemma_field_at(fields(shape), pairs[k as int].0);
        match field_at(fields(shape), pairs[k as int].0) {
            None => lemma_lacking_is_bad(pairs, shape, k + 1, seen, i),
            Some(other) => lemma_lacking_is_bad(pairs, shape, k + 1, seen.update(other, true), i),
        }
    }
}

proof fn lemma_bad_is_refused(
    pairs: Seq<FieldText>,
    shape: Shape,
    line: Seq<char>,
    lead: Seq<char>,
    gap: Seq<char>,
)
    requires
        form(shape) == Form::Record,
        pairs.len() > 0,
        are_members(pairs, shape),
        is_blank_space(line),
        is_blank_space(lead),
        is_blank_space(gap),
        is_bad(pairs, shape, 0, unseen(shape)),
    ensures
        !is_unambiguous(record_text(pairs, line, lead, gap), shape),
{
    let text = record_text(pairs, line, lead, gap);
    let none = Seq::<char>::empty();
    let inner = members_from(pairs, line, lead, gap, 0) + none;
    lemma_members_from(pairs, line, lead, gap, 0);
    assert(member_texts(pairs, lead, gap).skip(0) =~= member_texts(pairs, lead, gap));
    let joined = join(member_texts(pairs, lead, gap), seq![','] + line);
    let close = line + seq!['}'];
    assert(joined + close == lead + members_from(pairs, line, lead, gap, 0));
    assert(text.skip(1) =~= line + (joined + close));
    assert(text.skip(1) =~= line + lead + inner);
    assert(is_blank_space(line + lead)) by {
        assert forall|i: int| 0 <= i < (line + lead).len() implies is_space(
            #[trigger] (line + lead)[i],
        ) by {
            if i < line.len() {
                assert(is_space(line[i]));
            } else {
                assert(is_space(lead[i - line.len()]));
            }
        }
    }
    lemma_members_begin(pairs, line, lead, gap, 0);
    lemma_after_blank(line + lead, inner);
    assert(after_space(text) == text) by {
        lemma_after_blank(none, text);
        assert(none + text =~= text);
    }
    assert(text[0] == '{');
    lemma_walk(pairs, shape, line, lead, gap, 0, unseen(shape), none, text.len());
}

/// A record in which a field stands twice is not read, whatever its other members are and whatever
/// white space is between them.
pub proof fn law_repeated_field_is_refused(
    pairs: Seq<FieldText>,
    shape: Shape,
    line: Seq<char>,
    lead: Seq<char>,
    gap: Seq<char>,
    a: int,
    b: int,
)
    requires
        form(shape) == Form::Record,
        are_members(pairs, shape),
        is_blank_space(line),
        is_blank_space(lead),
        is_blank_space(gap),
        0 <= a < b < pairs.len(),
        pairs[a].0 == pairs[b].0,
        exists|i: int| 0 <= i < fields(shape).len() && (#[trigger] fields(shape)[i]).0 == pairs[a].0,
    ensures
        !is_unambiguous(record_text(pairs, line, lead, gap), shape),
{
    lemma_field_at(fields(shape), pairs[a].0);
    let i = field_at(fields(shape), pairs[a].0)->Some_0;
    lemma_twice_is_bad(pairs, shape, 0, unseen(shape), i, a, b);
    lemma_bad_is_refused(pairs, shape, line, lead, gap);
}

/// A record that lacks a field that must be there is not read.
pub proof fn law_lacking_field_is_refused(
    pairs: Seq<FieldText>,
    shape: Shape,
    line: Seq<char>,
    lead: Seq<char>,
    gap: Seq<char>,
    i: int,
)
    requires
        form(shape) == Form::Record,
        pairs.len() > 0,
        are_members(pairs, shape),
        is_blank_space(line),
        is_blank_space(lead),
        is_blank_space(gap),
        0 <= i < fields(shape).len(),
        fields(shape)[i].1,
        forall|j: int| 0 <= j < pairs.len() ==> (#[trigger] pairs[j]).0 != fields(shape)[i].0,
    ensures
        !is_unambiguous(record_text(pairs, line, lead, gap), shape),
{
    assert forall|j: int| 0 <= j < pairs.len() implies field_at(
        fields(shape),
        (#[trigger] pairs[j]).0,
    ) != Some(i) by {
        lemma_field_at(fields(shape), pairs[j].0);
    }
    lemma_lacking_is_bad(pairs, shape, 0, unseen(shape), i);
    lemma_bad_is_refused(pairs, shape, line, lead, gap);
}

} // verus!
