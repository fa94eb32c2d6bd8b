//! Texts that are written hold each field of a record once.

use crate::codec::{array_text, field_texts, object_text, FieldText};
use crate::digest::hex_digit;
use crate::json::{
    compact, compact_items, compact_members, escaped, escaped_char, json_quoted, number_text,
    JsonView, NumberView,
};
use crate::shape::{
    after_comma, after_entries, after_items, after_members, after_nested, after_shape, after_space, after_text, after_word,
    field_at, fields, form, is_complete, is_delimiter, is_space, is_unambiguous, key_of, quoted_key, unseen, Form,
    Shape,
};
use crate::spelling::{is_decimal, is_plain_json, is_short_fraction};
use crate::text::{decimal, join};
use crate::text_map::{lemma_finite_is_walked, sorted_keys};
use vstd::prelude::*;

verus! {

/// A text ends where a value ends before it.
pub open spec fn ends(tail: Seq<char>) -> bool {
    tail.len() == 0 || is_delimiter(tail[0])
}

/// A text is a value of the given shape, whatever follows it.
pub open spec fn is_value(text: Seq<char>, shape: Shape) -> bool {
    &&& text.len() > 0
    &&& !is_delimiter(text[0])
    &&& forall|tail: Seq<char>|
        ends(tail) ==> #[trigger] after_shape(text + tail, shape) == Some(tail)
}

/// A text leaves brackets as they are.
pub open spec fn is_balanced(text: Seq<char>) -> bool {
    forall|rest: Seq<char>, depth: nat|
        depth > 0 ==> #[trigger] after_nested(text + rest, depth) == after_nested(rest, depth)
}

proof fn lemma_plain_char(s: Seq<char>)
    requires
        s.len() > 0,
        s[0] != '"' && s[0] != '\\',
    ensures
        after_text(s) == after_text(s.skip(1)),
{
}

proof fn lemma_escape(s: Seq<char>)
    requires
        s.len() >= 2,
        s[0] == '\\',
    ensures
        after_text(s) == after_text(s.skip(2)),
{
}

proof fn lemma_escaped_char(c: char, rest: Seq<char>)
    ensures
        after_text(escaped_char(c) + rest) == after_text(rest),
{
    let escape = escaped_char(c);
    let s = escape + rest;
    if escape.len() == 1 {
        lemma_plain_char(s);
        assert(s.skip(1) =~= rest);
    } else if escape.len() == 2 {
        lemma_escape(s);
        assert(s.skip(2) =~= rest);
    } else {
        assert(escape.len() == 6);
        reveal_strlit("0123456789abcdef");
        lemma_escape(s);
        lemma_plain_char(s.skip(2));
        assert(s.skip(2).skip(1) =~= s.skip(3));
        lemma_plain_char(s.skip(3));
        assert(s.skip(3).skip(1) =~= s.skip(4));
        assert(s.skip(4)[0] == hex_digit(c as int / 16));
        lemma_plain_char(s.skip(4));
        assert(s.skip(4).skip(1) =~= s.skip(5));
        assert(s.skip(5)[0] == hex_digit(c as int % 16));
        lemma_plain_char(s.skip(5));
        assert(s.skip(5).skip(1) =~= rest);
    }
}

proof fn lemma_escaped(text: Seq<char>, rest: Seq<char>)
    ensures
        after_text(escaped(text) + rest) == after_text(rest),
    decreases text.len(),
{
    if text.len() == 0 {
        assert(escaped(text) + rest =~= rest);
    } else {
        let c = escaped_char(text.last());
        lemma_escaped(text.drop_last(), c + rest);
        lemma_escaped_char(text.last(), rest);
        assert(escaped(text) + rest =~= escaped(text.drop_last()) + (c + rest));
    }
}

/// What follows a quoted text.
proof fn lemma_after_quoted(text: Seq<char>, rest: Seq<char>)
    ensures
        after_text((json_quoted(text) + rest).skip(1)) == Some(rest),
{
    let close = seq!['"'] + rest;
    lemma_escaped(text, close);
    assert((json_quoted(text) + rest).skip(1) =~= escaped(text) + close);
    assert(close.skip(1) =~= rest);
}

/// A quoted text is a text.
pub proof fn lemma_quoted_is_value(text: Seq<char>)
    ensures
        is_value(json_quoted(text), Shape::Text),
        is_value(json_quoted(text), Shape::Anything),
        is_balanced(json_quoted(text)),
{
    assert forall|tail: Seq<char>| ends(tail) implies #[trigger] after_shape(
        json_quoted(text) + tail,
        Shape::Text,
    ) == Some(tail) by {
        lemma_after_quoted(text, tail);
    }
    assert forall|tail: Seq<char>| ends(tail) implies #[trigger] after_shape(
        json_quoted(text) + tail,
        Shape::Anything,
    ) == Some(tail) by {
        lemma_after_quoted(text, tail);
    }
    assert forall|rest: Seq<char>, depth: nat| depth > 0 implies #[trigger] after_nested(
        json_quoted(text) + rest,
        depth,
    ) == after_nested(rest, depth) by {
        lemma_after_quoted(text, rest);
    }
}

/// Neither a quote nor a bracket.
pub open spec fn is_flat_char(c: char) -> bool {
    c != '"' && c != '[' && c != ']' && c != '{' && c != '}'
}

proof fn lemma_flat(text: Seq<char>, rest: Seq<char>, depth: nat)
    requires
        forall|i: int| 0 <= i < text.len() ==> is_flat_char(#[trigger] text[i]),
    ensures
        after_nested(text + rest, depth) == after_nested(rest, depth),
    decreases text.len(),
{
    if text.len() == 0 {
        assert(text + rest =~= rest);
    } else {
        lemma_flat(text.skip(1), rest, depth);
        assert(is_flat_char(text[0]));
        assert((text + rest).skip(1) =~= text.skip(1) + rest);
    }
}

proof fn lemma_flat_is_balanced(text: Seq<char>)
    requires
        forall|i: int| 0 <= i < text.len() ==> is_flat_char(#[trigger] text[i]),
    ensures
        is_balanced(text),
{
    assert forall|rest: Seq<char>, depth: nat| depth > 0 implies #[trigger] after_nested(
        text + rest,
        depth,
    ) == after_nested(rest, depth) by {
        lemma_flat(text, rest, depth);
    }
}

proof fn lemma_after_word(text: Seq<char>, tail: Seq<char>)
    requires
        forall|i: int| 0 <= i < text.len() ==> !is_delimiter(#[trigger] text[i]),
        ends(tail),
    ensures
        after_word(text + tail) == tail,
    decreases text.len(),
{
    if text.len() == 0 {
        assert(text + tail =~= tail);
    } else {
        lemma_after_word(text.skip(1), tail);
        assert(!is_delimiter(text[0]));
        assert((text + tail).skip(1) =~= text.skip(1) + tail);
    }
}

/// A number or a word is a value.
pub proof fn lemma_word_is_value(text: Seq<char>)
    requires
        text.len() > 0,
        forall|i: int|
            0 <= i < text.len() ==> is_flat_char(#[trigger] text[i]) && !is_delimiter(text[i]),
    ensures
        is_value(text, Shape::Anything),
        is_balanced(text),
{
    lemma_flat_is_balanced(text);
    assert(is_flat_char(text[0]));
    assert forall|tail: Seq<char>| ends(tail) implies #[trigger] after_shape(
        text + tail,
        Shape::Anything,
    ) == Some(tail) by {
        lemma_after_word(text.skip(1), tail);
        assert((text + tail).skip(1) =~= text.skip(1) + tail);
    }
}

proof fn lemma_both_balanced(a: Seq<char>, b: Seq<char>)
    requires
        is_balanced(a),
        is_balanced(b),
    ensures
        is_balanced(a + b),
{
    assert forall|rest: Seq<char>, depth: nat| depth > 0 implies #[trigger] after_nested(
        a + b + rest,
        depth,
    ) == after_nested(rest, depth) by {
        assert(a + b + rest =~= a + (b + rest));
        assert(after_nested(a + (b + rest), depth) == after_nested(b + rest, depth));
    }
}

proof fn lemma_joined_balanced(parts: Seq<Seq<char>>, separator: Seq<char>)
    requires
        forall|i: int| 0 <= i < parts.len() ==> is_balanced(#[trigger] parts[i]),
        is_balanced(separator),
    ensures
        is_balanced(join(parts, separator)),
    decreases parts.len(),
{
    if parts.len() == 0 {
        lemma_flat_is_balanced(Seq::empty());
    } else if parts.len() > 1 {
        let init = parts.drop_last();
        assert forall|i: int| 0 <= i < init.len() implies is_balanced(#[trigger] init[i]) by {
            assert(init[i] == parts[i]);
        }
        lemma_joined_balanced(init, separator);
        lemma_both_balanced(join(init, separator), separator);
        lemma_both_balanced(join(init, separator) + separator, parts.last());
    }
}

proof fn lemma_bracketed(open: char, inner: Seq<char>, close: char)
    requires
        is_balanced(inner),
        open == '[' || open == '{',
        close == ']' || close == '}',
    ensures
        is_value(seq![open] + inner + seq![close], Shape::Anything),
        is_balanced(seq![open] + inner + seq![close]),
{
    let text = seq![open] + inner + seq![close];
    assert forall|rest: Seq<char>, depth: nat| depth > 0 implies #[trigger] after_nested(
        text + rest,
        depth,
    ) == after_nested(rest, depth) by {
        assert((text + rest).skip(1) =~= inner + (seq![close] + rest));
        assert((seq![close] + rest).skip(1) =~= rest);
        assert(after_nested(inner + (seq![close] + rest), depth + 1) == after_nested(
            seq![close] + rest,
            depth + 1,
        ));
    }
    assert forall|tail: Seq<char>| ends(tail) implies #[trigger] after_shape(
        text + tail,
        Shape::Anything,
    ) == Some(tail) by {
        assert((text + tail).skip(1) =~= inner + (seq![close] + tail));
        assert((seq![close] + tail).skip(1) =~= tail);
        assert(after_nested(inner + (seq![close] + tail), 1) == after_nested(
            seq![close] + tail,
            1,
        ));
    }
}

/// A digit of a number.
pub open spec fn is_number_char(c: char) -> bool {
    ('0' <= c && c <= '9') || c == '-' || c == '.'
}

proof fn lemma_decimal(n: nat)
    ensures
        decimal(n).len() > 0,
        forall|i: int| 0 <= i < decimal(n).len() ==> is_number_char(#[trigger] decimal(n)[i]),
    decreases n,
{
    reveal_strlit("0123456789");
    if n >= 10 {
        lemma_decimal(n / 10);
    }
}

/// A number is a value.
pub proof fn lemma_decimal_is_value(n: nat)
    ensures
        is_value(decimal(n), Shape::Anything),
        is_balanced(decimal(n)),
{
    lemma_decimal(n);
    lemma_word_is_value(decimal(n));
}

proof fn lemma_number_is_value(number: NumberView)
    requires
        number matches NumberView::Fraction(text) ==> is_short_fraction(text),
    ensures
        is_value(number_text(number), Shape::Anything),
        is_balanced(number_text(number)),
{
    let text = number_text(number);
    match number {
        NumberView::Unsigned(n) => {
            lemma_decimal(n as nat);
        },
        NumberView::Negative(n) => {
            reveal_strlit("-");
            if n < 0 {
                lemma_decimal((-n) as nat);
            } else {
                lemma_decimal(n as nat);
            }
        },
        NumberView::Fraction(text) => {
            reveal_strlit("");
            reveal_strlit("-");
            reveal_strlit(".");
            let (sign, whole, part) = choose|sign: Seq<char>, whole: Seq<char>, part: Seq<char>|
                text == sign + whole + "."@ + part && #[trigger] is_decimal(sign, whole, part);
            assert forall|i: int| 0 <= i < text.len() implies is_number_char(#[trigger] text[i]) by {
                let a = sign.len() as int;
                let b = a + whole.len();
                if i < a {
                    assert(text[i] == sign[i]);
                } else if i < b {
                    assert(text[i] == whole[i - a]);
                } else if i > b {
                    assert(text[i] == part[i - b - 1]);
                }
            }
        },
    }
    lemma_word_is_value(text);
}

/// The words are values.
pub proof fn lemma_words()
    ensures
        is_value("null"@, Shape::Anything),
        is_balanced("null"@),
        is_value("true"@, Shape::Anything),
        is_balanced("true"@),
        is_value("false"@, Shape::Anything),
        is_balanced("false"@),
{
    reveal_strlit("null");
    reveal_strlit("true");
    reveal_strlit("false");
    lemma_word_is_value("null"@);
    lemma_word_is_value("true"@);
    lemma_word_is_value("false"@);
}

proof fn lemma_compact_items(items: Seq<JsonView>)
    ensures
        compact_items(items).len() == items.len(),
        forall|i: int| 0 <= i < items.len() ==> #[trigger] compact_items(items)[i] == compact(items[i]),
    decreases items.len(),
{
    if items.len() > 0 {
        lemma_compact_items(items.drop_last());
    }
}

proof fn lemma_compact_members(json: JsonView, keys: Seq<Seq<char>>)
    requires
        json is Object,
        forall|i: int| 0 <= i < keys.len() ==> json->Object_0.contains_key(#[trigger] keys[i]),
    ensures
        compact_members(json, keys).len() == keys.len(),
        forall|i: int|
            0 <= i < keys.len() ==> #[trigger] compact_members(json, keys)[i]
                == json_quoted(keys[i])
                + ":"@ + compact(json->Object_0[keys[i]]),
    decreases keys.len(),
{
    if keys.len() > 0 {
        let init = keys.drop_last();
        assert forall|i: int| 0 <= i < init.len() implies json->Object_0.contains_key(
            #[trigger] init[i],
        ) by {
            assert(init[i] == keys[i]);
        }
        lemma_compact_members(json, init);
    }
}

/// A document without white space is a value.
pub proof fn lemma_compact_is_value(json: JsonView, depth: nat)
    requires
        is_plain_json(json, depth),
    ensures
        is_value(compact(json), Shape::Anything),
        is_balanced(compact(json)),
    decreases depth,
{
    reveal_strlit(",");
    reveal_strlit(":");
    reveal_strlit("[");
    reveal_strlit("]");
    reveal_strlit("{");
    reveal_strlit("}");
    lemma_flat_is_balanced(","@);
    lemma_flat_is_balanced(":"@);
    match json {
        JsonView::Number(number) => {
            lemma_number_is_value(number);
        },
        JsonView::Text(text) => {
            lemma_quoted_is_value(text);
        },
        JsonView::Array(items) => {
            let parts = compact_items(items);
            lemma_compact_items(items);
            assert forall|i: int| 0 <= i < parts.len() implies is_balanced(#[trigger] parts[i]) by {
                assert(is_plain_json(items[i], (depth - 1) as nat));
                lemma_compact_is_value(items[i], (depth - 1) as nat);
            }
            lemma_joined_balanced(parts, ","@);
            lemma_bracketed('[', join(parts, ","@), ']');
            assert(compact(json) =~= seq!['['] + join(parts, ","@) + seq![']']);
        },
        JsonView::Object(members) => {
            let keys = sorted_keys(members.dom());
            lemma_finite_is_walked(members.dom());
            assert forall|i: int| 0 <= i < keys.len() implies members.contains_key(
                #[trigger] keys[i],
            ) by {
                assert(keys.contains(keys[i]));
                assert(keys.to_set().contains(keys[i]));
            }
            let parts = compact_members(json, keys);
            lemma_compact_members(json, keys);
            assert forall|i: int| 0 <= i < parts.len() implies is_balanced(#[trigger] parts[i]) by {
                let value = members[keys[i]];
                assert(is_plain_json(value, (depth - 1) as nat));
                lemma_compact_is_value(value, (depth - 1) as nat);
                lemma_quoted_is_value(keys[i]);
                lemma_both_balanced(json_quoted(keys[i]), ":"@);
                lemma_both_balanced(json_quoted(keys[i]) + ":"@, compact(value));
            }
            lemma_joined_balanced(parts, ","@);
            lemma_bracketed('{', join(parts, ","@), '}');
            assert(compact(json) =~= seq!['{'] + join(parts, ","@) + seq!['}']);
        },
        _ => {
            lemma_words();
        },
    }
}

/// Nothing but white space.
pub open spec fn is_blank_space(s: Seq<char>) -> bool {
    forall|i: int| 0 <= i < s.len() ==> is_space(#[trigger] s[i])
}

/// What follows white space.
pub proof fn lemma_after_blank(blank: Seq<char>, rest: Seq<char>)
    requires
        is_blank_space(blank),
        rest.len() > 0 ==> !is_space(rest[0]),
    ensures
        after_space(blank + rest) == rest,
    decreases blank.len(),
{
    if blank.len() == 0 {
        assert(blank + rest =~= rest);
    } else {
        assert(is_space(blank[0]));
        assert((blank + rest).skip(1) =~= blank.skip(1) + rest);
        lemma_after_blank(blank.skip(1), rest);
    }
}

/// A name that is quoted as it is.
pub open spec fn is_name(name: Seq<char>) -> bool {
    forall|i: int|
        0 <= i < name.len() ==> #[trigger] name[i] != '"' && name[i] != '\\' && name[i] as int >= 32
}

proof fn lemma_name(name: Seq<char>)
    requires
        is_name(name),
    ensures
        escaped(name) == name,
    decreases name.len(),
{
    if name.len() > 0 {
        lemma_name(name.drop_last());
        assert(name.last() == name[name.len() - 1]);
        assert(escaped(name) =~= name);
    }
}

/// A name is the key that it is quoted as.
pub proof fn lemma_key(name: Seq<char>)
    requires
        is_name(name),
    ensures
        key_of(json_quoted(name)) == Some(name),
{
    lemma_name(name);
    let literal = json_quoted(name);
    assert forall|i: int| 0 <= i < literal.len() implies #[trigger] literal[i] != '\\' by {
        if 0 < i < literal.len() - 1 {
            assert(literal[i] == name[i - 1]);
        }
    }
    assert(!literal.contains('\\'));
    assert(literal.subrange(1, literal.len() - 1) =~= name);
}

/// A key and a colon before a value.
pub proof fn lemma_quoted_key(name: Seq<char>, gap: Seq<char>, rest: Seq<char>)
    requires
        is_blank_space(gap),
        rest.len() > 0 ==> !is_space(rest[0]),
    ensures
        quoted_key(json_quoted(name) + (seq![':'] + gap + rest)) == Some((json_quoted(name), rest)),
{
    let behind = seq![':'] + gap + rest;
    let s = json_quoted(name) + behind;
    lemma_after_quoted(name, behind);
    lemma_after_blank(gap, rest);
    assert(behind.skip(1) =~= gap + rest);
    assert(s.take(s.len() - behind.len()) =~= json_quoted(name));
}

proof fn lemma_join_front(parts: Seq<Seq<char>>, separator: Seq<char>)
    requires
        parts.len() >= 2,
    ensures
        join(parts, separator) == parts[0] + separator + join(parts.skip(1), separator),
    decreases parts.len(),
{
    let init = parts.drop_last();
    if parts.len() == 2 {
        assert(join(init, separator) == parts[0]);
        assert(join(parts.skip(1), separator) == parts[1]);
    } else {
        lemma_join_front(init, separator);
        assert(parts.skip(1).drop_last() =~= init.skip(1));
        assert(join(parts, separator) =~= parts[0] + separator + join(parts.skip(1), separator));
    }
}

/// A field as it is written.
pub open spec fn member_text(
    name: Seq<char>,
    text: Seq<char>,
    lead: Seq<char>,
    gap: Seq<char>,
) -> Seq<char> {
    lead + json_quoted(name) + (seq![':'] + gap) + text
}

/// The fields as they are written.
pub open spec fn member_texts(
    pairs: Seq<FieldText>,
    lead: Seq<char>,
    gap: Seq<char>,
) -> Seq<Seq<char>> {
    Seq::new(pairs.len(), |i: int| member_text(pairs[i].0, pairs[i].1, lead, gap))
}

/// What is written of the fields from a position on, where the white space before the first was
/// passed.
pub open spec fn members_from(
    pairs: Seq<FieldText>,
    line: Seq<char>,
    lead: Seq<char>,
    gap: Seq<char>,
    k: nat,
) -> Seq<char>
    decreases pairs.len() - k,
{
    if k >= pairs.len() {
        seq!['}']
    } else {
        json_quoted(pairs[k as int].0) + (seq![':'] + gap) + pairs[k as int].1 + (if k + 1
            < pairs.len() {
            seq![','] + line + lead + members_from(pairs, line, lead, gap, k + 1)
        } else {
            line + seq!['}']
        })
    }
}

/// The fields from a position on are written one after the other.
pub proof fn lemma_members_from(
    pairs: Seq<FieldText>,
    line: Seq<char>,
    lead: Seq<char>,
    gap: Seq<char>,
    k: nat,
)
    requires
        k < pairs.len(),
    ensures
        join(member_texts(pairs, lead, gap).skip(k as int), seq![','] + line) + (line + seq!['}'])
            == lead + members_from(pairs, line, lead, gap, k),
    decreases pairs.len() - k,
{
    let parts = member_texts(pairs, lead, gap).skip(k as int);
    let separator = seq![','] + line;
    let close = line + seq!['}'];
    let (name, text) = pairs[k as int];
    let own = json_quoted(name) + (seq![':'] + gap) + text;
    assert(parts[0] == member_text(name, text, lead, gap));
    assert(parts[0] =~= lead + own);
    if k + 1 < pairs.len() {
        let rest = members_from(pairs, line, lead, gap, k + 1);
        lemma_members_from(pairs, line, lead, gap, k + 1);
        lemma_join_front(parts, separator);
        assert(parts.skip(1) =~= member_texts(pairs, lead, gap).skip((k + 1) as int));
        let others = join(parts.skip(1), separator);
        assert(others + close == lead + rest);
        assert(join(parts, separator) + close =~= parts[0] + separator + (others + close));
        assert(separator + (lead + rest) =~= seq![','] + line + lead + rest);
        assert(parts[0] + separator + (lead + rest) =~= lead + (own + (separator + (lead + rest))));
    } else {
        assert(join(parts, separator) + close =~= lead + (own + close));
    }
}

/// What is written of the fields begins without white space.
pub proof fn lemma_members_begin(
    pairs: Seq<FieldText>,
    line: Seq<char>,
    lead: Seq<char>,
    gap: Seq<char>,
    k: nat,
)
    ensures
        members_from(pairs, line, lead, gap, k).len() > 0,
        !is_space(members_from(pairs, line, lead, gap, k)[0]),
{
}

/// The text of a record: `line` stands between the fields, `lead` before each and `gap` behind each
/// colon.
pub open spec fn record_text(
    pairs: Seq<FieldText>,
    line: Seq<char>,
    lead: Seq<char>,
    gap: Seq<char>,
) -> Seq<char> {
    seq!['{'] + line + join(member_texts(pairs, lead, gap), seq![','] + line) + (line + seq!['}'])
}

/// The fields of a record have names of their own, which are quoted as they are.
pub open spec fn has_names(shape: Shape) -> bool {
    forall|k: int|
        0 <= k < fields(shape).len() ==> is_name((#[trigger] fields(shape)[k]).0) && field_at(
            fields(shape),
            fields(shape)[k].0,
        ) == Some(k)
}

/// All fields of a record, each with a value of its shape.
pub open spec fn are_fields(pairs: Seq<FieldText>, shape: Shape) -> bool {
    &&& pairs.len() == fields(shape).len()
    &&& forall|k: int|
        0 <= k < pairs.len() ==> (#[trigger] pairs[k]).0 == fields(shape)[k].0 && is_value(
            pairs[k].1,
            fields(shape)[k].2,
        )
}

proof fn lemma_members(
    pairs: Seq<FieldText>,
    shape: Shape,
    line: Seq<char>,
    lead: Seq<char>,
    gap: Seq<char>,
    k: nat,
    tail: Seq<char>,
    bound: nat,
)
    requires
        has_names(shape),
        are_fields(pairs, shape),
        is_blank_space(line),
        is_blank_space(lead),
        is_blank_space(gap),
        k <= pairs.len(),
        (members_from(pairs, line, lead, gap, k) + tail).len() < bound,
    ensures
        after_members(
            members_from(pairs, line, lead, gap, k) + tail,
            shape,
            Seq::new(fields(shape).len(), |j: int| j < k),
            bound,
        ) == Some(tail),
    decreases pairs.len() - k,
{
    let s = members_from(pairs, line, lead, gap, k) + tail;
    let seen = Seq::new(fields(shape).len(), |j: int| j < k);
    if k == pairs.len() {
        assert(s.skip(1) =~= tail);
        assert(is_complete(fields(shape), seen));
    } else {
        let (name, text) = pairs[k as int];
        let next = members_from(pairs, line, lead, gap, k + 1) + tail;
        let after = Seq::new(fields(shape).len(), |j: int| j < k + 1);
        let more = if k + 1 < pairs.len() {
            seq![','] + (line + lead + next)
        } else {
            line + next
        };
        assert(fields(shape)[k as int].0 == name);
        lemma_members_begin(pairs, line, lead, gap, k + 1);
        assert(ends(more)) by {
            if k + 1 >= pairs.len() && line.len() > 0 {
                assert(is_space(line[0]));
            }
        }
        assert(s =~= json_quoted(name) + (seq![':'] + gap + (text + more)));
        lemma_quoted_key(name, gap, text + more);
        lemma_key(name);
        assert(after_shape(text + more, fields(shape)[k as int].2) == Some(more));
        assert(after_comma(more) == next) by {
            if k + 1 < pairs.len() {
                assert(is_blank_space(line + lead)) by {
                    assert forall|i: int| 0 <= i < (line + lead).len() implies is_space(
                        #[trigger] (line + lead)[i],
                    ) by {
                        if i < line.len() {
                            assert(is_space(line[i]));
                        } else {
                            assert(is_space(lead[i - line.len()]));
                        }
                    }
                }
                lemma_after_blank(line + lead, next);
                assert(more.skip(1) =~= line + lead + next);
                lemma_after_blank(Seq::empty(), more);
                assert(Seq::<char>::empty() + more =~= more);
            } else {
                lemma_after_blank(line, next);
            }
        }
        assert(seen.update(k as int, true) =~= after);
        lemma_members(pairs, shape, line, lead, gap, k + 1, tail, s.len());
    }
}

/// A record that is written with all its fields is a value of its shape.
pub proof fn lemma_record_is_value(
    pairs: Seq<FieldText>,
    shape: Shape,
    line: Seq<char>,
    lead: Seq<char>,
    gap: Seq<char>,
)
    requires
        form(shape) == Form::Record,
        pairs.len() > 0,
        has_names(shape),
        are_fields(pairs, shape),
        is_blank_space(line),
        is_blank_space(lead),
        is_blank_space(gap),
    ensures
        is_value(record_text(pairs, line, lead, gap), shape),
{
    let text = record_text(pairs, line, lead, gap);
    assert forall|tail: Seq<char>| ends(tail) implies #[trigger] after_shape(text + tail, shape)
        == Some(tail) by {
        let inner = members_from(pairs, line, lead, gap, 0) + tail;
        lemma_members_from(pairs, line, lead, gap, 0);
        assert(member_texts(pairs, lead, gap).skip(0) =~= member_texts(pairs, lead, gap));
        let joined = join(member_texts(pairs, lead, gap), seq![','] + line);
        let close = line + seq!['}'];
        assert(joined + close == lead + members_from(pairs, line, lead, gap, 0));
        assert((text + tail).skip(1) =~= line + (joined + close) + tail);
        assert((text + tail).skip(1) =~= line + lead + inner);
        assert(is_blank_space(line + lead)) by {
            assert forall|i: int| 0 <= i < (line + lead).len() implies is_space(
                #[trigger] (line + lead)[i],
            ) by {
                if i < line.len() {
                    assert(is_space(line[i]));
                } else {
                    assert(is_space(lead[i - line.len()]));
                }
            }
        }
        lemma_members_begin(pairs, line, lead, gap, 0);
        lemma_after_blank(line + lead, inner);
        lemma_members(pairs, shape, line, lead, gap, 0, tail, (text + tail).len());
        assert(unseen(shape) =~= Seq::new(fields(shape).len(), |j: int| j < 0));
    }
}

/// A record that is written without white space is a value of its shape.
pub proof fn lemma_object_is_value(pairs: Seq<FieldText>, shape: Shape)
    requires
        form(shape) == Form::Record,
        pairs.len() > 0,
        has_names(shape),
        are_fields(pairs, shape),
    ensures
        is_value(object_text(pairs), shape),
{
    let none = Seq::<char>::empty();
    reveal_strlit("{");
    reveal_strlit("}");
    reveal_strlit(":");
    reveal_strlit(",");
    lemma_record_is_value(pairs, shape, none, none, none);
    assert forall|i: int| 0 <= i < pairs.len() implies #[trigger] member_texts(pairs, none, none)[i]
        == field_texts(pairs)[i] by {
        assert(member_texts(pairs, none, none)[i] =~= field_texts(pairs)[i]);
    }
    assert(member_texts(pairs, none, none) =~= field_texts(pairs));
    assert(seq![','] + none =~= ","@);
    assert(record_text(pairs, none, none, none) =~= object_text(pairs));
}

proof fn lemma_object_begins(pairs: Seq<FieldText>)
    ensures
        object_text(pairs) == seq!['{'] + members_from(
            pairs,
            Seq::empty(),
            Seq::empty(),
            Seq::empty(),
            0,
        ),
{
    let none = Seq::<char>::empty();
    reveal_strlit("{");
    reveal_strlit("}");
    reveal_strlit(":");
    reveal_strlit(",");
    assert forall|i: int| 0 <= i < pairs.len() implies #[trigger] member_texts(pairs, none, none)[i]
        == field_texts(pairs)[i] by {
        assert(member_texts(pairs, none, none)[i] =~= field_texts(pairs)[i]);
    }
    assert(member_texts(pairs, none, none) =~= field_texts(pairs));
    assert(seq![','] + none =~= ","@);
    let joined = join(field_texts(pairs), ","@);
    if pairs.len() > 0 {
        lemma_members_from(pairs, none, none, none, 0);
        assert(field_texts(pairs).skip(0) =~= field_texts(pairs));
        assert(joined + (none + seq!['}']) == none + members_from(pairs, none, none, none, 0));
        assert(object_text(pairs) =~= seq!['{'] + (joined + (none + seq!['}'])));
        assert(none + members_from(pairs, none, none, none, 0) =~= members_from(
            pairs,
            none,
            none,
            none,
            0,
        ));
    } else {
        assert(object_text(pairs) =~= seq!['{'] + seq!['}']);
    }
}

proof fn lemma_entries(pairs: Seq<FieldText>, value: Shape, k: nat, tail: Seq<char>, bound: nat)
    requires
        forall|i: int| 0 <= i < pairs.len() ==> is_value((#[trigger] pairs[i]).1, value),
        k <= pairs.len(),
        (members_from(pairs, Seq::empty(), Seq::empty(), Seq::empty(), k) + tail).len() < bound,
    ensures
        after_entries(
            members_from(pairs, Seq::empty(), Seq::empty(), Seq::empty(), k) + tail,
            value,
            bound,
        ) == Some(tail),
    decreases pairs.len() - k,
{
    let none = Seq::<char>::empty();
    let s = members_from(pairs, none, none, none, k) + tail;
    if k == pairs.len() {
        assert(s.skip(1) =~= tail);
    } else {
        let (name, text) = pairs[k as int];
        let next = members_from(pairs, none, none, none, k + 1) + tail;
        let more = if k + 1 < pairs.len() {
            seq![','] + next
        } else {
            next
        };
        lemma_members_begin(pairs, none, none, none, k + 1);
        assert(s =~= json_quoted(name) + (seq![':'] + none + (text + more)));
        lemma_quoted_key(name, none, text + more);
        assert(after_shape(text + more, value) == Some(more));
        assert(after_comma(more) == next) by {
            lemma_after_blank(none, next);
            assert(none + next =~= next);
            lemma_after_blank(none, more);
            assert(none + more =~= more);
            if k + 1 < pairs.len() {
                assert(more.skip(1) =~= next);
            }
        }
        lemma_entries(pairs, value, k + 1, tail, s.len());
    }
}

/// A table that is written is a value of its shape.
pub proof fn lemma_table_is_value(pairs: Seq<FieldText>, shape: Shape, value: Shape)
    requires
        form(shape) == Form::Table(value),
        forall|i: int| 0 <= i < pairs.len() ==> is_value((#[trigger] pairs[i]).1, value),
    ensures
        is_value(object_text(pairs), shape),
{
    let none = Seq::<char>::empty();
    let text = object_text(pairs);
    lemma_object_begins(pairs);
    assert forall|tail: Seq<char>| ends(tail) implies #[trigger] after_shape(text + tail, shape)
        == Some(tail) by {
        let inner = members_from(pairs, none, none, none, 0) + tail;
        assert((text + tail).skip(1) =~= inner);
        lemma_members_begin(pairs, none, none, none, 0);
        lemma_after_blank(none, inner);
        assert(none + inner =~= inner);
        lemma_entries(pairs, value, 0, tail, (text + tail).len());
    }
}

/// What is written of the items from a position on.
pub open spec fn items_from(items: Seq<Seq<char>>, k: nat) -> Seq<char>
    decreases items.len() - k,
{
    if k >= items.len() {
        seq![']']
    } else {
        items[k as int] + (if k + 1 < items.len() {
            seq![','] + items_from(items, k + 1)
        } else {
            seq![']']
        })
    }
}

proof fn lemma_items_from(items: Seq<Seq<char>>, k: nat)
    requires
        k < items.len(),
    ensures
        join(items.skip(k as int), seq![',']) + seq![']'] == items_from(items, k),
    decreases items.len() - k,
{
    let parts = items.skip(k as int);
    if k + 1 < items.len() {
        lemma_items_from(items, k + 1);
        lemma_join_front(parts, seq![',']);
        assert(parts.skip(1) =~= items.skip((k + 1) as int));
        let others = join(parts.skip(1), seq![',']);
        assert(join(parts, seq![',']) + seq![']'] =~= items[k as int] + (seq![','] + (others + seq![
            ']',
        ])));
    }
}

proof fn lemma_items(items: Seq<Seq<char>>, item: Shape, k: nat, tail: Seq<char>, bound: nat)
    requires
        forall|i: int| 0 <= i < items.len() ==> is_value(#[trigger] items[i], item),
        k <= items.len(),
        (items_from(items, k) + tail).len() < bound,
    ensures
        after_items(items_from(items, k) + tail, item, bound) == Some(tail),
    decreases items.len() - k,
{
    let none = Seq::<char>::empty();
    let s = items_from(items, k) + tail;
    if k == items.len() {
        assert(s.skip(1) =~= tail);
    } else {
        let next = items_from(items, k + 1) + tail;
        let more = if k + 1 < items.len() {
            seq![','] + next
        } else {
            next
        };
        assert(is_value(items[k as int], item));
        assert(s =~= items[k as int] + more);
        assert(after_shape(items[k as int] + more, item) == Some(more));
        assert(next.len() > 0 && !is_space(next[0])) by {
            if k + 1 < items.len() {
                assert(is_value(items[(k + 1) as int], item));
                assert(next[0] == items[(k + 1) as int][0]);
            }
        }
        assert(after_comma(more) == next) by {
            lemma_after_blank(none, next);
            assert(none + next =~= next);
            lemma_after_blank(none, more);
            assert(none + more =~= more);
            if k + 1 < items.len() {
                assert(more.skip(1) =~= next);
            }
        }
        lemma_items(items, item, k + 1, tail, s.len());
    }
}

/// A list that is written is a value of its shape.
pub proof fn lemma_list_is_value(items: Seq<Seq<char>>, shape: Shape, item: Shape)
    requires
        form(shape) == Form::List(item),
        forall|i: int| 0 <= i < items.len() ==> is_value(#[trigger] items[i], item),
    ensures
        is_value(array_text(items), shape),
{
    let none = Seq::<char>::empty();
    let text = array_text(items);
    reveal_strlit("[");
    reveal_strlit("]");
    reveal_strlit(",");
    assert(","@ =~= seq![',']);
    assert(text =~= seq!['['] + items_from(items, 0)) by {
        if items.len() > 0 {
            lemma_items_from(items, 0);
            assert(items.skip(0) =~= items);
            assert(text =~= seq!['['] + (join(items, seq![',']) + seq![']']));
        }
    }
    assert forall|tail: Seq<char>| ends(tail) implies #[trigger] after_shape(text + tail, shape)
        == Some(tail) by {
        let inner = items_from(items, 0) + tail;
        assert((text + tail).skip(1) =~= inner);
        assert(inner.len() > 0 && !is_space(inner[0])) by {
            if items.len() > 0 {
                assert(is_value(items[0], item));
                assert(inner[0] == items[0][0]);
            }
        }
        lemma_after_blank(none, inner);
        assert(none + inner =~= inner);
        lemma_items(items, item, 0, tail, (text + tail).len());
    }
}

/// A text that is a value of a shape holds each of its fields once.
pub proof fn lemma_value_is_unambiguous(text: Seq<char>, shape: Shape)
    requires
        is_value(text, shape),
    ensures
        is_unambiguous(text, shape),
{
    let none = Seq::<char>::empty();
    assert(after_space(text) == text) by {
        lemma_after_blank(none, text);
        assert(none + text =~= text);
    }
    assert(after_shape(text + none, shape) == Some(none));
    assert(text + none =~= text);
}

} // verus!
