//! Texts without what no field of a record holds.

use crate::document::{is_read_as, json_document, parse, JsonError, JsonErrorView};
use crate::json::{Json, JsonView};
use crate::shape::{
    after_comma, after_shape, after_space, after_value, chars_of, field_at, fields, find_field,
    form, form_of, key_of, list_fields, listed, pass_comma, pass_key, pass_shape, pass_space,
    pass_value, quoted_key, read_key, Form, Shape,
};
use vstd::prelude::*;

verus! {

/// Whether a text is a document of which nothing is kept.
pub uninterp spec fn is_skipped(text: Seq<char>) -> bool;

/// Calls `serde_json::from_str` for a `serde::de::IgnoredAny`, which checks how a text is put
/// together and keeps nothing of it: numbers may be beyond the range of a float, escapes need not
/// make up a character, and brackets may be nested as deep as they like. Whether it succeeds depends
/// on the text alone.
#[verifier::external_body]
fn skips(text: &str) -> (r: bool)
    ensures
        r == is_skipped(text@),
{
    serde_json::from_str::<serde::de::IgnoredAny>(text).is_ok()
}

/// What was written, and what follows in the text.
pub type Pruned = Option<(Seq<char>, Seq<char>)>;

/// What was written with more before it.
pub open spec fn behind(written: Seq<char>, pruned: Pruned) -> Pruned {
    match pruned {
        Some((more, rest)) => Some((written + more, rest)),
        None => None,
    }
}

/// A comma before every part but the first.
pub open spec fn comma(first: bool) -> Seq<char> {
    if first {
        ""@
    } else {
        ","@
    }
}

/// The text of a value of the given shape, with null for each member that is no field.
pub open spec fn pruned_shape(s: Seq<char>, shape: Shape) -> Pruned
    decreases s.len(), 1nat,
{
    if s.len() == 0 {
        None
    } else {
        match form(shape) {
            Form::List(item) => if s[0] == '[' {
                behind("["@, pruned_items(after_space(s.skip(1)), item, true, s.len()))
            } else {
                None
            },
            Form::Table(value) => if s[0] == '{' {
                behind("{"@, pruned_entries(after_space(s.skip(1)), value, true, s.len()))
            } else {
                None
            },
            Form::Record => if s[0] == '{' {
                behind("{"@, pruned_members(after_space(s.skip(1)), shape, true, s.len()))
            } else if s[0] == '[' {
                behind("["@, pruned_positions(after_space(s.skip(1)), shape, 0, s.len()))
            } else {
                None
            },
            _ => match after_shape(s, shape) {
                Some(rest) => Some((s.take(s.len() - rest.len()), rest)),
                None => None,
            },
        }
    }
}

/// The items of a list and the bracket that closes it.
pub open spec fn pruned_items(s: Seq<char>, item: Shape, first: bool, bound: nat) -> Pruned
    decreases bound, 0nat,
{
    if s.len() == 0 || s.len() >= bound {
        None
    } else if s[0] == ']' {
        Some(("]"@, s.skip(1)))
    } else {
        match pruned_shape(s, item) {
            Some((text, rest)) => behind(
                comma(first) + text,
                pruned_items(after_comma(rest), item, false, s.len()),
            ),
            None => None,
        }
    }
}

/// The entries of a table and the bracket that closes it.
pub open spec fn pruned_entries(s: Seq<char>, value: Shape, first: bool, bound: nat) -> Pruned
    decreases bound, 0nat,
{
    if s.len() == 0 || s.len() >= bound {
        None
    } else if s[0] == '}' {
        Some(("}"@, s.skip(1)))
    } else {
        match quoted_key(s) {
            Some((literal, rest)) => if rest.len() < s.len() {
                match pruned_shape(rest, value) {
                    Some((text, rest)) => behind(
                        comma(first) + literal + ":"@ + text,
                        pruned_entries(after_comma(rest), value, false, s.len()),
                    ),
                    None => None,
                }
            } else {
                None
            },
            None => None,
        }
    }
}

/// The text of a member of a record: null where it is no field.
pub open spec fn pruned_member(literal: Seq<char>, s: Seq<char>, shape: Shape) -> Pruned
    decreases s.len(), 2nat,
{
    match key_of(literal) {
        None => None,
        Some(key) => match field_at(fields(shape), key) {
            None => match after_value(s) {
                Some(rest) => Some(("null"@, rest)),
                None => None,
            },
            Some(i) => pruned_shape(s, fields(shape)[i].2),
        },
    }
}

/// The members of a record and the bracket that closes it.
pub open spec fn pruned_members(s: Seq<char>, shape: Shape, first: bool, bound: nat) -> Pruned
    decreases bound, 0nat,
{
    if s.len() == 0 || s.len() >= bound {
        None
    } else if s[0] == '}' {
        Some(("}"@, s.skip(1)))
    } else {
        match quoted_key(s) {
            Some((literal, rest)) => if rest.len() < s.len() {
                match pruned_member(literal, rest, shape) {
                    Some((text, rest)) => behind(
                        comma(first) + literal + ":"@ + text,
                        pruned_members(after_comma(rest), shape, false, s.len()),
                    ),
                    None => None,
                }
            } else {
                None
            },
            None => None,
        }
    }
}

/// The fields of a record that stand in order, from the one at position `i`, and the bracket that
/// closes it.
pub open spec fn pruned_positions(s: Seq<char>, shape: Shape, i: int, bound: nat) -> Pruned
    decreases bound, 0nat,
{
    if s.len() == 0 || s.len() >= bound {
        None
    } else if s[0] == ']' {
        Some(("]"@, s.skip(1)))
    } else if i < fields(shape).len() {
        match pruned_shape(s, fields(shape)[i].2) {
            Some((text, rest)) => behind(
                comma(i == 0) + text,
                pruned_positions(after_comma(rest), shape, i + 1, s.len()),
            ),
            None => None,
        }
    } else {
        None
    }
}

/// What was written, and where what follows begins.
pub open spec fn is_written(r: Option<(String, usize)>, chars: Seq<char>, want: Pruned) -> bool {
    match r {
        Some((text, end)) => end <= chars.len() && want == Some((text@, chars.skip(end as int))),
        None => want is None,
    }
}

/// Writes the text of a value of the given shape.
fn prune_shape(text: &str, chars: &Vec<char>, i: usize, shape: Shape) -> (r: Option<
    (String, usize),
>)
    requires
        chars@ == text@,
        i <= chars@.len(),
    ensures
        is_written(r, chars@, pruned_shape(chars@.skip(i as int), shape)),
        r matches Some((_, end)) ==> i < end,
    decreases chars@.len() - i, 1nat,
{
    if i == chars.len() {
        return None;
    }
    let ghost s = chars@.skip(i as int);
    assert(s.skip(1) =~= chars@.skip(i + 1));
    let c = chars[i];
    match form_of(shape) {
        Form::List(item) => if c == '[' {
            let at: usize = pass_space(chars, i + 1);
            prune_items(text, chars, at, item, Ghost(s.len()))
        } else {
            None
        },
        Form::Table(value) => if c == '{' {
            let at: usize = pass_space(chars, i + 1);
            prune_entries(text, chars, at, value, Ghost(s.len()))
        } else {
            None
        },
        Form::Record => if c == '{' {
            let at: usize = pass_space(chars, i + 1);
            prune_members(text, chars, at, shape, Ghost(s.len()))
        } else if c == '[' {
            let at: usize = pass_space(chars, i + 1);
            prune_positions(text, chars, at, shape, Ghost(s.len()))
        } else {
            None
        },
        _ => match pass_shape(text, chars, i, shape) {
            Some(end) => {
                let part = text.substring_char(i, end).to_owned();
                assert(part@ =~= s.take(s.len() - chars@.skip(end as int).len()));
                Some((part, end))
            },
            None => None,
        },
    }
}

proof fn lemma_behind(a: Seq<char>, b: Seq<char>, pruned: Pruned)
    ensures
        behind(a, behind(b, pruned)) == behind(a + b, pruned),
        comma(true) == Seq::<char>::empty(),
        comma(false) == ","@,
{
    reveal_strlit("");
    assert(""@ =~= Seq::<char>::empty());
    match pruned {
        Some((more, _)) => {
            assert(a + (b + more) =~= a + b + more);
        },
        None => {},
    }
}

/// Writes the items of a list.
fn prune_items(text: &str, chars: &Vec<char>, i: usize, item: Shape, bound: Ghost<nat>) -> (r:
    Option<(String, usize)>)
    requires
        chars@ == text@,
        i <= chars@.len(),
        chars@.len() - i < bound@,
    ensures
        is_written(
            r,
            chars@,
            behind("["@, pruned_items(chars@.skip(i as int), item, true, bound@)),
        ),
        r matches Some((_, end)) ==> i < end,
    decreases bound@, 0nat,
{
    let ghost want = pruned_items(chars@.skip(i as int), item, true, bound@);
    let ghost mut left = bound@;
    let mut out = "[".to_owned();
    let mut at: usize = i;
    let mut first = true;
    assert(behind("["@, want) == behind(out@, want));
    while at < chars.len()
        invariant
            chars@ == text@,
            i <= at <= chars@.len(),
            chars@.len() - at < left <= bound@,
            behind("["@, pruned_items(chars@.skip(i as int), item, true, bound@)) == behind(
                out@,
                pruned_items(chars@.skip(at as int), item, first, left),
            ),
        decreases chars@.len() - at,
    {
        let ghost s = chars@.skip(at as int);
        let ghost before = out@;
        assert(s.skip(1) =~= chars@.skip(at + 1));
        if chars[at] == ']' {
            out.append("]");
            return Some((out, at + 1));
        }
        match prune_shape(text, chars, at, item) {
            Some((part, end)) => {
                if !first {
                    out.append(",");
                }
                out.append(part.as_str());
                at = pass_comma(chars, end);
                proof {
                    let next = pruned_items(chars@.skip(at as int), item, false, s.len());
                    lemma_behind(before, comma(first) + part@, next);
                    assert(out@ =~= before + (comma(first) + part@));
                    left = s.len();
                }
                first = false;
            },
            None => return None,
        }
    }
    None
}

/// Writes the entries of a table.
fn prune_entries(text: &str, chars: &Vec<char>, i: usize, value: Shape, bound: Ghost<nat>) -> (r:
    Option<(String, usize)>)
    requires
        chars@ == text@,
        i <= chars@.len(),
        chars@.len() - i < bound@,
    ensures
        is_written(
            r,
            chars@,
            behind("{"@, pruned_entries(chars@.skip(i as int), value, true, bound@)),
        ),
        r matches Some((_, end)) ==> i < end,
    decreases bound@, 0nat,
{
    let ghost want = pruned_entries(chars@.skip(i as int), value, true, bound@);
    let ghost mut left = bound@;
    let mut out = "{".to_owned();
    let mut at: usize = i;
    let mut first = true;
    assert(behind("{"@, want) == behind(out@, want));
    while at < chars.len()
        invariant
            chars@ == text@,
            i <= at <= chars@.len(),
            chars@.len() - at < left <= bound@,
            behind("{"@, pruned_entries(chars@.skip(i as int), value, true, bound@)) == behind(
                out@,
                pruned_entries(chars@.skip(at as int), value, first, left),
            ),
        decreases chars@.len() - at,
    {
        let ghost s = chars@.skip(at as int);
        let ghost before = out@;
        assert(s.skip(1) =~= chars@.skip(at + 1));
        if chars[at] == '}' {
            out.append("}");
            return Some((out, at + 1));
        }
        let (literal, rest) = match pass_key(text, chars, at) {
            Some(found) => found,
            None => return None,
        };
        match prune_shape(text, chars, rest, value) {
            Some((part, end)) => {
                if !first {
                    out.append(",");
                }
                out.append(literal);
                out.append(":");
                out.append(part.as_str());
                at = pass_comma(chars, end);
                proof {
                    let own = comma(first) + literal@ + ":"@ + part@;
                    let next = pruned_entries(chars@.skip(at as int), value, false, s.len());
                    lemma_behind(before, own, next);
                    assert(out@ =~= before + own);
                    left = s.len();
                }
                first = false;
            },
            None => return None,
        }
    }
    None
}

/// Writes the members of a record.
fn prune_members(text: &str, chars: &Vec<char>, i: usize, shape: Shape, bound: Ghost<nat>) -> (r:
    Option<(String, usize)>)
    requires
        chars@ == text@,
        i <= chars@.len(),
        chars@.len() - i < bound@,
    ensures
        is_written(
            r,
            chars@,
            behind("{"@, pruned_members(chars@.skip(i as int), shape, true, bound@)),
        ),
        r matches Some((_, end)) ==> i < end,
    decreases bound@, 0nat,
{
    let list = list_fields(shape);
    let ghost want = pruned_members(chars@.skip(i as int), shape, true, bound@);
    let ghost mut left = bound@;
    let mut out = "{".to_owned();
    let mut at: usize = i;
    let mut first = true;
    assert(behind("{"@, want) == behind(out@, want));
    while at < chars.len()
        invariant
            chars@ == text@,
            i <= at <= chars@.len(),
            chars@.len() - at < left <= bound@,
            listed(list@) == fields(shape),
            behind("{"@, pruned_members(chars@.skip(i as int), shape, true, bound@)) == behind(
                out@,
                pruned_members(chars@.skip(at as int), shape, first, left),
            ),
        decreases chars@.len() - at,
    {
        let ghost s = chars@.skip(at as int);
        let ghost before = out@;
        assert(s.skip(1) =~= chars@.skip(at + 1));
        if chars[at] == '}' {
            out.append("}");
            return Some((out, at + 1));
        }
        let (literal, rest) = match pass_key(text, chars, at) {
            Some(found) => found,
            None => return None,
        };
        let key = match read_key(literal) {
            Some(key) => key,
            None => {
                assert(pruned_member(literal@, chars@.skip(rest as int), shape) is None);
                return None;
            },
        };
        let (part, end) = match find_field(&list, key.as_str()) {
            None => match pass_value(chars, rest) {
                Some(end) => ("null".to_owned(), end),
                None => {
                    assert(pruned_member(literal@, chars@.skip(rest as int), shape) is None);
                    return None;
                },
            },
            Some(k) => {
                assert(fields(shape)[k as int].2 == list@[k as int].2);
                match prune_shape(text, chars, rest, list[k].2) {
                    Some(found) => found,
                    None => {
                        assert(pruned_member(literal@, chars@.skip(rest as int), shape) is None);
                        return None;
                    },
                }
            },
        };
        assert(pruned_member(literal@, chars@.skip(rest as int), shape) == Some(
            (part@, chars@.skip(end as int)),
        ));
        if !first {
            out.append(",");
        }
        out.append(literal);
        out.append(":");
        out.append(part.as_str());
        at = pass_comma(chars, end);
        proof {
            let own = comma(first) + literal@ + ":"@ + part@;
            let next = pruned_members(chars@.skip(at as int), shape, false, s.len());
            lemma_behind(before, own, next);
            assert(out@ =~= before + own);
            left = s.len();
        }
        first = false;
    }
    None
}

/// Writes the fields of a record that stand in order.
fn prune_positions(text: &str, chars: &Vec<char>, i: usize, shape: Shape, bound: Ghost<nat>) -> (r:
    Option<(String, usize)>)
    requires
        chars@ == text@,
        i <= chars@.len(),
        chars@.len() - i < bound@,
    ensures
        is_written(
            r,
            chars@,
            behind("["@, pruned_positions(chars@.skip(i as int), shape, 0, bound@)),
        ),
        r matches Some((_, end)) ==> i < end,
    decreases bound@, 0nat,
{
    let list = list_fields(shape);
    let ghost want = pruned_positions(chars@.skip(i as int), shape, 0, bound@);
    let ghost mut left = bound@;
    let mut out = "[".to_owned();
    let mut at: usize = i;
    let mut k: usize = 0;
    assert(behind("["@, want) == behind(out@, want));
    while at < chars.len()
        invariant
            chars@ == text@,
            i <= at <= chars@.len(),
            chars@.len() - at < left <= bound@,
            listed(list@) == fields(shape),
            k <= list@.len(),
            behind("["@, pruned_positions(chars@.skip(i as int), shape, 0, bound@)) == behind(
                out@,
                pruned_positions(chars@.skip(at as int), shape, k as int, left),
            ),
        decreases chars@.len() - at,
    {
        let ghost s = chars@.skip(at as int);
        let ghost before = out@;
        assert(s.skip(1) =~= chars@.skip(at + 1));
        if chars[at] == ']' {
            out.append("]");
            return Some((out, at + 1));
        }
        if k == list.len() {
            return None;
        }
        assert(fields(shape)[k as int].2 == list@[k as int].2);
        match prune_shape(text, chars, at, list[k].2) {
            Some((part, end)) => {
                if k > 0 {
                    out.append(",");
                }
                out.append(part.as_str());
                at = pass_comma(chars, end);
                proof {
                    let own = comma(k == 0) + part@;
                    let next = pruned_positions(chars@.skip(at as int), shape, k + 1, s.len());
                    lemma_behind(before, own, next);
                    assert(out@ =~= before + own);
                    left = s.len();
                }
                k = k + 1;
            },
            None => return None,
        }
    }
    None
}

/// A document that is read from a text for a record of the given shape. What no field holds is
/// passed over where it cannot be kept. `None` is a document that cannot be read though it is put
/// together as it should be.
pub open spec fn document_read(text: Seq<char>, shape: Shape) -> Result<
    Option<JsonView>,
    JsonErrorView,
> {
    match json_document(text) {
        Ok(json) => Ok(Some(json)),
        Err(error) => if is_skipped(text) {
            match pruned_shape(after_space(text), shape) {
                Some((kept, _)) => match json_document(kept) {
                    Ok(json) => Ok(Some(json)),
                    Err(_) => Ok(None),
                },
                None => Ok(None),
            }
        } else {
            Err(error)
        },
    }
}

/// Reads a document from a text for a record of the given shape.
pub fn read_document(text: &str, shape: Shape) -> (r: Result<Option<Json>, JsonError>)
    ensures
        match r {
            Ok(json) => document_read(text@, shape) == Ok::<Option<JsonView>, JsonErrorView>(
                json.deep_view(),
            ),
            Err(error) => document_read(text@, shape) == Err::<Option<JsonView>, JsonErrorView>(
                error.deep_view(),
            ),
        },
        is_read_as(
            text@,
            match json_document(text@) {
                Ok(json) => Some(json),
                Err(_) => None,
            },
        ),
{
    let error = match parse(text) {
        Ok(json) => return Ok(Some(json)),
        Err(error) => error,
    };
    if !skips(text) {
        return Err(error);
    }
    let chars = chars_of(text);
    assert(chars@.skip(0) =~= text@);
    let start: usize = pass_space(&chars, 0);
    match prune_shape(text, &chars, start, shape) {
        Some((kept, _)) => match parse(kept.as_str()) {
            Ok(json) => Ok(Some(json)),
            Err(_) => Ok(None),
        },
        None => Ok(None),
    }
}

} // verus!
