//! Texts of documents that hold each field of a record once.

use crate::document::{json_document, parse};
use crate::json::{Json, JsonView};
use crate::text::{contains_char, same_text};
use vstd::prelude::*;

verus! {

/// What is read from a place in a text.
#[derive(Clone, Copy, Debug, PartialEq, Eq, Structural)]
pub enum Shape {
    Anything,
    Text,
    Event,
    Settings,
    SearchResponse,
    SearchResults,
    SearchResult,
    Revision,
    Spec,
    Model,
    Prompts,
    Templates,
    Tools,
    Tool,
    Interface,
    Runtime,
    Hooks,
    Component,
    Limits,
    Build,
    Parents,
    Message,
    Metadata,
}

/// How a place in a text is read: as it is, as a text, item by item, member by member with keys of
/// any kind, or field by field.
#[derive(Clone, Copy, Debug, PartialEq, Eq, Structural)]
pub enum Form {
    Anything,
    Text,
    List(Shape),
    Table(Shape),
    Record,
}

/// How a shape is read.
pub open spec fn form(shape: Shape) -> Form {
    match shape {
        Shape::Anything => Form::Anything,
        Shape::Text => Form::Text,
        Shape::SearchResults => Form::List(Shape::SearchResult),
        Shape::Hooks => Form::List(Shape::Component),
        Shape::Parents => Form::List(Shape::Text),
        Shape::Templates => Form::Table(Shape::Text),
        Shape::Tools => Form::Table(Shape::Tool),
        _ => Form::Record,
    }
}

/// A field of a record: its name, whether it must be there, and its shape.
pub type Field = (Seq<char>, bool, Shape);

/// The fields of a record, in order.
pub open spec fn fields(shape: Shape) -> Seq<Field> {
    match shape {
        Shape::Event => seq![
            ("type"@, true, Shape::Text),
            ("response"@, false, Shape::Anything),
            ("item"@, false, Shape::Anything),
            ("item_id"@, false, Shape::Anything),
            ("output_index"@, false, Shape::Anything),
            ("delta"@, false, Shape::Anything),
            ("arguments"@, false, Shape::Anything),
            ("code"@, false, Shape::Anything),
            ("message"@, false, Shape::Anything),
        ],
        Shape::Settings => seq![
            ("base_url"@, false, Shape::Text),
            ("model"@, false, Shape::Text),
            ("api_key"@, false, Shape::Text),
            ("qianfan_api_key"@, false, Shape::Text),
            ("workspace"@, false, Shape::Text),
            ("max_context_tokens"@, false, Shape::Anything),
            ("max_model_iterations"@, false, Shape::Anything),
        ],
        Shape::SearchResponse => seq![("results"@, false, Shape::SearchResults)],
        Shape::SearchResult => seq![
            ("title"@, false, Shape::Anything),
            ("url"@, true, Shape::Text),
            ("publishedDate"@, false, Shape::Anything),
            ("author"@, false, Shape::Anything),
            ("highlights"@, false, Shape::Anything),
        ],
        Shape::Revision => seq![
            ("revision_id"@, true, Shape::Text),
            ("agent_id"@, true, Shape::Text),
            ("spec_digest"@, true, Shape::Text),
            ("spec"@, true, Shape::Spec),
            ("parents"@, true, Shape::Parents),
            ("message"@, true, Shape::Message),
            ("metadata"@, true, Shape::Metadata),
        ],
        Shape::Spec => seq![
            ("agent_id"@, true, Shape::Text),
            ("model"@, true, Shape::Model),
            ("prompts"@, true, Shape::Prompts),
            ("tools"@, true, Shape::Tools),
            ("runtime"@, true, Shape::Runtime),
            ("build"@, true, Shape::Build),
        ],
        Shape::Model => seq![("fqn"@, true, Shape::Text), ("settings"@, true, Shape::Anything)],
        Shape::Prompts => seq![
            ("system"@, true, Shape::Text),
            ("templates"@, true, Shape::Templates),
        ],
        Shape::Tool => seq![
            ("interface"@, true, Shape::Interface),
            ("configuration"@, true, Shape::Anything),
        ],
        Shape::Interface => seq![
            ("name"@, true, Shape::Text),
            ("description"@, true, Shape::Text),
            ("parameters"@, true, Shape::Anything),
            ("output_schema"@, true, Shape::Anything),
        ],
        Shape::Runtime => seq![
            ("context_builder"@, true, Shape::Component),
            ("hooks"@, true, Shape::Hooks),
            ("turn_execution_limits"@, true, Shape::Limits),
        ],
        Shape::Component => seq![
            ("fqn"@, true, Shape::Text),
            ("configuration"@, true, Shape::Anything),
        ],
        Shape::Limits => seq![
            ("max_model_iterations"@, true, Shape::Anything),
            ("max_function_calls"@, true, Shape::Anything),
        ],
        Shape::Build => seq![("id"@, true, Shape::Text)],
        Shape::Message => seq![
            ("subject"@, true, Shape::Text),
            ("body"@, false, Shape::Anything),
        ],
        Shape::Metadata => seq![
            ("author"@, false, Shape::Anything),
            ("created_at"@, false, Shape::Anything),
        ],
        _ => Seq::empty(),
    }
}

/// No field has been seen.
pub open spec fn unseen(shape: Shape) -> Seq<bool> {
    Seq::new(fields(shape).len(), |i: int| false)
}

/// The position of the field with a name.
pub open spec fn field_at(fields: Seq<Field>, name: Seq<char>) -> Option<int>
    decreases fields.len(),
{
    if fields.len() == 0 {
        None
    } else if fields.last().0 == name {
        Some(fields.len() - 1)
    } else {
        field_at(fields.drop_last(), name)
    }
}

/// Whether every field that must be there has been seen.
pub open spec fn is_complete(fields: Seq<Field>, seen: Seq<bool>) -> bool {
    forall|i: int| 0 <= i < fields.len() && (#[trigger] fields[i]).1 ==> seen[i]
}

/// Whether no field that must be there stands at position `i` or behind it.
pub open spec fn ends_at(fields: Seq<Field>, i: int) -> bool {
    forall|k: int| i <= k < fields.len() ==> !(#[trigger] fields[k]).1
}

/// The white space of documents.
pub open spec fn is_space(c: char) -> bool {
    c == ' ' || c == '\n' || c == '\r' || c == '\t'
}

/// What follows white space.
pub open spec fn after_space(s: Seq<char>) -> Seq<char>
    decreases s.len(),
{
    if s.len() > 0 && is_space(s[0]) {
        after_space(s.skip(1))
    } else {
        s
    }
}

/// What follows a text whose opening quote was passed.
pub open spec fn after_text(s: Seq<char>) -> Option<Seq<char>>
    decreases s.len(),
{
    if s.len() == 0 {
        None
    } else if s[0] == '"' {
        Some(s.skip(1))
    } else if s[0] == '\\' {
        if s.len() < 2 {
            None
        } else {
            after_text(s.skip(2))
        }
    } else {
        after_text(s.skip(1))
    }
}

/// Whether a character ends a number or a word.
pub open spec fn is_delimiter(c: char) -> bool {
    is_space(c) || c == ',' || c == ']' || c == '}' || c == ':'
}

/// What follows the rest of a number or a word.
pub open spec fn after_word(s: Seq<char>) -> Seq<char>
    decreases s.len(),
{
    if s.len() == 0 || is_delimiter(s[0]) {
        s
    } else {
        after_word(s.skip(1))
    }
}

/// What follows the bracket that closes the `depth` open ones.
pub open spec fn after_nested(s: Seq<char>, depth: nat) -> Option<Seq<char>>
    decreases s.len(),
{
    if s.len() == 0 {
        None
    } else if s[0] == '"' {
        match after_text(s.skip(1)) {
            Some(rest) => if rest.len() < s.len() {
                after_nested(rest, depth)
            } else {
                None
            },
            None => None,
        }
    } else if s[0] == '[' || s[0] == '{' {
        after_nested(s.skip(1), depth + 1)
    } else if s[0] == ']' || s[0] == '}' {
        if depth <= 1 {
            Some(s.skip(1))
        } else {
            after_nested(s.skip(1), (depth - 1) as nat)
        }
    } else {
        after_nested(s.skip(1), depth)
    }
}

/// What follows a value of any kind.
pub open spec fn after_value(s: Seq<char>) -> Option<Seq<char>> {
    if s.len() == 0 || is_delimiter(s[0]) {
        None
    } else if s[0] == '"' {
        after_text(s.skip(1))
    } else if s[0] == '[' || s[0] == '{' {
        after_nested(s.skip(1), 1)
    } else {
        Some(after_word(s.skip(1)))
    }
}

/// The key that a quoted text is.
pub open spec fn key_of(literal: Seq<char>) -> Option<Seq<char>> {
    if literal.contains('\\') {
        match json_document(literal) {
            Ok(JsonView::Text(key)) => Some(key),
            _ => None,
        }
    } else {
        Some(literal.subrange(1, literal.len() - 1))
    }
}

/// What follows a comma, where there is one.
pub open spec fn after_comma(s: Seq<char>) -> Seq<char> {
    let s = after_space(s);
    if s.len() > 0 && s[0] == ',' {
        after_space(s.skip(1))
    } else {
        s
    }
}

/// A key as it is quoted, with what follows the colon behind it.
pub open spec fn quoted_key(s: Seq<char>) -> Option<(Seq<char>, Seq<char>)> {
    if s.len() == 0 || s[0] != '"' {
        None
    } else {
        match after_text(s.skip(1)) {
            None => None,
            Some(rest) => {
                let colon = after_space(rest);
                if colon.len() == 0 || colon[0] != ':' {
                    None
                } else {
                    Some((s.take(s.len() - rest.len()), after_space(colon.skip(1))))
                }
            },
        }
    }
}

/// What follows a value of the given shape.
pub open spec fn after_shape(s: Seq<char>, shape: Shape) -> Option<Seq<char>>
    decreases s.len(), 1nat,
{
    if s.len() == 0 {
        None
    } else {
        match form(shape) {
            Form::Anything => after_value(s),
            Form::Text => if s[0] == '"' {
                after_text(s.skip(1))
            } else {
                None
            },
            Form::List(item) => if s[0] == '[' {
                after_items(after_space(s.skip(1)), item, s.len())
            } else {
                None
            },
            Form::Table(value) => if s[0] == '{' {
                after_entries(after_space(s.skip(1)), value, s.len())
            } else {
                None
            },
            Form::Record => if s[0] == '{' {
                after_members(
                    after_space(s.skip(1)),
                    shape,
                    unseen(shape),
                    s.len(),
                )
            } else if s[0] == '[' {
                after_positions(after_space(s.skip(1)), shape, 0, s.len())
            } else {
                None
            },
        }
    }
}

/// What follows the items of a list and the bracket that closes it.
pub open spec fn after_items(s: Seq<char>, item: Shape, bound: nat) -> Option<Seq<char>>
    decreases bound, 0nat,
{
    if s.len() == 0 || s.len() >= bound {
        None
    } else if s[0] == ']' {
        Some(s.skip(1))
    } else {
        match after_shape(s, item) {
            Some(rest) => after_items(after_comma(rest), item, s.len()),
            None => None,
        }
    }
}

/// What follows the entries of a table and the bracket that closes it.
pub open spec fn after_entries(s: Seq<char>, value: Shape, bound: nat) -> Option<Seq<char>>
    decreases bound, 0nat,
{
    if s.len() == 0 || s.len() >= bound {
        None
    } else if s[0] == '}' {
        Some(s.skip(1))
    } else {
        match quoted_key(s) {
            Some((_, rest)) => if rest.len() < s.len() {
                match after_shape(rest, value) {
                    Some(rest) => after_entries(after_comma(rest), value, s.len()),
                    None => None,
                }
            } else {
                None
            },
            None => None,
        }
    }
}

/// What follows the members of a record and the bracket that closes it. No field stands twice, and
/// those that must be there are; members that are no fields are passed over.
pub open spec fn after_members(
    s: Seq<char>,
    shape: Shape,
    seen: Seq<bool>,
    bound: nat,
) -> Option<Seq<char>>
    decreases bound, 0nat,
{
    if s.len() == 0 || s.len() >= bound {
        None
    } else if s[0] == '}' {
        if is_complete(fields(shape), seen) {
            Some(s.skip(1))
        } else {
            None
        }
    } else {
        match quoted_key(s) {
            Some((literal, rest)) => if rest.len() < s.len() {
                match key_of(literal) {
                    None => None,
                    Some(key) => match field_at(fields(shape), key) {
                        None => match after_value(rest) {
                            Some(rest) => after_members(after_comma(rest), shape, seen, s.len()),
                            None => None,
                        },
                        Some(i) => if seen[i] {
                            None
                        } else {
                            match after_shape(rest, fields(shape)[i].2) {
                                Some(rest) => after_members(
                                    after_comma(rest),
                                    shape,
                                    seen.update(i, true),
                                    s.len(),
                                ),
                                None => None,
                            }
                        },
                    },
                }
            } else {
                None
            },
            None => None,
        }
    }
}

/// What follows the fields of a record that stand in order, from the one at position `i`, and the
/// bracket that closes it.
pub open spec fn after_positions(s: Seq<char>, shape: Shape, i: int, bound: nat) -> Option<
    Seq<char>,
>
    decreases bound, 0nat,
{
    if s.len() == 0 || s.len() >= bound {
        None
    } else if s[0] == ']' {
        if ends_at(fields(shape), i) {
            Some(s.skip(1))
        } else {
            None
        }
    } else if i < fields(shape).len() {
        match after_shape(s, fields(shape)[i].2) {
            Some(rest) => after_positions(after_comma(rest), shape, i + 1, s.len()),
            None => None,
        }
    } else {
        None
    }
}

/// Whether a text of a document holds each field of a record once.
pub open spec fn is_unambiguous(text: Seq<char>, shape: Shape) -> bool {
    after_shape(after_space(text), shape) is Some
}

pub(crate) fn form_of(shape: Shape) -> (r: Form)
    ensures
        r == form(shape),
{
    match shape {
        Shape::Anything => Form::Anything,
        Shape::Text => Form::Text,
        Shape::SearchResults => Form::List(Shape::SearchResult),
        Shape::Hooks => Form::List(Shape::Component),
        Shape::Parents => Form::List(Shape::Text),
        Shape::Templates => Form::Table(Shape::Text),
        Shape::Tools => Form::Table(Shape::Tool),
        _ => Form::Record,
    }
}

/// What fields that are listed hold.
pub open spec fn listed(fields: Seq<(&str, bool, Shape)>) -> Seq<Field> {
    fields.map_values(|field: (&str, bool, Shape)| (field.0@, field.1, field.2))
}

pub(crate) fn list_fields(shape: Shape) -> (r: Vec<(&'static str, bool, Shape)>)
    ensures
        listed(r@) == fields(shape),
{
    let r: Vec<(&'static str, bool, Shape)> = match shape {
        Shape::Event => vec![
            ("type", true, Shape::Text),
            ("response", false, Shape::Anything),
            ("item", false, Shape::Anything),
            ("item_id", false, Shape::Anything),
            ("output_index", false, Shape::Anything),
            ("delta", false, Shape::Anything),
            ("arguments", false, Shape::Anything),
            ("code", false, Shape::Anything),
            ("message", false, Shape::Anything),
        ],
        Shape::Settings => vec![
            ("base_url", false, Shape::Text),
            ("model", false, Shape::Text),
            ("api_key", false, Shape::Text),
            ("qianfan_api_key", false, Shape::Text),
            ("workspace", false, Shape::Text),
            ("max_context_tokens", false, Shape::Anything),
            ("max_model_iterations", false, Shape::Anything),
        ],
        Shape::SearchResponse => vec![("results", false, Shape::SearchResults)],
        Shape::SearchResult => vec![
            ("title", false, Shape::Anything),
            ("url", true, Shape::Text),
            ("publishedDate", false, Shape::Anything),
            ("author", false, Shape::Anything),
            ("highlights", false, Shape::Anything),
        ],
        Shape::Revision => vec![
            ("revision_id", true, Shape::Text),
            ("agent_id", true, Shape::Text),
            ("spec_digest", true, Shape::Text),
            ("spec", true, Shape::Spec),
            ("parents", true, Shape::Parents),
            ("message", true, Shape::Message),
            ("metadata", true, Shape::Metadata),
        ],
        Shape::Spec => vec![
            ("agent_id", true, Shape::Text),
            ("model", true, Shape::Model),
            ("prompts", true, Shape::Prompts),
            ("tools", true, Shape::Tools),
            ("runtime", true, Shape::Runtime),
            ("build", true, Shape::Build),
        ],
        Shape::Model => vec![("fqn", true, Shape::Text), ("settings", true, Shape::Anything)],
        Shape::Prompts => vec![
            ("system", true, Shape::Text),
            ("templates", true, Shape::Templates),
        ],
        Shape::Tool => vec![
            ("interface", true, Shape::Interface),
            ("configuration", true, Shape::Anything),
        ],
        Shape::Interface => vec![
            ("name", true, Shape::Text),
            ("description", true, Shape::Text),
            ("parameters", true, Shape::Anything),
            ("output_schema", true, Shape::Anything),
        ],
        Shape::Runtime => vec![
            ("context_builder", true, Shape::Component),
            ("hooks", true, Shape::Hooks),
            ("turn_execution_limits", true, Shape::Limits),
        ],
        Shape::Component => vec![
            ("fqn", true, Shape::Text),
            ("configuration", true, Shape::Anything),
        ],
        Shape::Limits => vec![
            ("max_model_iterations", true, Shape::Anything),
            ("max_function_calls", true, Shape::Anything),
        ],
        Shape::Build => vec![("id", true, Shape::Text)],
        Shape::Message => vec![
            ("subject", true, Shape::Text),
            ("body", false, Shape::Anything),
        ],
        Shape::Metadata => vec![
            ("author", false, Shape::Anything),
            ("created_at", false, Shape::Anything),
        ],
        _ => Vec::new(),
    };
    assert(listed(r@) =~= fields(shape));
    r
}

/// Where what follows white space begins.
pub(crate) fn pass_space(chars: &Vec<char>, i: usize) -> (r: usize)
    requires
        i <= chars@.len(),
    ensures
        i <= r <= chars@.len(),
        chars@.skip(r as int) == after_space(chars@.skip(i as int)),
{
    let mut r: usize = i;
    while r < chars.len() && (chars[r] == ' ' || chars[r] == '\n' || chars[r] == '\r' || chars[r]
        == '\t')
        invariant
            i <= r <= chars@.len(),
            after_space(chars@.skip(r as int)) == after_space(chars@.skip(i as int)),
        decreases chars@.len() - r,
    {
        assert(chars@.skip(r as int).skip(1) =~= chars@.skip(r + 1));
        r = r + 1;
    }
    r
}

/// Where what follows a text begins.
fn pass_text(chars: &Vec<char>, i: usize) -> (r: Option<usize>)
    requires
        i <= chars@.len(),
    ensures
        match r {
            Some(end) => i < end <= chars@.len() && after_text(chars@.skip(i as int)) == Some(
                chars@.skip(end as int),
            ),
            None => after_text(chars@.skip(i as int)) is None,
        },
{
    let mut r: usize = i;
    while r < chars.len()
        invariant
            i <= r <= chars@.len(),
            after_text(chars@.skip(r as int)) == after_text(chars@.skip(i as int)),
        decreases chars@.len() - r,
    {
        let ghost rest = chars@.skip(r as int);
        assert(rest.skip(1) =~= chars@.skip(r + 1));
        if chars[r] == '"' {
            return Some(r + 1);
        } else if chars[r] == '\\' {
            if chars.len() - r < 2 {
                return None;
            }
            assert(rest.skip(2) =~= chars@.skip(r + 2));
            r = r + 2;
        } else {
            r = r + 1;
        }
    }
    None
}

fn delimits(c: char) -> (r: bool)
    ensures
        r == is_delimiter(c),
{
    c == ' ' || c == '\n' || c == '\r' || c == '\t' || c == ',' || c == ']' || c == '}' || c == ':'
}

/// Where what follows a word begins.
fn pass_word(chars: &Vec<char>, i: usize) -> (r: usize)
    requires
        i <= chars@.len(),
    ensures
        i <= r <= chars@.len(),
        chars@.skip(r as int) == after_word(chars@.skip(i as int)),
{
    let mut r: usize = i;
    while r < chars.len() && !delimits(chars[r])
        invariant
            i <= r <= chars@.len(),
            after_word(chars@.skip(r as int)) == after_word(chars@.skip(i as int)),
        decreases chars@.len() - r,
    {
        assert(chars@.skip(r as int).skip(1) =~= chars@.skip(r + 1));
        r = r + 1;
    }
    r
}

/// Where what follows the bracket that closes all open ones begins.
fn pass_nested(chars: &Vec<char>, i: usize) -> (r: Option<usize>)
    requires
        1 <= i <= chars@.len(),
    ensures
        match r {
            Some(end) => i < end <= chars@.len() && after_nested(chars@.skip(i as int), 1) == Some(
                chars@.skip(end as int),
            ),
            None => after_nested(chars@.skip(i as int), 1) is None,
        },
{
    let mut r: usize = i;
    let mut depth: usize = 1;
    while r < chars.len()
        invariant
            1 <= i <= r <= chars@.len(),
            1 <= depth <= r - i + 1,
            after_nested(chars@.skip(r as int), depth as nat) == after_nested(
                chars@.skip(i as int),
                1,
            ),
        decreases chars@.len() - r,
    {
        let ghost rest = chars@.skip(r as int);
        assert(rest.skip(1) =~= chars@.skip(r + 1));
        let c = chars[r];
        if c == '"' {
            match pass_text(chars, r + 1) {
                Some(end) => {
                    r = end;
                },
                None => return None,
            }
        } else if c == '[' || c == '{' {
            r = r + 1;
            depth = depth + 1;
        } else if c == ']' || c == '}' {
            if depth == 1 {
                return Some(r + 1);
            }
            r = r + 1;
            depth = depth - 1;
        } else {
            r = r + 1;
        }
    }
    None
}

/// Where what follows a value begins.
pub(crate) fn pass_value(chars: &Vec<char>, i: usize) -> (r: Option<usize>)
    requires
        i <= chars@.len(),
    ensures
        match r {
            Some(end) => i < end <= chars@.len() && after_value(chars@.skip(i as int)) == Some(
                chars@.skip(end as int),
            ),
            None => after_value(chars@.skip(i as int)) is None,
        },
{
    if i == chars.len() {
        return None;
    }
    assert(chars@.skip(i as int).skip(1) =~= chars@.skip(i + 1));
    let c = chars[i];
    if delimits(c) {
        None
    } else if c == '"' {
        pass_text(chars, i + 1)
    } else if c == '[' || c == '{' {
        pass_nested(chars, i + 1)
    } else {
        Some(pass_word(chars, i + 1))
    }
}

/// Where what follows a comma begins.
pub(crate) fn pass_comma(chars: &Vec<char>, i: usize) -> (r: usize)
    requires
        i <= chars@.len(),
    ensures
        i <= r <= chars@.len(),
        chars@.skip(r as int) == after_comma(chars@.skip(i as int)),
{
    let r: usize = pass_space(chars, i);
    if r < chars.len() && chars[r] == ',' {
        assert(chars@.skip(r as int).skip(1) =~= chars@.skip(r + 1));
        pass_space(chars, r + 1)
    } else {
        r
    }
}

pub(crate) fn read_key(literal: &str) -> (r: Option<String>)
    requires
        literal@.len() >= 2,
    ensures
        r.deep_view() == key_of(literal@),
{
    if contains_char(literal, '\\') {
        match parse(literal) {
            Ok(Json::Text(key)) => Some(key),
            _ => None,
        }
    } else {
        let total: usize = literal.unicode_len();
        Some(literal.substring_char(1, total - 1).to_owned())
    }
}

/// A key as it is quoted, and where what follows the colon behind it begins.
pub(crate) fn pass_key<'a>(text: &'a str, chars: &Vec<char>, i: usize) -> (r: Option<(&'a str, usize)>)
    requires
        chars@ == text@,
        i <= chars@.len(),
    ensures
        match r {
            Some((literal, end)) => i < end <= chars@.len() && literal@.len() >= 2 && quoted_key(
                chars@.skip(i as int),
            ) == Some((literal@, chars@.skip(end as int))),
            None => quoted_key(chars@.skip(i as int)) is None,
        },
{
    if i == chars.len() || chars[i] != '"' {
        return None;
    }
    let ghost s = chars@.skip(i as int);
    assert(s.skip(1) =~= chars@.skip(i + 1));
    match pass_text(chars, i + 1) {
        None => None,
        Some(end) => {
            let literal = text.substring_char(i, end);
            assert(literal@ =~= s.take(s.len() - chars@.skip(end as int).len()));
            let colon: usize = pass_space(chars, end);
            if colon == chars.len() || chars[colon] != ':' {
                None
            } else {
                assert(chars@.skip(colon as int).skip(1) =~= chars@.skip(colon + 1));
                Some((literal, pass_space(chars, colon + 1)))
            }
        },
    }
}

pub(crate) fn find_field(list: &Vec<(&'static str, bool, Shape)>, name: &str) -> (r: Option<usize>)
    ensures
        match r {
            Some(i) => i < list@.len() && field_at(listed(list@), name@) == Some(i as int),
            None => field_at(listed(list@), name@) is None,
        },
{
    let ghost all = listed(list@);
    let mut n: usize = list.len();
    assert(all.take(n as int) =~= all);
    while n > 0
        invariant
            n <= list@.len(),
            all == listed(list@),
            field_at(all, name@) == field_at(all.take(n as int), name@),
        decreases n,
    {
        assert(all.take(n as int).drop_last() =~= all.take(n - 1));
        assert(all.take(n as int).last() == all[n - 1]);
        if same_text(list[n - 1].0, name) {
            return Some(n - 1);
        }
        n = n - 1;
    }
    None
}

fn all_there(list: &Vec<(&'static str, bool, Shape)>, seen: &Vec<bool>) -> (r: bool)
    requires
        seen@.len() == list@.len(),
    ensures
        r == is_complete(listed(list@), seen@),
{
    let ghost all = listed(list@);
    for i in 0..list.len()
        invariant
            all == listed(list@),
            seen@.len() == list@.len(),
            forall|k: int| 0 <= k < i && (#[trigger] all[k]).1 ==> seen@[k],
    {
        if list[i].1 && !seen[i] {
            assert(all[i as int].1);
            return false;
        }
    }
    true
}

fn none_from(list: &Vec<(&'static str, bool, Shape)>, from: usize) -> (r: bool)
    ensures
        r == ends_at(listed(list@), from as int),
{
    let ghost all = listed(list@);
    let mut i: usize = from;
    while i < list.len()
        invariant
            from <= i,
            all == listed(list@),
            forall|k: int| from <= k < i && k < all.len() ==> !(#[trigger] all[k]).1,
        decreases list@.len() - i,
    {
        if list[i].1 {
            assert(all[i as int].1);
            return false;
        }
        i = i + 1;
    }
    true
}

/// Where what follows a value of the given shape begins.
pub(crate) fn pass_shape(text: &str, chars: &Vec<char>, i: usize, shape: Shape) -> (r: Option<usize>)
    requires
        chars@ == text@,
        i <= chars@.len(),
    ensures
        match r {
            Some(end) => i < end <= chars@.len() && after_shape(chars@.skip(i as int), shape)
                == Some(chars@.skip(end as int)),
            None => after_shape(chars@.skip(i as int), shape) is None,
        },
    decreases chars@.len() - i, 1nat,
{
    if i == chars.len() {
        return None;
    }
    let ghost s = chars@.skip(i as int);
    assert(s.skip(1) =~= chars@.skip(i + 1));
    let c = chars[i];
    match form_of(shape) {
        Form::Anything => pass_value(chars, i),
        Form::Text => if c == '"' {
            pass_text(chars, i + 1)
        } else {
            None
        },
        Form::List(item) => if c == '[' {
            let at: usize = pass_space(chars, i + 1);
            pass_items(text, chars, at, item, Ghost(s.len()))
        } else {
            None
        },
        Form::Table(value) => if c == '{' {
            let at: usize = pass_space(chars, i + 1);
            pass_entries(text, chars, at, value, Ghost(s.len()))
        } else {
            None
        },
        Form::Record => if c == '{' {
            let at: usize = pass_space(chars, i + 1);
            pass_members(text, chars, at, shape, Ghost(s.len()))
        } else if c == '[' {
            let at: usize = pass_space(chars, i + 1);
            pass_positions(text, chars, at, shape, Ghost(s.len()))
        } else {
            None
        },
    }
}

fn pass_items(text: &str, chars: &Vec<char>, i: usize, item: Shape, bound: Ghost<nat>) -> (r: Option<
    usize,
>)
    requires
        chars@ == text@,
        i <= chars@.len(),
        chars@.len() - i < bound@,
    ensures
        match r {
            Some(end) => i < end <= chars@.len() && after_items(
                chars@.skip(i as int),
                item,
                bound@,
            ) == Some(chars@.skip(end as int)),
            None => after_items(chars@.skip(i as int), item, bound@) is None,
        },
    decreases bound@, 0nat,
{
    let ghost mut left = bound@;
    let mut at: usize = i;
    while at < chars.len()
        invariant
            chars@ == text@,
            i <= at <= chars@.len(),
            chars@.len() - at < left <= bound@,
            after_items(chars@.skip(i as int), item, bound@) == after_items(
                chars@.skip(at as int),
                item,
                left,
            ),
        decreases chars@.len() - at,
    {
        let ghost s = chars@.skip(at as int);
        assert(s.skip(1) =~= chars@.skip(at + 1));
        if chars[at] == ']' {
            return Some(at + 1);
        }
        match pass_shape(text, chars, at, item) {
            Some(end) => {
                at = pass_comma(chars, end);
                proof {
                    left = s.len();
                }
            },
            None => return None,
        }
    }
    None
}

fn pass_entries(text: &str, chars: &Vec<char>, i: usize, value: Shape, bound: Ghost<nat>) -> (r:
    Option<usize>)
    requires
        chars@ == text@,
        i <= chars@.len(),
        chars@.len() - i < bound@,
    ensures
        match r {
            Some(end) => i < end <= chars@.len() && after_entries(
                chars@.skip(i as int),
                value,
                bound@,
            ) == Some(chars@.skip(end as int)),
            None => after_entries(chars@.skip(i as int), value, bound@) is None,
        },
    decreases bound@, 0nat,
{
    let ghost mut left = bound@;
    let mut at: usize = i;
    while at < chars.len()
        invariant
            chars@ == text@,
            i <= at <= chars@.len(),
            chars@.len() - at < left <= bound@,
            after_entries(chars@.skip(i as int), value, bound@) == after_entries(
                chars@.skip(at as int),
                value,
                left,
            ),
        decreases chars@.len() - at,
    {
        let ghost s = chars@.skip(at as int);
        assert(s.skip(1) =~= chars@.skip(at + 1));
        if chars[at] == '}' {
            return Some(at + 1);
        }
        match pass_key(text, chars, at) {
            Some((_, rest)) => match pass_shape(text, chars, rest, value) {
                Some(end) => {
                    at = pass_comma(chars, end);
                    proof {
                        left = s.len();
                    }
                },
                None => return None,
            },
            None => return None,
        }
    }
    None
}

fn pass_members(text: &str, chars: &Vec<char>, i: usize, shape: Shape, bound: Ghost<nat>) -> (r:
    Option<usize>)
    requires
        chars@ == text@,
        i <= chars@.len(),
        chars@.len() - i < bound@,
    ensures
        match r {
            Some(end) => i < end <= chars@.len() && after_members(
                chars@.skip(i as int),
                shape,
                unseen(shape),
                bound@,
            ) == Some(chars@.skip(end as int)),
            None => after_members(chars@.skip(i as int), shape, unseen(shape), bound@) is None,
        },
    decreases bound@, 0nat,
{
    let list = list_fields(shape);
    let mut seen: Vec<bool> = Vec::new();
    for k in 0..list.len()
        invariant
            seen@.len() == k,
            forall|j: int| 0 <= j < k ==> !(#[trigger] seen@[j]),
    {
        seen.push(false);
    }
    assert(seen@ =~= unseen(shape));
    let ghost mut left = bound@;
    let mut at: usize = i;
    while at < chars.len()
        invariant
            chars@ == text@,
            i <= at <= chars@.len(),
            chars@.len() - at < left <= bound@,
            listed(list@) == fields(shape),
            seen@.len() == list@.len(),
            after_members(chars@.skip(i as int), shape, unseen(shape), bound@) == after_members(
                chars@.skip(at as int),
                shape,
                seen@,
                left,
            ),
        decreases chars@.len() - at,
    {
        let ghost s = chars@.skip(at as int);
        assert(s.skip(1) =~= chars@.skip(at + 1));
        if chars[at] == '}' {
            return if all_there(&list, &seen) {
                Some(at + 1)
            } else {
                None
            };
        }
        let (literal, rest) = match pass_key(text, chars, at) {
            Some(found) => found,
            None => return None,
        };
        let key = match read_key(literal) {
            Some(key) => key,
            None => return None,
        };
        let end = match find_field(&list, key.as_str()) {
            None => pass_value(chars, rest),
            Some(k) => {
                if seen[k] {
                    return None;
                }
                seen.set(k, true);
                assert(fields(shape)[k as int].2 == list@[k as int].2);
                pass_shape(text, chars, rest, list[k].2)
            },
        };
        match end {
            Some(end) => {
                at = pass_comma(chars, end);
                proof {
                    left = s.len();
                }
            },
            None => return None,
        }
    }
    None
}

fn pass_positions(text: &str, chars: &Vec<char>, i: usize, shape: Shape, bound: Ghost<nat>) -> (r:
    Option<usize>)
    requires
        chars@ == text@,
        i <= chars@.len(),
        chars@.len() - i < bound@,
    ensures
        match r {
            Some(end) => i < end <= chars@.len() && after_positions(
                chars@.skip(i as int),
                shape,
                0,
                bound@,
            ) == Some(chars@.skip(end as int)),
            None => after_positions(chars@.skip(i as int), shape, 0, bound@) is None,
        },
    decreases bound@, 0nat,
{
    let list = list_fields(shape);
    let ghost mut left = bound@;
    let mut at: usize = i;
    let mut k: usize = 0;
    while at < chars.len()
        invariant
            chars@ == text@,
            i <= at <= chars@.len(),
            chars@.len() - at < left <= bound@,
            listed(list@) == fields(shape),
            k <= list@.len(),
            after_positions(chars@.skip(i as int), shape, 0, bound@) == after_positions(
                chars@.skip(at as int),
                shape,
                k as int,
                left,
            ),
        decreases chars@.len() - at,
    {
        let ghost s = chars@.skip(at as int);
        assert(s.skip(1) =~= chars@.skip(at + 1));
        if chars[at] == ']' {
            return if none_from(&list, k) {
                Some(at + 1)
            } else {
                None
            };
        }
        if k == list.len() {
            return None;
        }
        assert(fields(shape)[k as int].2 == list@[k as int].2);
        match pass_shape(text, chars, at, list[k].2) {
            Some(end) => {
                at = pass_comma(chars, end);
                k = k + 1;
                proof {
                    left = s.len();
                }
            },
            None => return None,
        }
    }
    None
}

/// The characters of a text.
pub(crate) fn chars_of(text: &str) -> (r: Vec<char>)
    ensures
        r@ == text@,
{
    let mut chars: Vec<char> = Vec::new();
    for c in it: text.chars()
        invariant
            it.seq() == text@,
            chars@ == text@.take(it.index() as int),
    {
        chars.push(c);
        assert(chars@ =~= text@.take(it.index() + 1));
    }
    assert(text@.take(text@.len() as int) =~= text@);
    chars
}

/// Tells whether a text of a document holds each field of a record once.
pub fn unambiguous(text: &str, shape: Shape) -> (r: bool)
    ensures
        r == is_unambiguous(text@, shape),
{
    let chars = chars_of(text);
    assert(chars@.skip(0) =~= text@);
    let start: usize = pass_space(&chars, 0);
    pass_shape(text, &chars, start, shape).is_some()
}

} // verus!
