//! Documents of records: framing in the order of the fields, and reading by field.

use crate::json::{json_quoted, member, quoted, Json, JsonView, NumberView};
use crate::same::Replica;
use crate::text::{glue3, join, lemma_join_push};
use vstd::prelude::*;

verus! {

/// A field of a record: its name, and its value as a text that is a document.
pub type FieldText = (Seq<char>, Seq<char>);

/// The fields of a record, each with its name.
pub open spec fn field_texts(fields: Seq<FieldText>) -> Seq<Seq<char>> {
    Seq::new(fields.len(), |i: int| json_quoted(fields[i].0) + ":"@ + fields[i].1)
}

/// A record as a document, its fields in the order given.
pub open spec fn object_text(fields: Seq<FieldText>) -> Seq<char> {
    "{"@ + join(field_texts(fields), ","@) + "}"@
}

/// A list as a document.
pub open spec fn array_text(items: Seq<Seq<char>>) -> Seq<char> {
    "["@ + join(items, ","@) + "]"@
}

/// Writes a record, field by field.
pub struct RecordWriter {
    out: String,
    empty: bool,
    fields: Ghost<Seq<FieldText>>,
}

impl RecordWriter {
    #[verifier::type_invariant]
    spec fn written(&self) -> bool {
        &&& self.out@ == "{"@ + join(field_texts(self.fields@), ","@)
        &&& self.empty == (self.fields@.len() == 0)
    }

    /// The fields written so far.
    pub closed spec fn fields(&self) -> Seq<FieldText> {
        self.fields@
    }

    /// A record without fields yet.
    pub fn new() -> (r: Self)
        ensures
            r.fields() == Seq::<FieldText>::empty(),
    {
        let out = "{".to_owned();
        assert(field_texts(Seq::empty()) =~= Seq::empty());
        assert(out@ =~= "{"@ + join(field_texts(Seq::empty()), ","@));
        RecordWriter { out, empty: true, fields: Ghost(Seq::empty()) }
    }

    /// Adds a field whose value is a document already.
    pub fn field(self, name: &str, text: &str) -> (r: Self)
        ensures
            r.fields() == self.fields().push((name@, text@)),
    {
        proof {
            use_type_invariant(&self);
        }
        let RecordWriter { out, empty, fields } = self;
        let mut out = out;
        let ghost before = fields@;
        if !empty {
            out.append(",");
        }
        out.append(quoted(name).as_str());
        out.append(":");
        out.append(text);
        let fields: Ghost<Seq<FieldText>> = Ghost(before.push((name@, text@)));
        proof {
            let part = json_quoted(name@) + ":"@ + text@;
            lemma_join_push(field_texts(before), part, ","@);
            assert(field_texts(fields@) =~= field_texts(before).push(part));
            assert(out@ =~= "{"@ + join(field_texts(fields@), ","@));
        }
        RecordWriter { out, empty: false, fields }
    }

    /// The record.
    pub fn finish(self) -> (r: String)
        ensures
            r@ == object_text(self.fields()),
    {
        proof {
            use_type_invariant(&self);
        }
        let RecordWriter { out, .. } = self;
        let mut out = out;
        out.append("}");
        out
    }
}

/// Writes a list, item by item.
pub struct ListWriter {
    out: String,
    empty: bool,
    items: Ghost<Seq<Seq<char>>>,
}

impl ListWriter {
    #[verifier::type_invariant]
    spec fn written(&self) -> bool {
        &&& self.out@ == "["@ + join(self.items@, ","@)
        &&& self.empty == (self.items@.len() == 0)
    }

    /// The items written so far.
    pub closed spec fn items(&self) -> Seq<Seq<char>> {
        self.items@
    }

    /// A list without items yet.
    pub fn new() -> (r: Self)
        ensures
            r.items() == Seq::<Seq<char>>::empty(),
    {
        let out = "[".to_owned();
        assert(out@ =~= "["@ + join(Seq::empty(), ","@));
        ListWriter { out, empty: true, items: Ghost(Seq::empty()) }
    }

    /// Adds an item that is a document already.
    pub fn item(self, text: &str) -> (r: Self)
        ensures
            r.items() == self.items().push(text@),
    {
        proof {
            use_type_invariant(&self);
        }
        let ListWriter { out, empty, items } = self;
        let mut out = out;
        let ghost before = items@;
        if !empty {
            out.append(",");
        }
        out.append(text);
        let items: Ghost<Seq<Seq<char>>> = Ghost(before.push(text@));
        proof {
            lemma_join_push(before, text@, ","@);
            assert(out@ =~= "["@ + join(items@, ","@));
        }
        ListWriter { out, empty: false, items }
    }

    /// The list.
    pub fn finish(self) -> (r: String)
        ensures
            r@ == array_text(self.items()),
    {
        proof {
            use_type_invariant(&self);
        }
        let ListWriter { out, .. } = self;
        let mut out = out;
        out.append("]");
        out
    }
}

/// A text that may be left out, as a document.
pub open spec fn optional_text_text(text: Option<Seq<char>>) -> Seq<char> {
    match text {
        Some(text) => json_quoted(text),
        None => "null"@,
    }
}

/// A text that may be left out, as a document.
pub fn write_optional_text(text: &Option<String>) -> (r: String)
    ensures
        r@ == optional_text_text(text.deep_view()),
{
    match text {
        Some(text) => quoted(text.as_str()),
        None => "null".to_owned(),
    }
}

/// A text that may be left out.
pub open spec fn optional_text_json(text: Option<Seq<char>>) -> JsonView {
    match text {
        Some(text) => JsonView::Text(text),
        None => JsonView::Null,
    }
}

/// A text that may be left out.
pub fn make_optional_text(text: &Option<String>) -> (r: Json)
    ensures
        r.deep_view() == optional_text_json(text.deep_view()),
{
    match text {
        Some(text) => Json::text(text.as_str()),
        None => Json::Null,
    }
}

/// What is wrong when a field is left out.
pub open spec fn missing_field(key: Seq<char>) -> Seq<char> {
    "missing field `"@ + key + "`"@
}

/// What is wrong when a field is something else than it should be.
pub open spec fn wrong_field(key: Seq<char>, wanted: Seq<char>) -> Seq<char> {
    "field `"@ + key + "` is not "@ + wanted
}

/// What is said of a field that is not there.
pub fn make_missing_field(key: &str) -> (r: String)
    ensures
        r@ == missing_field(key@),
{
    glue3("missing field `", key, "`")
}

/// What is said of a field that holds something else.
pub fn make_wrong_field(key: &str, wanted: &str) -> (r: String)
    ensures
        r@ == wrong_field(key@, wanted@),
{
    crate::text::glue4("field `", key, "` is not ", wanted)
}

/// A field that must be there.
pub open spec fn required_value_of(json: JsonView, key: Seq<char>) -> Option<JsonView> {
    member(json, key)
}

/// Reads a field that must be there.
pub fn required_value(json: &Json, key: &str) -> (r: Result<Json, String>)
    ensures
        match r {
            Ok(value) => required_value_of(json.deep_view(), key@) == Some(
                value.deep_view(),
            ),
            Err(_) => required_value_of(json.deep_view(), key@) is None,
        },
{
    match json.get(key) {
        Some(value) => Ok(value.replica()),
        None => Err(make_missing_field(key)),
    }
}

/// A field that must be a number of things.
pub open spec fn required_count_of(json: JsonView, key: Seq<char>) -> Option<usize> {
    match member(json, key) {
        Some(JsonView::Number(NumberView::Unsigned(n))) => if n <= usize::MAX {
            Some(n as usize)
        } else {
            None
        },
        _ => None,
    }
}

/// Reads a field that must be a number of things.
pub fn required_count(json: &Json, key: &str) -> (r: Result<usize, String>)
    ensures
        match r {
            Ok(count) => required_count_of(json.deep_view(), key@) == Some(count),
            Err(_) => required_count_of(json.deep_view(), key@) is None,
        },
{
    match json.get(key) {
        Some(value) => match value.as_unsigned() {
            Some(n) => {
                if n <= usize::MAX as u64 {
                    Ok(n as usize)
                } else {
                    Err(make_wrong_field(key, "a count"))
                }
            },
            None => Err(make_wrong_field(key, "a count")),
        },
        None => Err(make_missing_field(key)),
    }
}

/// A list item that must be a text.
pub open spec fn text_item_of(json: JsonView) -> Option<Seq<char>> {
    match json {
        JsonView::Text(text) => Some(text),
        _ => None,
    }
}

/// Reads a list item that must be a text.
pub fn read_text_item(json: &Json) -> (r: Result<String, String>)
    ensures
        match r {
            Ok(value) => text_item_of(json.deep_view()) == Some(value@),
            Err(_) => text_item_of(json.deep_view()) is None,
        },
{
    match json.as_text() {
        Some(text) => Ok(text.clone()),
        None => Err("value is not a string".to_owned()),
    }
}

/// A number of things.
pub fn make_count(n: usize) -> (r: Json)
    ensures
        r.deep_view() == JsonView::Number(NumberView::Unsigned(n as u64)),
{
    Json::unsigned(n as u64)
}

/// A list of one document.
pub fn list1(a: Json) -> (r: Json)
    ensures
        r.deep_view() == JsonView::Array(seq![a.deep_view()]),
{
    let items: Vec<Json> = vec![a];
    assert(items.deep_view() =~= seq![a.deep_view()]);
    Json::array(items)
}

/// A list of two documents.
pub fn list2(a: Json, b: Json) -> (r: Json)
    ensures
        r.deep_view() == JsonView::Array(seq![a.deep_view(), b.deep_view()]),
{
    let items: Vec<Json> = vec![a, b];
    assert(items.deep_view() =~= seq![a.deep_view(), b.deep_view()]);
    Json::array(items)
}

/// A list of three documents.
pub fn list3(a: Json, b: Json, c: Json) -> (r: Json)
    ensures
        r.deep_view() == JsonView::Array(seq![a.deep_view(), b.deep_view(), c.deep_view()]),
{
    let items: Vec<Json> = vec![a, b, c];
    assert(items.deep_view() =~= seq![a.deep_view(), b.deep_view(), c.deep_view()]);
    Json::array(items)
}

/// A list of four documents.
pub fn list4(a: Json, b: Json, c: Json, d: Json) -> (r: Json)
    ensures
        r.deep_view()
            == JsonView::Array(seq![a.deep_view(), b.deep_view(), c.deep_view(), d.deep_view()]),
{
    let items: Vec<Json> = vec![a, b, c, d];
    assert(items.deep_view() =~= seq![a.deep_view(), b.deep_view(), c.deep_view(), d.deep_view()]);
    Json::array(items)
}

} // verus!
