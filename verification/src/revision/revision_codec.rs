//! Revisions as documents.

use crate::codec::{
    array_text, make_missing_field, make_optional_text, make_wrong_field, object_text,
    optional_text_json, optional_text_text, read_text_item, text_item_of, write_optional_text,
    ListWriter, RecordWriter,
};
use crate::fields::{as_fields, fielded, names_of, optional_text, optional_text_of, required_text, required_text_of};
use crate::json::{json_quoted, member, no_members, quoted, Json, JsonView};
use crate::revision::ids::{AgentId, RevisionId, SpecDigest};
use crate::revision::revision::{
    AgentRevision, AgentRevisionView, CommitMessage, CommitMessageView, RevisionMetadata,
    RevisionMetadataView,
};
use crate::revision::spec_codec::{
    agent_spec_field, agent_spec_json, agent_spec_text, law_agent_spec_is_read_back,
    make_agent_spec, read_agent_spec_field, write_agent_spec,
};
use vstd::prelude::*;

verus! {

/// A [`CommitMessage`] as a document.
pub open spec fn commit_message_json(value: CommitMessageView) -> JsonView {
    JsonView::Object(
        Map::<Seq<char>, JsonView>::empty()
            .insert("subject"@, JsonView::Text(value.subject))
            .insert("body"@, optional_text_json(value.body)),
    )
}

/// A [`CommitMessage`] as a document.
pub fn make_commit_message(value: &CommitMessage) -> (r: Json)
    ensures
        r.deep_view() == commit_message_json(value.deep_view()),
{
    Json::object(
        no_members()
            .with("subject", Json::text(value.subject.as_str()))
            .with("body", make_optional_text(&value.body)),
    )
}

/// The text of a [`CommitMessage`], its fields in order.
pub open spec fn commit_message_text(value: CommitMessageView) -> Seq<char> {
    object_text(
        seq![
            ("subject"@, json_quoted(value.subject)),
            ("body"@, optional_text_text(value.body)),
        ],
    )
}

/// The text of a [`CommitMessage`], its fields in order.
pub fn write_commit_message(value: &CommitMessage) -> (r: String)
    ensures
        r@ == commit_message_text(value.deep_view()),
{
    let writer = RecordWriter::new().field(
        "subject",
        quoted(value.subject.as_str()).as_str(),
    ).field("body", write_optional_text(&value.body).as_str());
    let ghost value = value.deep_view();
    assert(writer.fields() =~= seq![
        ("subject"@, json_quoted(value.subject)),
        ("body"@, optional_text_text(value.body)),
    ]);
    writer.finish()
}

/// The [`CommitMessage`] that a document is.
pub open spec fn commit_message_of(
    json: JsonView,
) -> Option<CommitMessageView> {
    let json = fielded(json, seq!["subject"@, "body"@], 2);
    match required_text_of(json, "subject"@) {
        None => None,
        Some(subject) =>
        match optional_text_of(json, "body"@) {
            None => None,
            Some(body) => Some(CommitMessageView { subject, body }),
        },
    }
}

/// Reads a [`CommitMessage`].
pub fn read_commit_message(json: &Json) -> (r: core::result::Result<CommitMessage, String>)
    ensures
        match r {
            Ok(value) => commit_message_of(json.deep_view())
                == Some(value.deep_view()),
            Err(_) => commit_message_of(json.deep_view()) is None,
        },
{
    let names: Vec<&str> = vec!["subject", "body"];
    assert(names_of(names@) =~= seq!["subject"@, "body"@]);
    let json = &as_fields(json, &names, 2);
    let subject = match required_text(json, "subject") {
        Ok(subject) => subject,
        Err(error) => return Err(error),
    };
    let body = match optional_text(json, "body") {
        Ok(body) => body,
        Err(error) => return Err(error),
    };
    Ok(CommitMessage { subject, body })
}

/// A field that must be a [`CommitMessage`].
pub open spec fn commit_message_field(
    json: JsonView,
    key: Seq<char>,
) -> Option<CommitMessageView> {
    match member(json, key) {
        Some(value) => commit_message_of(value),
        None => None,
    }
}

/// Reads a field that must be a [`CommitMessage`].
pub fn read_commit_message_field(
    json: &Json,
    key: &str,
) -> (r: core::result::Result<CommitMessage, String>)
    ensures
        match r {
            Ok(value) => commit_message_field(json.deep_view(), key@)
                == Some(value.deep_view()),
            Err(_) => commit_message_field(json.deep_view(), key@) is None,
        },
{
    match json.get(key) {
        Some(value) => read_commit_message(value),
        None => Err(make_missing_field(key)),
    }
}

/// A [`RevisionMetadata`] as a document.
pub open spec fn revision_metadata_json(value: RevisionMetadataView) -> JsonView {
    JsonView::Object(
        Map::<Seq<char>, JsonView>::empty()
            .insert("author"@, optional_text_json(value.author))
            .insert("created_at"@, optional_text_json(value.created_at)),
    )
}

/// A [`RevisionMetadata`] as a document.
pub fn make_revision_metadata(value: &RevisionMetadata) -> (r: Json)
    ensures
        r.deep_view() == revision_metadata_json(value.deep_view()),
{
    Json::object(
        no_members()
            .with("author", make_optional_text(&value.author))
            .with("created_at", make_optional_text(&value.created_at)),
    )
}

/// The text of a [`RevisionMetadata`], its fields in order.
pub open spec fn revision_metadata_text(value: RevisionMetadataView) -> Seq<char> {
    object_text(
        seq![
            ("author"@, optional_text_text(value.author)),
            ("created_at"@, optional_text_text(value.created_at)),
        ],
    )
}

/// The text of a [`RevisionMetadata`], its fields in order.
pub fn write_revision_metadata(value: &RevisionMetadata) -> (r: String)
    ensures
        r@ == revision_metadata_text(value.deep_view()),
{
    let writer = RecordWriter::new().field(
        "author",
        write_optional_text(&value.author).as_str(),
    ).field(
        "created_at",
        write_optional_text(&value.created_at).as_str(),
    );
    let ghost value = value.deep_view();
    assert(writer.fields() =~= seq![
        ("author"@, optional_text_text(value.author)),
        ("created_at"@, optional_text_text(value.created_at)),
    ]);
    writer.finish()
}

/// The [`RevisionMetadata`] that a document is.
pub open spec fn revision_metadata_of(
    json: JsonView,
) -> Option<RevisionMetadataView> {
    let json = fielded(json, seq!["author"@, "created_at"@], 2);
    if !(json is Object) {
        None
    } else {
        match optional_text_of(json, "author"@) {
            None => None,
            Some(author) =>
            match optional_text_of(json, "created_at"@) {
                None => None,
                Some(created_at) => Some(RevisionMetadataView { author, created_at }),
            },
        }
    }
}

/// Reads a [`RevisionMetadata`].
pub fn read_revision_metadata(json: &Json) -> (r: core::result::Result<RevisionMetadata, String>)
    ensures
        match r {
            Ok(value) => revision_metadata_of(json.deep_view())
                == Some(value.deep_view()),
            Err(_) => revision_metadata_of(json.deep_view()) is None,
        },
{
    let names: Vec<&str> = vec!["author", "created_at"];
    assert(names_of(names@) =~= seq!["author"@, "created_at"@]);
    let json = &as_fields(json, &names, 2);
    if let Json::Object(_) = json {
    } else {
        return Err("not a record".to_owned());
    }
    let author = match optional_text(json, "author") {
        Ok(author) => author,
        Err(error) => return Err(error),
    };
    let created_at = match optional_text(json, "created_at") {
        Ok(created_at) => created_at,
        Err(error) => return Err(error),
    };
    Ok(RevisionMetadata { author, created_at })
}

/// A field that must be a [`RevisionMetadata`].
pub open spec fn revision_metadata_field(
    json: JsonView,
    key: Seq<char>,
) -> Option<RevisionMetadataView> {
    match member(json, key) {
        Some(value) => revision_metadata_of(value),
        None => None,
    }
}

/// Reads a field that must be a [`RevisionMetadata`].
pub fn read_revision_metadata_field(
    json: &Json,
    key: &str,
) -> (r: core::result::Result<RevisionMetadata, String>)
    ensures
        match r {
            Ok(value) => revision_metadata_field(json.deep_view(), key@)
                == Some(value.deep_view()),
            Err(_) => revision_metadata_field(json.deep_view(), key@) is None,
        },
{
    match json.get(key) {
        Some(value) => read_revision_metadata(value),
        None => Err(make_missing_field(key)),
    }
}

/// The parents of a revision as a document.
pub open spec fn parents_json(values: Seq<Seq<char>>) -> JsonView {
    JsonView::Array(values.map_values(|value: Seq<char>| JsonView::Text(value)))
}

/// The parents of a revision as a document.
pub fn make_parents(values: &Vec<RevisionId>) -> (r: Json)
    ensures
        r.deep_view() == parents_json(values.deep_view()),
{
    let ghost want = values.deep_view().map_values(|value: Seq<char>| JsonView::Text(value));
    let mut items: Vec<Json> = Vec::new();
    assert(items.deep_view() =~= want.take(0));
    for i in 0..values.len()
        invariant
            want == values.deep_view().map_values(|value: Seq<char>| JsonView::Text(value)),
            items.deep_view() == want.take(i as int),
    {
        let ghost before = items.deep_view();
        let item = Json::text(values[i].0.as_str());
        items.push(item);
        assert(items.deep_view() =~= before.push(item.deep_view()));
        assert(want[i as int] == item.deep_view());
        assert(want.take(i + 1) =~= want.take(i as int).push(want[i as int]));
    }
    assert(want.take(values.len() as int) =~= want);
    Json::array(items)
}

/// The text of the parents of a revision.
pub open spec fn parents_text(values: Seq<Seq<char>>) -> Seq<char> {
    array_text(values.map_values(|value: Seq<char>| json_quoted(value)))
}

/// The text of the parents of a revision.
pub fn write_parents(values: &Vec<RevisionId>) -> (r: String)
    ensures
        r@ == parents_text(values.deep_view()),
{
    let ghost want = values.deep_view().map_values(|value: Seq<char>| json_quoted(value));
    let mut writer = ListWriter::new();
    assert(writer.items() =~= want.take(0));
    for i in 0..values.len()
        invariant
            want == values.deep_view().map_values(|value: Seq<char>| json_quoted(value)),
            writer.items() == want.take(i as int),
    {
        let text = quoted(values[i].0.as_str());
        writer = writer.item(text.as_str());
        assert(want[i as int] == text@);
        assert(want.take(i + 1) =~= want.take(i as int).push(want[i as int]));
    }
    assert(want.take(values.len() as int) =~= want);
    writer.finish()
}

/// The parents of a revision that a document holds under a key.
pub open spec fn parents_field(
    json: JsonView,
    key: Seq<char>,
) -> Option<Seq<Seq<char>>> {
    match member(json, key) {
        Some(JsonView::Array(items)) => if forall|i: int| 0 <= i < items.len() ==> (#[trigger] text_item_of(items[i])) is Some {
            Some(Seq::new(items.len(), |i: int| text_item_of(items[i])->Some_0))
        } else {
            None
        },
        _ => None,
    }
}

/// Reads the parents of a revision.
pub fn read_parents_field(
    json: &Json,
    key: &str,
) -> (r: core::result::Result<Vec<RevisionId>, String>)
    ensures
        match r {
            Ok(value) => parents_field(json.deep_view(), key@)
                == Some(value.deep_view()),
            Err(_) => parents_field(json.deep_view(), key@) is None,
        },
{
    let items = match json.get(key) {
        Some(value) => match value.as_array() {
            Some(items) => items,
            None => return Err(make_wrong_field(key, "a list")),
        },
        None => return Err(make_missing_field(key)),
    };
    let ghost views = items.deep_view();
    let mut values: Vec<RevisionId> = Vec::new();
    for i in 0..items.len()
        invariant
            views == items.deep_view(),
            member(json.deep_view(), key@) == Some(JsonView::Array(views)),
            values@.len() == i,
            forall|j: int| 0 <= j < i ==> (#[trigger] text_item_of(views[j])) is Some,
            forall|j: int|
                0 <= j < i ==> (#[trigger] values@[j]).deep_view()
                    == text_item_of(views[j])->Some_0,
    {
        match read_text_item(&items[i]) {
            Ok(value) => {
                values.push(RevisionId(value));
            },
            Err(error) => {
                assert(text_item_of(views[i as int]) is None);
                return Err(error);
            },
        }
    }
    assert(values.deep_view() =~= Seq::new(views.len(), |i: int| text_item_of(views[i])->Some_0));
    Ok(values)
}

/// An [`AgentRevision`] as a document.
pub open spec fn agent_revision_json(value: AgentRevisionView) -> JsonView {
    JsonView::Object(
        Map::<Seq<char>, JsonView>::empty()
            .insert("revision_id"@, JsonView::Text(value.revision_id))
            .insert("agent_id"@, JsonView::Text(value.agent_id))
            .insert("spec_digest"@, JsonView::Text(value.spec_digest))
            .insert("spec"@, agent_spec_json(value.spec))
            .insert("parents"@, parents_json(value.parents))
            .insert("message"@, commit_message_json(value.message))
            .insert("metadata"@, revision_metadata_json(value.metadata)),
    )
}

/// An [`AgentRevision`] as a document.
pub fn make_agent_revision(value: &AgentRevision) -> (r: Json)
    ensures
        r.deep_view() == agent_revision_json(value.deep_view()),
{
    Json::object(
        no_members()
            .with("revision_id", Json::text(value.revision_id.0.as_str()))
            .with("agent_id", Json::text(value.agent_id.0.as_str()))
            .with("spec_digest", Json::text(value.spec_digest.0.as_str()))
            .with("spec", make_agent_spec(&value.spec))
            .with("parents", make_parents(&value.parents))
            .with("message", make_commit_message(&value.message))
            .with("metadata", make_revision_metadata(&value.metadata)),
    )
}

/// The text of an [`AgentRevision`], its fields in order.
pub open spec fn agent_revision_text(value: AgentRevisionView) -> Seq<char> {
    object_text(
        seq![
            ("revision_id"@, json_quoted(value.revision_id)),
            ("agent_id"@, json_quoted(value.agent_id)),
            ("spec_digest"@, json_quoted(value.spec_digest)),
            ("spec"@, agent_spec_text(value.spec)),
            ("parents"@, parents_text(value.parents)),
            ("message"@, commit_message_text(value.message)),
            ("metadata"@, revision_metadata_text(value.metadata)),
        ],
    )
}

/// The text of an [`AgentRevision`], its fields in order.
pub fn write_agent_revision(value: &AgentRevision) -> (r: String)
    ensures
        r@ == agent_revision_text(value.deep_view()),
{
    let writer = RecordWriter::new().field(
        "revision_id",
        quoted(value.revision_id.0.as_str()).as_str(),
    ).field("agent_id", quoted(value.agent_id.0.as_str()).as_str()).field("spec_digest", quoted(
        value.spec_digest.0.as_str(),
    ).as_str()).field("spec", write_agent_spec(&value.spec).as_str()).field("parents", write_parents(&value.parents).as_str()).field("message", write_commit_message(&value.message).as_str()).field(
        "metadata",
        write_revision_metadata(&value.metadata).as_str(),
    );
    let ghost value = value.deep_view();
    assert(writer.fields() =~= seq![
        ("revision_id"@, json_quoted(value.revision_id)),
        ("agent_id"@, json_quoted(value.agent_id)),
        ("spec_digest"@, json_quoted(value.spec_digest)),
        ("spec"@, agent_spec_text(value.spec)),
        ("parents"@, parents_text(value.parents)),
        ("message"@, commit_message_text(value.message)),
        ("metadata"@, revision_metadata_text(value.metadata)),
    ]);
    writer.finish()
}

/// The [`AgentRevision`] that a document is.
pub open spec fn agent_revision_of(
    json: JsonView,
) -> Option<AgentRevisionView> {
    let json = fielded(
        json,
        seq![
            "revision_id"@,
            "agent_id"@,
            "spec_digest"@,
            "spec"@,
            "parents"@,
            "message"@,
            "metadata"@,
        ],
        7,
    );
    match required_text_of(json, "revision_id"@) {
        None => None,
        Some(revision_id) =>
        match required_text_of(json, "agent_id"@) {
            None => None,
            Some(agent_id) =>
            match required_text_of(json, "spec_digest"@) {
                None => None,
                Some(spec_digest) =>
                match agent_spec_field(json, "spec"@) {
                    None => None,
                    Some(spec) =>
                    match parents_field(json, "parents"@) {
                        None => None,
                        Some(parents) =>
                        match commit_message_field(json, "message"@) {
                            None => None,
                            Some(message) =>
                            match revision_metadata_field(json, "metadata"@) {
                                None => None,
                                Some(metadata) => Some(
                                    AgentRevisionView {
                                        revision_id,
                                        agent_id,
                                        spec_digest,
                                        spec,
                                        parents,
                                        message,
                                        metadata,
                                    },
                                ),
                            },
                        },
                    },
                },
            },
        },
    }
}

/// Reads an [`AgentRevision`].
pub fn read_agent_revision(json: &Json) -> (r: core::result::Result<AgentRevision, String>)
    ensures
        match r {
            Ok(value) => agent_revision_of(json.deep_view())
                == Some(value.deep_view()),
            Err(_) => agent_revision_of(json.deep_view()) is None,
        },
{
    let names: Vec<&str> = vec![
        "revision_id",
        "agent_id",
        "spec_digest",
        "spec",
        "parents",
        "message",
        "metadata",
    ];
    assert(names_of(names@) =~= seq!["revision_id"@, "agent_id"@, "spec_digest"@, "spec"@, "parents"@, "message"@, "metadata"@]);
    let json = &as_fields(json, &names, 7);
    let revision_id = match required_text(json, "revision_id") {
        Ok(revision_id) => RevisionId(revision_id),
        Err(error) => return Err(error),
    };
    let agent_id = match required_text(json, "agent_id") {
        Ok(agent_id) => AgentId(agent_id),
        Err(error) => return Err(error),
    };
    let spec_digest = match required_text(json, "spec_digest") {
        Ok(spec_digest) => SpecDigest(spec_digest),
        Err(error) => return Err(error),
    };
    let spec = match read_agent_spec_field(json, "spec") {
        Ok(spec) => spec,
        Err(error) => return Err(error),
    };
    let parents = match read_parents_field(json, "parents") {
        Ok(parents) => parents,
        Err(error) => return Err(error),
    };
    let message = match read_commit_message_field(json, "message") {
        Ok(message) => message,
        Err(error) => return Err(error),
    };
    let metadata = match read_revision_metadata_field(json, "metadata") {
        Ok(metadata) => metadata,
        Err(error) => return Err(error),
    };
    Ok(AgentRevision { revision_id, agent_id, spec_digest, spec, parents, message, metadata })
}

/// Reading the document of a [`CommitMessage`] gives it back.
pub proof fn law_commit_message_is_read_back(value: CommitMessageView)
    ensures
        commit_message_of(commit_message_json(value)) == Some(value),
{
    reveal_strlit("subject");
    reveal_strlit("body");
    assert("subject"@.len() != "body"@.len());
    assert(commit_message_of(commit_message_json(value))->Some_0 =~= value);
}

/// Reading the document of a [`RevisionMetadata`] gives it back.
pub proof fn law_revision_metadata_is_read_back(value: RevisionMetadataView)
    ensures
        revision_metadata_of(revision_metadata_json(value))
            == Some(value),
{
    reveal_strlit("author");
    reveal_strlit("created_at");
    assert("author"@.len() != "created_at"@.len());
    assert(revision_metadata_of(revision_metadata_json(value))->Some_0 =~= value);
}

/// Reading the list under a key gives it back.
pub proof fn lemma_parents_are_read_back(json: JsonView, key: Seq<char>, values: Seq<Seq<char>>)
    requires
        member(json, key) == Some(parents_json(values)),
    ensures
        parents_field(json, key) == Some(values),
{
    let items = parents_json(values)->Array_0;
    assert forall|i: int| 0 <= i < items.len() implies (#[trigger] text_item_of(items[i])) == Some(values[i]) by {
    }
    assert(parents_field(json, key)->Some_0 =~= values);
}

/// Reading the document of an [`AgentRevision`] gives it back.
pub proof fn law_agent_revision_is_read_back(value: AgentRevisionView)
    ensures
        agent_revision_of(agent_revision_json(value)) == Some(value),
{
    reveal_strlit("revision_id");
    reveal_strlit("agent_id");
    reveal_strlit("spec_digest");
    reveal_strlit("spec");
    reveal_strlit("parents");
    reveal_strlit("message");
    reveal_strlit("metadata");
    assert("revision_id"@.len() != "agent_id"@.len());
    assert("revision_id"@[0] != "spec_digest"@[0]);
    assert("agent_id"@.len() != "spec_digest"@.len());
    assert("revision_id"@.len() != "spec"@.len());
    assert("agent_id"@.len() != "spec"@.len());
    assert("spec_digest"@.len() != "spec"@.len());
    assert("revision_id"@.len() != "parents"@.len());
    assert("agent_id"@.len() != "parents"@.len());
    assert("spec_digest"@.len() != "parents"@.len());
    assert("spec"@.len() != "parents"@.len());
    assert("revision_id"@.len() != "message"@.len());
    assert("agent_id"@.len() != "message"@.len());
    assert("spec_digest"@.len() != "message"@.len());
    assert("spec"@.len() != "message"@.len());
    assert("parents"@[0] != "message"@[0]);
    assert("revision_id"@.len() != "metadata"@.len());
    assert("agent_id"@[0] != "metadata"@[0]);
    assert("spec_digest"@.len() != "metadata"@.len());
    assert("spec"@.len() != "metadata"@.len());
    assert("parents"@.len() != "metadata"@.len());
    assert("message"@.len() != "metadata"@.len());
    law_agent_spec_is_read_back(value.spec);
    lemma_parents_are_read_back(agent_revision_json(value), "parents"@, value.parents);
    law_commit_message_is_read_back(value.message);
    law_revision_metadata_is_read_back(value.metadata);
    assert(agent_revision_of(agent_revision_json(value))->Some_0 =~= value);
}

} // verus!
