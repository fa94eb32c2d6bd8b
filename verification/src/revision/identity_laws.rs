//! What names a revision, and what makes a specification valid.

use crate::digest::text_digest;
use crate::document::is_read_as;
use crate::json::{json_quoted, JsonView};
use crate::revision::ids::component_checked;
use crate::revision::revision::{
    identity_text, message_made, revision_made, revision_outcome, CommitMessageView,
    RevisionIdentity, RevisionMetadataView,
};
use crate::revision::revision_codec::{
    commit_message_json, commit_message_text, parents_json, parents_text, revision_metadata_json,
    revision_metadata_text,
};
use crate::revision::revision_spelling::{
    agent_spec_spelling, commit_message_spelling, lemma_agent_spec_is_spelled,
    lemma_commit_message_is_spelled, lemma_parents_is_spelled, lemma_revision_metadata_is_spelled,
    parents_spelling, revision_metadata_spelling,
};
use crate::revision::spec::{
    component_checked as part_checked, spec_checked, tools_checked, AgentSpecView, ToolSpecView,
};
use crate::revision::spec_codec::{agent_spec_json, agent_spec_text};
use crate::spelling::{
    depth_limit, is_plain, is_plain_json, lemma_no_fields, lemma_one_more, meant, meant_fields,
    spelled, spelled_fields, Spelling,
};
use crate::text::is_blank;
use crate::text_map::{lemma_finite_is_walked, sorted_keys};
use vstd::prelude::*;

verus! {

/// A text, or null where it is left out.
pub open spec fn text_or_null(text: Option<Seq<char>>) -> JsonView {
    match text {
        Some(text) => JsonView::Text(text),
        None => JsonView::Null,
    }
}

/// A reader that takes plain texts for what they spell reads this document from a text, and no
/// other.
pub open spec fn reads_only(text: Seq<char>, json: JsonView) -> bool {
    forall|document: Option<JsonView>| #[trigger] is_read_as(text, document) ==> document
        == Some(json)
}

/// All that identifies a revision, as a document.
pub open spec fn identifying(
    agent_id: Seq<char>,
    spec_digest: Seq<char>,
    parents: Seq<Seq<char>>,
    message: CommitMessageView,
    metadata: RevisionMetadataView,
) -> JsonView {
    JsonView::Object(
        map![
            "agent_id"@ => JsonView::Text(agent_id),
            "spec_digest"@ => JsonView::Text(spec_digest),
            "parents"@ => JsonView::Array(
                Seq::new(parents.len(), |i: int| JsonView::Text(parents[i])),
            ),
            "message"@ => JsonView::Object(map![
                "subject"@ => JsonView::Text(message.subject),
                "body"@ => text_or_null(message.body),
            ]),
            "metadata"@ => JsonView::Object(map![
                "author"@ => text_or_null(metadata.author),
                "created_at"@ => text_or_null(metadata.created_at),
            ]),
        ],
    )
}

proof fn lemma_identity_is_read(identity: RevisionIdentity)
    ensures
        reads_only(
            identity_text(identity),
            identifying(
                identity.agent_id,
                identity.spec_digest,
                identity.parents,
                identity.message,
                identity.metadata,
            ),
        ),
{
    reveal_strlit("agent_id");
    reveal_strlit("spec_digest");
    reveal_strlit("parents");
    reveal_strlit("message");
    reveal_strlit("metadata");
    assert("agent_id"@.len() != "spec_digest"@.len());
    assert("agent_id"@.len() != "parents"@.len());
    assert("spec_digest"@.len() != "parents"@.len());
    assert("agent_id"@.len() != "message"@.len());
    assert("spec_digest"@.len() != "message"@.len());
    assert("parents"@[0] != "message"@[0]);
    assert("agent_id"@[0] != "metadata"@[0]);
    assert("spec_digest"@.len() != "metadata"@.len());
    assert("parents"@.len() != "metadata"@.len());
    assert("message"@.len() != "metadata"@.len());
    let depth = depth_limit();
    let inner = (depth - 1) as nat;
    assert(is_plain_json(parents_json(identity.parents), inner)) by {
        let items = parents_json(identity.parents)->Array_0;
        assert forall|i: int| 0 <= i < items.len() implies is_plain_json(
            #[trigger] items[i],
            (inner - 1) as nat,
        ) by {}
    }
    assert(is_plain_json(commit_message_json(identity.message), inner)) by {
        let members = commit_message_json(identity.message)->Object_0;
        assert forall|key: Seq<char>| members.contains_key(key) implies is_plain_json(
            #[trigger] members[key],
            (inner - 1) as nat,
        ) by {}
    }
    assert(is_plain_json(revision_metadata_json(identity.metadata), inner)) by {
        let members = revision_metadata_json(identity.metadata)->Object_0;
        assert forall|key: Seq<char>| members.contains_key(key) implies is_plain_json(
            #[trigger] members[key],
            (inner - 1) as nat,
        ) by {}
    }
    lemma_parents_is_spelled(identity.parents, inner);
    lemma_commit_message_is_spelled(identity.message, inner);
    lemma_revision_metadata_is_spelled(identity.metadata, inner);
    lemma_no_fields(inner);
    let fields = Seq::<(Seq<char>, Spelling)>::empty();
    let next = Spelling::Text(identity.agent_id);
    lemma_one_more(fields, "agent_id"@, next, inner);
    let fields = fields.push(("agent_id"@, next));
    let next = Spelling::Text(identity.spec_digest);
    lemma_one_more(fields, "spec_digest"@, next, inner);
    let fields = fields.push(("spec_digest"@, next));
    let next = parents_spelling(identity.parents);
    lemma_one_more(fields, "parents"@, next, inner);
    let fields = fields.push(("parents"@, next));
    let next = commit_message_spelling(identity.message);
    lemma_one_more(fields, "message"@, next, inner);
    let fields = fields.push(("message"@, next));
    let next = revision_metadata_spelling(identity.metadata);
    lemma_one_more(fields, "metadata"@, next, inner);
    let fields = fields.push(("metadata"@, next));
    let spelling = Spelling::Object(fields);
    assert(spelled_fields(fields) =~= seq![
        ("agent_id"@, json_quoted(identity.agent_id)),
        ("spec_digest"@, json_quoted(identity.spec_digest)),
        ("parents"@, parents_text(identity.parents)),
        ("message"@, commit_message_text(identity.message)),
        ("metadata"@, revision_metadata_text(identity.metadata)),
    ]);
    let json = identifying(
        identity.agent_id,
        identity.spec_digest,
        identity.parents,
        identity.message,
        identity.metadata,
    );
    assert(parents_json(identity.parents)->Array_0 =~= json->Object_0["parents"@]->Array_0);
    assert(meant_fields(fields) =~= json->Object_0);
    assert(spelled(spelling) == identity_text(identity));
    assert(is_plain(spelling, depth));
    assert(meant(spelling) == json);
}

/// A revision is named by the digest of a text from which everything that identifies it can be read:
/// its agent, its parents in their order, its message, its metadata, and the digest of a text from
/// which its specification can be read. So no part of it can change without the text that its name
/// is the digest of.
pub proof fn law_name_is_the_digest_of_all_that_identifies(
    spec: AgentSpecView,
    parents: Seq<Seq<char>>,
    message: CommitMessageView,
    metadata: RevisionMetadataView,
)
    ensures
        ({
            let revision = revision_made(spec, parents, message, metadata);
            &&& revision.agent_id == spec.agent_id
            &&& revision.spec == spec
            &&& revision.parents == parents
            &&& revision.message == message
            &&& revision.metadata == metadata
            &&& exists|text: Seq<char>|
                revision.revision_id == #[trigger] text_digest(text) && reads_only(
                    text,
                    identifying(
                        spec.agent_id,
                        revision.spec_digest,
                        parents,
                        message,
                        metadata,
                    ),
                )
            &&& exists|text: Seq<char>|
                revision.spec_digest == #[trigger] text_digest(text) && (is_plain_json(
                    agent_spec_json(spec),
                    depth_limit(),
                ) ==> reads_only(text, agent_spec_json(spec)))
        }),
{
    let revision = revision_made(spec, parents, message, metadata);
    let identity = RevisionIdentity {
        agent_id: spec.agent_id,
        spec_digest: revision.spec_digest,
        parents,
        message,
        metadata,
    };
    lemma_identity_is_read(identity);
    assert(revision.revision_id == text_digest(identity_text(identity)));
    let text = agent_spec_text(spec);
    if is_plain_json(agent_spec_json(spec), depth_limit()) {
        lemma_agent_spec_is_spelled(spec, depth_limit());
        assert(spelled(agent_spec_spelling(spec)) == text);
        assert(reads_only(text, agent_spec_json(spec)));
    }
    assert(revision.spec_digest == text_digest(text));
}

/// A name that can be part of a path: it is not blank, names no directory and leads to none.
pub open spec fn is_component(value: Seq<char>) -> bool {
    &&& !is_blank(value)
    &&& value != seq!['.']
    &&& value != seq!['.', '.']
    &&& forall|i: int| 0 <= i < value.len() ==> (#[trigger] value[i]) != '/' && value[i] != '\\'
}

/// A name is refused exactly where it cannot be part of a path.
pub proof fn law_component_is_part_of_a_path(kind: Seq<char>, value: Seq<char>)
    ensures
        component_checked(kind, value) is Ok <==> is_component(value),
{
    reveal_strlit(".");
    reveal_strlit("..");
    assert("."@ =~= seq!['.']);
    assert(".."@ =~= seq!['.', '.']);
    assert(value.contains('/') || value.contains('\\') ==> !is_component(value));
    if !value.contains('/') && !value.contains('\\') {
        assert forall|i: int| 0 <= i < value.len() implies (#[trigger] value[i]) != '/' && value[i]
            != '\\' by {
            assert(value.contains(value[i]));
        }
    }
}

/// A message is what was given, where its subject is one line that is not blank.
pub proof fn law_message_needs_a_subject(subject: Seq<char>, body: Option<Seq<char>>)
    ensures
        message_made(subject, body) is Ok <==> !is_blank(subject) && forall|i: int|
            0 <= i < subject.len() ==> (#[trigger] subject[i]) != '\n' && subject[i] != '\r',
        message_made(subject, body) matches Ok(message) ==> message.subject == subject
            && message.body == body,
        message_made(subject, body) matches Err(error) ==> error is InvalidCommitMessage,
{
    if !subject.contains('\n') && !subject.contains('\r') {
        assert forall|i: int| 0 <= i < subject.len() implies (#[trigger] subject[i]) != '\n'
            && subject[i] != '\r' by {
            assert(subject.contains(subject[i]));
        }
    }
}

/// A specification is valid: its agent's name can be part of a path, its model, its build, its
/// context builder and its hooks have names, and so do its templates and its tools, which are listed
/// under them.
pub open spec fn is_valid(spec: AgentSpecView) -> bool {
    &&& is_component(spec.agent_id)
    &&& !is_blank(spec.model.fqn)
    &&& forall|name: Seq<char>| #[trigger]
        spec.prompts.templates.contains_key(name) ==> !is_blank(name)
    &&& forall|name: Seq<char>| #[trigger]
        spec.tools.contains_key(name) ==> !is_blank(name) && spec.tools[name].interface.name == name
    &&& !is_blank(spec.runtime.context_builder.fqn)
    &&& forall|i: int|
        0 <= i < spec.runtime.hooks.len() ==> !is_blank((#[trigger] spec.runtime.hooks[i]).fqn)
    &&& !is_blank(spec.build.id)
}

proof fn lemma_tools(tools: Map<Seq<char>, ToolSpecView>, names: Seq<Seq<char>>)
    ensures
        tools_checked(tools, names) is Ok <==> forall|i: int|
            0 <= i < names.len() ==> !is_blank(#[trigger] names[i])
                && tools[names[i]].interface.name == names[i],
    decreases names.len(),
{
    if names.len() > 0 {
        let rest = names.drop_first();
        lemma_tools(tools, rest);
        if tools_checked(tools, names) is Ok {
            assert forall|i: int| 0 <= i < names.len() implies !is_blank(#[trigger] names[i])
                && tools[names[i]].interface.name == names[i] by {
                if i > 0 {
                    assert(rest[i - 1] == names[i]);
                }
            }
        }
        if forall|i: int|
            0 <= i < names.len() ==> !is_blank(#[trigger] names[i])
                && tools[names[i]].interface.name == names[i] {
            assert(!is_blank(names[0]) && tools[names[0]].interface.name == names[0]);
            assert forall|i: int| 0 <= i < rest.len() implies !is_blank(#[trigger] rest[i])
                && tools[rest[i]].interface.name == rest[i] by {
                assert(rest[i] == names[i + 1]);
            }
        }
    }
}

/// A specification is refused exactly where it is not valid.
pub proof fn law_only_valid_specifications_pass(spec: AgentSpecView)
    requires
        spec.tools.dom().finite(),
    ensures
        spec_checked(spec) is Ok <==> is_valid(spec),
        spec_checked(spec) matches Err(error) ==> error is InvalidSpec,
{
    law_component_is_part_of_a_path("agent id"@, spec.agent_id);
    let names = sorted_keys(spec.tools.dom());
    lemma_finite_is_walked(spec.tools.dom());
    lemma_tools(spec.tools, names);
    lemma_tools_errors(spec.tools, names);
    if tools_checked(spec.tools, names) is Ok {
        assert forall|name: Seq<char>| #[trigger] spec.tools.contains_key(name) implies !is_blank(
            name,
        ) && spec.tools[name].interface.name == name by {
            assert(names.contains(name));
            let i = choose|i: int| 0 <= i < names.len() && names[i] == name;
            assert(!is_blank(names[i]));
        }
    }
    if is_valid(spec) {
        assert forall|i: int| 0 <= i < names.len() implies !is_blank(#[trigger] names[i])
            && spec.tools[names[i]].interface.name == names[i] by {
            assert(names.contains(names[i]));
            assert(spec.tools.contains_key(names[i]));
        }
    }
    let hooks = spec.runtime.hooks;
    assert forall|i: int| 0 <= i < hooks.len() implies ((#[trigger] part_checked(hooks[i])) is Ok
        <==> !is_blank(hooks[i].fqn)) by {}
    if forall|i: int| 0 <= i < hooks.len() ==> !is_blank((#[trigger] hooks[i]).fqn) {
        assert forall|i: int| 0 <= i < hooks.len() implies (#[trigger] part_checked(hooks[i]))
            is Ok by {
            assert(!is_blank(hooks[i].fqn));
        }
    }
    if forall|i: int| 0 <= i < hooks.len() ==> (#[trigger] part_checked(hooks[i])) is Ok {
        assert forall|i: int| 0 <= i < hooks.len() implies !is_blank((#[trigger] hooks[i]).fqn) by {
            assert(part_checked(hooks[i]) is Ok);
        }
    }
}

proof fn lemma_tools_errors(tools: Map<Seq<char>, ToolSpecView>, names: Seq<Seq<char>>)
    ensures
        tools_checked(tools, names) matches Err(error) ==> error is InvalidSpec,
    decreases names.len(),
{
    if names.len() > 0 {
        lemma_tools_errors(tools, names.drop_first());
    }
}

/// A revision is made where its specification is valid and its parents are distinct and named.
pub proof fn law_revision_is_made_of_valid_parts(
    spec: AgentSpecView,
    parents: Seq<Seq<char>>,
    message: CommitMessageView,
    metadata: RevisionMetadataView,
)
    requires
        spec.tools.dom().finite(),
    ensures
        revision_outcome(spec, parents, message, metadata) is Ok <==> is_valid(spec)
            && parents.no_duplicates() && forall|i: int|
            0 <= i < parents.len() ==> !is_blank(#[trigger] parents[i]),
        revision_outcome(spec, parents, message, metadata) matches Ok(revision) ==> revision
            == revision_made(spec, parents, message, metadata),
{
    law_only_valid_specifications_pass(spec);
    crate::revision::revision::law_parents_are_distinct(parents);
}

} // verus!
