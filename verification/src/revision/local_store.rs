//! How a store of files names its objects and reads what it wrote.

use crate::document::{is_read_as, json_document, JsonErrorView};
use crate::json::JsonView;
use crate::prune::{document_read, read_document};
use crate::revision::error::{Result, RevisionError, RevisionErrorView};
use crate::revision::ids::{branch_text, BranchRef, BranchRefView, RevisionId};
use crate::revision::revision::{AgentRevision, AgentRevisionView};
use crate::revision::revision_codec::{
    agent_revision_json, agent_revision_of, agent_revision_text, law_agent_revision_is_read_back,
    read_agent_revision, write_agent_revision,
};
use crate::revision::revision_spelling::{
    agent_revision_spelling, lemma_agent_revision_is_spelled,
};
use crate::same::outcome_of;
use crate::shape::{is_unambiguous, unambiguous, Shape};
use crate::spelling::{depth_limit, is_plain_json, meant};
use crate::text::{glue3, same_text, trim, trimmed};
use crate::written::law_written_revision_is_unambiguous;
use vstd::std_specs::iter::IteratorSpec;
use vstd::prelude::*;

verus! {

/// The name of the file of a revision, without its extension: each `:` becomes `_`.
pub open spec fn object_stem(id: Seq<char>) -> Seq<char> {
    id.map_values(
        |c: char|
            if c == ':' {
                '_'
            } else {
                c
            },
    )
}

/// The name of the file of a revision, without its extension.
pub fn object_name(id: &RevisionId) -> (r: String)
    ensures
        r@ == object_stem(id.deep_view()),
{
    let text = id.0.as_str();
    let ghost want = object_stem(text@);
    let mut r = "".to_owned();
    let mut i: usize = 0;
    let total: usize = text.unicode_len();
    proof {
        reveal_strlit("");
        reveal_strlit("_");
        assert(r@ =~= want.take(0));
    }
    for c in it: text.chars()
        invariant
            it.seq() == text@,
            total == text@.len(),
            i == it.index(),
            want == object_stem(text@),
            "_"@ == seq!['_'],
            r@ == want.take(i as int),
    {
        assert(i < total);
        if c == ':' {
            r.append("_");
        } else {
            r.append(text.substring_char(i, i + 1));
        }
        assert(r@ =~= want.take(i + 1));
        i = i + 1;
    }
    assert(want.take(total as int) =~= want);
    r
}

/// What the file of a branch says that the branch points to.
pub open spec fn head_read(branch: BranchRefView, raw: Seq<char>) -> core::result::Result<
    Seq<char>,
    RevisionErrorView,
> {
    if trimmed(raw).len() == 0 {
        Err(
            RevisionErrorView::Store("branch "@ + branch_text(branch) + " has an empty head"@),
        )
    } else {
        Ok(trimmed(raw))
    }
}

/// Reads what a branch points to from the text of its file.
pub fn read_head(branch: &BranchRef, raw: &str) -> (r: Result<RevisionId>)
    ensures
        outcome_of(r) == head_read(branch.deep_view(), raw@),
{
    let value = trim(raw);
    if value.unicode_len() == 0 {
        return Err(
            RevisionError::Store(glue3("branch ", branch.text().as_str(), " has an empty head")),
        );
    }
    Ok(RevisionId(value.to_owned()))
}

/// An object that is written again must be the same.
pub open spec fn object_kept(id: Seq<char>, existing: Seq<char>, text: Seq<char>) -> core::result::Result<
    (),
    RevisionErrorView,
> {
    if existing == text {
        Ok(())
    } else {
        Err(
            RevisionErrorView::Store(
                "revision object "@ + id + " already contains different data"@,
            ),
        )
    }
}

/// Rejects an object that is there with different data.
pub fn keep_object(id: &RevisionId, existing: &str, text: &str) -> (r: Result<()>)
    ensures
        outcome_of(r) == object_kept(id.deep_view(), existing@, text@),
{
    if same_text(existing, text) {
        Ok(())
    } else {
        Err(
            RevisionError::Store(
                glue3(
                    "revision object ",
                    id.0.as_str(),
                    " already contains different data",
                ),
            ),
        )
    }
}

/// The revision that a text is, where it holds each field once. Where a document is no revision,
/// `wording` says what is wrong with it.
pub open spec fn revision_read(
    text: Seq<char>,
    document: core::result::Result<Option<JsonView>, JsonErrorView>,
    wording: Seq<char>,
) -> core::result::Result<AgentRevisionView, RevisionErrorView> {
    match document {
        Err(error) => Err(RevisionErrorView::Serialization(error.message)),
        Ok(None) => Err(RevisionErrorView::Serialization(wording)),
        Ok(Some(json)) => match agent_revision_of(json) {
            Some(revision) if is_unambiguous(text, Shape::Revision) => Ok(revision),
            _ => Err(RevisionErrorView::Serialization(wording)),
        },
    }
}

/// A revision that was written is what is read from its text, as long as its numbers are whole or
/// short fractions and its document is nested no deeper than the reader allows.
pub open spec fn is_read_back(
    text: Seq<char>,
    outcome: core::result::Result<AgentRevisionView, RevisionErrorView>,
) -> bool {
    forall|revision: AgentRevisionView|
        text == #[trigger] agent_revision_text(revision) && is_plain_json(
            agent_revision_json(revision),
            depth_limit(),
        ) ==> outcome == Ok::<AgentRevisionView, RevisionErrorView>(revision)
}

/// Reads a revision from the text of its file. What is said of a document that is no revision is
/// left open.
pub fn read_object(text: &str) -> (r: Result<AgentRevision>)
    ensures
        exists|wording: Seq<char>|
            outcome_of(r) == #[trigger] revision_read(text@, document_read(text@, Shape::Revision), wording),
        is_read_back(text@, outcome_of(r)),
{
    let document = read_document(text, Shape::Revision);
    proof {
        let read = match json_document(text@) {
            Ok(json) => Some(json),
            Err(_) => None,
        };
        assert forall|revision: AgentRevisionView|
            text@ == #[trigger] agent_revision_text(revision) && is_plain_json(
                agent_revision_json(revision),
                depth_limit(),
            ) implies read is Some && agent_revision_of(read->Some_0) == Some(revision)
            && is_unambiguous(text@, Shape::Revision) by {
            law_object_is_read_back(revision, read);
        }
    }
    match document {
        Err(error) => {
            assert(revision_read(text@, document_read(text@, Shape::Revision), ""@) is Err);
            Err(RevisionError::Serialization(error.message))
        },
        Ok(None) => {
            let message = "a field cannot be read";
            assert(revision_read(text@, document_read(text@, Shape::Revision), message@) is Err);
            Err(RevisionError::Serialization(message.to_owned()))
        },
        Ok(Some(json)) => match read_agent_revision(&json) {
            Err(error) => {
                assert(revision_read(text@, document_read(text@, Shape::Revision), error@) is Err);
                Err(RevisionError::Serialization(error))
            },
            Ok(revision) => {
                if unambiguous(text, Shape::Revision) {
                    assert(revision_read(text@, document_read(text@, Shape::Revision), ""@) is Ok);
                    Ok(revision)
                } else {
                    let message = "a field stands twice";
                    assert(revision_read(text@, document_read(text@, Shape::Revision), message@) is Err);
                    Err(RevisionError::Serialization(message.to_owned()))
                }
            },
        },
    }
}

/// The text of the file of a revision.
pub fn write_object(revision: &AgentRevision) -> (r: String)
    ensures
        r@ == agent_revision_text(revision.deep_view()),
{
    write_agent_revision(revision)
}

/// What is to be written down when a revision is saved, given what its file holds: its text where
/// there is no file, and nothing where the file holds that text already.
pub open spec fn object_saved(revision: AgentRevisionView, existing: Option<Seq<char>>) -> core::result::Result<
    Option<Seq<char>>,
    RevisionErrorView,
> {
    let text = agent_revision_text(revision);
    match existing {
        None => Ok(Some(text)),
        Some(existing) => match object_kept(revision.revision_id, existing, text) {
            Ok(_) => Ok(None),
            Err(error) => Err(error),
        },
    }
}

/// Says what is to be written down when a revision is saved, given what its file holds.
pub fn save_object(revision: &AgentRevision, existing: &Option<String>) -> (r: Result<
    Option<String>,
>)
    ensures
        outcome_of(r) == object_saved(revision.deep_view(), existing.deep_view()),
{
    let text = write_object(revision);
    match existing {
        None => Ok(Some(text)),
        Some(existing) => match keep_object(
            &revision.revision_id,
            existing.as_str(),
            text.as_str(),
        ) {
            Ok(_) => Ok(None),
            Err(error) => Err(error),
        },
    }
}

/// What a file holds after a save.
pub open spec fn file_after(
    existing: Option<Seq<char>>,
    saved: core::result::Result<Option<Seq<char>>, RevisionErrorView>,
) -> Option<Seq<char>> {
    match saved {
        Ok(Some(text)) => Some(text),
        _ => existing,
    }
}

/// A file that holds an object is never changed; and a revision that was saved is what a reader that
/// takes plain texts for what they spell finds in its file.
pub proof fn law_saved_object_stays(
    revision: AgentRevisionView,
    existing: Option<Seq<char>>,
    document: Option<JsonView>,
)
    ensures
        ({
            let saved = object_saved(revision, existing);
            let after = file_after(existing, saved);
            &&& existing is Some ==> after == existing
            &&& saved is Ok <==> (existing matches Some(text) ==> text == agent_revision_text(
                revision,
            ))
            &&& saved is Ok ==> after == Some(agent_revision_text(revision))
            &&& saved is Ok && is_plain_json(agent_revision_json(revision), depth_limit())
                && is_read_as(after->Some_0, document) ==> document is Some && forall|wording: Seq<char>| #[trigger]
                revision_read(after->Some_0, Ok(document), wording) == Ok::<
                    AgentRevisionView,
                    RevisionErrorView,
                >(revision)
        }),
{
    let saved = object_saved(revision, existing);
    let after = file_after(existing, saved);
    if saved is Ok && is_plain_json(agent_revision_json(revision), depth_limit()) && is_read_as(
        after->Some_0,
        document,
    ) {
        law_object_is_read_back(revision, document);
    }
}

/// The text of a revision is read as that revision, by a reader that takes plain texts for what
/// they spell.
pub proof fn law_object_is_read_back(revision: AgentRevisionView, document: Option<JsonView>)
    requires
        is_plain_json(agent_revision_json(revision), depth_limit()),
        is_read_as(agent_revision_text(revision), document),
    ensures
        document is Some,
        agent_revision_of(document->Some_0) == Some(revision),
        is_unambiguous(agent_revision_text(revision), Shape::Revision),
{
    lemma_agent_revision_is_spelled(revision, depth_limit());
    assert(document == Some(meant(agent_revision_spelling(revision))));
    law_agent_revision_is_read_back(revision);
    law_written_revision_is_unambiguous(revision, depth_limit());
}

} // verus!
