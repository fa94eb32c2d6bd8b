use canary_agent::document::parse;
use canary_agent::json::Json;
use canary_agent::revision::controller::RevisionController;
use canary_agent::revision::diff::{AgentDiff, ToolChange};
use canary_agent::revision::error::RevisionError;
use canary_agent::revision::history::choose_merge_base;
use canary_agent::revision::ids::{AgentId, BranchName, BranchRef, RevisionId};
use canary_agent::revision::local_store::{
    keep_object, object_name, read_head, read_object, save_object, write_object,
};
use canary_agent::revision::merge::{merge_specs, merge_value};
use canary_agent::revision::revision::{AgentRevision, CommitMessage, RevisionMetadata};
use canary_agent::revision::revision_codec::make_agent_revision;
use canary_agent::revision::spec::{
    AgentBuildRef, AgentSpec, ComponentRef, ModelSpec, PromptSpec, RuntimePolicySpec,
    ToolInterfaceSpec, ToolSpec, TurnExecutionLimitsSpec,
};
use canary_agent::revision::store::{MemoryRevisionStore, RevisionStore};
use canary_agent::text_map::TextMap;

fn json(text: &str) -> Json {
    parse(text).expect("a document")
}

fn tool(name: &str) -> ToolSpec {
    ToolSpec {
        interface: ToolInterfaceSpec {
            name: name.to_string(),
            description: format!("{} tool", name),
            parameters: json(r#"{"type": "object"}"#),
            output_schema: json(r#"{"type": "object"}"#),
        },
        configuration: json("{}"),
    }
}

fn spec() -> AgentSpec {
    let mut tools = TextMap::new();
    tools.insert("search".to_string(), tool("search"));
    AgentSpec {
        agent_id: AgentId::from("research-agent"),
        model: ModelSpec {
            fqn: "provider/model-v1".to_string(),
            settings: json(r#"{"reasoning_effort": "medium"}"#),
        },
        prompts: PromptSpec {
            system: "Answer carefully.".to_string(),
            templates: TextMap::new(),
        },
        tools,
        runtime: RuntimePolicySpec {
            context_builder: ComponentRef::new("test::ContextBuilder".to_string(), json("{}"))
                .expect("context builder"),
            hooks: Vec::new(),
            turn_execution_limits: TurnExecutionLimitsSpec {
                max_model_iterations: 128,
                max_function_calls: 1024,
            },
        },
        build: AgentBuildRef {
            id: "application-build-1".to_string(),
        },
    }
}

fn branch(name: &str) -> BranchRef {
    BranchRef::new(AgentId::from("research-agent"), BranchName::from(name))
}

fn about(subject: &str) -> CommitMessage {
    CommitMessage::new(subject).expect("message")
}

fn controller() -> RevisionController<MemoryRevisionStore> {
    RevisionController::new(MemoryRevisionStore::new())
}

fn no_metadata() -> RevisionMetadata {
    RevisionMetadata {
        author: None,
        created_at: None,
    }
}

#[test]
fn commit_branch_checkout_and_lineage_are_persistent() {
    let mut controller = controller();
    let main = branch("main");
    let first = controller
        .commit(&main, spec(), about("create research agent"))
        .expect("first commit");
    assert!(first.parents.is_empty());

    let feature = branch("add-search-v2");
    let branch_head = controller
        .create_branch(&main, feature.clone())
        .expect("branch");
    assert_eq!(branch_head, first.revision_id);

    let mut next_spec = spec();
    next_spec.build.id = "application-build-2".to_string();
    let second = controller
        .commit(&feature, next_spec, about("upgrade search implementation"))
        .expect("second commit");
    assert_eq!(second.parents, vec![first.revision_id.clone()]);
    assert_eq!(
        controller.checkout(&feature).expect("checkout").revision,
        second
    );
    assert_eq!(
        controller.parents(&second.revision_id).expect("parents")[0],
        first
    );
    let history = controller.log(&feature).expect("log");
    assert_eq!(
        history
            .iter()
            .map(|revision| revision.message.subject.as_str())
            .collect::<Vec<_>>(),
        vec!["upgrade search implementation", "create research agent"]
    );

    // What a store writes down is what another store reads.
    let mut reopened = MemoryRevisionStore::new();
    for revision in &history {
        let text = write_object(revision);
        reopened
            .save_revision(&read_object(&text).expect("reopen"))
            .expect("reopen");
    }
    let head = read_head(&feature, &format!("{}\n", second.revision_id.0)).expect("head");
    assert!(reopened
        .compare_and_set_branch(&feature, &None, &head)
        .expect("reopen"));
    let reopened = RevisionController::new(reopened);
    assert_eq!(
        reopened
            .checkout(&feature)
            .expect("reopen checkout")
            .revision,
        second
    );
}

#[test]
fn commit_rejects_a_branch_for_another_agent() {
    let mut controller = controller();
    let branch = BranchRef::new(AgentId::from("other-agent"), BranchName::from("main"));
    let error = controller
        .commit(&branch, spec(), about("invalid ownership"))
        .expect_err("ownership error");
    assert!(matches!(error, RevisionError::InvalidSpec(_)));
}

#[test]
fn structural_diff_identifies_tool_subcomponents() {
    let before = AgentRevision::commit(spec(), Vec::new(), about("baseline"), no_metadata())
        .expect("revision");
    let mut next_spec = spec();
    let mut search = tool("search");
    search.interface.description = "search with filters".to_string();
    next_spec.tools.insert("search".to_string(), search);
    let after = AgentRevision::commit(
        next_spec,
        vec![before.revision_id.clone()],
        about("describe search filters"),
        no_metadata(),
    )
    .expect("revision");

    let diff = before.diff(&after).expect("diff");
    assert!(diff.tools.iter().any(|change| {
        matches!(change, ToolChange::Modified { name, diff }
            if name == "search" && diff.interface.is_some())
    }));
}

#[test]
fn merge_combines_independent_static_changes_and_records_two_parents() {
    let mut controller = controller();
    let (main, c0, c1) = (branch("main"), branch("c0"), branch("c1"));
    let base = controller
        .commit(&main, spec(), about("create base agent"))
        .expect("base");
    controller
        .create_branch(&main, c0.clone())
        .expect("c0 branch");
    controller
        .create_branch(&main, c1.clone())
        .expect("c1 branch");

    let mut c0_spec = spec();
    c0_spec.prompts.system = "Focus on category c0.".to_string();
    let c0_revision = controller
        .commit(&c0, c0_spec, about("optimize c0 prompt"))
        .expect("c0 commit");

    let mut c1_spec = spec();
    c1_spec.build.id = "application-build-2".to_string();
    let c1_revision = controller
        .commit(&c1, c1_spec, about("upgrade search for c1"))
        .expect("c1 commit");

    assert_eq!(
        controller
            .find_merge_base(&c0_revision.revision_id, &c1_revision.revision_id)
            .expect("base"),
        base.revision_id
    );
    let merged = controller
        .merge(&c1, &c0, about("merge c1 search improvements into c0"))
        .expect("merge");
    assert_eq!(
        merged.parents,
        vec![c0_revision.revision_id, c1_revision.revision_id]
    );
    assert_eq!(merged.spec.prompts.system, "Focus on category c0.");
    assert_eq!(merged.spec.build.id, "application-build-2");
    assert_eq!(
        controller.checkout(&c0).expect("merged checkout").revision,
        merged
    );
    assert_eq!(base.parents.len(), 0);
    let copy = branch("copy");
    controller.create_branch(&c0, copy.clone()).expect("copy");
    assert!(matches!(
        controller.merge(&c0, &copy, about("again")),
        Err(RevisionError::NothingToMerge(_))
    ));
}

#[test]
fn merge_reports_conflicting_static_changes_without_advancing_branch() {
    let mut controller = controller();
    let (main, left, right) = (branch("main"), branch("left"), branch("right"));
    controller
        .commit(&main, spec(), about("create base agent"))
        .expect("base");
    controller
        .create_branch(&main, left.clone())
        .expect("left branch");
    controller
        .create_branch(&main, right.clone())
        .expect("right branch");

    let mut left_spec = spec();
    left_spec.prompts.system = "left prompt".to_string();
    controller
        .commit(&left, left_spec, about("change prompt left"))
        .expect("left commit");

    let mut right_spec = spec();
    right_spec.prompts.system = "right prompt".to_string();
    controller
        .commit(&right, right_spec, about("change prompt right"))
        .expect("right commit");

    let error = controller
        .merge(&right, &left, about("merge conflicting prompts"))
        .expect_err("conflict");
    assert!(matches!(error, RevisionError::MergeConflicts(_)));
    assert_eq!(
        controller
            .checkout(&left)
            .expect("checkout")
            .revision
            .message
            .subject,
        "change prompt left"
    );
}

#[test]
fn digests_are_those_of_the_compact_document() {
    assert_eq!(
        spec().digest().unwrap().0,
        "sha256:c1da99d9b88876e457174271e8d1f14443b01b20547c89e87a38c8e97ffd7ba7"
    );
    let revision = AgentRevision::commit(
        spec(),
        Vec::new(),
        about("create research agent"),
        no_metadata(),
    )
    .unwrap();
    assert_eq!(
        revision.revision_id.0,
        "sha256:9cce9bff67cf28e1997df38c9cca082ccaa21a22674c729d4eb1dadb78b25cfa"
    );
}

#[test]
fn specs_that_are_not_in_order_are_refused() {
    let cases: Vec<(AgentSpec, &str)> = vec![
        (
            {
                let mut s = spec();
                s.model.fqn = " ".to_string();
                s
            },
            "model",
        ),
        (
            {
                let mut s = spec();
                s.build.id = "".to_string();
                s
            },
            "build",
        ),
        (
            {
                let mut s = spec();
                s.tools.insert("other".to_string(), tool("search"));
                s
            },
            "other",
        ),
    ];
    for (spec, part) in cases {
        let Err(RevisionError::InvalidSpec(message)) = spec.validate() else {
            panic!("a refusal");
        };
        assert!(message.contains(part), "{}", message);
    }
}

#[test]
fn names_are_single_path_components() {
    assert!(AgentId::new("research-agent".to_string()).is_ok());
    for wrong in ["", "a/b", "..", "."] {
        assert!(AgentId::new(wrong.to_string()).is_err());
        assert!(BranchName::new(wrong.to_string()).is_err());
    }
    assert_eq!(branch("main").text(), "research-agent/main");
}

#[test]
fn commit_messages_have_one_line() {
    assert!(matches!(
        CommitMessage::new(" \t"),
        Err(RevisionError::InvalidCommitMessage(message)) if message == "subject is empty"
    ));
    for subject in ["a\nb", "a\rb"] {
        assert!(matches!(
            CommitMessage::new(subject),
            Err(RevisionError::InvalidCommitMessage(message))
                if message == "subject must be a single line"
        ));
    }
    let message = CommitMessage::with_body("a", Some("b\nc".to_string())).unwrap();
    assert_eq!(message.body.as_deref(), Some("b\nc"));
}

#[test]
fn a_revision_has_distinct_parents() {
    let parent = RevisionId("sha256:1".to_string());
    assert!(AgentRevision::commit(
        spec(),
        vec![parent.clone(), parent.clone()],
        about("twice"),
        no_metadata()
    )
    .is_err());
}

#[test]
fn branches_are_made_once_and_from_something() {
    let mut controller = controller();
    let (main, other) = (branch("main"), branch("other"));
    assert!(matches!(
        controller.create_branch(&main, other.clone()),
        Err(RevisionError::BranchNotFound(_))
    ));
    assert!(matches!(
        controller.checkout(&main),
        Err(RevisionError::BranchNotFound(_))
    ));
    controller.commit(&main, spec(), about("first")).unwrap();
    controller.create_branch(&main, other.clone()).unwrap();
    assert!(matches!(
        controller.create_branch(&main, other.clone()),
        Err(RevisionError::BranchAlreadyExists(_))
    ));
    let stranger = BranchRef::new(AgentId::from("other-agent"), BranchName::from("x"));
    assert!(controller.create_branch(&main, stranger).is_err());
    assert!(matches!(
        controller.load_revision(&RevisionId("sha256:0".to_string())),
        Err(RevisionError::RevisionNotFound(_))
    ));
}

#[test]
fn branches_without_a_common_revision_are_not_merged() {
    let mut controller = controller();
    let (main, other) = (branch("main"), branch("other"));
    controller.commit(&main, spec(), about("first")).unwrap();
    controller.commit(&other, spec(), about("second")).unwrap();
    assert!(matches!(
        controller.merge(&other, &main, about("merge")),
        Err(RevisionError::NoCommonAncestor(_))
    ));
}

#[test]
fn the_nearest_common_revision_is_the_base() {
    let distances = |pairs: &[(&str, usize)]| {
        let mut map: TextMap<usize> = TextMap::new();
        for (id, distance) in pairs {
            map.insert(id.to_string(), *distance);
        }
        map
    };
    let ours = distances(&[("a", 3), ("b", 1), ("c", 1)]);
    let theirs = distances(&[("a", 1), ("b", 2), ("c", 2), ("d", 0)]);
    assert_eq!(
        choose_merge_base(&ours, &theirs),
        Some(RevisionId("b".to_string()))
    );
    assert_eq!(choose_merge_base(&ours, &distances(&[("x", 0)])), None);
}

#[test]
fn equal_specs_have_an_empty_diff() {
    assert!(AgentDiff::between(&spec(), &spec()).is_empty());
    let mut after = spec();
    after.tools.insert("fetch".to_string(), tool("fetch"));
    after.tools.remove("search");
    let diff = spec().diff(&after).unwrap();
    assert!(!diff.is_empty());
    assert_eq!(diff.tools.len(), 2);
    assert!(
        matches!(&diff.tools[0], ToolChange::Added { name, .. } if name == "fetch"),
    );
    assert!(
        matches!(&diff.tools[1], ToolChange::Removed { name, .. } if name == "search"),
    );
    assert!(diff.model.is_none() && diff.build.is_none());
}

#[test]
fn values_are_merged_member_by_member() {
    let base = json(r#"{"a": 1, "b": 2, "c": {"x": 1, "y": 1}, "gone": 0}"#);
    let ours = json(r#"{"a": 5, "b": 2, "c": {"x": 2, "y": 1}, "gone": 0}"#);
    let theirs = json(r#"{"a": 1, "b": 7, "c": {"x": 1, "y": 3}, "new": true}"#);
    let mut conflicts = Vec::new();
    let merged = merge_value(Some(&base), Some(&ours), Some(&theirs), "", &mut conflicts);
    assert!(conflicts.is_empty());
    assert_eq!(
        merged,
        Some(json(
            r#"{"a": 5, "b": 7, "c": {"x": 2, "y": 3}, "new": true}"#
        ))
    );

    let ours = json(r#"{"c": {"x": 2, "y": 1}}"#);
    let theirs = json(r#"{"c": {"x": 3, "y": 1}}"#);
    let mut conflicts = Vec::new();
    merge_value(Some(&base), Some(&ours), Some(&theirs), "", &mut conflicts);
    assert_eq!(conflicts.len(), 1);
    assert!(conflicts[0].path.contains("c") && conflicts[0].path.contains("x"));
    assert_eq!(conflicts[0].base, Some(json("1")));
    assert_eq!(conflicts[0].ours, Some(json("2")));
    assert_eq!(conflicts[0].theirs, Some(json("3")));
}

#[test]
fn a_merge_takes_the_side_that_changed() {
    let id = |text: &str| RevisionId(text.to_string());
    let mut changed = spec();
    changed.model.settings = json(r#"{"reasoning_effort": "high"}"#);
    let result = merge_specs(id("b"), id("o"), id("t"), &spec(), &spec(), &changed).unwrap();
    assert!(result.is_clean());
    assert_eq!(result.spec, Some(changed.clone()));
    let result = merge_specs(id("b"), id("o"), id("t"), &spec(), &changed, &spec()).unwrap();
    assert_eq!(result.spec, Some(changed));
}

#[test]
fn objects_are_written_down_and_read_back() {
    let mut document = spec();
    document.prompts.templates.insert(
        "quote \" and \\ and \u{1F980}".to_string(),
        "line\nbreak\u{1}".to_string(),
    );
    document.model.settings = json(r#"{"temperature": 0.7, "top_p": -0.0}"#);
    let revision = AgentRevision::commit(
        document,
        vec![RevisionId("sha256:1".to_string())],
        CommitMessage::with_body("subject", Some("body".to_string())).unwrap(),
        RevisionMetadata {
            author: Some("someone".to_string()),
            created_at: None,
        },
    )
    .unwrap();
    let text = write_object(&revision);
    assert_eq!(read_object(&text).unwrap(), revision);
    assert_eq!(json(&text), make_agent_revision(&revision));
    assert!(serde_json::from_str::<serde_json::Value>(&text).is_ok());
    assert!(read_object("{}").is_err());
    assert!(read_object("{").is_err());
    assert_eq!(
        object_name(&RevisionId("sha256:ab:c".to_string())),
        "sha256_ab_c".to_string()
    );
    assert!(keep_object(&revision.revision_id, "x", "x").is_ok());
    assert_eq!(save_object(&revision, &None).unwrap(), Some(text.clone()));
    assert_eq!(save_object(&revision, &Some(text.clone())).unwrap(), None);
    assert!(matches!(
        save_object(&revision, &Some("other".to_string())),
        Err(RevisionError::Store(_))
    ));
    assert_eq!(revision.revision_id.0.len(), 71);
    assert!(revision.spec_digest.0.starts_with("sha256:"));
    assert!(matches!(
        keep_object(&revision.revision_id, "x", "y"),
        Err(RevisionError::Store(_))
    ));
    assert!(read_head(&branch("main"), " \n").is_err());
}

#[test]
fn a_store_keeps_a_revision_as_it_was_saved() {
    let mut store = MemoryRevisionStore::new();
    let revision =
        AgentRevision::commit(spec(), Vec::new(), about("one"), no_metadata()).unwrap();
    store.save_revision(&revision).unwrap();
    store.save_revision(&revision).unwrap();
    let mut forged = revision.clone();
    forged.message.subject = "two".to_string();
    assert!(store.save_revision(&forged).is_err());
    assert_eq!(
        store.load_revision(&revision.revision_id).unwrap(),
        Some(revision.clone())
    );
    let main = branch("main");
    assert_eq!(
        store.compare_and_set_branch(&main, &Some(revision.revision_id.clone()), &revision.revision_id),
        Ok(false)
    );
    assert_eq!(
        store.compare_and_set_branch(&main, &None, &revision.revision_id),
        Ok(true)
    );
    assert_eq!(
        store.branch_head(&main).unwrap(),
        Some(revision.revision_id.clone())
    );
}

#[test]
fn a_change_of_the_sign_of_a_zero_is_none() {
    let mut ours = spec();
    ours.model.settings = json(r#"{"temperature": 0.0}"#);
    let mut theirs = spec();
    theirs.model.settings = json(r#"{"temperature": -0.0}"#);
    assert!(ours.diff(&theirs).unwrap().model.is_none());
    let id = |text: &str| RevisionId(text.to_string());
    let result = merge_specs(id("b"), id("o"), id("t"), &spec(), &ours, &theirs).unwrap();
    assert!(result.conflicts.is_empty());
    assert_eq!(result.spec, Some(ours));
}

#[test]
fn objects_can_hold_their_fields_in_order() {
    let revision =
        AgentRevision::commit(spec(), Vec::new(), about("one"), no_metadata()).unwrap();
    let text = write_object(&revision);
    let in_order = text.replace(r#"{"author":null,"created_at":null}"#, "[null,null]");
    assert_ne!(in_order, text);
    assert_eq!(read_object(&in_order).unwrap(), revision);
    let other = text.replace(r#"{"author":null,"created_at":null}"#, "7");
    assert!(matches!(read_object(&other), Err(RevisionError::Serialization(_))));
}

#[test]
fn objects_hold_each_field_once() {
    let mut document = spec();
    document
        .prompts
        .templates
        .insert("a".to_string(), "b".to_string());
    let revision =
        AgentRevision::commit(document, Vec::new(), about("one"), no_metadata()).unwrap();
    let text = write_object(&revision);
    let changed = |from: &str, to: &str| {
        let other = text.replacen(from, to, 1);
        assert_ne!(other, text);
        read_object(&other)
    };
    let author = r#""author":null"#;
    assert!(changed(author, r#""author":null,"author":null"#).is_err());
    assert_eq!(changed(author, r#""author":null,"x":1,"x":2"#), Ok(revision.clone()));
    assert_eq!(changed(r#""a":"b""#, r#""a":"c","a":"b""#), Ok(revision.clone()));
    assert!(changed(r#""a":"b""#, r#""a":1,"a":"b""#).is_err());
    assert!(changed(r#""interface":"#, r#""interface":{},"interface":"#).is_err());
    assert_eq!(changed(author, r#""x":1e999,"author":null"#), Ok(revision.clone()));
    assert_eq!(changed(r#""interface":"#, r#""x":["\ud800"],"interface":"#), Ok(revision));
}
