//! Specifications as documents.

use crate::codec::{
    array_text, make_count, make_missing_field, make_wrong_field, object_text, read_text_item,
    required_count, required_count_of, required_value, required_value_of, text_item_of, FieldText,
    ListWriter, RecordWriter,
};
use crate::fields::{as_fields, fielded, names_of, required_text, required_text_of};
use crate::json::{
    compact, json_quoted, lemma_object_view, member, no_members, quoted, Json, JsonView, NumberView,
};
use crate::revision::ids::AgentId;
use crate::revision::spec::{
    AgentBuildRef, AgentBuildRefView, AgentSpec, AgentSpecView, ComponentRef, ComponentRefView,
    ModelSpec, ModelSpecView, PromptSpec, PromptSpecView, RuntimePolicySpec, RuntimePolicySpecView,
    ToolInterfaceSpec, ToolInterfaceSpecView, ToolSpec, ToolSpecView, TurnExecutionLimitsSpec,
};
use crate::same::Replica;
use crate::text::{decimal, decimal_text, lemma_text_less_irreflexive};
use crate::text_map::{ascending, lemma_taken, sorted_keys, TextMap};
use vstd::prelude::*;

verus! {

/// A [`ComponentRef`] as a document.
pub open spec fn component_ref_json(value: ComponentRefView) -> JsonView {
    JsonView::Object(
        Map::<Seq<char>, JsonView>::empty()
            .insert("fqn"@, JsonView::Text(value.fqn))
            .insert("configuration"@, value.configuration),
    )
}

/// A [`ComponentRef`] as a document.
pub fn make_component_ref(value: &ComponentRef) -> (r: Json)
    ensures
        r.deep_view() == component_ref_json(value.deep_view()),
{
    Json::object(
        no_members()
            .with("fqn", Json::text(value.fqn.as_str()))
            .with("configuration", value.configuration.replica()),
    )
}

/// The text of a [`ComponentRef`], its fields in order.
pub open spec fn component_ref_text(value: ComponentRefView) -> Seq<char> {
    object_text(
        seq![
            ("fqn"@, json_quoted(value.fqn)),
            ("configuration"@, compact(value.configuration)),
        ],
    )
}

/// The text of a [`ComponentRef`], its fields in order.
pub fn write_component_ref(value: &ComponentRef) -> (r: String)
    ensures
        r@ == component_ref_text(value.deep_view()),
{
    let writer = RecordWriter::new().field("fqn", quoted(value.fqn.as_str()).as_str()).field(
        "configuration",
        value.configuration.to_text().as_str(),
    );
    let ghost value = value.deep_view();
    assert(writer.fields() =~= seq![
        ("fqn"@, json_quoted(value.fqn)),
        ("configuration"@, compact(value.configuration)),
    ]);
    writer.finish()
}

/// The [`ComponentRef`] that a document is.
pub open spec fn component_ref_of(
    json: JsonView,
) -> Option<ComponentRefView> {
    let json = fielded(json, seq!["fqn"@, "configuration"@], 2);
    match required_text_of(json, "fqn"@) {
        None => None,
        Some(fqn) =>
        match required_value_of(json, "configuration"@) {
            None => None,
            Some(configuration) => Some(ComponentRefView { fqn, configuration }),
        },
    }
}

/// Reads a [`ComponentRef`].
pub fn read_component_ref(json: &Json) -> (r: core::result::Result<ComponentRef, String>)
    ensures
        match r {
            Ok(value) => component_ref_of(json.deep_view())
                == Some(value.deep_view()),
            Err(_) => component_ref_of(json.deep_view()) is None,
        },
{
    let names: Vec<&str> = vec!["fqn", "configuration"];
    assert(names_of(names@) =~= seq!["fqn"@, "configuration"@]);
    let json = &as_fields(json, &names, 2);
    let fqn = match required_text(json, "fqn") {
        Ok(fqn) => fqn,
        Err(error) => return Err(error),
    };
    let configuration = match required_value(json, "configuration") {
        Ok(configuration) => configuration,
        Err(error) => return Err(error),
    };
    Ok(ComponentRef { fqn, configuration })
}

/// A field that must be a [`ComponentRef`].
pub open spec fn component_ref_field(
    json: JsonView,
    key: Seq<char>,
) -> Option<ComponentRefView> {
    match member(json, key) {
        Some(value) => component_ref_of(value),
        None => None,
    }
}

/// Reads a field that must be a [`ComponentRef`].
pub fn read_component_ref_field(
    json: &Json,
    key: &str,
) -> (r: core::result::Result<ComponentRef, String>)
    ensures
        match r {
            Ok(value) => component_ref_field(json.deep_view(), key@)
                == Some(value.deep_view()),
            Err(_) => component_ref_field(json.deep_view(), key@) is None,
        },
{
    match json.get(key) {
        Some(value) => read_component_ref(value),
        None => Err(make_missing_field(key)),
    }
}

/// A [`ModelSpec`] as a document.
pub open spec fn model_spec_json(value: ModelSpecView) -> JsonView {
    JsonView::Object(
        Map::<Seq<char>, JsonView>::empty()
            .insert("fqn"@, JsonView::Text(value.fqn))
            .insert("settings"@, value.settings),
    )
}

/// A [`ModelSpec`] as a document.
pub fn make_model_spec(value: &ModelSpec) -> (r: Json)
    ensures
        r.deep_view() == model_spec_json(value.deep_view()),
{
    Json::object(
        no_members()
            .with("fqn", Json::text(value.fqn.as_str()))
            .with("settings", value.settings.replica()),
    )
}

/// The text of a [`ModelSpec`], its fields in order.
pub open spec fn model_spec_text(value: ModelSpecView) -> Seq<char> {
    object_text(
        seq![
            ("fqn"@, json_quoted(value.fqn)),
            ("settings"@, compact(value.settings)),
        ],
    )
}

/// The text of a [`ModelSpec`], its fields in order.
pub fn write_model_spec(value: &ModelSpec) -> (r: String)
    ensures
        r@ == model_spec_text(value.deep_view()),
{
    let writer = RecordWriter::new().field("fqn", quoted(value.fqn.as_str()).as_str()).field(
        "settings",
        value.settings.to_text().as_str(),
    );
    let ghost value = value.deep_view();
    assert(writer.fields() =~= seq![
        ("fqn"@, json_quoted(value.fqn)),
        ("settings"@, compact(value.settings)),
    ]);
    writer.finish()
}

/// The [`ModelSpec`] that a document is.
pub open spec fn model_spec_of(json: JsonView) -> Option<ModelSpecView> {
    let json = fielded(json, seq!["fqn"@, "settings"@], 2);
    match required_text_of(json, "fqn"@) {
        None => None,
        Some(fqn) =>
        match required_value_of(json, "settings"@) {
            None => None,
            Some(settings) => Some(ModelSpecView { fqn, settings }),
        },
    }
}

/// Reads a [`ModelSpec`].
pub fn read_model_spec(json: &Json) -> (r: core::result::Result<ModelSpec, String>)
    ensures
        match r {
            Ok(value) => model_spec_of(json.deep_view())
                == Some(value.deep_view()),
            Err(_) => model_spec_of(json.deep_view()) is None,
        },
{
    let names: Vec<&str> = vec!["fqn", "settings"];
    assert(names_of(names@) =~= seq!["fqn"@, "settings"@]);
    let json = &as_fields(json, &names, 2);
    let fqn = match required_text(json, "fqn") {
        Ok(fqn) => fqn,
        Err(error) => return Err(error),
    };
    let settings = match required_value(json, "settings") {
        Ok(settings) => settings,
        Err(error) => return Err(error),
    };
    Ok(ModelSpec { fqn, settings })
}

/// A field that must be a [`ModelSpec`].
pub open spec fn model_spec_field(
    json: JsonView,
    key: Seq<char>,
) -> Option<ModelSpecView> {
    match member(json, key) {
        Some(value) => model_spec_of(value),
        None => None,
    }
}

/// Reads a field that must be a [`ModelSpec`].
pub fn read_model_spec_field(json: &Json, key: &str) -> (r: core::result::Result<ModelSpec, String>)
    ensures
        match r {
            Ok(value) => model_spec_field(json.deep_view(), key@)
                == Some(value.deep_view()),
            Err(_) => model_spec_field(json.deep_view(), key@) is None,
        },
{
    match json.get(key) {
        Some(value) => read_model_spec(value),
        None => Err(make_missing_field(key)),
    }
}

/// The templates of a prompt as a document.
pub open spec fn templates_json(values: Map<Seq<char>, Seq<char>>) -> JsonView {
    JsonView::Object(values.map_values(|value: Seq<char>| JsonView::Text(value)))
}

/// The templates of a prompt as a document.
pub fn make_templates(values: &TextMap<String>) -> (r: Json)
    ensures
        r.deep_view() == templates_json(values.deep_view()),
{
    let ghost want = values.deep_view().map_values(|value: Seq<char>| JsonView::Text(value));
    let mut members = no_members();
    let n: usize = values.walk();
    let ghost keys = values.keys();
    for i in 0..n
        invariant
            n == keys.len(),
            keys == values.keys(),
            forall|k: Seq<char>| #[trigger]
                members.deep_view().contains_key(k) <==> keys.take(i as int).contains(k),
            forall|j: int|
                0 <= j < i ==> members.deep_view()[#[trigger] keys[j]]
                    == JsonView::Text(values.deep_view()[keys[j]]),
    {
        let key = values.key_at(i);
        let value = values.value_at(i);
        let ghost before = members.deep_view();
        members = members.with(key.as_str(), Json::text(value.as_str()));
        proof {
            lemma_taken(keys, i as int, before.dom(), members.deep_view().dom());
        }
    }
    proof {
        assert(keys.take(n as int) =~= keys);
        assert(members.deep_view() =~= want) by {
            assert forall|k: Seq<char>| #[trigger]
                members.deep_view().contains_key(k) <==> want.contains_key(k) by {
                if want.contains_key(k) {
                    assert(values@.contains_key(k));
                    assert(keys.contains(k));
                }
                if keys.contains(k) {
                    let j = choose|j: int| 0 <= j < keys.len() && keys[j] == k;
                    assert(values@.contains_key(keys[j]));
                }
            }
            assert forall|k: Seq<char>| want.contains_key(k) implies members.deep_view()[k] == want[k] by {
                assert(values@.contains_key(k));
                assert(keys.contains(k));
                let j = choose|j: int| 0 <= j < keys.len() && keys[j] == k;
                assert(members.deep_view()[keys[j]] == want[k]);
            }
        }
    }
    Json::object(members)
}

/// The fields of the templates of a prompt, in ascending order.
pub open spec fn templates_fields(values: Map<Seq<char>, Seq<char>>) -> Seq<FieldText> {
    Seq::new(
        sorted_keys(values.dom()).len(),
        |i: int|
            (
                sorted_keys(values.dom())[i],
                json_quoted(values[sorted_keys(values.dom())[i]]),
            ),
    )
}

/// The text of the templates of a prompt.
pub open spec fn templates_text(values: Map<Seq<char>, Seq<char>>) -> Seq<char> {
    object_text(templates_fields(values))
}

/// The text of the templates of a prompt.
pub fn write_templates(values: &TextMap<String>) -> (r: String)
    ensures
        r@ == templates_text(values.deep_view()),
{
    let ghost want = templates_fields(values.deep_view());
    let n: usize = values.walk();
    assert(values.deep_view().dom() =~= values@.dom());
    let mut writer = RecordWriter::new();
    assert(writer.fields() =~= want.take(0));
    for i in 0..n
        invariant
            n == values.keys().len(),
            values.deep_view().dom() == values@.dom(),
            want == templates_fields(values.deep_view()),
            writer.fields() == want.take(i as int),
    {
        let value = values.value_at(i);
        let text = quoted(value.as_str());
        writer = writer.field(values.key_at(i).as_str(), text.as_str());
        assert(want[i as int] == (values.keys()[i as int], text@));
        assert(want.take(i + 1) =~= want.take(i as int).push(want[i as int]));
    }
    assert(want.take(n as int) =~= want);
    writer.finish()
}

/// The templates of a prompt that a document holds under a key.
pub open spec fn templates_field(
    json: JsonView,
    key: Seq<char>,
) -> Option<Map<Seq<char>, Seq<char>>> {
    match member(json, key) {
        Some(JsonView::Object(members)) => if forall|k: Seq<char>| #[trigger]
            members.contains_key(k) ==> text_item_of(members[k]) is Some {
            Some(members.map_values(|value: JsonView| text_item_of(value)->Some_0))
        } else {
            None
        },
        _ => None,
    }
}

/// Reads the templates of a prompt.
pub fn read_templates_field(
    json: &Json,
    key: &str,
) -> (r: core::result::Result<TextMap<String>, String>)
    ensures
        match r {
            Ok(value) => templates_field(json.deep_view(), key@)
                == Some(value.deep_view()),
            Err(_) => templates_field(json.deep_view(), key@) is None,
        },
{
    let members = match json.get(key) {
        Some(Json::Object(members)) => members,
        Some(_) => return Err(make_wrong_field(key, "an object")),
        None => return Err(make_missing_field(key)),
    };
    let ghost views = members.deep_view();
    proof {
        lemma_object_view(*members);
        assert(views.dom() =~= members@.dom());
    }
    let mut values: TextMap<String> = TextMap::new();
    let n: usize = members.walk();
    let ghost keys = members.keys();
    for i in 0..n
        invariant
            n == keys.len(),
            keys == members.keys(),
            views == members.deep_view(),
            views.dom() == members@.dom(),
            member(json.deep_view(), key@) == Some(JsonView::Object(views)),
            ascending(keys),
            forall|k: Seq<char>| #[trigger]
                values.deep_view().contains_key(k) <==> keys.take(i as int).contains(k),
            forall|j: int| 0 <= j < i ==> (text_item_of(views[#[trigger] keys[j]])) is Some,
            forall|j: int|
                0 <= j < i ==> values.deep_view()[#[trigger] keys[j]]
                    == text_item_of(views[keys[j]])->Some_0,
    {
        let name = members.key_at(i);
        match read_text_item(members.value_at(i)) {
            Ok(value) => {
                let ghost before = values.deep_view();
                values = values.with(name.as_str(), value);
                proof {
                    lemma_taken(keys, i as int, before.dom(), values.deep_view().dom());
                    assert forall|j: int| 0 <= j < i + 1 implies values.deep_view()[#[trigger] keys[j]]
                        == text_item_of(views[keys[j]])->Some_0 by {
                        if j < i {
                            lemma_text_less_irreflexive(keys[j]);
                        }
                    }
                }
            },
            Err(error) => {
                assert(views.contains_key(keys[i as int]));
                return Err(error);
            },
        }
    }
    proof {
        assert(keys.take(n as int) =~= keys);
        assert forall|k: Seq<char>| #[trigger] views.contains_key(k) implies text_item_of(views[k]) is Some
            && values.deep_view().contains_key(k)
                && values.deep_view()[k] == text_item_of(views[k])->Some_0 by {
            assert(members@.contains_key(k));
            assert(keys.contains(k));
            let j = choose|j: int| 0 <= j < keys.len() && keys[j] == k;
            assert(keys[j] == k);
        }
        assert forall|k: Seq<char>| values.deep_view().contains_key(k) implies views.contains_key(k) by {
            let j = choose|j: int| 0 <= j < keys.len() && keys[j] == k;
            assert(members@.contains_key(keys[j]));
        }
        assert(values.deep_view() =~= views.map_values(|value: JsonView| text_item_of(value)->Some_0));
    }
    Ok(values)
}

/// A [`PromptSpec`] as a document.
pub open spec fn prompt_spec_json(value: PromptSpecView) -> JsonView {
    JsonView::Object(
        Map::<Seq<char>, JsonView>::empty()
            .insert("system"@, JsonView::Text(value.system))
            .insert("templates"@, templates_json(value.templates)),
    )
}

/// A [`PromptSpec`] as a document.
pub fn make_prompt_spec(value: &PromptSpec) -> (r: Json)
    ensures
        r.deep_view() == prompt_spec_json(value.deep_view()),
{
    Json::object(
        no_members()
            .with("system", Json::text(value.system.as_str()))
            .with("templates", make_templates(&value.templates)),
    )
}

/// The text of a [`PromptSpec`], its fields in order.
pub open spec fn prompt_spec_text(value: PromptSpecView) -> Seq<char> {
    object_text(
        seq![
            ("system"@, json_quoted(value.system)),
            ("templates"@, templates_text(value.templates)),
        ],
    )
}

/// The text of a [`PromptSpec`], its fields in order.
pub fn write_prompt_spec(value: &PromptSpec) -> (r: String)
    ensures
        r@ == prompt_spec_text(value.deep_view()),
{
    let writer = RecordWriter::new().field("system", quoted(value.system.as_str()).as_str()).field(
        "templates",
        write_templates(&value.templates).as_str(),
    );
    let ghost value = value.deep_view();
    assert(writer.fields() =~= seq![
        ("system"@, json_quoted(value.system)),
        ("templates"@, templates_text(value.templates)),
    ]);
    writer.finish()
}

/// The [`PromptSpec`] that a document is.
pub open spec fn prompt_spec_of(json: JsonView) -> Option<PromptSpecView> {
    let json = fielded(json, seq!["system"@, "templates"@], 2);
    match required_text_of(json, "system"@) {
        None => None,
        Some(system) =>
        match templates_field(json, "templates"@) {
            None => None,
            Some(templates) => Some(PromptSpecView { system, templates }),
        },
    }
}

/// Reads a [`PromptSpec`].
pub fn read_prompt_spec(json: &Json) -> (r: core::result::Result<PromptSpec, String>)
    ensures
        match r {
            Ok(value) => prompt_spec_of(json.deep_view())
                == Some(value.deep_view()),
            Err(_) => prompt_spec_of(json.deep_view()) is None,
        },
{
    let names: Vec<&str> = vec!["system", "templates"];
    assert(names_of(names@) =~= seq!["system"@, "templates"@]);
    let json = &as_fields(json, &names, 2);
    let system = match required_text(json, "system") {
        Ok(system) => system,
        Err(error) => return Err(error),
    };
    let templates = match read_templates_field(json, "templates") {
        Ok(templates) => templates,
        Err(error) => return Err(error),
    };
    Ok(PromptSpec { system, templates })
}

/// A field that must be a [`PromptSpec`].
pub open spec fn prompt_spec_field(
    json: JsonView,
    key: Seq<char>,
) -> Option<PromptSpecView> {
    match member(json, key) {
        Some(value) => prompt_spec_of(value),
        None => None,
    }
}

/// Reads a field that must be a [`PromptSpec`].
pub fn read_prompt_spec_field(
    json: &Json,
    key: &str,
) -> (r: core::result::Result<PromptSpec, String>)
    ensures
        match r {
            Ok(value) => prompt_spec_field(json.deep_view(), key@)
                == Some(value.deep_view()),
            Err(_) => prompt_spec_field(json.deep_view(), key@) is None,
        },
{
    match json.get(key) {
        Some(value) => read_prompt_spec(value),
        None => Err(make_missing_field(key)),
    }
}

/// A [`ToolInterfaceSpec`] as a document.
pub open spec fn tool_interface_spec_json(value: ToolInterfaceSpecView) -> JsonView {
    JsonView::Object(
        Map::<Seq<char>, JsonView>::empty()
            .insert("name"@, JsonView::Text(value.name))
            .insert("description"@, JsonView::Text(value.description))
            .insert("parameters"@, value.parameters)
            .insert("output_schema"@, value.output_schema),
    )
}

/// A [`ToolInterfaceSpec`] as a document.
pub fn make_tool_interface_spec(value: &ToolInterfaceSpec) -> (r: Json)
    ensures
        r.deep_view() == tool_interface_spec_json(value.deep_view()),
{
    Json::object(
        no_members()
            .with("name", Json::text(value.name.as_str()))
            .with("description", Json::text(value.description.as_str()))
            .with("parameters", value.parameters.replica())
            .with("output_schema", value.output_schema.replica()),
    )
}

/// The text of a [`ToolInterfaceSpec`], its fields in order.
pub open spec fn tool_interface_spec_text(value: ToolInterfaceSpecView) -> Seq<char> {
    object_text(
        seq![
            ("name"@, json_quoted(value.name)),
            ("description"@, json_quoted(value.description)),
            ("parameters"@, compact(value.parameters)),
            ("output_schema"@, compact(value.output_schema)),
        ],
    )
}

/// The text of a [`ToolInterfaceSpec`], its fields in order.
pub fn write_tool_interface_spec(value: &ToolInterfaceSpec) -> (r: String)
    ensures
        r@ == tool_interface_spec_text(value.deep_view()),
{
    let writer = RecordWriter::new().field("name", quoted(value.name.as_str()).as_str()).field(
        "description",
        quoted(value.description.as_str()).as_str(),
    ).field("parameters", value.parameters.to_text().as_str()).field("output_schema", value.output_schema.to_text().as_str());
    let ghost value = value.deep_view();
    assert(writer.fields() =~= seq![
        ("name"@, json_quoted(value.name)),
        ("description"@, json_quoted(value.description)),
        ("parameters"@, compact(value.parameters)),
        ("output_schema"@, compact(value.output_schema)),
    ]);
    writer.finish()
}

/// The [`ToolInterfaceSpec`] that a document is.
pub open spec fn tool_interface_spec_of(
    json: JsonView,
) -> Option<ToolInterfaceSpecView> {
    let json = fielded(json, seq!["name"@, "description"@, "parameters"@, "output_schema"@], 4);
    match required_text_of(json, "name"@) {
        None => None,
        Some(name) =>
        match required_text_of(json, "description"@) {
            None => None,
            Some(description) =>
            match required_value_of(json, "parameters"@) {
                None => None,
                Some(parameters) =>
                match required_value_of(json, "output_schema"@) {
                    None => None,
                    Some(output_schema) => Some(
                        ToolInterfaceSpecView { name, description, parameters, output_schema },
                    ),
                },
            },
        },
    }
}

/// Reads a [`ToolInterfaceSpec`].
pub fn read_tool_interface_spec(json: &Json) -> (r: core::result::Result<ToolInterfaceSpec, String>)
    ensures
        match r {
            Ok(value) => tool_interface_spec_of(json.deep_view())
                == Some(value.deep_view()),
            Err(_) => tool_interface_spec_of(json.deep_view()) is None,
        },
{
    let names: Vec<&str> = vec!["name", "description", "parameters", "output_schema"];
    assert(names_of(names@) =~= seq!["name"@, "description"@, "parameters"@, "output_schema"@]);
    let json = &as_fields(json, &names, 4);
    let name = match required_text(json, "name") {
        Ok(name) => name,
        Err(error) => return Err(error),
    };
    let description = match required_text(json, "description") {
        Ok(description) => description,
        Err(error) => return Err(error),
    };
    let parameters = match required_value(json, "parameters") {
        Ok(parameters) => parameters,
        Err(error) => return Err(error),
    };
    let output_schema = match required_value(json, "output_schema") {
        Ok(output_schema) => output_schema,
        Err(error) => return Err(error),
    };
    Ok(ToolInterfaceSpec { name, description, parameters, output_schema })
}

/// A field that must be a [`ToolInterfaceSpec`].
pub open spec fn tool_interface_spec_field(
    json: JsonView,
    key: Seq<char>,
) -> Option<ToolInterfaceSpecView> {
    match member(json, key) {
        Some(value) => tool_interface_spec_of(value),
        None => None,
    }
}

/// Reads a field that must be a [`ToolInterfaceSpec`].
pub fn read_tool_interface_spec_field(
    json: &Json,
    key: &str,
) -> (r: core::result::Result<ToolInterfaceSpec, String>)
    ensures
        match r {
            Ok(value) => tool_interface_spec_field(json.deep_view(), key@)
                == Some(value.deep_view()),
            Err(_) => tool_interface_spec_field(json.deep_view(), key@) is None,
        },
{
    match json.get(key) {
        Some(value) => read_tool_interface_spec(value),
        None => Err(make_missing_field(key)),
    }
}

/// An [`AgentBuildRef`] as a document.
pub open spec fn agent_build_ref_json(value: AgentBuildRefView) -> JsonView {
    JsonView::Object(
        Map::<Seq<char>, JsonView>::empty().insert("id"@, JsonView::Text(value.id)),
    )
}

/// An [`AgentBuildRef`] as a document.
pub fn make_agent_build_ref(value: &AgentBuildRef) -> (r: Json)
    ensures
        r.deep_view() == agent_build_ref_json(value.deep_view()),
{
    Json::object(
        no_members().with("id", Json::text(value.id.as_str())),
    )
}

/// The text of an [`AgentBuildRef`], its fields in order.
pub open spec fn agent_build_ref_text(value: AgentBuildRefView) -> Seq<char> {
    object_text(
        seq![
            ("id"@, json_quoted(value.id)),
        ],
    )
}

/// The text of an [`AgentBuildRef`], its fields in order.
pub fn write_agent_build_ref(value: &AgentBuildRef) -> (r: String)
    ensures
        r@ == agent_build_ref_text(value.deep_view()),
{
    let writer = RecordWriter::new().field("id", quoted(value.id.as_str()).as_str());
    let ghost value = value.deep_view();
    assert(writer.fields() =~= seq![
        ("id"@, json_quoted(value.id)),
    ]);
    writer.finish()
}

/// The [`AgentBuildRef`] that a document is.
pub open spec fn agent_build_ref_of(
    json: JsonView,
) -> Option<AgentBuildRefView> {
    let json = fielded(json, seq!["id"@], 1);
    match required_text_of(json, "id"@) {
        None => None,
        Some(id) => Some(AgentBuildRefView { id }),
    }
}

/// Reads an [`AgentBuildRef`].
pub fn read_agent_build_ref(json: &Json) -> (r: core::result::Result<AgentBuildRef, String>)
    ensures
        match r {
            Ok(value) => agent_build_ref_of(json.deep_view())
                == Some(value.deep_view()),
            Err(_) => agent_build_ref_of(json.deep_view()) is None,
        },
{
    let names: Vec<&str> = vec!["id"];
    assert(names_of(names@) =~= seq!["id"@]);
    let json = &as_fields(json, &names, 1);
    let id = match required_text(json, "id") {
        Ok(id) => id,
        Err(error) => return Err(error),
    };
    Ok(AgentBuildRef { id })
}

/// A field that must be an [`AgentBuildRef`].
pub open spec fn agent_build_ref_field(
    json: JsonView,
    key: Seq<char>,
) -> Option<AgentBuildRefView> {
    match member(json, key) {
        Some(value) => agent_build_ref_of(value),
        None => None,
    }
}

/// Reads a field that must be an [`AgentBuildRef`].
pub fn read_agent_build_ref_field(
    json: &Json,
    key: &str,
) -> (r: core::result::Result<AgentBuildRef, String>)
    ensures
        match r {
            Ok(value) => agent_build_ref_field(json.deep_view(), key@)
                == Some(value.deep_view()),
            Err(_) => agent_build_ref_field(json.deep_view(), key@) is None,
        },
{
    match json.get(key) {
        Some(value) => read_agent_build_ref(value),
        None => Err(make_missing_field(key)),
    }
}

/// A [`ToolSpec`] as a document.
pub open spec fn tool_spec_json(value: ToolSpecView) -> JsonView {
    JsonView::Object(
        Map::<Seq<char>, JsonView>::empty()
            .insert("interface"@, tool_interface_spec_json(value.interface))
            .insert("configuration"@, value.configuration),
    )
}

/// A [`ToolSpec`] as a document.
pub fn make_tool_spec(value: &ToolSpec) -> (r: Json)
    ensures
        r.deep_view() == tool_spec_json(value.deep_view()),
{
    Json::object(
        no_members()
            .with("interface", make_tool_interface_spec(&value.interface))
            .with("configuration", value.configuration.replica()),
    )
}

/// The text of a [`ToolSpec`], its fields in order.
pub open spec fn tool_spec_text(value: ToolSpecView) -> Seq<char> {
    object_text(
        seq![
            ("interface"@, tool_interface_spec_text(value.interface)),
            ("configuration"@, compact(value.configuration)),
        ],
    )
}

/// The text of a [`ToolSpec`], its fields in order.
pub fn write_tool_spec(value: &ToolSpec) -> (r: String)
    ensures
        r@ == tool_spec_text(value.deep_view()),
{
    let writer = RecordWriter::new().field(
        "interface",
        write_tool_interface_spec(&value.interface).as_str(),
    ).field("configuration", value.configuration.to_text().as_str());
    let ghost value = value.deep_view();
    assert(writer.fields() =~= seq![
        ("interface"@, tool_interface_spec_text(value.interface)),
        ("configuration"@, compact(value.configuration)),
    ]);
    writer.finish()
}

/// The [`ToolSpec`] that a document is.
pub open spec fn tool_spec_of(json: JsonView) -> Option<ToolSpecView> {
    let json = fielded(json, seq!["interface"@, "configuration"@], 2);
    match tool_interface_spec_field(json, "interface"@) {
        None => None,
        Some(interface) =>
        match required_value_of(json, "configuration"@) {
            None => None,
            Some(configuration) => Some(ToolSpecView { interface, configuration }),
        },
    }
}

/// Reads a [`ToolSpec`].
pub fn read_tool_spec(json: &Json) -> (r: core::result::Result<ToolSpec, String>)
    ensures
        match r {
            Ok(value) => tool_spec_of(json.deep_view())
                == Some(value.deep_view()),
            Err(_) => tool_spec_of(json.deep_view()) is None,
        },
{
    let names: Vec<&str> = vec!["interface", "configuration"];
    assert(names_of(names@) =~= seq!["interface"@, "configuration"@]);
    let json = &as_fields(json, &names, 2);
    let interface = match read_tool_interface_spec_field(json, "interface") {
        Ok(interface) => interface,
        Err(error) => return Err(error),
    };
    let configuration = match required_value(json, "configuration") {
        Ok(configuration) => configuration,
        Err(error) => return Err(error),
    };
    Ok(ToolSpec { interface, configuration })
}

/// The tools of an agent as a document.
pub open spec fn tools_json(values: Map<Seq<char>, ToolSpecView>) -> JsonView {
    JsonView::Object(values.map_values(|value: ToolSpecView| tool_spec_json(value)))
}

/// The tools of an agent as a document.
pub fn make_tools(values: &TextMap<ToolSpec>) -> (r: Json)
    ensures
        r.deep_view() == tools_json(values.deep_view()),
{
    let ghost want = values.deep_view().map_values(|value: ToolSpecView| tool_spec_json(value));
    let mut members = no_members();
    let n: usize = values.walk();
    let ghost keys = values.keys();
    for i in 0..n
        invariant
            n == keys.len(),
            keys == values.keys(),
            forall|k: Seq<char>| #[trigger]
                members.deep_view().contains_key(k) <==> keys.take(i as int).contains(k),
            forall|j: int|
                0 <= j < i ==> members.deep_view()[#[trigger] keys[j]]
                    == tool_spec_json(values.deep_view()[keys[j]]),
    {
        let key = values.key_at(i);
        let value = values.value_at(i);
        let ghost before = members.deep_view();
        members = members.with(key.as_str(), make_tool_spec(value));
        proof {
            lemma_taken(keys, i as int, before.dom(), members.deep_view().dom());
        }
    }
    proof {
        assert(keys.take(n as int) =~= keys);
        assert(members.deep_view() =~= want) by {
            assert forall|k: Seq<char>| #[trigger]
                members.deep_view().contains_key(k) <==> want.contains_key(k) by {
                if want.contains_key(k) {
                    assert(values@.contains_key(k));
                    assert(keys.contains(k));
                }
                if keys.contains(k) {
                    let j = choose|j: int| 0 <= j < keys.len() && keys[j] == k;
                    assert(values@.contains_key(keys[j]));
                }
            }
            assert forall|k: Seq<char>| want.contains_key(k) implies members.deep_view()[k] == want[k] by {
                assert(values@.contains_key(k));
                assert(keys.contains(k));
                let j = choose|j: int| 0 <= j < keys.len() && keys[j] == k;
                assert(members.deep_view()[keys[j]] == want[k]);
            }
        }
    }
    Json::object(members)
}

/// The fields of the tools of an agent, in ascending order.
pub open spec fn tools_fields(values: Map<Seq<char>, ToolSpecView>) -> Seq<FieldText> {
    Seq::new(
        sorted_keys(values.dom()).len(),
        |i: int|
            (
                sorted_keys(values.dom())[i],
                tool_spec_text(values[sorted_keys(values.dom())[i]]),
            ),
    )
}

/// The text of the tools of an agent.
pub open spec fn tools_text(values: Map<Seq<char>, ToolSpecView>) -> Seq<char> {
    object_text(tools_fields(values))
}

/// The text of the tools of an agent.
pub fn write_tools(values: &TextMap<ToolSpec>) -> (r: String)
    ensures
        r@ == tools_text(values.deep_view()),
{
    let ghost want = tools_fields(values.deep_view());
    let n: usize = values.walk();
    assert(values.deep_view().dom() =~= values@.dom());
    let mut writer = RecordWriter::new();
    assert(writer.fields() =~= want.take(0));
    for i in 0..n
        invariant
            n == values.keys().len(),
            values.deep_view().dom() == values@.dom(),
            want == tools_fields(values.deep_view()),
            writer.fields() == want.take(i as int),
    {
        let value = values.value_at(i);
        let text = write_tool_spec(value);
        writer = writer.field(values.key_at(i).as_str(), text.as_str());
        assert(want[i as int] == (values.keys()[i as int], text@));
        assert(want.take(i + 1) =~= want.take(i as int).push(want[i as int]));
    }
    assert(want.take(n as int) =~= want);
    writer.finish()
}

/// The tools of an agent that a document holds under a key.
pub open spec fn tools_field(
    json: JsonView,
    key: Seq<char>,
) -> Option<Map<Seq<char>, ToolSpecView>> {
    match member(json, key) {
        Some(JsonView::Object(members)) => if forall|k: Seq<char>| #[trigger]
            members.contains_key(k) ==> tool_spec_of(members[k]) is Some {
            Some(members.map_values(|value: JsonView| tool_spec_of(value)->Some_0))
        } else {
            None
        },
        _ => None,
    }
}

/// Reads the tools of an agent.
pub fn read_tools_field(
    json: &Json,
    key: &str,
) -> (r: core::result::Result<TextMap<ToolSpec>, String>)
    ensures
        match r {
            Ok(value) => tools_field(json.deep_view(), key@)
                == Some(value.deep_view()),
            Err(_) => tools_field(json.deep_view(), key@) is None,
        },
{
    let members = match json.get(key) {
        Some(Json::Object(members)) => members,
        Some(_) => return Err(make_wrong_field(key, "an object")),
        None => return Err(make_missing_field(key)),
    };
    let ghost views = members.deep_view();
    proof {
        lemma_object_view(*members);
        assert(views.dom() =~= members@.dom());
    }
    let mut values: TextMap<ToolSpec> = TextMap::new();
    let n: usize = members.walk();
    let ghost keys = members.keys();
    for i in 0..n
        invariant
            n == keys.len(),
            keys == members.keys(),
            views == members.deep_view(),
            views.dom() == members@.dom(),
            member(json.deep_view(), key@) == Some(JsonView::Object(views)),
            ascending(keys),
            forall|k: Seq<char>| #[trigger]
                values.deep_view().contains_key(k) <==> keys.take(i as int).contains(k),
            forall|j: int| 0 <= j < i ==> (tool_spec_of(views[#[trigger] keys[j]])) is Some,
            forall|j: int|
                0 <= j < i ==> values.deep_view()[#[trigger] keys[j]]
                    == tool_spec_of(views[keys[j]])->Some_0,
    {
        let name = members.key_at(i);
        match read_tool_spec(members.value_at(i)) {
            Ok(value) => {
                let ghost before = values.deep_view();
                values = values.with(name.as_str(), value);
                proof {
                    lemma_taken(keys, i as int, before.dom(), values.deep_view().dom());
                    assert forall|j: int| 0 <= j < i + 1 implies values.deep_view()[#[trigger] keys[j]]
                        == tool_spec_of(views[keys[j]])->Some_0 by {
                        if j < i {
                            lemma_text_less_irreflexive(keys[j]);
                        }
                    }
                }
            },
            Err(error) => {
                assert(views.contains_key(keys[i as int]));
                return Err(error);
            },
        }
    }
    proof {
        assert(keys.take(n as int) =~= keys);
        assert forall|k: Seq<char>| #[trigger] views.contains_key(k) implies tool_spec_of(views[k]) is Some
            && values.deep_view().contains_key(k)
                && values.deep_view()[k] == tool_spec_of(views[k])->Some_0 by {
            assert(members@.contains_key(k));
            assert(keys.contains(k));
            let j = choose|j: int| 0 <= j < keys.len() && keys[j] == k;
            assert(keys[j] == k);
        }
        assert forall|k: Seq<char>| values.deep_view().contains_key(k) implies views.contains_key(k) by {
            let j = choose|j: int| 0 <= j < keys.len() && keys[j] == k;
            assert(members@.contains_key(keys[j]));
        }
        assert(values.deep_view() =~= views.map_values(|value: JsonView| tool_spec_of(value)->Some_0));
    }
    Ok(values)
}

/// A [`TurnExecutionLimitsSpec`] as a document.
pub open spec fn turn_execution_limits_spec_json(value: TurnExecutionLimitsSpec) -> JsonView {
    JsonView::Object(
        Map::<Seq<char>, JsonView>::empty()
            .insert(
                "max_model_iterations"@,
                JsonView::Number(NumberView::Unsigned(value.max_model_iterations as u64)),
            )
            .insert(
                "max_function_calls"@,
                JsonView::Number(NumberView::Unsigned(value.max_function_calls as u64)),
            ),
    )
}

/// A [`TurnExecutionLimitsSpec`] as a document.
pub fn make_turn_execution_limits_spec(value: &TurnExecutionLimitsSpec) -> (r: Json)
    ensures
        r.deep_view() == turn_execution_limits_spec_json(value.deep_view()),
{
    Json::object(
        no_members()
            .with("max_model_iterations", make_count(value.max_model_iterations))
            .with("max_function_calls", make_count(value.max_function_calls)),
    )
}

/// The text of a [`TurnExecutionLimitsSpec`], its fields in order.
pub open spec fn turn_execution_limits_spec_text(value: TurnExecutionLimitsSpec) -> Seq<char> {
    object_text(
        seq![
            ("max_model_iterations"@, decimal(value.max_model_iterations as nat)),
            ("max_function_calls"@, decimal(value.max_function_calls as nat)),
        ],
    )
}

/// The text of a [`TurnExecutionLimitsSpec`], its fields in order.
pub fn write_turn_execution_limits_spec(value: &TurnExecutionLimitsSpec) -> (r: String)
    ensures
        r@ == turn_execution_limits_spec_text(value.deep_view()),
{
    let writer = RecordWriter::new().field(
        "max_model_iterations",
        decimal_text(value.max_model_iterations as u128).as_str(),
    ).field("max_function_calls", decimal_text(value.max_function_calls as u128).as_str());
    let ghost value = value.deep_view();
    assert(writer.fields() =~= seq![
        ("max_model_iterations"@, decimal(value.max_model_iterations as nat)),
        ("max_function_calls"@, decimal(value.max_function_calls as nat)),
    ]);
    writer.finish()
}

/// The [`TurnExecutionLimitsSpec`] that a document is.
pub open spec fn turn_execution_limits_spec_of(
    json: JsonView,
) -> Option<TurnExecutionLimitsSpec> {
    let json = fielded(json, seq!["max_model_iterations"@, "max_function_calls"@], 2);
    match required_count_of(json, "max_model_iterations"@) {
        None => None,
        Some(max_model_iterations) =>
        match required_count_of(json, "max_function_calls"@) {
            None => None,
            Some(max_function_calls) => Some(
                TurnExecutionLimitsSpec { max_model_iterations, max_function_calls },
            ),
        },
    }
}

/// Reads a [`TurnExecutionLimitsSpec`].
pub fn read_turn_execution_limits_spec(
    json: &Json,
) -> (r: core::result::Result<TurnExecutionLimitsSpec, String>)
    ensures
        match r {
            Ok(value) => turn_execution_limits_spec_of(json.deep_view())
                == Some(value.deep_view()),
            Err(_) => turn_execution_limits_spec_of(json.deep_view()) is None,
        },
{
    let names: Vec<&str> = vec!["max_model_iterations", "max_function_calls"];
    assert(names_of(names@) =~= seq!["max_model_iterations"@, "max_function_calls"@]);
    let json = &as_fields(json, &names, 2);
    let max_model_iterations = match required_count(json, "max_model_iterations") {
        Ok(max_model_iterations) => max_model_iterations,
        Err(error) => return Err(error),
    };
    let max_function_calls = match required_count(json, "max_function_calls") {
        Ok(max_function_calls) => max_function_calls,
        Err(error) => return Err(error),
    };
    Ok(TurnExecutionLimitsSpec { max_model_iterations, max_function_calls })
}

/// A field that must be a [`TurnExecutionLimitsSpec`].
pub open spec fn turn_execution_limits_spec_field(
    json: JsonView,
    key: Seq<char>,
) -> Option<TurnExecutionLimitsSpec> {
    match member(json, key) {
        Some(value) => turn_execution_limits_spec_of(value),
        None => None,
    }
}

/// Reads a field that must be a [`TurnExecutionLimitsSpec`].
pub fn read_turn_execution_limits_spec_field(
    json: &Json,
    key: &str,
) -> (r: core::result::Result<TurnExecutionLimitsSpec, String>)
    ensures
        match r {
            Ok(value) => turn_execution_limits_spec_field(json.deep_view(), key@)
                == Some(value.deep_view()),
            Err(_) => turn_execution_limits_spec_field(json.deep_view(), key@) is None,
        },
{
    match json.get(key) {
        Some(value) => read_turn_execution_limits_spec(value),
        None => Err(make_missing_field(key)),
    }
}

/// The hooks of a runtime as a document.
pub open spec fn hooks_json(values: Seq<ComponentRefView>) -> JsonView {
    JsonView::Array(values.map_values(|value: ComponentRefView| component_ref_json(value)))
}

/// The hooks of a runtime as a document.
pub fn make_hooks(values: &Vec<ComponentRef>) -> (r: Json)
    ensures
        r.deep_view() == hooks_json(values.deep_view()),
{
    let ghost want = values.deep_view().map_values(
        |value: ComponentRefView| component_ref_json(value),
    );
    let mut items: Vec<Json> = Vec::new();
    assert(items.deep_view() =~= want.take(0));
    for i in 0..values.len()
        invariant
            want == values.deep_view().map_values(
                |value: ComponentRefView| component_ref_json(value),
            ),
            items.deep_view() == want.take(i as int),
    {
        let ghost before = items.deep_view();
        let item = make_component_ref(&values[i]);
        items.push(item);
        assert(items.deep_view() =~= before.push(item.deep_view()));
        assert(want[i as int] == item.deep_view());
        assert(want.take(i + 1) =~= want.take(i as int).push(want[i as int]));
    }
    assert(want.take(values.len() as int) =~= want);
    Json::array(items)
}

/// The text of the hooks of a runtime.
pub open spec fn hooks_text(values: Seq<ComponentRefView>) -> Seq<char> {
    array_text(values.map_values(|value: ComponentRefView| component_ref_text(value)))
}

/// The text of the hooks of a runtime.
pub fn write_hooks(values: &Vec<ComponentRef>) -> (r: String)
    ensures
        r@ == hooks_text(values.deep_view()),
{
    let ghost want = values.deep_view().map_values(
        |value: ComponentRefView| component_ref_text(value),
    );
    let mut writer = ListWriter::new();
    assert(writer.items() =~= want.take(0));
    for i in 0..values.len()
        invariant
            want == values.deep_view().map_values(
                |value: ComponentRefView| component_ref_text(value),
            ),
            writer.items() == want.take(i as int),
    {
        let text = write_component_ref(&values[i]);
        writer = writer.item(text.as_str());
        assert(want[i as int] == text@);
        assert(want.take(i + 1) =~= want.take(i as int).push(want[i as int]));
    }
    assert(want.take(values.len() as int) =~= want);
    writer.finish()
}

/// The hooks of a runtime that a document holds under a key.
pub open spec fn hooks_field(
    json: JsonView,
    key: Seq<char>,
) -> Option<Seq<ComponentRefView>> {
    match member(json, key) {
        Some(JsonView::Array(items)) => if forall|i: int| 0 <= i < items.len() ==> (#[trigger] component_ref_of(items[i])) is Some {
            Some(Seq::new(items.len(), |i: int| component_ref_of(items[i])->Some_0))
        } else {
            None
        },
        _ => None,
    }
}

/// Reads the hooks of a runtime.
pub fn read_hooks_field(
    json: &Json,
    key: &str,
) -> (r: core::result::Result<Vec<ComponentRef>, String>)
    ensures
        match r {
            Ok(value) => hooks_field(json.deep_view(), key@)
                == Some(value.deep_view()),
            Err(_) => hooks_field(json.deep_view(), key@) is None,
        },
{
    let items = match json.get(key) {
        Some(value) => match value.as_array() {
            Some(items) => items,
            None => return Err(make_wrong_field(key, "a list")),
        },
        None => return Err(make_missing_field(key)),
    };
    let ghost views = items.deep_view();
    let mut values: Vec<ComponentRef> = Vec::new();
    for i in 0..items.len()
        invariant
            views == items.deep_view(),
            member(json.deep_view(), key@) == Some(JsonView::Array(views)),
            values@.len() == i,
            forall|j: int| 0 <= j < i ==> (#[trigger] component_ref_of(views[j])) is Some,
            forall|j: int|
                0 <= j < i ==> (#[trigger] values@[j]).deep_view()
                    == component_ref_of(views[j])->Some_0,
    {
        match read_component_ref(&items[i]) {
            Ok(value) => {
                values.push(value);
            },
            Err(error) => {
                assert(component_ref_of(views[i as int]) is None);
                return Err(error);
            },
        }
    }
    assert(values.deep_view() =~= Seq::new(views.len(), |i: int| component_ref_of(views[i])->Some_0));
    Ok(values)
}

/// A [`RuntimePolicySpec`] as a document.
pub open spec fn runtime_policy_spec_json(value: RuntimePolicySpecView) -> JsonView {
    JsonView::Object(
        Map::<Seq<char>, JsonView>::empty()
            .insert("context_builder"@, component_ref_json(value.context_builder))
            .insert("hooks"@, hooks_json(value.hooks))
            .insert(
                "turn_execution_limits"@,
                turn_execution_limits_spec_json(value.turn_execution_limits),
            ),
    )
}

/// A [`RuntimePolicySpec`] as a document.
pub fn make_runtime_policy_spec(value: &RuntimePolicySpec) -> (r: Json)
    ensures
        r.deep_view() == runtime_policy_spec_json(value.deep_view()),
{
    Json::object(
        no_members()
            .with("context_builder", make_component_ref(&value.context_builder))
            .with("hooks", make_hooks(&value.hooks))
            .with(
                "turn_execution_limits",
                make_turn_execution_limits_spec(&value.turn_execution_limits),
            ),
    )
}

/// The text of a [`RuntimePolicySpec`], its fields in order.
pub open spec fn runtime_policy_spec_text(value: RuntimePolicySpecView) -> Seq<char> {
    object_text(
        seq![
            ("context_builder"@, component_ref_text(value.context_builder)),
            ("hooks"@, hooks_text(value.hooks)),
            ("turn_execution_limits"@, turn_execution_limits_spec_text(value.turn_execution_limits)),
        ],
    )
}

/// The text of a [`RuntimePolicySpec`], its fields in order.
pub fn write_runtime_policy_spec(value: &RuntimePolicySpec) -> (r: String)
    ensures
        r@ == runtime_policy_spec_text(value.deep_view()),
{
    let writer = RecordWriter::new().field(
        "context_builder",
        write_component_ref(&value.context_builder).as_str(),
    ).field("hooks", write_hooks(&value.hooks).as_str()).field(
        "turn_execution_limits",
        write_turn_execution_limits_spec(&value.turn_execution_limits).as_str(),
    );
    let ghost value = value.deep_view();
    assert(writer.fields() =~= seq![
        ("context_builder"@, component_ref_text(value.context_builder)),
        ("hooks"@, hooks_text(value.hooks)),
        ("turn_execution_limits"@, turn_execution_limits_spec_text(value.turn_execution_limits)),
    ]);
    writer.finish()
}

/// The [`RuntimePolicySpec`] that a document is.
pub open spec fn runtime_policy_spec_of(
    json: JsonView,
) -> Option<RuntimePolicySpecView> {
    let json = fielded(json, seq!["context_builder"@, "hooks"@, "turn_execution_limits"@], 3);
    match component_ref_field(json, "context_builder"@) {
        None => None,
        Some(context_builder) =>
        match hooks_field(json, "hooks"@) {
            None => None,
            Some(hooks) =>
            match turn_execution_limits_spec_field(json, "turn_execution_limits"@) {
                None => None,
                Some(turn_execution_limits) => Some(
                    RuntimePolicySpecView { context_builder, hooks, turn_execution_limits },
                ),
            },
        },
    }
}

/// Reads a [`RuntimePolicySpec`].
pub fn read_runtime_policy_spec(json: &Json) -> (r: core::result::Result<RuntimePolicySpec, String>)
    ensures
        match r {
            Ok(value) => runtime_policy_spec_of(json.deep_view())
                == Some(value.deep_view()),
            Err(_) => runtime_policy_spec_of(json.deep_view()) is None,
        },
{
    let names: Vec<&str> = vec!["context_builder", "hooks", "turn_execution_limits"];
    assert(names_of(names@) =~= seq!["context_builder"@, "hooks"@, "turn_execution_limits"@]);
    let json = &as_fields(json, &names, 3);
    let context_builder = match read_component_ref_field(json, "context_builder") {
        Ok(context_builder) => context_builder,
        Err(error) => return Err(error),
    };
    let hooks = match read_hooks_field(json, "hooks") {
        Ok(hooks) => hooks,
        Err(error) => return Err(error),
    };
    let turn_execution_limits = match read_turn_execution_limits_spec_field(
        json,
        "turn_execution_limits",
    ) {
        Ok(turn_execution_limits) => turn_execution_limits,
        Err(error) => return Err(error),
    };
    Ok(RuntimePolicySpec { context_builder, hooks, turn_execution_limits })
}

/// A field that must be a [`RuntimePolicySpec`].
pub open spec fn runtime_policy_spec_field(
    json: JsonView,
    key: Seq<char>,
) -> Option<RuntimePolicySpecView> {
    match member(json, key) {
        Some(value) => runtime_policy_spec_of(value),
        None => None,
    }
}

/// Reads a field that must be a [`RuntimePolicySpec`].
pub fn read_runtime_policy_spec_field(
    json: &Json,
    key: &str,
) -> (r: core::result::Result<RuntimePolicySpec, String>)
    ensures
        match r {
            Ok(value) => runtime_policy_spec_field(json.deep_view(), key@)
                == Some(value.deep_view()),
            Err(_) => runtime_policy_spec_field(json.deep_view(), key@) is None,
        },
{
    match json.get(key) {
        Some(value) => read_runtime_policy_spec(value),
        None => Err(make_missing_field(key)),
    }
}

/// An [`AgentSpec`] as a document.
pub open spec fn agent_spec_json(value: AgentSpecView) -> JsonView {
    JsonView::Object(
        Map::<Seq<char>, JsonView>::empty()
            .insert("agent_id"@, JsonView::Text(value.agent_id))
            .insert("model"@, model_spec_json(value.model))
            .insert("prompts"@, prompt_spec_json(value.prompts))
            .insert("tools"@, tools_json(value.tools))
            .insert("runtime"@, runtime_policy_spec_json(value.runtime))
            .insert("build"@, agent_build_ref_json(value.build)),
    )
}

/// An [`AgentSpec`] as a document.
pub fn make_agent_spec(value: &AgentSpec) -> (r: Json)
    ensures
        r.deep_view() == agent_spec_json(value.deep_view()),
{
    Json::object(
        no_members()
            .with("agent_id", Json::text(value.agent_id.0.as_str()))
            .with("model", make_model_spec(&value.model))
            .with("prompts", make_prompt_spec(&value.prompts))
            .with("tools", make_tools(&value.tools))
            .with("runtime", make_runtime_policy_spec(&value.runtime))
            .with("build", make_agent_build_ref(&value.build)),
    )
}

/// The text of an [`AgentSpec`], its fields in order.
pub open spec fn agent_spec_text(value: AgentSpecView) -> Seq<char> {
    object_text(
        seq![
            ("agent_id"@, json_quoted(value.agent_id)),
            ("model"@, model_spec_text(value.model)),
            ("prompts"@, prompt_spec_text(value.prompts)),
            ("tools"@, tools_text(value.tools)),
            ("runtime"@, runtime_policy_spec_text(value.runtime)),
            ("build"@, agent_build_ref_text(value.build)),
        ],
    )
}

/// The text of an [`AgentSpec`], its fields in order.
pub fn write_agent_spec(value: &AgentSpec) -> (r: String)
    ensures
        r@ == agent_spec_text(value.deep_view()),
{
    let writer = RecordWriter::new().field(
        "agent_id",
        quoted(value.agent_id.0.as_str()).as_str(),
    ).field("model", write_model_spec(&value.model).as_str()).field("prompts", write_prompt_spec(
        &value.prompts,
    ).as_str()).field("tools", write_tools(&value.tools).as_str()).field(
        "runtime",
        write_runtime_policy_spec(&value.runtime).as_str(),
    ).field("build", write_agent_build_ref(&value.build).as_str());
    let ghost value = value.deep_view();
    assert(writer.fields() =~= seq![
        ("agent_id"@, json_quoted(value.agent_id)),
        ("model"@, model_spec_text(value.model)),
        ("prompts"@, prompt_spec_text(value.prompts)),
        ("tools"@, tools_text(value.tools)),
        ("runtime"@, runtime_policy_spec_text(value.runtime)),
        ("build"@, agent_build_ref_text(value.build)),
    ]);
    writer.finish()
}

/// The [`AgentSpec`] that a document is.
pub open spec fn agent_spec_of(json: JsonView) -> Option<AgentSpecView> {
    let json = fielded(
        json,
        seq!["agent_id"@, "model"@, "prompts"@, "tools"@, "runtime"@, "build"@],
        6,
    );
    match required_text_of(json, "agent_id"@) {
        None => None,
        Some(agent_id) =>
        match model_spec_field(json, "model"@) {
            None => None,
            Some(model) =>
            match prompt_spec_field(json, "prompts"@) {
                None => None,
                Some(prompts) =>
                match tools_field(json, "tools"@) {
                    None => None,
                    Some(tools) =>
                    match runtime_policy_spec_field(json, "runtime"@) {
                        None => None,
                        Some(runtime) =>
                        match agent_build_ref_field(json, "build"@) {
                            None => None,
                            Some(build) => Some(
                                AgentSpecView { agent_id, model, prompts, tools, runtime, build },
                            ),
                        },
                    },
                },
            },
        },
    }
}

/// Reads an [`AgentSpec`].
pub fn read_agent_spec(json: &Json) -> (r: core::result::Result<AgentSpec, String>)
    ensures
        match r {
            Ok(value) => agent_spec_of(json.deep_view())
                == Some(value.deep_view()),
            Err(_) => agent_spec_of(json.deep_view()) is None,
        },
{
    let names: Vec<&str> = vec!["agent_id", "model", "prompts", "tools", "runtime", "build"];
    assert(names_of(names@) =~= seq!["agent_id"@, "model"@, "prompts"@, "tools"@, "runtime"@, "build"@]);
    let json = &as_fields(json, &names, 6);
    let agent_id = match required_text(json, "agent_id") {
        Ok(agent_id) => AgentId(agent_id),
        Err(error) => return Err(error),
    };
    let model = match read_model_spec_field(json, "model") {
        Ok(model) => model,
        Err(error) => return Err(error),
    };
    let prompts = match read_prompt_spec_field(json, "prompts") {
        Ok(prompts) => prompts,
        Err(error) => return Err(error),
    };
    let tools = match read_tools_field(json, "tools") {
        Ok(tools) => tools,
        Err(error) => return Err(error),
    };
    let runtime = match read_runtime_policy_spec_field(json, "runtime") {
        Ok(runtime) => runtime,
        Err(error) => return Err(error),
    };
    let build = match read_agent_build_ref_field(json, "build") {
        Ok(build) => build,
        Err(error) => return Err(error),
    };
    Ok(AgentSpec { agent_id, model, prompts, tools, runtime, build })
}

/// A field that must be an [`AgentSpec`].
pub open spec fn agent_spec_field(
    json: JsonView,
    key: Seq<char>,
) -> Option<AgentSpecView> {
    match member(json, key) {
        Some(value) => agent_spec_of(value),
        None => None,
    }
}

/// Reads a field that must be an [`AgentSpec`].
pub fn read_agent_spec_field(json: &Json, key: &str) -> (r: core::result::Result<AgentSpec, String>)
    ensures
        match r {
            Ok(value) => agent_spec_field(json.deep_view(), key@)
                == Some(value.deep_view()),
            Err(_) => agent_spec_field(json.deep_view(), key@) is None,
        },
{
    match json.get(key) {
        Some(value) => read_agent_spec(value),
        None => Err(make_missing_field(key)),
    }
}

/// Reading the document of a [`ComponentRef`] gives it back.
pub proof fn law_component_ref_is_read_back(value: ComponentRefView)
    ensures
        component_ref_of(component_ref_json(value)) == Some(value),
{
    reveal_strlit("fqn");
    reveal_strlit("configuration");
    assert("fqn"@.len() != "configuration"@.len());
    assert(component_ref_of(component_ref_json(value))->Some_0 =~= value);
}

/// Reading the document of a [`ModelSpec`] gives it back.
pub proof fn law_model_spec_is_read_back(value: ModelSpecView)
    ensures
        model_spec_of(model_spec_json(value)) == Some(value),
{
    reveal_strlit("fqn");
    reveal_strlit("settings");
    assert("fqn"@.len() != "settings"@.len());
    assert(model_spec_of(model_spec_json(value))->Some_0 =~= value);
}

/// Reading the map under a key gives it back.
pub proof fn lemma_templates_are_read_back(
    json: JsonView,
    key: Seq<char>,
    values: Map<Seq<char>, Seq<char>>,
)
    requires
        member(json, key) == Some(templates_json(values)),
    ensures
        templates_field(json, key) == Some(values),
{
    let members = templates_json(values)->Object_0;
    assert forall|k: Seq<char>| #[trigger] members.contains_key(k) implies text_item_of(members[k]) == Some(values[k]) by {
    }
    assert(templates_field(json, key)->Some_0 =~= values);
}

/// Reading the document of a [`PromptSpec`] gives it back.
pub proof fn law_prompt_spec_is_read_back(value: PromptSpecView)
    ensures
        prompt_spec_of(prompt_spec_json(value)) == Some(value),
{
    reveal_strlit("system");
    reveal_strlit("templates");
    assert("system"@.len() != "templates"@.len());
    lemma_templates_are_read_back(prompt_spec_json(value), "templates"@, value.templates);
    assert(prompt_spec_of(prompt_spec_json(value))->Some_0 =~= value);
}

/// Reading the document of a [`ToolInterfaceSpec`] gives it back.
pub proof fn law_tool_interface_spec_is_read_back(value: ToolInterfaceSpecView)
    ensures
        tool_interface_spec_of(tool_interface_spec_json(value))
            == Some(value),
{
    reveal_strlit("name");
    reveal_strlit("description");
    reveal_strlit("parameters");
    reveal_strlit("output_schema");
    assert("name"@.len() != "description"@.len());
    assert("name"@.len() != "parameters"@.len());
    assert("description"@.len() != "parameters"@.len());
    assert("name"@.len() != "output_schema"@.len());
    assert("description"@.len() != "output_schema"@.len());
    assert("parameters"@.len() != "output_schema"@.len());
    assert(tool_interface_spec_of(tool_interface_spec_json(value))->Some_0 =~= value);
}

/// Reading the document of an [`AgentBuildRef`] gives it back.
pub proof fn law_agent_build_ref_is_read_back(value: AgentBuildRefView)
    ensures
        agent_build_ref_of(agent_build_ref_json(value))
            == Some(value),
{
    reveal_strlit("id");
    assert(agent_build_ref_of(agent_build_ref_json(value))->Some_0 =~= value);
}

/// Reading the document of a [`ToolSpec`] gives it back.
pub proof fn law_tool_spec_is_read_back(value: ToolSpecView)
    ensures
        tool_spec_of(tool_spec_json(value)) == Some(value),
{
    reveal_strlit("interface");
    reveal_strlit("configuration");
    assert("interface"@.len() != "configuration"@.len());
    law_tool_interface_spec_is_read_back(value.interface);
    assert(tool_spec_of(tool_spec_json(value))->Some_0 =~= value);
}

/// Reading the map under a key gives it back.
pub proof fn lemma_tools_are_read_back(
    json: JsonView,
    key: Seq<char>,
    values: Map<Seq<char>, ToolSpecView>,
)
    requires
        member(json, key) == Some(tools_json(values)),
    ensures
        tools_field(json, key) == Some(values),
{
    let members = tools_json(values)->Object_0;
    assert forall|k: Seq<char>| #[trigger] members.contains_key(k) implies tool_spec_of(members[k]) == Some(values[k]) by {
        law_tool_spec_is_read_back(values[k]);
    }
    assert(tools_field(json, key)->Some_0 =~= values);
}

/// Reading the document of a [`TurnExecutionLimitsSpec`] gives it back.
pub proof fn law_turn_execution_limits_spec_is_read_back(value: TurnExecutionLimitsSpec)
    ensures
        turn_execution_limits_spec_of(turn_execution_limits_spec_json(value))
            == Some(value),
{
    reveal_strlit("max_model_iterations");
    reveal_strlit("max_function_calls");
    assert("max_model_iterations"@.len() != "max_function_calls"@.len());
    assert(turn_execution_limits_spec_of(turn_execution_limits_spec_json(value))->Some_0 =~= value);
}

/// Reading the list under a key gives it back.
pub proof fn lemma_hooks_are_read_back(
    json: JsonView,
    key: Seq<char>,
    values: Seq<ComponentRefView>,
)
    requires
        member(json, key) == Some(hooks_json(values)),
    ensures
        hooks_field(json, key) == Some(values),
{
    let items = hooks_json(values)->Array_0;
    assert forall|i: int| 0 <= i < items.len() implies (#[trigger] component_ref_of(items[i])) == Some(values[i]) by {
        law_component_ref_is_read_back(values[i]);
    }
    assert(hooks_field(json, key)->Some_0 =~= values);
}

/// Reading the document of a [`RuntimePolicySpec`] gives it back.
pub proof fn law_runtime_policy_spec_is_read_back(value: RuntimePolicySpecView)
    ensures
        runtime_policy_spec_of(runtime_policy_spec_json(value))
            == Some(value),
{
    reveal_strlit("context_builder");
    reveal_strlit("hooks");
    reveal_strlit("turn_execution_limits");
    assert("context_builder"@.len() != "hooks"@.len());
    assert("context_builder"@.len() != "turn_execution_limits"@.len());
    assert("hooks"@.len() != "turn_execution_limits"@.len());
    law_component_ref_is_read_back(value.context_builder);
    lemma_hooks_are_read_back(runtime_policy_spec_json(value), "hooks"@, value.hooks);
    law_turn_execution_limits_spec_is_read_back(value.turn_execution_limits);
    assert(runtime_policy_spec_of(runtime_policy_spec_json(value))->Some_0 =~= value);
}

/// Reading the document of an [`AgentSpec`] gives it back.
pub proof fn law_agent_spec_is_read_back(value: AgentSpecView)
    ensures
        agent_spec_of(agent_spec_json(value)) == Some(value),
{
    reveal_strlit("agent_id");
    reveal_strlit("model");
    reveal_strlit("prompts");
    reveal_strlit("tools");
    reveal_strlit("runtime");
    reveal_strlit("build");
    assert("agent_id"@.len() != "model"@.len());
    assert("agent_id"@.len() != "prompts"@.len());
    assert("model"@.len() != "prompts"@.len());
    assert("agent_id"@.len() != "tools"@.len());
    assert("model"@[0] != "tools"@[0]);
    assert("prompts"@.len() != "tools"@.len());
    assert("agent_id"@.len() != "runtime"@.len());
    assert("model"@.len() != "runtime"@.len());
    assert("prompts"@[0] != "runtime"@[0]);
    assert("tools"@.len() != "runtime"@.len());
    assert("agent_id"@.len() != "build"@.len());
    assert("model"@[0] != "build"@[0]);
    assert("prompts"@.len() != "build"@.len());
    assert("tools"@[0] != "build"@[0]);
    assert("runtime"@.len() != "build"@.len());
    law_model_spec_is_read_back(value.model);
    law_prompt_spec_is_read_back(value.prompts);
    lemma_tools_are_read_back(agent_spec_json(value), "tools"@, value.tools);
    law_runtime_policy_spec_is_read_back(value.runtime);
    law_agent_build_ref_is_read_back(value.build);
    assert(agent_spec_of(agent_spec_json(value))->Some_0 =~= value);
}

} // verus!
