//! The settings of the desktop application, and what it shows of a turn.

use crate::codec::{required_count, required_count_of};
use crate::document::{is_read_as, json_document, JsonErrorView};
use crate::fields::{as_fields, fielded, names_of, required_text, required_text_of};
use crate::json::{
    json_quoted, member, no_members, quoted, text_member, Json, JsonView, NumberView,
};
use crate::kernel::events::{RevisionToken, Thread, ThreadView, TokenUsage};
use crate::kernel::records::{
    function_calls_json, make_function_calls, make_suspension, make_token_usage, suspension_json,
    token_usage_json,
};
use crate::prune::{document_read, read_document};
use crate::runtime::turn::{
    TurnModelEvent, TurnModelEventView, TurnOutcome, TurnOutcomeView, TurnStateEvent,
    TurnStateEventView, TurnStreamEvent, TurnStreamEventView,
};
use crate::same::{Replica, Same};
use crate::shape::{is_unambiguous, unambiguous, Shape};
use crate::spelling::{
    depth_limit, laid_out, laid_out_fields, lemma_no_fields, lemma_one_more, meant, Spelling,
};
use crate::text::{blank, decimal_text, is_blank, join, lemma_join_push};
use crate::tools::path::{absolute, is_absolute};
use crate::written::law_written_settings_are_unambiguous;
use vstd::prelude::*;

verus! {

/// The settings of the desktop application.
#[derive(Debug, PartialEq, Eq)]
pub struct DesktopConfig {
    pub base_url: String,
    pub model: String,
    pub api_key: String,
    pub qianfan_api_key: String,
    pub workspace: String,
    pub max_context_tokens: usize,
    pub max_model_iterations: usize,
}

/// What a [`DesktopConfig`] holds.
#[verifier::ext_equal]
pub struct DesktopConfigView {
    pub base_url: Seq<char>,
    pub model: Seq<char>,
    pub api_key: Seq<char>,
    pub qianfan_api_key: Seq<char>,
    pub workspace: Seq<char>,
    pub max_context_tokens: usize,
    pub max_model_iterations: usize,
}

impl DeepView for DesktopConfig {
    type V = DesktopConfigView;

    open spec fn deep_view(&self) -> Self::V {
        DesktopConfigView {
            base_url: self.base_url.deep_view(),
            model: self.model.deep_view(),
            api_key: self.api_key.deep_view(),
            qianfan_api_key: self.qianfan_api_key.deep_view(),
            workspace: self.workspace.deep_view(),
            max_context_tokens: self.max_context_tokens.deep_view(),
            max_model_iterations: self.max_model_iterations.deep_view(),
        }
    }
}

impl Replica for DesktopConfig {
    fn replica(&self) -> (r: Self) {
        DesktopConfig {
            base_url: self.base_url.replica(),
            model: self.model.replica(),
            api_key: self.api_key.replica(),
            qianfan_api_key: self.qianfan_api_key.replica(),
            workspace: self.workspace.replica(),
            max_context_tokens: self.max_context_tokens.replica(),
            max_model_iterations: self.max_model_iterations.replica(),
        }
    }
}

impl Clone for DesktopConfig {
    fn clone(&self) -> (r: Self)
        ensures
            r.deep_view() == self.deep_view(),
    {
        self.replica()
    }
}

impl Same for DesktopConfig {
    fn same(&self, other: &Self) -> (r: bool) {
        self.base_url.same(&other.base_url)
            && self.model.same(&other.model)
            && self.api_key.same(&other.api_key)
            && self.qianfan_api_key.same(&other.qianfan_api_key)
            && self.workspace.same(&other.workspace)
            && self.max_context_tokens.same(&other.max_context_tokens)
            && self.max_model_iterations.same(&other.max_model_iterations)
    }
}

/// How much context a model is given unless another size is set.
pub const DEFAULT_MAX_CONTEXT_TOKENS: usize = 262_144;

/// How often a model is asked in a turn unless another number is set.
pub const DEFAULT_MAX_MODEL_ITERATIONS: usize = 1_024;

/// The settings before any are made.
pub open spec fn default_config() -> DesktopConfigView {
    DesktopConfigView {
        base_url: Seq::empty(),
        model: Seq::empty(),
        api_key: Seq::empty(),
        qianfan_api_key: Seq::empty(),
        workspace: Seq::empty(),
        max_context_tokens: DEFAULT_MAX_CONTEXT_TOKENS,
        max_model_iterations: DEFAULT_MAX_MODEL_ITERATIONS,
    }
}

impl Default for DesktopConfig {
    fn default() -> (r: Self)
        ensures
            r.deep_view() == default_config(),
    {
        let r = DesktopConfig {
            base_url: String::new(),
            model: String::new(),
            api_key: String::new(),
            qianfan_api_key: String::new(),
            workspace: String::new(),
            max_context_tokens: DEFAULT_MAX_CONTEXT_TOKENS,
            max_model_iterations: DEFAULT_MAX_MODEL_ITERATIONS,
        };
        assert(r.deep_view() =~= default_config());
        r
    }
}

/// A text setting; one that is left out is empty.
pub open spec fn text_setting(json: JsonView, key: Seq<char>) -> Option<Seq<char>> {
    match member(json, key) {
        None => Some(Seq::empty()),
        Some(_) => required_text_of(json, key),
    }
}

fn read_text_setting(json: &Json, key: &str) -> (r: core::result::Result<String, String>)
    ensures
        match r {
            Ok(value) => text_setting(json.deep_view(), key@) == Some(value@),
            Err(_) => text_setting(json.deep_view(), key@) is None,
        },
{
    match json.get(key) {
        None => {
            let empty = String::new();
            assert(empty@ =~= Seq::<char>::empty());
            Ok(empty)
        },
        Some(_) => required_text(json, key),
    }
}

/// A number setting; one that is left out has its default.
pub open spec fn count_setting(json: JsonView, key: Seq<char>, default: usize) -> Option<usize> {
    match member(json, key) {
        None => Some(default),
        Some(_) => required_count_of(json, key),
    }
}

fn read_count_setting(json: &Json, key: &str, default: usize) -> (r: core::result::Result<
    usize,
    String,
>)
    ensures
        match r {
            Ok(value) => count_setting(json.deep_view(), key@, default) == Some(
                value,
            ),
            Err(_) => count_setting(json.deep_view(), key@, default) is None,
        },
{
    match json.get(key) {
        None => Ok(default),
        Some(_) => required_count(json, key),
    }
}

/// The names of the settings.
pub open spec fn config_fields() -> Seq<Seq<char>> {
    seq![
        "base_url"@,
        "model"@,
        "api_key"@,
        "qianfan_api_key"@,
        "workspace"@,
        "max_context_tokens"@,
        "max_model_iterations"@,
    ]
}

/// The settings that a document is. Settings that are left out have their defaults.
pub open spec fn config_of(json: JsonView) -> Option<DesktopConfigView> {
    let json = fielded(json, config_fields(), 0);
    if !(json is Object) {
        None
    } else {
        match text_setting(json, "base_url"@) {
            None => None,
            Some(base_url) =>
            match text_setting(json, "model"@) {
                None => None,
                Some(model) =>
                match text_setting(json, "api_key"@) {
                    None => None,
                    Some(api_key) =>
                    match text_setting(json, "qianfan_api_key"@) {
                        None => None,
                        Some(qianfan_api_key) =>
                        match text_setting(json, "workspace"@) {
                            None => None,
                            Some(workspace) =>
                            match count_setting(
                                json,
                                "max_context_tokens"@,
                                DEFAULT_MAX_CONTEXT_TOKENS,
                            ) {
                                None => None,
                                Some(max_context_tokens) =>
                                match count_setting(
                                    json,
                                    "max_model_iterations"@,
                                    DEFAULT_MAX_MODEL_ITERATIONS,
                                ) {
                                    None => None,
                                    Some(max_model_iterations) => Some(
                                        DesktopConfigView {
                                            base_url,
                                            model,
                                            api_key,
                                            qianfan_api_key,
                                            workspace,
                                            max_context_tokens,
                                            max_model_iterations,
                                        },
                                    ),
                                },
                            },
                        },
                    },
                },
            },
        }
    }
}

/// Reads settings from a document.
pub fn read_config(json: &Json) -> (r: core::result::Result<DesktopConfig, String>)
    ensures
        match r {
            Ok(value) => config_of(json.deep_view()) == Some(
                value.deep_view(),
            ),
            Err(_) => config_of(json.deep_view()) is None,
        },
{
    let names: Vec<&str> = vec![
        "base_url",
        "model",
        "api_key",
        "qianfan_api_key",
        "workspace",
        "max_context_tokens",
        "max_model_iterations",
    ];
    assert(names_of(names@) =~= config_fields());
    let json = &as_fields(json, &names, 0);
    let is_object = match json {
        Json::Object(_) => true,
        _ => false,
    };
    if !is_object {
        return Err("settings are not an object".to_owned());
    }
    let base_url = match read_text_setting(json, "base_url") {
        Ok(base_url) => base_url,
        Err(error) => return Err(error),
    };
    let model = match read_text_setting(json, "model") {
        Ok(model) => model,
        Err(error) => return Err(error),
    };
    let api_key = match read_text_setting(json, "api_key") {
        Ok(api_key) => api_key,
        Err(error) => return Err(error),
    };
    let qianfan_api_key = match read_text_setting(json, "qianfan_api_key") {
        Ok(qianfan_api_key) => qianfan_api_key,
        Err(error) => return Err(error),
    };
    let workspace = match read_text_setting(json, "workspace") {
        Ok(workspace) => workspace,
        Err(error) => return Err(error),
    };
    let max_context_tokens: usize = match read_count_setting(
        json,
        "max_context_tokens",
        DEFAULT_MAX_CONTEXT_TOKENS,
    ) {
        Ok(max_context_tokens) => max_context_tokens,
        Err(error) => return Err(error),
    };
    let max_model_iterations: usize = match read_count_setting(
        json,
        "max_model_iterations",
        DEFAULT_MAX_MODEL_ITERATIONS,
    ) {
        Ok(max_model_iterations) => max_model_iterations,
        Err(error) => return Err(error),
    };
    Ok(
        DesktopConfig {
            base_url,
            model,
            api_key,
            qianfan_api_key,
            workspace,
            max_context_tokens,
            max_model_iterations,
        },
    )
}

/// The spelling of a count.
pub open spec fn count_spelling(n: usize) -> Spelling {
    Spelling::Number(NumberView::Unsigned(n as u64))
}

/// The settings in the order in which they are kept.
pub open spec fn config_spelling(config: DesktopConfigView) -> Spelling {
    Spelling::Object(
        seq![
            ("base_url"@, Spelling::Text(config.base_url)),
            ("model"@, Spelling::Text(config.model)),
            ("api_key"@, Spelling::Text(config.api_key)),
            ("qianfan_api_key"@, Spelling::Text(config.qianfan_api_key)),
            ("workspace"@, Spelling::Text(config.workspace)),
            ("max_context_tokens"@, count_spelling(config.max_context_tokens)),
            ("max_model_iterations"@, count_spelling(config.max_model_iterations)),
        ],
    )
}

/// The settings as they are kept: one on each line.
pub open spec fn config_text(config: DesktopConfigView) -> Seq<char> {
    laid_out(config_spelling(config), ""@)
}

/// Puts one more setting on a line of its own.
fn put_setting(
    out: &mut String,
    first: bool,
    key: &str,
    value: &str,
    Ghost(fields): Ghost<Seq<(Seq<char>, Spelling)>>,
    Ghost(next): Ghost<Spelling>,
)
    requires
        first == (fields.len() == 0),
        old(out)@ == "{\n"@ + join(laid_out_fields(fields, "  "@), ",\n"@),
        value@ == laid_out(next, "  "@),
    ensures
        final(out)@ == "{\n"@ + join(laid_out_fields(fields.push((key@, next)), "  "@), ",\n"@),
{
    let ghost line = "  "@ + json_quoted(key@) + ": "@ + value@;
    proof {
        assert(fields.push((key@, next)).drop_last() =~= fields);
        lemma_join_push(laid_out_fields(fields, "  "@), line, ",\n"@);
    }
    if !first {
        out.append(",\n");
    }
    out.append("  ");
    out.append(quoted(key).as_str());
    out.append(": ");
    out.append(value);
    assert(out@ =~= "{\n"@ + join(laid_out_fields(fields, "  "@).push(line), ",\n"@));
}

/// Writes settings as they are kept.
pub fn write_config(config: &DesktopConfig) -> (r: String)
    ensures
        r@ == config_text(config.deep_view()),
{
    let mut out = "{\n".to_owned();
    let ghost mut fields = Seq::<(Seq<char>, Spelling)>::empty();
    assert(out@ =~= "{\n"@ + join(laid_out_fields(fields, "  "@), ",\n"@));
    let ghost next = Spelling::Text(config.base_url@);
    put_setting(
        &mut out,
        true,
        "base_url",
        quoted(config.base_url.as_str()).as_str(),
        Ghost(fields),
        Ghost(next),
    );
    proof {
        fields = fields.push(("base_url"@, next));
    }
    let ghost next = Spelling::Text(config.model@);
    put_setting(
        &mut out,
        false,
        "model",
        quoted(config.model.as_str()).as_str(),
        Ghost(fields),
        Ghost(next),
    );
    proof {
        fields = fields.push(("model"@, next));
    }
    let ghost next = Spelling::Text(config.api_key@);
    put_setting(
        &mut out,
        false,
        "api_key",
        quoted(config.api_key.as_str()).as_str(),
        Ghost(fields),
        Ghost(next),
    );
    proof {
        fields = fields.push(("api_key"@, next));
    }
    let ghost next = Spelling::Text(config.qianfan_api_key@);
    put_setting(
        &mut out,
        false,
        "qianfan_api_key",
        quoted(config.qianfan_api_key.as_str()).as_str(),
        Ghost(fields),
        Ghost(next),
    );
    proof {
        fields = fields.push(("qianfan_api_key"@, next));
    }
    let ghost next = Spelling::Text(config.workspace@);
    put_setting(
        &mut out,
        false,
        "workspace",
        quoted(config.workspace.as_str()).as_str(),
        Ghost(fields),
        Ghost(next),
    );
    proof {
        fields = fields.push(("workspace"@, next));
    }
    let ghost next = count_spelling(config.max_context_tokens);
    put_setting(
        &mut out,
        false,
        "max_context_tokens",
        decimal_text(config.max_context_tokens as u128).as_str(),
        Ghost(fields),
        Ghost(next),
    );
    proof {
        fields = fields.push(("max_context_tokens"@, next));
    }
    let ghost next = count_spelling(config.max_model_iterations);
    put_setting(
        &mut out,
        false,
        "max_model_iterations",
        decimal_text(config.max_model_iterations as u128).as_str(),
        Ghost(fields),
        Ghost(next),
    );
    proof {
        fields = fields.push(("max_model_iterations"@, next));
    }
    out.append("\n}");
    proof {
        reveal_strlit("");
        reveal_strlit("  ");
        reveal_strlit("\n");
        reveal_strlit("}");
        reveal_strlit("\n}");
        assert(""@ + "  "@ =~= "  "@);
        assert(config_spelling(config.deep_view())->Object_0 =~= fields);
        assert(out@ =~= config_text(config.deep_view()));
    }
    out
}

/// The settings that a text is, where it holds each of them once.
pub open spec fn config_read(
    text: Seq<char>,
    document: core::result::Result<Option<JsonView>, JsonErrorView>,
) -> Option<DesktopConfigView> {
    match document {
        Err(_) => None,
        Ok(None) => None,
        Ok(Some(json)) => if is_unambiguous(text, Shape::Settings) {
            config_of(json)
        } else {
            None
        },
    }
}

/// Settings that were kept are read from their text.
pub proof fn law_settings_are_read_back(config: DesktopConfigView, document: Option<JsonView>)
    requires
        is_read_as(config_text(config), document),
    ensures
        document is Some,
        config_of(document->Some_0) == Some(config),
{
    reveal_strlit("base_url");
    reveal_strlit("model");
    reveal_strlit("api_key");
    reveal_strlit("qianfan_api_key");
    reveal_strlit("workspace");
    reveal_strlit("max_context_tokens");
    reveal_strlit("max_model_iterations");
    assert("base_url"@.len() != "model"@.len());
    assert("base_url"@.len() != "api_key"@.len());
    assert("model"@.len() != "api_key"@.len());
    assert("base_url"@.len() != "qianfan_api_key"@.len());
    assert("model"@.len() != "qianfan_api_key"@.len());
    assert("api_key"@.len() != "qianfan_api_key"@.len());
    assert("base_url"@.len() != "workspace"@.len());
    assert("model"@.len() != "workspace"@.len());
    assert("api_key"@.len() != "workspace"@.len());
    assert("qianfan_api_key"@.len() != "workspace"@.len());
    assert("base_url"@.len() != "max_context_tokens"@.len());
    assert("model"@.len() != "max_context_tokens"@.len());
    assert("api_key"@.len() != "max_context_tokens"@.len());
    assert("qianfan_api_key"@.len() != "max_context_tokens"@.len());
    assert("workspace"@.len() != "max_context_tokens"@.len());
    assert("base_url"@.len() != "max_model_iterations"@.len());
    assert("model"@.len() != "max_model_iterations"@.len());
    assert("api_key"@.len() != "max_model_iterations"@.len());
    assert("qianfan_api_key"@.len() != "max_model_iterations"@.len());
    assert("workspace"@.len() != "max_model_iterations"@.len());
    assert("max_context_tokens"@.len() != "max_model_iterations"@.len());
    let inner = (depth_limit() - 1) as nat;
    lemma_no_fields(inner);
    let fields = Seq::<(Seq<char>, Spelling)>::empty();
    let next = Spelling::Text(config.base_url);
    lemma_one_more(fields, "base_url"@, next, inner);
    let fields = fields.push(("base_url"@, next));
    let next = Spelling::Text(config.model);
    lemma_one_more(fields, "model"@, next, inner);
    let fields = fields.push(("model"@, next));
    let next = Spelling::Text(config.api_key);
    lemma_one_more(fields, "api_key"@, next, inner);
    let fields = fields.push(("api_key"@, next));
    let next = Spelling::Text(config.qianfan_api_key);
    lemma_one_more(fields, "qianfan_api_key"@, next, inner);
    let fields = fields.push(("qianfan_api_key"@, next));
    let next = Spelling::Text(config.workspace);
    lemma_one_more(fields, "workspace"@, next, inner);
    let fields = fields.push(("workspace"@, next));
    let next = count_spelling(config.max_context_tokens);
    lemma_one_more(fields, "max_context_tokens"@, next, inner);
    let fields = fields.push(("max_context_tokens"@, next));
    let next = count_spelling(config.max_model_iterations);
    lemma_one_more(fields, "max_model_iterations"@, next, inner);
    let fields = fields.push(("max_model_iterations"@, next));
    assert(config_spelling(config)->Object_0 =~= fields);
    assert(document == Some(meant(config_spelling(config))));
}

/// Reads settings from a text. What is said of a document that is no settings is left open.
pub fn load_config(text: &str) -> (r: core::result::Result<DesktopConfig, String>)
    ensures
        match r {
            Ok(value) => config_read(text@, document_read(text@, Shape::Settings)) == Some(value.deep_view()),
            Err(error) => config_read(text@, document_read(text@, Shape::Settings)) is None && (document_read(
                text@,
                Shape::Settings,
            ) matches Err(reason) ==> error@ == reason.message),
        },
        forall|config: DesktopConfigView|
            text@ == #[trigger] config_text(config) ==> r is Ok && r->Ok_0.deep_view() == config,
{
    let document = read_document(text, Shape::Settings);
    proof {
        let read = match json_document(text@) {
            Ok(json) => Some(json),
            Err(_) => None,
        };
        assert forall|config: DesktopConfigView| text@ == #[trigger] config_text(config) implies read
            is Some
                && config_of(read->Some_0) == Some(config)
                && is_unambiguous(text@, Shape::Settings) by {
            law_settings_are_read_back(config, read);
            law_written_settings_are_unambiguous(config);
        }
    }
    match document {
        Err(error) => Err(error.message),
        Ok(None) => Err("a setting cannot be read".to_owned()),
        Ok(Some(json)) => match read_config(&json) {
            Ok(config) => if unambiguous(text, Shape::Settings) {
                Ok(config)
            } else {
                Err("a setting stands twice".to_owned())
            },
            Err(error) => Err(error),
        },
    }
}

/// What is wrong with settings.
pub open spec fn config_checked(config: DesktopConfigView) -> core::result::Result<(), Seq<char>> {
    if !(8_192 <= config.max_context_tokens <= 2_000_000) {
        Err("上下文窗口必须在 8,192 到 2,000,000 tokens 之间"@)
    } else if !(1 <= config.max_model_iterations <= 65_535) {
        Err("Model iteration 上限必须在 1 到 65,535 之间"@)
    } else {
        Ok(())
    }
}

impl DesktopConfig {
    /// Rejects settings that are out of range.
    pub fn validate(&self) -> (r: core::result::Result<(), String>)
        ensures
            match config_checked(self.deep_view()) {
                Ok(_) => r is Ok,
                Err(message) => r matches Err(text) && text@ == message,
            },
    {
        if !(8_192 <= self.max_context_tokens && self.max_context_tokens <= 2_000_000) {
            return Err("上下文窗口必须在 8,192 到 2,000,000 tokens 之间".to_owned());
        }
        if !(1 <= self.max_model_iterations && self.max_model_iterations <= 65_535) {
            return Err("Model iteration 上限必须在 1 到 65,535 之间".to_owned());
        }
        Ok(())
    }

    /// Tells whether a model can be asked.
    pub fn is_complete(&self) -> (r: bool)
        ensures
            r == (self.deep_view().base_url.len() > 0 && self.deep_view().model.len() > 0),
    {
        self.base_url.as_str().unicode_len() > 0 && self.model.as_str().unicode_len() > 0
    }

    /// The workspace, or where the application was started.
    pub fn workspace_or(&self, current: &str) -> (r: String)
        ensures
            r@ == (if is_blank(self.deep_view().workspace) {
                current@
            } else {
                self.deep_view().workspace
            }),
    {
        if blank(self.workspace.as_str()) {
            current.to_owned()
        } else {
            self.workspace.clone()
        }
    }
}

/// The workspace of a thread: what its metadata says where that is an absolute path.
pub open spec fn workspace_of(metadata: JsonView, fallback: Seq<char>) -> Seq<char> {
    match text_member(metadata, "workspace"@) {
        Some(path) => if is_absolute(path) {
            path
        } else {
            fallback
        },
        None => fallback,
    }
}

/// The workspace of a thread.
pub fn resolve_workspace(metadata: &Json, fallback: &str) -> (r: String)
    ensures
        r@ == workspace_of(metadata.deep_view(), fallback@),
{
    match metadata.get_text("workspace") {
        Some(path) => {
            if absolute(path.as_str()) {
                path.clone()
            } else {
                fallback.to_owned()
            }
        },
        None => fallback.to_owned(),
    }
}

/// An event of some type, without anything else.
pub open spec fn event_members(kind: Seq<char>) -> Map<Seq<char>, JsonView> {
    Map::<Seq<char>, JsonView>::empty().insert("type"@, JsonView::Text(kind))
}

/// What is shown of how a turn ended.
pub open spec fn outcome_event(event: TurnOutcomeView) -> JsonView {
    match event {
        TurnOutcomeView::AssistantMessage { text } => JsonView::Object(
            event_members("turn_finished"@)
                .insert("outcome"@, JsonView::Text("assistant_message"@))
                .insert("text"@, JsonView::Text(text)),
        ),
        TurnOutcomeView::Suspended { suspension } => JsonView::Object(
            event_members("turn_finished"@)
                .insert("outcome"@, JsonView::Text("suspended"@))
                .insert("suspension"@, suspension_json(suspension)),
        ),
        TurnOutcomeView::Failed { error } => JsonView::Object(
            event_members("turn_finished"@)
                .insert("outcome"@, JsonView::Text("failed"@))
                .insert("error"@, JsonView::Text(error)),
        ),
        TurnOutcomeView::Aborted { reason } => JsonView::Object(
            event_members("turn_finished"@)
                .insert("outcome"@, JsonView::Text("aborted"@))
                .insert("reason"@, JsonView::Text(reason)),
        ),
    }
}

/// What is shown of how a turn ended.
pub fn outcome_event_json(event: &TurnOutcome) -> (r: Json)
    ensures
        r.deep_view() == outcome_event(event.deep_view()),
{
    match event {
        TurnOutcome::AssistantMessage { text } => Json::object(
            no_members()
                .with("type", Json::text("turn_finished"))
                .with("outcome", Json::text("assistant_message"))
                .with("text", Json::text(text.as_str())),
        ),
        TurnOutcome::Suspended { suspension } => Json::object(
            no_members()
                .with("type", Json::text("turn_finished"))
                .with("outcome", Json::text("suspended"))
                .with("suspension", make_suspension(suspension)),
        ),
        TurnOutcome::Failed { error } => Json::object(
            no_members()
                .with("type", Json::text("turn_finished"))
                .with("outcome", Json::text("failed"))
                .with("error", Json::text(error.as_str())),
        ),
        TurnOutcome::Aborted { reason } => Json::object(
            no_members()
                .with("type", Json::text("turn_finished"))
                .with("outcome", Json::text("aborted"))
                .with("reason", Json::text(reason.as_str())),
        ),
    }
}

/// What is shown of an event of the model.
pub open spec fn model_event(event: TurnModelEventView) -> JsonView {
    match event {
        TurnModelEventView::RequestStarted { iteration } => JsonView::Object(
            event_members("model_iteration_started"@).insert(
                "iteration"@,
                JsonView::Number(NumberView::Unsigned(iteration as u64)),
            ),
        ),
        TurnModelEventView::AssistantMessage { text } => JsonView::Object(
            event_members("assistant_message"@).insert("text"@, JsonView::Text(text)),
        ),
        TurnModelEventView::AssistantDelta { text } => JsonView::Object(
            event_members("assistant_delta"@).insert("text"@, JsonView::Text(text)),
        ),
    }
}

/// What is shown of an event of the model.
pub fn model_event_json(event: &TurnModelEvent) -> (r: Json)
    ensures
        r.deep_view() == model_event(event.deep_view()),
{
    match event {
        TurnModelEvent::RequestStarted { iteration } => Json::object(
            no_members()
                .with("type", Json::text("model_iteration_started"))
                .with("iteration", Json::unsigned(*iteration as u64)),
        ),
        TurnModelEvent::AssistantMessage { text } => Json::object(
            no_members()
                .with("type", Json::text("assistant_message"))
                .with("text", Json::text(text.as_str())),
        ),
        TurnModelEvent::AssistantDelta { text } => Json::object(
            no_members()
                .with("type", Json::text("assistant_delta"))
                .with("text", Json::text(text.as_str())),
        ),
    }
}

/// What is shown of an event of a turn.
pub open spec fn state_event(event: TurnStateEventView) -> JsonView {
    match event {
        TurnStateEventView::TurnStarted { thread_id, turn_id } =>
            JsonView::Object(
                event_members("turn_started"@)
                    .insert("thread_id"@, JsonView::Text(thread_id))
                    .insert("turn_id"@, JsonView::Text(turn_id)),
            ),
        TurnStateEventView::FunctionCallsRequested { calls } =>
            JsonView::Object(
                event_members("tool_calls_requested"@).insert("calls"@, function_calls_json(calls)),
            ),
        TurnStateEventView::FunctionStarted { call_id, name } =>
            JsonView::Object(
                event_members("tool_started"@)
                    .insert("call_id"@, JsonView::Text(call_id))
                    .insert("name"@, JsonView::Text(name)),
            ),
        TurnStateEventView::FunctionCompleted { call_id, name } =>
            JsonView::Object(
                event_members("tool_completed"@)
                    .insert("call_id"@, JsonView::Text(call_id))
                    .insert("name"@, JsonView::Text(name)),
            ),
        TurnStateEventView::FunctionFailed { call_id, name, error } =>
            JsonView::Object(
                event_members("tool_failed"@)
                    .insert("call_id"@, JsonView::Text(call_id))
                    .insert("name"@, JsonView::Text(name))
                    .insert("error"@, JsonView::Text(error)),
            ),
        TurnStateEventView::Suspended { suspension } => JsonView::Object(
            event_members("turn_suspended"@).insert("suspension"@, suspension_json(suspension)),
        ),
        TurnStateEventView::TurnFinished { outcome } => outcome_event(outcome),
        TurnStateEventView::TurnFailed { error } => JsonView::Object(
            event_members("turn_failed"@).insert("error"@, JsonView::Text(error)),
        ),
        TurnStateEventView::TurnAborted { reason } => JsonView::Object(
            event_members("turn_aborted"@).insert("reason"@, JsonView::Text(reason)),
        ),
        TurnStateEventView::TurnTokenUsage { usage } => JsonView::Object(
            event_members("token_usage"@).insert("usage"@, token_usage_json(usage)),
        ),
    }
}

/// What is shown of an event of a turn.
pub fn desktop_state_event(event: &TurnStateEvent) -> (r: Json)
    ensures
        r.deep_view() == state_event(event.deep_view()),
{
    match event {
        TurnStateEvent::TurnStarted { thread_id, turn_id } =>
            Json::object(
                no_members()
                    .with("type", Json::text("turn_started"))
                    .with("thread_id", Json::text(thread_id.as_str()))
                    .with("turn_id", Json::text(turn_id.as_str())),
            ),
        TurnStateEvent::FunctionCallsRequested { calls } => Json::object(
            no_members()
                .with("type", Json::text("tool_calls_requested"))
                .with("calls", make_function_calls(calls)),
        ),
        TurnStateEvent::FunctionStarted { call_id, name } =>
            Json::object(
                no_members()
                    .with("type", Json::text("tool_started"))
                    .with("call_id", Json::text(call_id.as_str()))
                    .with("name", Json::text(name.as_str())),
            ),
        TurnStateEvent::FunctionCompleted { call_id, name } =>
            Json::object(
                no_members()
                    .with("type", Json::text("tool_completed"))
                    .with("call_id", Json::text(call_id.as_str()))
                    .with("name", Json::text(name.as_str())),
            ),
        TurnStateEvent::FunctionFailed { call_id, name, error } =>
            Json::object(
                no_members()
                    .with("type", Json::text("tool_failed"))
                    .with("call_id", Json::text(call_id.as_str()))
                    .with("name", Json::text(name.as_str()))
                    .with("error", Json::text(error.as_str())),
            ),
        TurnStateEvent::Suspended { suspension } => Json::object(
            no_members()
                .with("type", Json::text("turn_suspended"))
                .with("suspension", make_suspension(suspension)),
        ),
        TurnStateEvent::TurnFinished { outcome } => outcome_event_json(outcome),
        TurnStateEvent::TurnFailed { error } => Json::object(
            no_members()
                .with("type", Json::text("turn_failed"))
                .with("error", Json::text(error.as_str())),
        ),
        TurnStateEvent::TurnAborted { reason } => Json::object(
            no_members()
                .with("type", Json::text("turn_aborted"))
                .with("reason", Json::text(reason.as_str())),
        ),
        TurnStateEvent::TurnTokenUsage { usage } => Json::object(
            no_members()
                .with("type", Json::text("token_usage"))
                .with("usage", make_token_usage(usage)),
        ),
    }
}

/// What is shown of an event.
pub open spec fn turn_event(event: TurnStreamEventView) -> JsonView {
    match event {
        TurnStreamEventView::Model(event) => model_event(event),
        TurnStreamEventView::State(event) => state_event(event),
        TurnStreamEventView::Runtime(runtime) => JsonView::Object(
            event_members("runtime"@)
                .insert("source"@, JsonView::Text(runtime.source))
                .insert("message"@, JsonView::Text(runtime.message))
                .insert("metadata"@, runtime.metadata),
        ),
    }
}

/// What is shown of an event.
pub fn desktop_turn_event(event: &TurnStreamEvent) -> (r: Json)
    ensures
        r.deep_view() == turn_event(event.deep_view()),
{
    match event {
        TurnStreamEvent::Model(event) => model_event_json(event),
        TurnStreamEvent::State(event) => desktop_state_event(event),
        TurnStreamEvent::Runtime(runtime) => Json::object(
            no_members()
                .with("type", Json::text("runtime"))
                .with("source", Json::text(runtime.source.as_str()))
                .with("message", Json::text(runtime.message.as_str()))
                .with("metadata", runtime.metadata.replica()),
        ),
    }
}

/// Settings from before a setting existed get its default.
pub proof fn law_missing_settings_have_defaults(json: JsonView)
    requires
        config_of(json) is Some,
    ensures
        ({
            let config = config_of(json)->Some_0;
            let fields = fielded(json, config_fields(), 0);
            &&& member(fields, "base_url"@) is None ==> config.base_url.len() == 0
            &&& member(fields, "model"@) is None ==> config.model.len() == 0
            &&& member(fields, "api_key"@) is None ==> config.api_key.len() == 0
            &&& member(fields, "qianfan_api_key"@) is None ==> config.qianfan_api_key.len() == 0
            &&& member(fields, "workspace"@) is None ==> config.workspace.len() == 0
            &&& member(fields, "max_context_tokens"@) is None ==> config.max_context_tokens
                == DEFAULT_MAX_CONTEXT_TOKENS
            &&& member(fields, "max_model_iterations"@) is None ==> config.max_model_iterations
                == DEFAULT_MAX_MODEL_ITERATIONS
        }),
{
}

/// One thread stands before another in a list: it was changed later, or at the same time and comes
/// first anyway.
pub open spec fn is_listed_before(changed: Seq<u64>, a: usize, b: usize) -> bool {
    changed[a as int] > changed[b as int] || (changed[a as int] == changed[b as int] && a < b)
}

/// A list of the first threads, the one that was changed last first.
pub open spec fn is_newest_first(changed: Seq<u64>, order: Seq<usize>, total: int) -> bool {
    &&& order.len() == total
    &&& forall|i: int| 0 <= i < order.len() ==> 0 <= #[trigger] order[i] < total
    &&& forall|i: int, j: int|
        0 <= i < j < order.len() ==> is_listed_before(
            changed,
            #[trigger] order[i],
            #[trigger] order[j],
        )
    &&& forall|thread: usize| thread < total ==> #[trigger] order.contains(thread)
}

/// Lists threads, given when each was changed: the one that was changed last first.
pub fn newest_first(changed: &Vec<u64>) -> (r: Vec<usize>)
    ensures
        is_newest_first(changed@, r@, changed@.len() as int),
{
    let mut order: Vec<usize> = Vec::new();
    for thread in 0..changed.len()
        invariant
            is_newest_first(changed@, order@, thread as int),
    {
        let mut place: usize = 0;
        while place < order.len() && changed[order[place]] >= changed[thread]
            invariant
                thread < changed@.len(),
                is_newest_first(changed@, order@, thread as int),
                place <= order@.len(),
                forall|i: int|
                    0 <= i < place ==> changed@[#[trigger] order@[i] as int]
                        >= changed@[thread as int],
            decreases order@.len() - place,
        {
            place = place + 1;
        }
        let ghost before = order@;
        order.insert(place, thread);
        proof {
            assert(order@ =~= before.insert(place as int, thread));
            assert forall|i: int, j: int| 0 <= i < j < order@.len() implies is_listed_before(
                changed@,
                #[trigger] order@[i],
                #[trigger] order@[j],
            ) by {
                let a = if i < place {
                    i
                } else {
                    i - 1
                };
                let b = if j < place {
                    j
                } else {
                    j - 1
                };
                if i != place && j != place {
                    assert(is_listed_before(changed@, before[a], before[b]));
                } else if i == place {
                    assert(before[b] < thread);
                    if place < before.len() {
                        assert(changed@[before[place as int] as int] < changed@[thread as int]);
                        if b > place {
                            assert(is_listed_before(changed@, before[place as int], before[b]));
                        }
                    }
                } else {
                    assert(before[a] < thread);
                }
            }
            assert forall|other: usize| other < thread + 1 implies #[trigger] order@.contains(other) by {
                if other == thread {
                    assert(order@[place as int] == thread);
                } else {
                    assert(before.contains(other));
                    let i = choose|i: int| 0 <= i < before.len() && before[i] == other;
                    let k = if i < place {
                        i
                    } else {
                        i + 1
                    };
                    assert(order@[k] == other);
                }
            }
            assert forall|i: int| 0 <= i < order@.len() implies 0 <= #[trigger] order@[i] < thread
                + 1 by {
                if i < place {
                    assert(order@[i] == before[i]);
                } else if i > place {
                    assert(order@[i] == before[i - 1]);
                }
            }
        }
    }
    order
}

/// A new thread works in a workspace.
pub fn new_desktop_thread(id: &str, workspace: &str) -> (r: Thread)
    ensures
        r.deep_view() == (ThreadView {
            id: id@,
            turns: Seq::empty(),
            metadata: JsonView::Object(
                Map::<Seq<char>, JsonView>::empty().insert(
                    "workspace"@,
                    JsonView::Text(workspace@),
                ),
            ),
            token_usage: TokenUsage::zero(),
            revision: RevisionToken { value: 0 },
        }),
{
    let mut thread = Thread::new(id);
    thread.metadata = Json::object(no_members().with("workspace", Json::text(workspace)));
    thread
}

} // verus!
