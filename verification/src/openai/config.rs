//! Settings of a model client.

use crate::json::{no_members, Json, JsonView};
use crate::kernel::model::{ModelDescriptor, ModelDescriptorView};
use crate::same::Replica;
use crate::text::{drop_slashes, glue2, without_slashes};
use crate::time_span::TimeSpan;
use vstd::prelude::*;

verus! {

/// Which model is asked, and where.
#[derive(Debug, PartialEq, Eq)]
pub struct ModelConfig {
    pub base_url: String,
    pub api_key: String,
    pub model: String,
    pub reasoning_effort: String,
}

/// What a [`ModelConfig`] holds.
#[verifier::ext_equal]
pub struct ModelConfigView {
    pub base_url: Seq<char>,
    pub api_key: Seq<char>,
    pub model: Seq<char>,
    pub reasoning_effort: Seq<char>,
}

impl DeepView for ModelConfig {
    type V = ModelConfigView;

    open spec fn deep_view(&self) -> Self::V {
        ModelConfigView {
            base_url: self.base_url.deep_view(),
            api_key: self.api_key.deep_view(),
            model: self.model.deep_view(),
            reasoning_effort: self.reasoning_effort.deep_view(),
        }
    }
}

impl Replica for ModelConfig {
    fn replica(&self) -> (r: Self) {
        ModelConfig {
            base_url: self.base_url.replica(),
            api_key: self.api_key.replica(),
            model: self.model.replica(),
            reasoning_effort: self.reasoning_effort.replica(),
        }
    }
}

impl Clone for ModelConfig {
    fn clone(&self) -> (r: Self)
        ensures
            r.deep_view() == self.deep_view(),
    {
        self.replica()
    }
}

/// How often a request is tried again, and how long the waits are.
#[derive(Debug, PartialEq, Eq)]
pub struct RetryConfig {
    pub max_retries: usize,
    pub initial_backoff: TimeSpan,
    pub max_backoff: TimeSpan,
}

/// What a [`RetryConfig`] holds.
#[verifier::ext_equal]
pub struct RetryConfigView {
    pub max_retries: usize,
    pub initial_backoff: nat,
    pub max_backoff: nat,
}

impl DeepView for RetryConfig {
    type V = RetryConfigView;

    open spec fn deep_view(&self) -> Self::V {
        RetryConfigView {
            max_retries: self.max_retries.deep_view(),
            initial_backoff: self.initial_backoff.deep_view(),
            max_backoff: self.max_backoff.deep_view(),
        }
    }
}

impl Replica for RetryConfig {
    fn replica(&self) -> (r: Self) {
        RetryConfig {
            max_retries: self.max_retries.replica(),
            initial_backoff: self.initial_backoff.replica(),
            max_backoff: self.max_backoff.replica(),
        }
    }
}

impl Clone for RetryConfig {
    fn clone(&self) -> (r: Self)
        ensures
            r.deep_view() == self.deep_view(),
    {
        self.replica()
    }
}

/// The address that a request is sent to.
pub open spec fn responses_url(base_url: Seq<char>) -> Seq<char> {
    without_slashes(base_url) + "/responses"@
}

/// How the model is named in reports.
pub open spec fn model_description(config: ModelConfigView) -> ModelDescriptorView {
    ModelDescriptorView {
        fqn: config.model,
        settings: JsonView::Object(
            Map::<Seq<char>, JsonView>::empty().insert("api"@, JsonView::Text("responses"@)).insert(
                "reasoning_effort"@,
                JsonView::Text(config.reasoning_effort),
            ),
        ),
    }
}

impl ModelConfig {
    /// The address that a request is sent to.
    pub fn responses_url(&self) -> (r: String)
        ensures
            r@ == responses_url(self.deep_view().base_url),
    {
        glue2(drop_slashes(self.base_url.as_str()), "/responses")
    }

    /// How the model is named in reports.
    pub fn model_descriptor(&self) -> (r: ModelDescriptor)
        ensures
            r.deep_view() == model_description(self.deep_view()),
    {
        let settings = no_members().with("api", Json::text("responses")).with(
            "reasoning_effort",
            Json::text(self.reasoning_effort.as_str()),
        );
        ModelDescriptor { fqn: self.model.clone(), settings: Json::object(settings) }
    }
}

} // verus!
