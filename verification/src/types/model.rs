//! Model descriptors.

use vstd::prelude::*;
use crate::types::api::{Api, Provider, ProviderView};
use crate::types::compat::ModelCompat;
use crate::utils::text::clone_pairs;

verus! {

/// A modality a model accepts as input.
#[derive(Clone, Copy, Debug, PartialEq, Eq, Structural)]
pub enum InputType {
    Text,
    Image,
}

/// A callable endpoint: which model, in which dialect, served by whom and
/// where.
#[derive(Debug)]
pub struct Model {
    pub id: String,
    pub name: String,
    pub api: Api,
    pub provider: Provider,
    pub base_url: String,
    pub reasoning: bool,
    pub input: Vec<InputType>,
    pub context_window: u32,
    pub max_tokens: u32,
    /// Headers sent with every request to the model, name and value.
    pub headers: Option<Vec<(String, String)>>,
    /// Explicit compatibility settings, of the model's dialect.
    pub compat: Option<ModelCompat>,
}

/// What a value of [`Model`] says, with strings as character sequences.
pub struct ModelView {
    pub id: Seq<char>,
    pub name: Seq<char>,
    pub api: Api,
    pub provider: ProviderView,
    pub base_url: Seq<char>,
    pub reasoning: bool,
    pub input: Seq<InputType>,
    pub context_window: u32,
    pub max_tokens: u32,
    pub headers: Option<Seq<(Seq<char>, Seq<char>)>>,
    pub compat: Option<ModelCompat>,
}

impl DeepView for Model {
    type V = ModelView;

    open spec fn deep_view(&self) -> ModelView {
        ModelView {
            id: self.id@,
            name: self.name@,
            api: self.api,
            provider: self.provider.deep_view(),
            base_url: self.base_url@,
            reasoning: self.reasoning,
            input: self.input@,
            context_window: self.context_window,
            max_tokens: self.max_tokens,
            headers: self.headers.deep_view(),
            compat: self.compat,
        }
    }
}

impl Clone for Model {
    fn clone(&self) -> (copy: Self)
        ensures
            copy.deep_view() == self.deep_view(),
    {
        let input = self.input.clone();
        assert(input@ =~= self.input@);
        let headers = match &self.headers {
            Some(headers) => Some(clone_pairs(headers)),
            None => None,
        };
        Model {
            id: self.id.clone(),
            name: self.name.clone(),
            api: self.api,
            provider: self.provider.clone(),
            base_url: self.base_url.clone(),
            reasoning: self.reasoning,
            input,
            context_window: self.context_window,
            max_tokens: self.max_tokens,
            headers,
            compat: self.compat,
        }
    }
}

/// Whether a model lists images among its inputs.
pub open spec fn accepts_images(model: ModelView) -> bool {
    model.input.contains(InputType::Image)
}

impl Model {
    /// Whether the model lists images among its inputs.
    pub fn accepts_images(&self) -> (accepts: bool)
        ensures
            accepts == accepts_images(self.deep_view()),
    {
        let mut i: usize = 0;
        while i < self.input.len()
            invariant
                i <= self.input.len(),
                forall|j: int| 0 <= j < i ==> self.input@[j] != InputType::Image,
            decreases self.input.len() - i,
        {
            if self.input[i] == InputType::Image {
                return true;
            }
            i += 1;
        }
        false
    }
}

/// A dialect named by a type: for callers that fix the dialect of a model at
/// compile time and want its tag as a value.
pub trait ApiType {
    /// The dialect the type names.
    spec fn dialect(&self) -> Api;

    /// The dialect the type names.
    fn api(&self) -> (api: Api)
        ensures
            api == self.dialect(),
    ;
}

impl ApiType for Api {
    open spec fn dialect(&self) -> Api {
        *self
    }

    fn api(&self) -> (api: Api) {
        *self
    }
}

/// The Anthropic messages dialect.
#[derive(Clone, Copy, Debug)]
pub struct AnthropicMessages;

impl ApiType for AnthropicMessages {
    open spec fn dialect(&self) -> Api {
        Api::AnthropicMessages
    }

    fn api(&self) -> (api: Api) {
        Api::AnthropicMessages
    }
}

/// The Bedrock converse-stream dialect.
#[derive(Clone, Copy, Debug)]
pub struct BedrockConverseStream;

impl ApiType for BedrockConverseStream {
    open spec fn dialect(&self) -> Api {
        Api::BedrockConverseStream
    }

    fn api(&self) -> (api: Api) {
        Api::BedrockConverseStream
    }
}

/// The OpenAI chat-completions dialect.
#[derive(Clone, Copy, Debug)]
pub struct OpenAICompletions;

impl ApiType for OpenAICompletions {
    open spec fn dialect(&self) -> Api {
        Api::OpenAICompletions
    }

    fn api(&self) -> (api: Api) {
        Api::OpenAICompletions
    }
}

/// The MiniMax chat-completions dialect.
#[derive(Clone, Copy, Debug)]
pub struct MinimaxCompletions;

impl ApiType for MinimaxCompletions {
    open spec fn dialect(&self) -> Api {
        Api::MinimaxCompletions
    }

    fn api(&self) -> (api: Api) {
        Api::MinimaxCompletions
    }
}

/// The OpenAI responses dialect.
#[derive(Clone, Copy, Debug)]
pub struct OpenAIResponses;

impl ApiType for OpenAIResponses {
    open spec fn dialect(&self) -> Api {
        Api::OpenAIResponses
    }

    fn api(&self) -> (api: Api) {
        Api::OpenAIResponses
    }
}

/// The Google generative-AI dialect.
#[derive(Clone, Copy, Debug)]
pub struct GoogleGenerativeAi;

impl ApiType for GoogleGenerativeAi {
    open spec fn dialect(&self) -> Api {
        Api::GoogleGenerativeAi
    }

    fn api(&self) -> (api: Api) {
        Api::GoogleGenerativeAi
    }
}

/// The Google Vertex dialect.
#[derive(Clone, Copy, Debug)]
pub struct GoogleVertex;

impl ApiType for GoogleVertex {
    open spec fn dialect(&self) -> Api {
        Api::GoogleVertex
    }

    fn api(&self) -> (api: Api) {
        Api::GoogleVertex
    }
}

} // verus!
