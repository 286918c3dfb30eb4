//! API dialects and provider identities.

use vstd::prelude::*;
use vstd::std_specs::cmp::PartialEqSpecImpl;
use vstd::std_specs::convert::FromSpecImpl;
use crate::error::{Error, ErrorView};
use crate::utils::text::str_eq;

verus! {

/// The wire-format family of a model's HTTP API.
#[derive(Clone, Copy, Debug, PartialEq, Eq, Hash, Structural)]
pub enum Api {
    AnthropicMessages,
    BedrockConverseStream,
    OpenAICompletions,
    MinimaxCompletions,
    OpenAIResponses,
    GoogleGenerativeAi,
    GoogleVertex,
}

/// The tag a dialect is written as.
pub open spec fn api_name(api: Api) -> Seq<char> {
    match api {
        Api::AnthropicMessages => "anthropic-messages"@,
        Api::BedrockConverseStream => "bedrock-converse-stream"@,
        Api::OpenAICompletions => "openai-completions"@,
        Api::MinimaxCompletions => "minimax-completions"@,
        Api::OpenAIResponses => "openai-responses"@,
        Api::GoogleGenerativeAi => "google-generative-ai"@,
        Api::GoogleVertex => "google-vertex"@,
    }
}

impl Api {
    /// The dialect's tag.
    pub fn as_str(&self) -> (name: &'static str)
        ensures
            name@ == api_name(*self),
    {
        match self {
            Api::AnthropicMessages => "anthropic-messages",
            Api::BedrockConverseStream => "bedrock-converse-stream",
            Api::OpenAICompletions => "openai-completions",
            Api::MinimaxCompletions => "minimax-completions",
            Api::OpenAIResponses => "openai-responses",
            Api::GoogleGenerativeAi => "google-generative-ai",
            Api::GoogleVertex => "google-vertex",
        }
    }

    /// The dialect's tag as an owned string.
    pub fn to_string(&self) -> (name: String)
        ensures
            name@ == api_name(*self),
    {
        self.as_str().to_owned()
    }

    /// The dialect written as `name`, if there is one.
    pub fn from_name(name: &str) -> (api: Option<Api>)
        ensures
            match api {
                Some(found) => api_name(found) == name@,
                None => forall|other: Api| api_name(other) != name@,
            },
    {
        if str_eq(name, "anthropic-messages") {
            Some(Api::AnthropicMessages)
        } else if str_eq(name, "bedrock-converse-stream") {
            Some(Api::BedrockConverseStream)
        } else if str_eq(name, "openai-completions") {
            Some(Api::OpenAICompletions)
        } else if str_eq(name, "minimax-completions") {
            Some(Api::MinimaxCompletions)
        } else if str_eq(name, "openai-responses") {
            Some(Api::OpenAIResponses)
        } else if str_eq(name, "google-generative-ai") {
            Some(Api::GoogleGenerativeAi)
        } else if str_eq(name, "google-vertex") {
            Some(Api::GoogleVertex)
        } else {
            None
        }
    }
}

/// The views of a parse result.
pub open spec fn parsed_view<T>(parsed: Result<T, Error>) -> Result<T, ErrorView> {
    match parsed {
        Ok(value) => Ok(value),
        Err(error) => Err(error.deep_view()),
    }
}

impl Api {
    /// Parses a dialect tag. A string that is no dialect's tag is refused as
    /// `UnknownApi`.
    pub fn from_str(s: &str) -> (parsed: Result<Api, Error>)
        ensures
            match parsed_view(parsed) {
                Ok(api) => api_name(api) == s@,
                Err(error) => error == ErrorView::UnknownApi(s@) && forall|other: Api|
                    api_name(other) != s@,
            },
    {
        match Api::from_name(s) {
            Some(api) => Ok(api),
            None => Err(Error::UnknownApi(s.to_owned())),
        }
    }
}

/// The providers this crate knows by name.
#[derive(Clone, Copy, Debug, PartialEq, Eq, Hash, Structural)]
pub enum KnownProvider {
    AmazonBedrock,
    Anthropic,
    Google,
    GoogleVertex,
    OpenAI,
    Xai,
    Groq,
    Cerebras,
    OpenRouter,
    VercelAiGateway,
    Zai,
    Mistral,
    Minimax,
    MinimaxCn,
}

/// The name a known provider is written as.
pub open spec fn known_provider_name(provider: KnownProvider) -> Seq<char> {
    match provider {
        KnownProvider::AmazonBedrock => "amazon-bedrock"@,
        KnownProvider::Anthropic => "anthropic"@,
        KnownProvider::Google => "google"@,
        KnownProvider::GoogleVertex => "google-vertex"@,
        KnownProvider::OpenAI => "openai"@,
        KnownProvider::Xai => "xai"@,
        KnownProvider::Groq => "groq"@,
        KnownProvider::Cerebras => "cerebras"@,
        KnownProvider::OpenRouter => "openrouter"@,
        KnownProvider::VercelAiGateway => "vercel-ai-gateway"@,
        KnownProvider::Zai => "zai"@,
        KnownProvider::Mistral => "mistral"@,
        KnownProvider::Minimax => "minimax"@,
        KnownProvider::MinimaxCn => "minimax-cn"@,
    }
}

impl KnownProvider {
    /// The provider's name.
    pub fn as_str(&self) -> (name: &'static str)
        ensures
            name@ == known_provider_name(*self),
    {
        match self {
            KnownProvider::AmazonBedrock => "amazon-bedrock",
            KnownProvider::Anthropic => "anthropic",
            KnownProvider::Google => "google",
            KnownProvider::GoogleVertex => "google-vertex",
            KnownProvider::OpenAI => "openai",
            KnownProvider::Xai => "xai",
            KnownProvider::Groq => "groq",
            KnownProvider::Cerebras => "cerebras",
            KnownProvider::OpenRouter => "openrouter",
            KnownProvider::VercelAiGateway => "vercel-ai-gateway",
            KnownProvider::Zai => "zai",
            KnownProvider::Mistral => "mistral",
            KnownProvider::Minimax => "minimax",
            KnownProvider::MinimaxCn => "minimax-cn",
        }
    }

    /// The provider's name as an owned string.
    pub fn to_string(&self) -> (name: String)
        ensures
            name@ == known_provider_name(*self),
    {
        self.as_str().to_owned()
    }

    /// The known provider written as `name`, if there is one.
    pub fn from_name(name: &str) -> (provider: Option<KnownProvider>)
        ensures
            match provider {
                Some(found) => known_provider_name(found) == name@,
                None => forall|other: KnownProvider| known_provider_name(other) != name@,
            },
    {
        if str_eq(name, "amazon-bedrock") {
            Some(KnownProvider::AmazonBedrock)
        } else if str_eq(name, "anthropic") {
            Some(KnownProvider::Anthropic)
        } else if str_eq(name, "google") {
            Some(KnownProvider::Google)
        } else if str_eq(name, "google-vertex") {
            Some(KnownProvider::GoogleVertex)
        } else if str_eq(name, "openai") {
            Some(KnownProvider::OpenAI)
        } else if str_eq(name, "xai") {
            Some(KnownProvider::Xai)
        } else if str_eq(name, "groq") {
            Some(KnownProvider::Groq)
        } else if str_eq(name, "cerebras") {
            Some(KnownProvider::Cerebras)
        } else if str_eq(name, "openrouter") {
            Some(KnownProvider::OpenRouter)
        } else if str_eq(name, "vercel-ai-gateway") {
            Some(KnownProvider::VercelAiGateway)
        } else if str_eq(name, "zai") {
            Some(KnownProvider::Zai)
        } else if str_eq(name, "mistral") {
            Some(KnownProvider::Mistral)
        } else if str_eq(name, "minimax") {
            Some(KnownProvider::Minimax)
        } else if str_eq(name, "minimax-cn") {
            Some(KnownProvider::MinimaxCn)
        } else {
            None
        }
    }
}

impl KnownProvider {
    /// Parses the name of a known provider. A string that is no known
    /// provider's name is refused as `UnknownProvider`.
    pub fn from_str(s: &str) -> (parsed: Result<KnownProvider, Error>)
        ensures
            match parsed_view(parsed) {
                Ok(provider) => known_provider_name(provider) == s@,
                Err(error) => error == ErrorView::UnknownProvider(s@) && forall|
                    other: KnownProvider,
                | known_provider_name(other) != s@,
            },
    {
        match KnownProvider::from_name(s) {
            Some(provider) => Ok(provider),
            None => Err(Error::UnknownProvider(s.to_owned())),
        }
    }
}

/// Who serves a model: a provider known by name, or any other, by its own
/// string.
#[derive(Debug)]
pub enum Provider {
    Known(KnownProvider),
    Custom(String),
}

/// A provider identity with its custom name as characters.
pub enum ProviderView {
    Known(KnownProvider),
    Custom(Seq<char>),
}

impl DeepView for Provider {
    type V = ProviderView;

    open spec fn deep_view(&self) -> ProviderView {
        match self {
            Provider::Known(known) => ProviderView::Known(*known),
            Provider::Custom(name) => ProviderView::Custom(name@),
        }
    }
}

/// The string form of a provider identity.
pub open spec fn provider_name(provider: ProviderView) -> Seq<char> {
    match provider {
        ProviderView::Known(known) => known_provider_name(known),
        ProviderView::Custom(name) => name,
    }
}

/// The identity that a string stands for: the known provider of that name, or
/// a custom one.
pub open spec fn provider_named(name: Seq<char>) -> ProviderView {
    if exists|known: KnownProvider| known_provider_name(known) == name {
        ProviderView::Known(choose|known: KnownProvider| known_provider_name(known) == name)
    } else {
        ProviderView::Custom(name)
    }
}

impl Provider {
    /// The provider's string form.
    pub fn as_str(&self) -> (name: &str)
        ensures
            name@ == provider_name(self.deep_view()),
    {
        match self {
            Provider::Known(known) => known.as_str(),
            Provider::Custom(name) => name.as_str(),
        }
    }

    /// The provider's string form as an owned string.
    pub fn to_string(&self) -> (name: String)
        ensures
            name@ == provider_name(self.deep_view()),
    {
        self.as_str().to_owned()
    }

    /// The identity that `name` stands for. Every string names one: a known
    /// provider where the name is known, a custom one otherwise.
    pub fn from_name(name: &str) -> (provider: Provider)
        ensures
            provider.deep_view() == provider_named(name@),
            provider_name(provider.deep_view()) == name@,
    {
        proof {
            lemma_known_names_differ();
        }
        match KnownProvider::from_name(name) {
            Some(known) => Provider::Known(known),
            None => Provider::Custom(name.to_owned()),
        }
    }
}

impl Provider {
    /// Parses a provider identity. Every string is one, so this never fails.
    pub fn from_str(s: &str) -> (parsed: Result<Provider, Error>)
        ensures
            parsed.is_ok(),
            parsed.unwrap().deep_view() == provider_named(s@),
    {
        Ok(Provider::from_name(s))
    }
}

/// No two known providers share a name.
pub proof fn lemma_known_names_differ()
    ensures
        forall|a: KnownProvider, b: KnownProvider|
            known_provider_name(a) == known_provider_name(b) ==> a == b,
{
    reveal_strlit("amazon-bedrock");
    reveal_strlit("anthropic");
    reveal_strlit("google");
    reveal_strlit("google-vertex");
    reveal_strlit("openai");
    reveal_strlit("xai");
    reveal_strlit("groq");
    reveal_strlit("cerebras");
    reveal_strlit("openrouter");
    reveal_strlit("vercel-ai-gateway");
    reveal_strlit("zai");
    reveal_strlit("mistral");
    reveal_strlit("minimax");
    reveal_strlit("minimax-cn");
    assert forall|a: KnownProvider, b: KnownProvider|
        known_provider_name(a) == known_provider_name(b) implies a == b by {
        let x = known_provider_name(a);
        let y = known_provider_name(b);
        if a != b {
            assert(x.len() != y.len() || x[0] != y[0] || x[1] != y[1] || x[2] != y[2]);
        }
    }
}

/// The string form of a provider identity names that identity again, but for
/// a custom identity that goes by the name of a known provider: that string
/// names the known one.
pub proof fn lemma_provider_round_trip(provider: ProviderView)
    requires
        provider is Custom ==> forall|known: KnownProvider|
            known_provider_name(known) != provider->Custom_0,
    ensures
        provider_named(provider_name(provider)) == provider,
{
    lemma_known_names_differ();
    match provider {
        ProviderView::Known(known) => {
            let name = known_provider_name(known);
            let found = choose|other: KnownProvider| known_provider_name(other) == name;
            assert(known_provider_name(found) == name);
        },
        ProviderView::Custom(_) => {},
    }
}

impl Clone for Provider {
    fn clone(&self) -> (copy: Self)
        ensures
            copy.deep_view() == self.deep_view(),
    {
        match self {
            Provider::Known(known) => Provider::Known(*known),
            Provider::Custom(name) => Provider::Custom(name.clone()),
        }
    }
}

impl PartialEq for Provider {
    fn eq(&self, other: &Self) -> (same: bool)
    {
        match (self, other) {
            (Provider::Known(a), Provider::Known(b)) => *a == *b,
            (Provider::Custom(a), Provider::Custom(b)) => *a == *b,
            _ => false,
        }
    }
}

impl PartialEqSpecImpl for Provider {
    open spec fn obeys_eq_spec() -> bool {
        true
    }

    open spec fn eq_spec(&self, other: &Self) -> bool {
        self.deep_view() == other.deep_view()
    }
}

impl Eq for Provider {

}

impl From<KnownProvider> for Provider {
    fn from(value: KnownProvider) -> (provider: Self)
    {
        Provider::Known(value)
    }
}

impl FromSpecImpl<KnownProvider> for Provider {
    open spec fn obeys_from_spec() -> bool {
        true
    }

    open spec fn from_spec(value: KnownProvider) -> Self {
        Provider::Known(value)
    }
}

} // verus!
