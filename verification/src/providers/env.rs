//! API keys from the environment.
//!
//! Reading the environment is left to the caller, who hands over what it
//! found as an [`EnvSnapshot`]. Which variable holds which provider's key, and
//! what counts as ambient cloud credentials, is decided here.

use vstd::prelude::*;
use crate::types::api::{KnownProvider, Provider, ProviderView};
use crate::utils::text::str_eq;

verus! {

/// What the caller found in the environment.
#[derive(Debug)]
pub struct EnvSnapshot {
    /// The environment variables, name and value.
    pub variables: Vec<(String, String)>,
    /// Whether the file that `GOOGLE_APPLICATION_CREDENTIALS` names exists.
    pub google_credentials_file_exists: bool,
    /// Whether gcloud's default application credentials file exists under the
    /// home directory.
    pub default_adc_file_exists: bool,
}

/// What an [`EnvSnapshot`] says, with strings as character sequences.
pub struct EnvView {
    pub variables: Seq<(Seq<char>, Seq<char>)>,
    pub google_credentials_file_exists: bool,
    pub default_adc_file_exists: bool,
}

impl DeepView for EnvSnapshot {
    type V = EnvView;

    open spec fn deep_view(&self) -> EnvView {
        EnvView {
            variables: self.variables.deep_view(),
            google_credentials_file_exists: self.google_credentials_file_exists,
            default_adc_file_exists: self.default_adc_file_exists,
        }
    }
}

/// The value of the first variable of the given name.
pub open spec fn env_var(variables: Seq<(Seq<char>, Seq<char>)>, name: Seq<char>) -> Option<
    Seq<char>,
>
    decreases variables.len(),
{
    if variables.len() == 0 {
        None
    } else if variables[0].0 == name {
        Some(variables[0].1)
    } else {
        env_var(variables.skip(1), name)
    }
}

/// Whether a variable of the given name is set.
pub open spec fn is_set(env: EnvView, name: Seq<char>) -> bool {
    env_var(env.variables, name).is_some()
}

/// The sentinel that stands for ambient cloud credentials.
pub open spec fn authenticated() -> Seq<char> {
    "<authenticated>"@
}

/// Whether application default credentials for Vertex AI are in place: the
/// credentials file that the environment names exists, or, where it names
/// none, the default file exists and project and location are set.
pub open spec fn has_vertex_adc(env: EnvView) -> bool {
    if is_set(env, "GOOGLE_APPLICATION_CREDENTIALS"@) {
        env.google_credentials_file_exists
    } else if env.default_adc_file_exists {
        (is_set(env, "GOOGLE_CLOUD_PROJECT"@) || is_set(env, "GCLOUD_PROJECT"@)) && is_set(
            env,
            "GOOGLE_CLOUD_LOCATION"@,
        )
    } else {
        false
    }
}

/// Whether AWS credentials for Bedrock are in place.
pub open spec fn has_bedrock(env: EnvView) -> bool {
    ||| is_set(env, "AWS_PROFILE"@)
    ||| (is_set(env, "AWS_ACCESS_KEY_ID"@) && is_set(env, "AWS_SECRET_ACCESS_KEY"@))
    ||| is_set(env, "AWS_BEARER_TOKEN_BEDROCK"@)
    ||| is_set(env, "AWS_CONTAINER_CREDENTIALS_RELATIVE_URI"@)
    ||| is_set(env, "AWS_CONTAINER_CREDENTIALS_FULL_URI"@)
    ||| is_set(env, "AWS_WEB_IDENTITY_TOKEN_FILE"@)
}

/// The sentinel where `present` holds.
pub open spec fn sentinel_if(present: bool) -> Option<Seq<char>> {
    if present {
        Some(authenticated())
    } else {
        None
    }
}

/// The key the environment holds for a known provider.
pub open spec fn known_api_key(provider: KnownProvider, env: EnvView) -> Option<Seq<char>> {
    match provider {
        KnownProvider::Anthropic => match env_var(env.variables, "ANTHROPIC_OAUTH_TOKEN"@) {
            Some(token) => Some(token),
            None => env_var(env.variables, "ANTHROPIC_API_KEY"@),
        },
        KnownProvider::OpenAI => env_var(env.variables, "OPENAI_API_KEY"@),
        KnownProvider::Google => env_var(env.variables, "GEMINI_API_KEY"@),
        KnownProvider::Groq => env_var(env.variables, "GROQ_API_KEY"@),
        KnownProvider::Cerebras => env_var(env.variables, "CEREBRAS_API_KEY"@),
        KnownProvider::Xai => env_var(env.variables, "XAI_API_KEY"@),
        KnownProvider::OpenRouter => env_var(env.variables, "OPENROUTER_API_KEY"@),
        KnownProvider::VercelAiGateway => env_var(env.variables, "AI_GATEWAY_API_KEY"@),
        KnownProvider::Zai => env_var(env.variables, "ZAI_API_KEY"@),
        KnownProvider::Mistral => env_var(env.variables, "MISTRAL_API_KEY"@),
        KnownProvider::Minimax => env_var(env.variables, "MINIMAX_API_KEY"@),
        KnownProvider::MinimaxCn => env_var(env.variables, "MINIMAX_CN_API_KEY"@),
        KnownProvider::GoogleVertex => sentinel_if(has_vertex_adc(env)),
        KnownProvider::AmazonBedrock => sentinel_if(has_bedrock(env)),
    }
}

/// The key the environment holds for a provider. It holds none for a custom
/// provider.
pub open spec fn env_api_key(provider: ProviderView, env: EnvView) -> Option<Seq<char>> {
    match provider {
        ProviderView::Known(known) => known_api_key(known, env),
        ProviderView::Custom(_) => None,
    }
}

/// The value of the first variable of the given name.
fn var(env: &EnvSnapshot, name: &str) -> (value: Option<String>)
    ensures
        value.deep_view() == env_var(env.deep_view().variables, name@),
{
    let ghost all = env.variables.deep_view();
    let mut i: usize = 0;
    assert(all.skip(0) =~= all);
    while i < env.variables.len()
        invariant
            i <= env.variables.len(),
            all == env.variables.deep_view(),
            env_var(all, name@) == env_var(all.skip(i as int), name@),
        decreases env.variables.len() - i,
    {
        assert(all.skip(i as int)[0] == env.variables[i as int].deep_view());
        if str_eq(env.variables[i].0.as_str(), name) {
            return Some(env.variables[i].1.clone());
        }
        assert(all.skip(i as int).skip(1) =~= all.skip(i + 1));
        i += 1;
    }
    None
}

fn var_is_set(env: &EnvSnapshot, name: &str) -> (set: bool)
    ensures
        set == is_set(env.deep_view(), name@),
{
    var(env, name).is_some()
}

/// Whether application default credentials for Vertex AI are in place.
pub fn has_vertex_adc_credentials(env: &EnvSnapshot) -> (present: bool)
    ensures
        present == has_vertex_adc(env.deep_view()),
{
    if var_is_set(env, "GOOGLE_APPLICATION_CREDENTIALS") {
        return env.google_credentials_file_exists;
    }
    if env.default_adc_file_exists {
        let has_project = var_is_set(env, "GOOGLE_CLOUD_PROJECT") || var_is_set(
            env,
            "GCLOUD_PROJECT",
        );
        let has_location = var_is_set(env, "GOOGLE_CLOUD_LOCATION");
        return has_project && has_location;
    }
    false
}

/// Whether AWS credentials for Bedrock are in place.
pub fn has_bedrock_credentials(env: &EnvSnapshot) -> (present: bool)
    ensures
        present == has_bedrock(env.deep_view()),
{
    var_is_set(env, "AWS_PROFILE") || (var_is_set(env, "AWS_ACCESS_KEY_ID") && var_is_set(
        env,
        "AWS_SECRET_ACCESS_KEY",
    )) || var_is_set(env, "AWS_BEARER_TOKEN_BEDROCK") || var_is_set(
        env,
        "AWS_CONTAINER_CREDENTIALS_RELATIVE_URI",
    ) || var_is_set(env, "AWS_CONTAINER_CREDENTIALS_FULL_URI") || var_is_set(
        env,
        "AWS_WEB_IDENTITY_TOKEN_FILE",
    )
}

fn authenticated_if(present: bool) -> (key: Option<String>)
    ensures
        key.deep_view() == sentinel_if(present),
{
    if present {
        Some("<authenticated>".to_owned())
    } else {
        None
    }
}

/// The key the environment holds for a known provider.
pub fn get_env_api_key_for_known(provider: &KnownProvider, env: &EnvSnapshot) -> (key: Option<
    String,
>)
    ensures
        key.deep_view() == known_api_key(*provider, env.deep_view()),
{
    match provider {
        KnownProvider::Anthropic => match var(env, "ANTHROPIC_OAUTH_TOKEN") {
            Some(token) => Some(token),
            None => var(env, "ANTHROPIC_API_KEY"),
        },
        KnownProvider::OpenAI => var(env, "OPENAI_API_KEY"),
        KnownProvider::Google => var(env, "GEMINI_API_KEY"),
        KnownProvider::Groq => var(env, "GROQ_API_KEY"),
        KnownProvider::Cerebras => var(env, "CEREBRAS_API_KEY"),
        KnownProvider::Xai => var(env, "XAI_API_KEY"),
        KnownProvider::OpenRouter => var(env, "OPENROUTER_API_KEY"),
        KnownProvider::VercelAiGateway => var(env, "AI_GATEWAY_API_KEY"),
        KnownProvider::Zai => var(env, "ZAI_API_KEY"),
        KnownProvider::Mistral => var(env, "MISTRAL_API_KEY"),
        KnownProvider::Minimax => var(env, "MINIMAX_API_KEY"),
        KnownProvider::MinimaxCn => var(env, "MINIMAX_CN_API_KEY"),
        KnownProvider::GoogleVertex => authenticated_if(has_vertex_adc_credentials(env)),
        KnownProvider::AmazonBedrock => authenticated_if(has_bedrock_credentials(env)),
    }
}

/// The API key that the environment holds for a provider.
///
/// Returns `None` for a custom provider and where the provider's variable is
/// not set. For Vertex AI and Bedrock, returns `<authenticated>` where ambient
/// credentials are in place.
pub fn get_env_api_key(provider: &Provider, env: &EnvSnapshot) -> (key: Option<String>)
    ensures
        key.deep_view() == env_api_key(provider.deep_view(), env.deep_view()),
{
    match provider {
        Provider::Known(known) => get_env_api_key_for_known(known, env),
        Provider::Custom(_) => None,
    }
}

} // verus!
