//! The MiniMax models.

use vstd::prelude::*;
use crate::types::api::{Api, KnownProvider, Provider, ProviderView};
use crate::types::model::{InputType, Model, ModelView};

verus! {

/// The endpoint of MiniMax's global service.
pub open spec fn global_base_url() -> Seq<char> {
    "https://api.minimax.io/v1/chat/completions"@
}

/// The endpoint of MiniMax's service in China.
pub open spec fn cn_base_url() -> Seq<char> {
    "https://api.minimax.chat/v1/chat/completions"@
}

/// A MiniMax model: a text-only reasoning model in the MiniMax dialect with a
/// context window of 204800 tokens and at most 16384 output tokens.
pub open spec fn minimax_model(
    id: Seq<char>,
    name: Seq<char>,
    provider: KnownProvider,
    base_url: Seq<char>,
) -> ModelView {
    ModelView {
        id,
        name,
        api: Api::MinimaxCompletions,
        provider: ProviderView::Known(provider),
        base_url,
        reasoning: true,
        input: seq![InputType::Text],
        context_window: 204_800,
        max_tokens: 16_384,
        headers: None,
        compat: None,
    }
}

fn build_minimax_model(id: &str, name: &str, provider: KnownProvider, base_url: &str) -> (model:
    Model)
    ensures
        model.deep_view() == minimax_model(id@, name@, provider, base_url@),
{
    let mut input: Vec<InputType> = Vec::new();
    input.push(InputType::Text);
    assert(input@ =~= seq![InputType::Text]);
    Model {
        id: id.to_owned(),
        name: name.to_owned(),
        api: Api::MinimaxCompletions,
        provider: Provider::Known(provider),
        base_url: base_url.to_owned(),
        reasoning: true,
        input,
        context_window: 204_800,
        max_tokens: 16_384,
        headers: None,
        compat: None,
    }
}

/// MiniMax M2.5 on the global service.
pub fn minimax_m2_5() -> (model: Model)
    ensures
        model.deep_view() == minimax_model(
            "MiniMax-M2.5"@,
            "MiniMax M2.5"@,
            KnownProvider::Minimax,
            global_base_url(),
        ),
{
    build_minimax_model(
        "MiniMax-M2.5",
        "MiniMax M2.5",
        KnownProvider::Minimax,
        "https://api.minimax.io/v1/chat/completions",
    )
}

/// MiniMax M2.5 Highspeed on the global service.
pub fn minimax_m2_5_highspeed() -> (model: Model)
    ensures
        model.deep_view() == minimax_model(
            "MiniMax-M2.5-highspeed"@,
            "MiniMax M2.5 Highspeed"@,
            KnownProvider::Minimax,
            global_base_url(),
        ),
{
    build_minimax_model(
        "MiniMax-M2.5-highspeed",
        "MiniMax M2.5 Highspeed",
        KnownProvider::Minimax,
        "https://api.minimax.io/v1/chat/completions",
    )
}

/// MiniMax M2.1 on the global service.
pub fn minimax_m2_1() -> (model: Model)
    ensures
        model.deep_view() == minimax_model(
            "MiniMax-M2.1"@,
            "MiniMax M2.1"@,
            KnownProvider::Minimax,
            global_base_url(),
        ),
{
    build_minimax_model(
        "MiniMax-M2.1",
        "MiniMax M2.1",
        KnownProvider::Minimax,
        "https://api.minimax.io/v1/chat/completions",
    )
}

/// MiniMax M2.1 Highspeed on the global service.
pub fn minimax_m2_1_highspeed() -> (model: Model)
    ensures
        model.deep_view() == minimax_model(
            "MiniMax-M2.1-highspeed"@,
            "MiniMax M2.1 Highspeed"@,
            KnownProvider::Minimax,
            global_base_url(),
        ),
{
    build_minimax_model(
        "MiniMax-M2.1-highspeed",
        "MiniMax M2.1 Highspeed",
        KnownProvider::Minimax,
        "https://api.minimax.io/v1/chat/completions",
    )
}

/// MiniMax M2 on the global service.
pub fn minimax_m2() -> (model: Model)
    ensures
        model.deep_view() == minimax_model(
            "MiniMax-M2"@,
            "MiniMax M2"@,
            KnownProvider::Minimax,
            global_base_url(),
        ),
{
    build_minimax_model(
        "MiniMax-M2",
        "MiniMax M2",
        KnownProvider::Minimax,
        "https://api.minimax.io/v1/chat/completions",
    )
}

/// MiniMax M2.5 on the service in China.
pub fn minimax_cn_m2_5() -> (model: Model)
    ensures
        model.deep_view() == minimax_model(
            "MiniMax-M2.5"@,
            "MiniMax M2.5 (CN)"@,
            KnownProvider::MinimaxCn,
            cn_base_url(),
        ),
{
    build_minimax_model(
        "MiniMax-M2.5",
        "MiniMax M2.5 (CN)",
        KnownProvider::MinimaxCn,
        "https://api.minimax.chat/v1/chat/completions",
    )
}

/// MiniMax M2.5 Highspeed on the service in China.
pub fn minimax_cn_m2_5_highspeed() -> (model: Model)
    ensures
        model.deep_view() == minimax_model(
            "MiniMax-M2.5-highspeed"@,
            "MiniMax M2.5 Highspeed (CN)"@,
            KnownProvider::MinimaxCn,
            cn_base_url(),
        ),
{
    build_minimax_model(
        "MiniMax-M2.5-highspeed",
        "MiniMax M2.5 Highspeed (CN)",
        KnownProvider::MinimaxCn,
        "https://api.minimax.chat/v1/chat/completions",
    )
}

/// MiniMax M2.1 on the service in China.
pub fn minimax_cn_m2_1() -> (model: Model)
    ensures
        model.deep_view() == minimax_model(
            "MiniMax-M2.1"@,
            "MiniMax M2.1 (CN)"@,
            KnownProvider::MinimaxCn,
            cn_base_url(),
        ),
{
    build_minimax_model(
        "MiniMax-M2.1",
        "MiniMax M2.1 (CN)",
        KnownProvider::MinimaxCn,
        "https://api.minimax.chat/v1/chat/completions",
    )
}

/// MiniMax M2.1 Highspeed on the service in China.
pub fn minimax_cn_m2_1_highspeed() -> (model: Model)
    ensures
        model.deep_view() == minimax_model(
            "MiniMax-M2.1-highspeed"@,
            "MiniMax M2.1 Highspeed (CN)"@,
            KnownProvider::MinimaxCn,
            cn_base_url(),
        ),
{
    build_minimax_model(
        "MiniMax-M2.1-highspeed",
        "MiniMax M2.1 Highspeed (CN)",
        KnownProvider::MinimaxCn,
        "https://api.minimax.chat/v1/chat/completions",
    )
}

/// MiniMax M2 on the service in China.
pub fn minimax_cn_m2() -> (model: Model)
    ensures
        model.deep_view() == minimax_model(
            "MiniMax-M2"@,
            "MiniMax M2 (CN)"@,
            KnownProvider::MinimaxCn,
            cn_base_url(),
        ),
{
    build_minimax_model(
        "MiniMax-M2",
        "MiniMax M2 (CN)",
        KnownProvider::MinimaxCn,
        "https://api.minimax.chat/v1/chat/completions",
    )
}

} // verus!
