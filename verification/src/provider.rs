//! Provider selection over the fixed backend set, and the shared detection
//! of reasoning-model names.

use crate::language::{lower_of, to_lowercase};
use crate::text::{eq_chars, starts_with_chars, str_chars};
use vstd::prelude::*;

verus! {

/// The fixed set of backends.
#[derive(Debug, Clone, Copy, PartialEq, Eq, Structural)]
pub enum ProviderKind {
    OpenAI,
    AzureOpenAI,
    AzureTranslator,
    Ollama,
}

/// Which backend a provider identifier selects.  Unknown identifiers fall
/// back to the hosted chat backend, so selection never fails.
pub open spec fn provider_for(s: Seq<char>) -> ProviderKind {
    if s == "openai"@ {
        ProviderKind::OpenAI
    } else if s == "azure_openai"@ {
        ProviderKind::AzureOpenAI
    } else if s == "azure_translator"@ {
        ProviderKind::AzureTranslator
    } else if s == "ollama"@ {
        ProviderKind::Ollama
    } else {
        ProviderKind::OpenAI
    }
}

/// Selects the backend for a configured provider identifier.
pub fn create_provider(api_provider: &str) -> (p: ProviderKind)
    ensures
        p == provider_for(api_provider@),
{
    let v = str_chars(api_provider);
    if eq_chars(&v, &str_chars("openai")) {
        ProviderKind::OpenAI
    } else if eq_chars(&v, &str_chars("azure_openai")) {
        ProviderKind::AzureOpenAI
    } else if eq_chars(&v, &str_chars("azure_translator")) {
        ProviderKind::AzureTranslator
    } else if eq_chars(&v, &str_chars("ollama")) {
        ProviderKind::Ollama
    } else {
        ProviderKind::OpenAI
    }
}

/// Whether a model or deployment name belongs to a reasoning model family,
/// checked on the lowercased name.
pub open spec fn reasoning_model_name(s: Seq<char>) -> bool {
    ||| "gpt-5"@.is_prefix_of(lower_of(s))
    ||| "gpt5"@.is_prefix_of(lower_of(s))
    ||| "o1"@.is_prefix_of(lower_of(s))
    ||| "o3"@.is_prefix_of(lower_of(s))
    ||| "o4-mini"@.is_prefix_of(lower_of(s))
    ||| "codex-mini"@.is_prefix_of(lower_of(s))
}

/// Runtime test for [`reasoning_model_name`].
pub fn is_reasoning_model_name(name: &str) -> (r: bool)
    ensures
        r == reasoning_model_name(name@),
{
    let lower = to_lowercase(name);
    let lv = str_chars(lower.as_str());
    starts_with_chars(&lv, &str_chars("gpt-5")) || starts_with_chars(&lv, &str_chars("gpt5"))
        || starts_with_chars(&lv, &str_chars("o1")) || starts_with_chars(&lv, &str_chars("o3"))
        || starts_with_chars(&lv, &str_chars("o4-mini")) || starts_with_chars(
        &lv,
        &str_chars("codex-mini"),
    )
}

/// Whether a model name takes the `developer` role for its system message:
/// the o-family names, checked on the name as configured.
pub open spec fn developer_role_name(s: Seq<char>) -> bool {
    "o1"@.is_prefix_of(s) || "o3"@.is_prefix_of(s) || "o4-mini"@.is_prefix_of(s)
}

/// Runtime test for [`developer_role_name`].
pub fn is_developer_role_name(name: &str) -> (r: bool)
    ensures
        r == developer_role_name(name@),
{
    let v = str_chars(name);
    starts_with_chars(&v, &str_chars("o1")) || starts_with_chars(&v, &str_chars("o3"))
        || starts_with_chars(&v, &str_chars("o4-mini"))
}

} // verus!
