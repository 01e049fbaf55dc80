//! Prompt assembly: the translation system prompt with the switch rules
//! spelled out, the per-call user prompt, and the alternatives prompt.

use crate::config::Config;
use crate::normalize::{clean_text_for_translation, normalized_text_spec};
use vstd::prelude::*;

verus! {

/// The system prompt built from the configured prompt and the two target
/// languages, restating the switch rule and an example.
pub open spec fn smart_prompt_spec(custom: Seq<char>, target: Seq<char>, alt: Seq<char>) -> Seq<
    char,
> {
    custom + "\n\n# Translation Rules\n- Primary target language: "@ + target
        + "\n- Alternative target language: "@ + alt
        + "\n\n**IMPORTANT**: \n- If the detected source language is the same as the primary target language ("@
        + target + "), then translate to the alternative target language ("@ + alt
        + ") instead.\n- If the detected source language is different from the primary target language ("@
        + target + "), then translate to the primary target language ("@ + target
        + ").\n\nExample:\n- If text is in "@ + target + " and primary target is "@ + target
        + ", translate to "@ + alt + "\n- If text is in any other language and primary target is "@
        + target + ", translate to "@ + target
}

/// Builds [`smart_prompt_spec`] for a configuration.  The source override
/// plays no part in the prompt; the backends detect the language.
pub fn create_smart_prompt(config: &Config, _source_override: Option<&str>) -> (r: String)
    ensures
        r@ == smart_prompt_spec(
            config.custom_prompt@,
            config.target_language@,
            config.alternative_target_language@,
        ),
{
    let mut s: String = config.custom_prompt.clone();
    s.append("\n\n# Translation Rules\n- Primary target language: ");
    s.append(config.target_language.as_str());
    s.append("\n- Alternative target language: ");
    s.append(config.alternative_target_language.as_str());
    s.append(
        "\n\n**IMPORTANT**: \n- If the detected source language is the same as the primary target language (",
    );
    s.append(config.target_language.as_str());
    s.append("), then translate to the alternative target language (");
    s.append(config.alternative_target_language.as_str());
    s.append(
        ") instead.\n- If the detected source language is different from the primary target language (",
    );
    s.append(config.target_language.as_str());
    s.append("), then translate to the primary target language (");
    s.append(config.target_language.as_str());
    s.append(").\n\nExample:\n- If text is in ");
    s.append(config.target_language.as_str());
    s.append(" and primary target is ");
    s.append(config.target_language.as_str());
    s.append(", translate to ");
    s.append(config.alternative_target_language.as_str());
    s.append("\n- If text is in any other language and primary target is ");
    s.append(config.target_language.as_str());
    s.append(", translate to ");
    s.append(config.target_language.as_str());
    s
}

/// The user prompt the hosted chat backend receives.
pub open spec fn user_prompt_spec(text: Seq<char>) -> Seq<char> {
    "Text to translate: \""@ + normalized_text_spec(text) + "\""@
}

/// Builds [`user_prompt_spec`], cleaning the input first.
pub fn build_user_prompt(text: &str) -> (r: String)
    ensures
        r@ == user_prompt_spec(text@),
{
    let cleaned = clean_text_for_translation(text);
    let mut s: String = "Text to translate: \"".to_owned();
    s.append(cleaned.as_str());
    s.append("\"");
    s
}

/// The user prompt naming the target, as the Azure chat and local backends
/// receive it.
pub open spec fn targeted_user_prompt_spec(target: Seq<char>, text: Seq<char>) -> Seq<char> {
    "Text to translate into "@ + target + ": \""@ + normalized_text_spec(text) + "\""@
}

/// Builds [`targeted_user_prompt_spec`], cleaning the input first.
pub fn build_targeted_user_prompt(target: &str, text: &str) -> (r: String)
    ensures
        r@ == targeted_user_prompt_spec(target@, text@),
{
    let cleaned = clean_text_for_translation(text);
    let mut s: String = "Text to translate into ".to_owned();
    s.append(target);
    s.append(": \"");
    s.append(cleaned.as_str());
    s.append("\"");
    s
}

/// The prompt that asks a chat backend for alternative phrasings of a
/// selection in the given target language.
pub open spec fn alternatives_prompt_spec(target: Seq<char>, selected: Seq<char>) -> Seq<char> {
    "Provide up to 5 different word choices or synonyms for the following text when translated into "@
        + target
        + ". Return ONLY the alternative words/phrases as a JSON array under the key 'alternatives'. Do not include the original word. If no alternatives exist, return an empty array. Do not include any other text or explanation.\n\nText: \""@
        + selected
        + "\"\n\nRespond in JSON format like this:\n{\"alternatives\": [\"Alternative 1\", \"Alternative 2\", \"Alternative 3\"]}"@
}

/// Builds [`alternatives_prompt_spec`].
pub fn build_alternatives_prompt(target: &str, selected: &str) -> (r: String)
    ensures
        r@ == alternatives_prompt_spec(target@, selected@),
{
    let mut s: String =
        "Provide up to 5 different word choices or synonyms for the following text when translated into ".to_owned();
    s.append(target);
    s.append(
        ". Return ONLY the alternative words/phrases as a JSON array under the key 'alternatives'. Do not include the original word. If no alternatives exist, return an empty array. Do not include any other text or explanation.\n\nText: \"",
    );
    s.append(selected);
    s.append(
        "\"\n\nRespond in JSON format like this:\n{\"alternatives\": [\"Alternative 1\", \"Alternative 2\", \"Alternative 3\"]}",
    );
    s
}

} // verus!
