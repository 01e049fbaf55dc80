//! The chat-style adapters: request planning for the hosted chat backend
//! and its enterprise-hosted variant, and the shared reading of a
//! chat-completions reply envelope.  The HTTP call itself stays with the
//! caller.

use crate::config::Config;
use crate::extract::extraction_of;
use crate::json::{
    escape_json, escape_json_spec, json_get, json_get_spec, parse_json_chars, parse_json_spec,
    JsonModel, JsonValue,
};
use crate::language::same_language;
use crate::prompt::{
    build_alternatives_prompt, build_targeted_user_prompt, build_user_prompt, create_smart_prompt,
    smart_prompt_spec, targeted_user_prompt_spec, user_prompt_spec,
};
use crate::provider::{
    developer_role_name, is_developer_role_name, is_reasoning_model_name, reasoning_model_name,
};
use crate::text::{contains_sub, contains_chars, starts_with_chars, str_chars, trim_chars};
use crate::translation::{parse_response_content, Error, TranslationResult};
use vstd::prelude::*;

verus! {

/// One planned HTTP request against a chat backend.
#[derive(Debug, Clone)]
pub struct ChatRequestPlan {
    pub url: String,
    pub auth_header_name: String,
    pub auth_header_value: String,
    pub body: String,
}

/// The detailed formatting instructions a non-reasoning model receives.
pub open spec fn formatting_rules_spec() -> Seq<char> {
    "\n\nIMPORTANT FORMATTING RULES:\n- Always respond with valid JSON containing 'detected_language' and 'translated_text' fields\n- Preserve line breaks and paragraph structure in the translation\n- Use actual newline characters (\\n) in the JSON string value, not escaped \\\\n\n- Do NOT escape newlines in the JSON response - use literal newlines\n\nExample response format:\n{\n  \"detected_language\": \"English\",\n  \"translated_text\": \"Line 1\\nLine 2\\n\\nNew paragraph\"\n}"@
}

fn formatting_rules() -> (r: &'static str)
    ensures
        r@ == formatting_rules_spec(),
{
    "\n\nIMPORTANT FORMATTING RULES:\n- Always respond with valid JSON containing 'detected_language' and 'translated_text' fields\n- Preserve line breaks and paragraph structure in the translation\n- Use actual newline characters (\\n) in the JSON string value, not escaped \\\\n\n- Do NOT escape newlines in the JSON response - use literal newlines\n\nExample response format:\n{\n  \"detected_language\": \"English\",\n  \"translated_text\": \"Line 1\\nLine 2\\n\\nNew paragraph\"\n}"
}

/// The message block of a chat request body.
pub open spec fn chat_messages_spec(
    system_role: Seq<char>,
    system_content: Seq<char>,
    user_content: Seq<char>,
) -> Seq<char> {
    "\"messages\":[{\"role\":\""@ + escape_json_spec(system_role) + "\",\"content\":\""@
        + escape_json_spec(system_content) + "\"},{\"role\":\"user\",\"content\":\""@
        + escape_json_spec(user_content) + "\"}]"@
}

fn append_chat_messages(body: &mut String, system_role: &str, system_content: &str, user: &str)
    ensures
        final(body)@ == old(body)@ + chat_messages_spec(system_role@, system_content@, user@),
{
    body.append("\"messages\":[{\"role\":\"");
    body.append(escape_json(system_role).as_str());
    body.append("\",\"content\":\"");
    body.append(escape_json(system_content).as_str());
    body.append("\"},{\"role\":\"user\",\"content\":\"");
    body.append(escape_json(user).as_str());
    body.append("\"}]");
}

/// Which role carries the system message for the hosted chat backend.
pub open spec fn chat_system_role_spec(model_name: Seq<char>) -> Seq<char> {
    if reasoning_model_name(model_name) && developer_role_name(model_name) {
        "developer"@
    } else {
        "system"@
    }
}

fn chat_system_role(model_name: &str) -> (r: &'static str)
    ensures
        r@ == chat_system_role_spec(model_name@),
{
    if is_reasoning_model_name(model_name) && is_developer_role_name(model_name) {
        "developer"
    } else {
        "system"
    }
}

/// The system message of the hosted chat backend: simplified instructions
/// for reasoning models, detailed formatting rules otherwise.
pub open spec fn openai_system_content_spec(model: Seq<char>, smart: Seq<char>) -> Seq<char> {
    if reasoning_model_name(model) {
        "Formatting re-enabled - please respond with valid JSON.\n\n"@ + smart
            + "\n\nRespond with JSON containing 'detected_language' and 'translated_text' fields."@
    } else {
        smart + formatting_rules_spec()
    }
}

/// The parameter block of the hosted chat backend: a reasoning model takes
/// a completion-token limit, an effort value and, for the newest family, a
/// verbosity; others take a token limit and a temperature.
pub open spec fn openai_params_spec(model: Seq<char>, effort: Option<Seq<char>>) -> Seq<char> {
    if reasoning_model_name(model) {
        let e = match effort {
            Some(e) => e,
            None => "low"@,
        };
        ",\"max_completion_tokens\":800,\"reasoning\":{\"effort\":\""@ + escape_json_spec(e)
            + "\"}"@ + (if "gpt-5"@.is_prefix_of(model) {
            ",\"verbosity\":\"medium\""@
        } else {
            Seq::<char>::empty()
        })
    } else {
        ",\"max_tokens\":800,\"temperature\":0.3"@
    }
}

/// The view of an optional string.
pub open spec fn opt_view(o: Option<String>) -> Option<Seq<char>> {
    match o {
        Some(s) => Some(s@),
        None => None,
    }
}

/// The whole body of a hosted-chat translate request.
pub open spec fn openai_body_spec(
    model: Seq<char>,
    custom: Seq<char>,
    target: Seq<char>,
    alt: Seq<char>,
    effort: Option<Seq<char>>,
    text: Seq<char>,
) -> Seq<char> {
    "{\"model\":\""@ + escape_json_spec(model) + "\","@ + chat_messages_spec(
        chat_system_role_spec(model),
        openai_system_content_spec(model, smart_prompt_spec(custom, target, alt)),
        user_prompt_spec(text),
    ) + openai_params_spec(model, effort) + "}"@
}

/// Plans one translate call against the hosted chat backend.
pub fn openai_translate_plan(config: &Config, text: &str) -> (r: ChatRequestPlan)
    ensures
        r.url@ == "https://api.openai.com/v1/chat/completions"@,
        r.auth_header_name@ == "Authorization"@,
        r.auth_header_value@ == "Bearer "@ + config.openai_api_key@,
        r.body@ == openai_body_spec(
            config.model@,
            config.custom_prompt@,
            config.target_language@,
            config.alternative_target_language@,
            opt_view(config.reasoning_effort),
            text@,
        ),
{
    let user = build_user_prompt(text);
    let smart = create_smart_prompt(config, None);
    let role = chat_system_role(config.model.as_str());
    let reasoning = is_reasoning_model_name(config.model.as_str());
    let mut system_content: String;
    if reasoning {
        system_content = "Formatting re-enabled - please respond with valid JSON.\n\n".to_owned();
        system_content.append(smart.as_str());
        system_content.append(
            "\n\nRespond with JSON containing 'detected_language' and 'translated_text' fields.",
        );
    } else {
        system_content = smart;
        system_content.append(formatting_rules());
    }
    let mut body: String = "{\"model\":\"".to_owned();
    body.append(escape_json(config.model.as_str()).as_str());
    body.append("\",");
    append_chat_messages(&mut body, role, system_content.as_str(), user.as_str());
    if reasoning {
        body.append(",\"max_completion_tokens\":800,\"reasoning\":{\"effort\":\"");
        let effort: &str = match &config.reasoning_effort {
            Option::Some(e) => e.as_str(),
            Option::None => "low",
        };
        body.append(escape_json(effort).as_str());
        body.append("\"}");
        let mv = str_chars(config.model.as_str());
        if starts_with_chars(&mv, &str_chars("gpt-5")) {
            body.append(",\"verbosity\":\"medium\"");
        }
    } else {
        body.append(",\"max_tokens\":800,\"temperature\":0.3");
    }
    body.append("}");
    let mut auth: String = "Bearer ".to_owned();
    auth.append(config.openai_api_key.as_str());
    ChatRequestPlan {
        url: "https://api.openai.com/v1/chat/completions".to_owned(),
        auth_header_name: "Authorization".to_owned(),
        auth_header_value: auth,
        body,
    }
}

/// The model or deployment name that governs the Azure variant's behavior:
/// the deployment name when set, else the configured model.
pub open spec fn azure_model_name(c: Config) -> Seq<char> {
    if c.azure_deployment_name@.len() > 0 {
        c.azure_deployment_name@
    } else {
        c.model@
    }
}

/// The Azure variant checks both names for a reasoning-model family.
pub open spec fn azure_is_reasoning(c: Config) -> bool {
    reasoning_model_name(c.azure_deployment_name@) || reasoning_model_name(c.model@)
}

/// Whether the endpoint takes the Models API layout.
pub open spec fn is_models_endpoint(endpoint: Seq<char>) -> bool {
    contains_sub(endpoint, "services.ai.azure.com"@)
}

/// The Azure variant's request URL, by endpoint layout.
pub open spec fn azure_url_spec(c: Config) -> Seq<char> {
    if is_models_endpoint(c.azure_endpoint@) {
        crate::text::trim_slashes_spec(c.azure_endpoint@) + "/models/chat/completions?api-version="@
            + c.azure_api_version@
    } else {
        crate::text::trim_slashes_spec(c.azure_endpoint@) + "/openai/deployments/"@
            + c.azure_deployment_name@ + "/chat/completions?api-version="@ + c.azure_api_version@
    }
}

/// Whether the configured prompt asks for alternative phrasings.
pub open spec fn is_alternatives_prompt(custom: Seq<char>) -> bool {
    contains_sub(custom, "alternatives"@)
}

/// Whether the Azure variant can make no call: neither a model nor a
/// deployment name is configured.
pub open spec fn azure_blank(c: Config) -> bool {
    crate::text::trim_spec(c.model@).len() == 0 && crate::text::trim_spec(
        c.azure_deployment_name@,
    ).len() == 0
}

/// The Azure variant's system message.
pub open spec fn azure_system_content_spec(c: Config) -> Seq<char> {
    let smart = smart_prompt_spec(
        c.custom_prompt@,
        c.target_language@,
        c.alternative_target_language@,
    );
    if is_alternatives_prompt(c.custom_prompt@) {
        if azure_is_reasoning(c) {
            "Please respond with valid JSON.\n\n"@ + c.custom_prompt@
        } else {
            c.custom_prompt@
        }
    } else if azure_is_reasoning(c) {
        if "gpt-5"@.is_prefix_of(azure_model_name(c)) {
            smart
                + "\n\nPlease respond with valid JSON containing 'detected_language' and 'translated_text' fields."@
        } else {
            "Please respond with valid JSON.\n\n"@ + smart
                + "\n\nRespond with JSON containing 'detected_language' and 'translated_text' fields."@
        }
    } else {
        smart + formatting_rules_spec()
    }
}

/// The Azure variant's user message.
pub open spec fn azure_user_spec(c: Config, text: Seq<char>) -> Seq<char> {
    if is_alternatives_prompt(c.custom_prompt@) {
        "\""@ + crate::normalize::normalized_text_spec(text) + "\""@
    } else {
        targeted_user_prompt_spec(c.target_language@, text)
    }
}

/// The role carrying the Azure variant's system message.
pub open spec fn azure_role_spec(c: Config) -> Seq<char> {
    if azure_is_reasoning(c) && developer_role_name(azure_model_name(c)) {
        "developer"@
    } else {
        "system"@
    }
}

/// The Azure variant's parameter block: per-family token limits and effort,
/// JSON mode for reasoning models, temperature otherwise.
pub open spec fn azure_params_spec(c: Config) -> Seq<char> {
    if azure_is_reasoning(c) {
        let head = if "gpt-5"@.is_prefix_of(azure_model_name(c)) {
            ",\"max_completion_tokens\":1000,\"reasoning_effort\":\"minimal\""@
        } else if "gpt-4.1"@.is_prefix_of(azure_model_name(c)) {
            ",\"max_completion_tokens\":800,\"reasoning_effort\":\"low\""@
        } else {
            let e = match opt_view(c.reasoning_effort) {
                Some(e) => e,
                None => "low"@,
            };
            ",\"max_completion_tokens\":800,\"reasoning_effort\":\""@ + escape_json_spec(e)
                + "\""@
        };
        head + ",\"response_format\":{\"type\":\"json_object\"}"@
    } else {
        ",\"max_tokens\":800,\"temperature\":0.3"@
    }
}

/// The trailing model field, present only on the Models API layout.
pub open spec fn azure_model_field_spec(c: Config) -> Seq<char> {
    if is_models_endpoint(c.azure_endpoint@) && c.azure_deployment_name@.len() > 0 {
        ",\"model\":\""@ + escape_json_spec(c.azure_deployment_name@) + "\""@
    } else {
        Seq::<char>::empty()
    }
}

/// The whole body of an Azure chat request.
pub open spec fn azure_body_spec(c: Config, text: Seq<char>) -> Seq<char> {
    "{"@ + chat_messages_spec(azure_role_spec(c), azure_system_content_spec(c), azure_user_spec(c, text))
        + azure_params_spec(c) + azure_model_field_spec(c) + "}"@
}

/// Plans one call against the Azure chat variant.  Fails fast when neither
/// a model nor a deployment name is configured.
#[verifier::rlimit(100)]
pub fn azure_translate_plan(config: &Config, text: &str) -> (r: Result<ChatRequestPlan, Error>)
    ensures
        azure_blank(*config) <==> (r matches Err(e) && (e matches Error::ApiError(m) && m@
            == "Model / deployment not configured for Azure OpenAI provider"@)),
        !azure_blank(*config) ==> (r matches Ok(p) && p.url@ == azure_url_spec(*config)
            && p.auth_header_name@ == "api-key"@ && p.auth_header_value@ == config.azure_api_key@
            && p.body@ == azure_body_spec(*config, text@)),
{
    let model_trim = trim_chars(&str_chars(config.model.as_str()));
    let dep_trim = trim_chars(&str_chars(config.azure_deployment_name.as_str()));
    if model_trim.len() == 0 && dep_trim.len() == 0 {
        return Err(
            Error::ApiError(
                "Model / deployment not configured for Azure OpenAI provider".to_owned(),
            ),
        );
    }
    let model_name: &String = if !config.azure_deployment_name.as_str().is_empty() {
        &config.azure_deployment_name
    } else {
        &config.model
    };
    let reasoning = is_reasoning_model_name(config.azure_deployment_name.as_str())
        || is_reasoning_model_name(config.model.as_str());
    let alternatives = contains_chars(
        &str_chars(config.custom_prompt.as_str()),
        &str_chars("alternatives"),
    );
    let mn = str_chars(model_name.as_str());
    let gpt5 = starts_with_chars(&mn, &str_chars("gpt-5"));
    let gpt41 = starts_with_chars(&mn, &str_chars("gpt-4.1"));
    // System message.
    let mut system_content: String;
    if alternatives {
        if reasoning {
            system_content = "Please respond with valid JSON.\n\n".to_owned();
            system_content.append(config.custom_prompt.as_str());
        } else {
            system_content = config.custom_prompt.clone();
        }
    } else {
        let smart = create_smart_prompt(config, None);
        if reasoning {
            if gpt5 {
                system_content = smart;
                system_content.append(
                    "\n\nPlease respond with valid JSON containing 'detected_language' and 'translated_text' fields.",
                );
            } else {
                system_content = "Please respond with valid JSON.\n\n".to_owned();
                system_content.append(smart.as_str());
                system_content.append(
                    "\n\nRespond with JSON containing 'detected_language' and 'translated_text' fields.",
                );
            }
        } else {
            system_content = smart;
            system_content.append(formatting_rules());
        }
    }
    // User message.
    let user: String;
    if alternatives {
        let cleaned = crate::normalize::clean_text_for_translation(text);
        let mut u: String = "\"".to_owned();
        u.append(cleaned.as_str());
        u.append("\"");
        user = u;
    } else {
        user = build_targeted_user_prompt(config.target_language.as_str(), text);
    }
    // Role.
    let role: &str = if reasoning && is_developer_role_name(model_name.as_str()) {
        "developer"
    } else {
        "system"
    };
    // Body.
    let mut body: String = "{".to_owned();
    append_chat_messages(&mut body, role, system_content.as_str(), user.as_str());
    if reasoning {
        if gpt5 {
            body.append(",\"max_completion_tokens\":1000,\"reasoning_effort\":\"minimal\"");
        } else if gpt41 {
            body.append(",\"max_completion_tokens\":800,\"reasoning_effort\":\"low\"");
        } else {
            body.append(",\"max_completion_tokens\":800,\"reasoning_effort\":\"");
            let effort: &str = match &config.reasoning_effort {
                Option::Some(e) => e.as_str(),
                Option::None => "low",
            };
            body.append(escape_json(effort).as_str());
            body.append("\"");
        }
        body.append(",\"response_format\":{\"type\":\"json_object\"}");
    } else {
        body.append(",\"max_tokens\":800,\"temperature\":0.3");
    }
    let models_endpoint = contains_chars(
        &str_chars(config.azure_endpoint.as_str()),
        &str_chars("services.ai.azure.com"),
    );
    if models_endpoint && !config.azure_deployment_name.as_str().is_empty() {
        body.append(",\"model\":\"");
        body.append(escape_json(config.azure_deployment_name.as_str()).as_str());
        body.append("\"");
    }
    body.append("}");
    // URL.
    let trimmed = crate::text::trim_trailing_slashes(config.azure_endpoint.as_str());
    let mut url: String = crate::text::chars_to_string(&trimmed);
    if models_endpoint {
        url.append("/models/chat/completions?api-version=");
        url.append(config.azure_api_version.as_str());
    } else {
        url.append("/openai/deployments/");
        url.append(config.azure_deployment_name.as_str());
        url.append("/chat/completions?api-version=");
        url.append(config.azure_api_version.as_str());
    }
    Ok(
        ChatRequestPlan {
            url,
            auth_header_name: "api-key".to_owned(),
            auth_header_value: config.azure_api_key.clone(),
            body,
        },
    )
}

/// The content a chat-completions reply carries, or the shape error that
/// explains what was missing.
pub open spec fn chat_content_of(m: JsonModel) -> Result<Seq<char>, Seq<char>> {
    match json_get_spec(m, "choices"@) {
        Some(JsonModel::Array(choices)) => {
            if choices.len() == 0 {
                Err("Empty 'choices' array in response"@)
            } else {
                match json_get_spec(choices[0], "message"@) {
                    Some(JsonModel::Null) => Err("No 'message' object in first choice"@),
                    None => Err("No 'message' object in first choice"@),
                    Some(msg) => match json_get_spec(msg, "content"@) {
                        Some(JsonModel::Text(c)) => Ok(c),
                        _ => Err("No 'content' field in message or content is not a string"@),
                    },
                }
            }
        },
        _ => Err("No 'choices' array in response"@),
    }
}

/// Reads the assistant content out of a parsed chat-completions reply.
pub fn extract_chat_content(v: &JsonValue) -> (r: Result<String, Error>)
    ensures
        match chat_content_of(v@) {
            Ok(c) => r matches Ok(s) && s@ == c,
            Err(m) => r matches Err(e) && (e matches Error::ApiError(msg) && msg@ == m),
        },
{
    let choices_v = match json_get(v, &str_chars("choices")) {
        Some(c) => c,
        None => {
            return Err(Error::ApiError("No 'choices' array in response".to_owned()));
        },
    };
    let choices = match choices_v {
        JsonValue::Array(items) => items,
        _ => {
            return Err(Error::ApiError("No 'choices' array in response".to_owned()));
        },
    };
    if choices.len() == 0 {
        return Err(Error::ApiError("Empty 'choices' array in response".to_owned()));
    }
    proof {
        crate::json::lemma_json_models_index(choices@, 0);
    }
    let first = &choices[0];
    let msg = match json_get(first, &str_chars("message")) {
        Some(m) => m,
        None => {
            return Err(Error::ApiError("No 'message' object in first choice".to_owned()));
        },
    };
    match msg {
        JsonValue::Null => {
            return Err(Error::ApiError("No 'message' object in first choice".to_owned()));
        },
        _ => {},
    }
    match json_get(msg, &str_chars("content")) {
        Some(c) => {
            match c {
                JsonValue::Text(t) => Ok(crate::text::chars_to_string(t)),
                _ => Err(
                    Error::ApiError(
                        "No 'content' field in message or content is not a string".to_owned(),
                    ),
                ),
            }
        },
        None => Err(
            Error::ApiError(
                "No 'content' field in message or content is not a string".to_owned(),
            ),
        ),
    }
}

/// What decoding a whole chat reply yields: the shape error, or the decoded
/// translation before the language switch.
pub open spec fn chat_reply_of(response_text: Seq<char>) -> Result<(Seq<char>, Seq<char>), Seq<
    char,
>> {
    match parse_json_spec(response_text) {
        Some(m) => match chat_content_of(m) {
            Ok(content) => Ok(extraction_of(content)),
            Err(e) => Err(e),
        },
        None => Err("Response body is not valid JSON"@),
    }
}

/// Decodes a chat reply into a translation, applying the language switch.
pub fn parse_chat_response(
    response_text: &str,
    primary_target: &str,
    alternative_target: &str,
) -> (r: Result<TranslationResult, Error>)
    ensures
        match chat_reply_of(response_text@) {
            Ok(fields) => r matches Ok(t) && t.detected_language@ == fields.0
                && t.translated_text@ == fields.1 && (same_language(fields.0, primary_target@)
                ==> t.target_language@ == alternative_target@) && (!same_language(
                fields.0,
                primary_target@,
            ) ==> t.target_language@ == primary_target@),
            Err(m) => r matches Err(e) && (e matches Error::ApiError(msg) && msg@ == m),
        },
{
    let rv = str_chars(response_text);
    let parsed = match parse_json_chars(&rv) {
        Some(p) => p,
        None => {
            return Err(Error::ApiError("Response body is not valid JSON".to_owned()));
        },
    };
    let content = match extract_chat_content(&parsed) {
        Ok(c) => c,
        Err(e) => {
            return Err(e);
        },
    };
    Ok(parse_response_content(content.as_str(), primary_target, alternative_target))
}

/// Reads the raw assistant content out of a chat reply, for the
/// alternatives flow, whose caller parses the content itself.
pub fn parse_chat_response_raw(response_text: &str) -> (r: Result<String, Error>)
    ensures
        match parse_json_spec(response_text@) {
            Some(m) => match chat_content_of(m) {
                Ok(c) => r matches Ok(s) && s@ == c,
                Err(msg) => r matches Err(e) && (e matches Error::ApiError(t) && t@ == msg),
            },
            None => r matches Err(e) && (e matches Error::ApiError(t) && t@
                == "Response body is not valid JSON"@),
        },
{
    let rv = str_chars(response_text);
    let parsed = match parse_json_chars(&rv) {
        Some(p) => p,
        None => {
            return Err(Error::ApiError("Response body is not valid JSON".to_owned()));
        },
    };
    extract_chat_content(&parsed)
}

} // verus!
