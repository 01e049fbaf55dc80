//! The dedicated machine-translation adapter: language-name/code tables,
//! request planning for detection and translation, and the reading of the
//! translate-array reply.  The two HTTP calls stay with the caller.

use crate::config::Config;
use crate::json::{
    escape_json, escape_json_spec, json_get, json_get_spec, parse_json_chars, parse_json_spec,
    JsonModel, JsonValue,
};
use crate::language::{lower_of, to_lowercase};
use crate::normalize::{clean_text_for_translation, normalized_text_spec};
use crate::text::{chars_to_string, eq_chars, str_chars, trim_slashes_spec, trim_trailing_slashes};
use crate::translation::{Error, TranslationResult};
use vstd::prelude::*;

verus! {

/// The full name for a language code, over the lowercased code; an
/// unmapped code passes through unchanged.
pub open spec fn language_name_for(code: Seq<char>) -> Seq<char> {
    let lc = lower_of(code);
    if lc == "en"@ {
        "English"@
    } else if lc == "es"@ {
        "Spanish"@
    } else if lc == "fr"@ {
        "French"@
    } else if lc == "de"@ {
        "German"@
    } else if lc == "it"@ {
        "Italian"@
    } else if lc == "pt"@ {
        "Portuguese"@
    } else if lc == "ru"@ {
        "Russian"@
    } else if lc == "ja"@ {
        "Japanese"@
    } else if lc == "ko"@ {
        "Korean"@
    } else if lc == "zh"@ || lc == "zh-hans"@ {
        "Chinese"@
    } else if lc == "zh-hant"@ {
        "Chinese (Traditional)"@
    } else if lc == "ar"@ {
        "Arabic"@
    } else if lc == "hi"@ {
        "Hindi"@
    } else if lc == "nl"@ {
        "Dutch"@
    } else if lc == "sv"@ {
        "Swedish"@
    } else if lc == "no"@ || lc == "nb"@ {
        "Norwegian"@
    } else if lc == "da"@ {
        "Danish"@
    } else if lc == "fi"@ {
        "Finnish"@
    } else if lc == "pl"@ {
        "Polish"@
    } else if lc == "tr"@ {
        "Turkish"@
    } else if lc == "cs"@ {
        "Czech"@
    } else if lc == "hu"@ {
        "Hungarian"@
    } else {
        code
    }
}

/// The translator's code for a language name, over the lowercased name; an
/// unmapped name passes through unchanged.
pub open spec fn language_code_for(name: Seq<char>) -> Seq<char> {
    let ln = lower_of(name);
    if ln == "english"@ {
        "en"@
    } else if ln == "spanish"@ {
        "es"@
    } else if ln == "french"@ {
        "fr"@
    } else if ln == "german"@ {
        "de"@
    } else if ln == "italian"@ {
        "it"@
    } else if ln == "portuguese"@ {
        "pt"@
    } else if ln == "russian"@ {
        "ru"@
    } else if ln == "japanese"@ {
        "ja"@
    } else if ln == "korean"@ {
        "ko"@
    } else if ln == "chinese"@ || ln == "chinese (simplified)"@ {
        "zh-Hans"@
    } else if ln == "chinese (traditional)"@ {
        "zh-Hant"@
    } else if ln == "arabic"@ {
        "ar"@
    } else if ln == "hindi"@ {
        "hi"@
    } else if ln == "dutch"@ {
        "nl"@
    } else if ln == "swedish"@ {
        "sv"@
    } else if ln == "norwegian"@ {
        "nb"@
    } else if ln == "danish"@ {
        "da"@
    } else if ln == "finnish"@ {
        "fi"@
    } else if ln == "polish"@ {
        "pl"@
    } else if ln == "turkish"@ {
        "tr"@
    } else if ln == "czech"@ {
        "cs"@
    } else if ln == "hungarian"@ {
        "hu"@
    } else {
        name
    }
}

/// Maps a language code to its full name.
pub fn map_language_code_to_name(code: &str) -> (r: String)
    ensures
        r@ == language_name_for(code@),
{
    let lc = to_lowercase(code);
    let v = str_chars(lc.as_str());
    if eq_chars(&v, &str_chars("en")) {
        "English".to_owned()
    } else if eq_chars(&v, &str_chars("es")) {
        "Spanish".to_owned()
    } else if eq_chars(&v, &str_chars("fr")) {
        "French".to_owned()
    } else if eq_chars(&v, &str_chars("de")) {
        "German".to_owned()
    } else if eq_chars(&v, &str_chars("it")) {
        "Italian".to_owned()
    } else if eq_chars(&v, &str_chars("pt")) {
        "Portuguese".to_owned()
    } else if eq_chars(&v, &str_chars("ru")) {
        "Russian".to_owned()
    } else if eq_chars(&v, &str_chars("ja")) {
        "Japanese".to_owned()
    } else if eq_chars(&v, &str_chars("ko")) {
        "Korean".to_owned()
    } else if eq_chars(&v, &str_chars("zh")) || eq_chars(&v, &str_chars("zh-hans")) {
        "Chinese".to_owned()
    } else if eq_chars(&v, &str_chars("zh-hant")) {
        "Chinese (Traditional)".to_owned()
    } else if eq_chars(&v, &str_chars("ar")) {
        "Arabic".to_owned()
    } else if eq_chars(&v, &str_chars("hi")) {
        "Hindi".to_owned()
    } else if eq_chars(&v, &str_chars("nl")) {
        "Dutch".to_owned()
    } else if eq_chars(&v, &str_chars("sv")) {
        "Swedish".to_owned()
    } else if eq_chars(&v, &str_chars("no")) || eq_chars(&v, &str_chars("nb")) {
        "Norwegian".to_owned()
    } else if eq_chars(&v, &str_chars("da")) {
        "Danish".to_owned()
    } else if eq_chars(&v, &str_chars("fi")) {
        "Finnish".to_owned()
    } else if eq_chars(&v, &str_chars("pl")) {
        "Polish".to_owned()
    } else if eq_chars(&v, &str_chars("tr")) {
        "Turkish".to_owned()
    } else if eq_chars(&v, &str_chars("cs")) {
        "Czech".to_owned()
    } else if eq_chars(&v, &str_chars("hu")) {
        "Hungarian".to_owned()
    } else {
        code.to_owned()
    }
}

/// Maps a language name to the translator's code.
pub fn map_language_name_to_code(name: &str) -> (r: String)
    ensures
        r@ == language_code_for(name@),
{
    let ln = to_lowercase(name);
    let v = str_chars(ln.as_str());
    if eq_chars(&v, &str_chars("english")) {
        "en".to_owned()
    } else if eq_chars(&v, &str_chars("spanish")) {
        "es".to_owned()
    } else if eq_chars(&v, &str_chars("french")) {
        "fr".to_owned()
    } else if eq_chars(&v, &str_chars("german")) {
        "de".to_owned()
    } else if eq_chars(&v, &str_chars("italian")) {
        "it".to_owned()
    } else if eq_chars(&v, &str_chars("portuguese")) {
        "pt".to_owned()
    } else if eq_chars(&v, &str_chars("russian")) {
        "ru".to_owned()
    } else if eq_chars(&v, &str_chars("japanese")) {
        "ja".to_owned()
    } else if eq_chars(&v, &str_chars("korean")) {
        "ko".to_owned()
    } else if eq_chars(&v, &str_chars("chinese")) || eq_chars(
        &v,
        &str_chars("chinese (simplified)"),
    ) {
        "zh-Hans".to_owned()
    } else if eq_chars(&v, &str_chars("chinese (traditional)")) {
        "zh-Hant".to_owned()
    } else if eq_chars(&v, &str_chars("arabic")) {
        "ar".to_owned()
    } else if eq_chars(&v, &str_chars("hindi")) {
        "hi".to_owned()
    } else if eq_chars(&v, &str_chars("dutch")) {
        "nl".to_owned()
    } else if eq_chars(&v, &str_chars("swedish")) {
        "sv".to_owned()
    } else if eq_chars(&v, &str_chars("norwegian")) {
        "nb".to_owned()
    } else if eq_chars(&v, &str_chars("danish")) {
        "da".to_owned()
    } else if eq_chars(&v, &str_chars("finnish")) {
        "fi".to_owned()
    } else if eq_chars(&v, &str_chars("polish")) {
        "pl".to_owned()
    } else if eq_chars(&v, &str_chars("turkish")) {
        "tr".to_owned()
    } else if eq_chars(&v, &str_chars("czech")) {
        "cs".to_owned()
    } else if eq_chars(&v, &str_chars("hungarian")) {
        "hu".to_owned()
    } else {
        name.to_owned()
    }
}

/// The code the translator is asked to translate into, given the detected
/// code: the alternative target when the detection matches the primary
/// target's code, else the primary target's code.
pub open spec fn translator_target_code_spec(c: Config, detected: Seq<char>) -> Seq<char> {
    let primary = language_code_for(c.target_language@);
    if lower_of(detected) == lower_of(primary) {
        language_code_for(c.alternative_target_language@)
    } else {
        primary
    }
}

/// Decides the target code for one call.
pub fn translator_target_code(config: &Config, detected_code: &str) -> (r: String)
    ensures
        r@ == translator_target_code_spec(*config, detected_code@),
{
    let primary = map_language_name_to_code(config.target_language.as_str());
    let dl = to_lowercase(detected_code);
    let pl = to_lowercase(primary.as_str());
    if dl == pl {
        map_language_name_to_code(config.alternative_target_language.as_str())
    } else {
        primary
    }
}

/// One planned translator request: URL, credentials, region and body.
#[derive(Debug, Clone)]
pub struct TranslatorRequestPlan {
    pub url: String,
    pub api_key: String,
    pub region: String,
    pub body: String,
}

/// The translator URL for a target code and an optional source code.
pub open spec fn translator_url_spec(
    endpoint: Seq<char>,
    to_code: Seq<char>,
    from_code: Option<Seq<char>>,
) -> Seq<char> {
    trim_slashes_spec(endpoint) + "/translate?api-version=3.0&to="@ + to_code + (match from_code {
        Some(f) => "&from="@ + f,
        None => Seq::<char>::empty(),
    })
}

/// The translator request body: one item carrying the cleaned text.
pub open spec fn translator_body_spec(text: Seq<char>) -> Seq<char> {
    "[{\"Text\":\""@ + escape_json_spec(normalized_text_spec(text)) + "\"}]"@
}

/// Plans one translator call.
pub fn translator_plan(config: &Config, text: &str, to_code: &str, from_code: Option<&str>) -> (r:
    TranslatorRequestPlan)
    ensures
        r.url@ == translator_url_spec(
            config.azure_translator_endpoint@,
            to_code@,
            match from_code {
                Some(f) => Some(f@),
                None => None,
            },
        ),
        r.api_key == config.azure_translator_api_key,
        r.region == config.azure_translator_region,
        r.body@ == translator_body_spec(text@),
{
    let trimmed = trim_trailing_slashes(config.azure_translator_endpoint.as_str());
    let mut url: String = chars_to_string(&trimmed);
    url.append("/translate?api-version=3.0&to=");
    url.append(to_code);
    match from_code {
        Option::Some(f) => {
            url.append("&from=");
            url.append(f);
        },
        Option::None => {},
    }
    let cleaned = clean_text_for_translation(text);
    let mut body: String = "[{\"Text\":\"".to_owned();
    body.append(escape_json(cleaned.as_str()).as_str());
    body.append("\"}]");
    TranslatorRequestPlan {
        url,
        api_key: config.azure_translator_api_key.clone(),
        region: config.azure_translator_region.clone(),
        body,
    }
}

/// What a translate-array reply carries: detected code, translated text
/// and target code, or the shape error naming what was missing.
pub open spec fn translator_reply_of(m: JsonModel) -> Result<(Seq<char>, Seq<char>, Seq<char>), Seq<
    char,
>> {
    match m {
        JsonModel::Array(results) => {
            if results.len() == 0 {
                Err("Empty response from Azure Translator"@)
            } else {
                let detected = match json_get_spec(results[0], "detectedLanguage"@) {
                    Some(d) => match json_get_spec(d, "language"@) {
                        Some(JsonModel::Text(l)) => l,
                        _ => "unknown"@,
                    },
                    None => "unknown"@,
                };
                match json_get_spec(results[0], "translations"@) {
                    Some(JsonModel::Array(ts)) => {
                        if ts.len() == 0 {
                            Err("Empty translations array"@)
                        } else {
                            match json_get_spec(ts[0], "text"@) {
                                Some(JsonModel::Text(x)) => {
                                    let to = match json_get_spec(ts[0], "to"@) {
                                        Some(JsonModel::Text(cc)) => cc,
                                        _ => "unknown"@,
                                    };
                                    Ok((detected, x, to))
                                },
                                _ => Err("No translation text found"@),
                            }
                        }
                    },
                    _ => Err("No translations found in response"@),
                }
            }
        },
        _ => Err("Invalid response format: expected array"@),
    }
}

/// Decodes a translator reply into a translation: detected and target
/// codes come back mapped to full names.
pub fn parse_translator_response(response_text: &str) -> (r: Result<TranslationResult, Error>)
    ensures
        match parse_json_spec(response_text@) {
            Some(m) => match translator_reply_of(m) {
                Ok(f) => r matches Ok(t) && t.detected_language@ == language_name_for(f.0)
                    && t.translated_text@ == f.1 && t.target_language@ == language_name_for(f.2),
                Err(msg) => r matches Err(e) && (e matches Error::ApiError(em) && em@ == msg),
            },
            None => r matches Err(e) && (e matches Error::ApiError(em) && em@
                == "Response body is not valid JSON"@),
        },
{
    let rv = str_chars(response_text);
    let parsed = match parse_json_chars(&rv) {
        Some(p) => p,
        None => {
            return Err(Error::ApiError("Response body is not valid JSON".to_owned()));
        },
    };
    let results = match &parsed {
        JsonValue::Array(results) => results,
        _ => {
            return Err(Error::ApiError("Invalid response format: expected array".to_owned()));
        },
    };
    if results.len() == 0 {
        return Err(Error::ApiError("Empty response from Azure Translator".to_owned()));
    }
    proof {
        crate::json::lemma_json_models_index(results@, 0);
    }
    let r0 = &results[0];
    let detected: String = match json_get(r0, &str_chars("detectedLanguage")) {
        Some(d) => {
            match json_get(d, &str_chars("language")) {
                Some(l) => {
                    match l {
                        JsonValue::Text(t) => chars_to_string(t),
                        _ => "unknown".to_owned(),
                    }
                },
                None => "unknown".to_owned(),
            }
        },
        None => "unknown".to_owned(),
    };
    let ts = match json_get(r0, &str_chars("translations")) {
        Some(tv) => {
            match tv {
                JsonValue::Array(ts) => ts,
                _ => {
                    return Err(Error::ApiError("No translations found in response".to_owned()));
                },
            }
        },
        None => {
            return Err(Error::ApiError("No translations found in response".to_owned()));
        },
    };
    if ts.len() == 0 {
        return Err(Error::ApiError("Empty translations array".to_owned()));
    }
    proof {
        crate::json::lemma_json_models_index(ts@, 0);
    }
    let t0 = &ts[0];
    let translated: String = match json_get(t0, &str_chars("text")) {
        Some(x) => {
            match x {
                JsonValue::Text(t) => chars_to_string(t),
                _ => {
                    return Err(Error::ApiError("No translation text found".to_owned()));
                },
            }
        },
        None => {
            return Err(Error::ApiError("No translation text found".to_owned()));
        },
    };
    let to_code: String = match json_get(t0, &str_chars("to")) {
        Some(x) => {
            match x {
                JsonValue::Text(t) => chars_to_string(t),
                _ => "unknown".to_owned(),
            }
        },
        None => "unknown".to_owned(),
    };
    Ok(
        TranslationResult {
            detected_language: map_language_code_to_name(detected.as_str()),
            translated_text: translated,
            target_language: map_language_code_to_name(to_code.as_str()),
        },
    )
}

/// What a detection reply carries: the detected code, defaulting to the
/// English code when the field is missing, or the shape error.
pub open spec fn detection_code_of(m: JsonModel) -> Result<Seq<char>, Seq<char>> {
    match m {
        JsonModel::Array(results) => {
            if results.len() == 0 {
                Err("Empty response from Azure Translator for detection"@)
            } else {
                match json_get_spec(results[0], "detectedLanguage"@) {
                    Some(d) => match json_get_spec(d, "language"@) {
                        Some(JsonModel::Text(l)) => Ok(l),
                        _ => Ok("en"@),
                    },
                    None => Ok("en"@),
                }
            }
        },
        _ => Err("Invalid response format for detection"@),
    }
}

/// Reads the detected code out of a detection reply.
pub fn translator_detection_code(response_text: &str) -> (r: Result<String, Error>)
    ensures
        match parse_json_spec(response_text@) {
            Some(m) => match detection_code_of(m) {
                Ok(c) => r matches Ok(s) && s@ == c,
                Err(msg) => r matches Err(e) && (e matches Error::ApiError(em) && em@ == msg),
            },
            None => r matches Err(e) && (e matches Error::ApiError(em) && em@
                == "Response body is not valid JSON"@),
        },
{
    let rv = str_chars(response_text);
    let parsed = match parse_json_chars(&rv) {
        Some(p) => p,
        None => {
            return Err(Error::ApiError("Response body is not valid JSON".to_owned()));
        },
    };
    let results = match &parsed {
        JsonValue::Array(results) => results,
        _ => {
            return Err(Error::ApiError("Invalid response format for detection".to_owned()));
        },
    };
    if results.len() == 0 {
        return Err(
            Error::ApiError("Empty response from Azure Translator for detection".to_owned()),
        );
    }
    proof {
        crate::json::lemma_json_models_index(results@, 0);
    }
    match json_get(&results[0], &str_chars("detectedLanguage")) {
        Some(d) => {
            match json_get(d, &str_chars("language")) {
                Some(l) => {
                    match l {
                        JsonValue::Text(t) => Ok(chars_to_string(t)),
                        _ => Ok("en".to_owned()),
                    }
                },
                None => Ok("en".to_owned()),
            }
        },
        None => Ok("en".to_owned()),
    }
}

} // verus!
