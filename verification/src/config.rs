//! The configuration snapshot the pipeline consumes, and the rules that
//! read it: fallback-provider resolution and the Azure deployment-name
//! consistency rule.  Loading and saving the configuration file is the
//! caller's business.

use crate::extract::find_char_spec;
use crate::language::{lower_of, to_lowercase};
use crate::text::{chars_to_string, eq_chars, str_chars, trim_chars, trim_spec};
use vstd::prelude::*;

verus! {

/// One configured model of a provider.
#[derive(Debug, Clone)]
pub struct ModelConfig {
    pub name: String,
    pub display_name: String,
    pub provider: String,
    pub is_enabled: bool,
    pub description: Option<String>,
}

/// The configuration snapshot, immutable per call.  Provider model lists
/// are an association list from provider identifier to models.
#[derive(Debug, Clone)]
pub struct Config {
    pub api_provider: String,
    pub openai_api_key: String,
    pub azure_endpoint: String,
    pub azure_api_key: String,
    pub azure_api_version: String,
    pub azure_deployment_name: String,
    pub azure_translator_endpoint: String,
    pub azure_translator_api_key: String,
    pub azure_translator_region: String,
    pub ollama_url: Option<String>,
    pub model: String,
    pub available_models: Vec<(String, Vec<ModelConfig>)>,
    pub target_language: String,
    pub alternative_target_language: String,
    pub favorite_languages: Vec<String>,
    pub user_source_language: Option<String>,
    pub auto_start: bool,
    pub hotkey: String,
    pub theme: String,
    pub minimize_to_tray: bool,
    pub custom_prompt: String,
    pub reasoning_effort: Option<String>,
    pub alternatives_fallback_provider: Option<String>,
    pub auto_translate_enabled: bool,
    pub auto_translate_debounce_ms: u32,
    pub auto_translate_on_paste: bool,
    pub auto_translate_while_typing: bool,
}

impl Default for Config {
    /// The configuration a fresh install starts from: no credentials, the
    /// four providers with empty model lists, English with Spanish as the
    /// alternative, and the standard translation prompt.
    fn default() -> (r: Config)
        ensures
            r.api_provider@ == Seq::<char>::empty(),
            r.openai_api_key@ == Seq::<char>::empty(),
            r.azure_endpoint@ == Seq::<char>::empty(),
            r.azure_api_key@ == Seq::<char>::empty(),
            r.azure_api_version@ == Seq::<char>::empty(),
            r.azure_deployment_name@ == Seq::<char>::empty(),
            r.azure_translator_endpoint@ == "https://api.cognitive.microsofttranslator.com"@,
            r.azure_translator_api_key@ == Seq::<char>::empty(),
            r.azure_translator_region@ == Seq::<char>::empty(),
            r.ollama_url matches Some(u) && u@ == Seq::<char>::empty(),
            r.model@ == Seq::<char>::empty(),
            r.available_models@.len() == 4,
            r.available_models@[0].0@ == "openai"@ && r.available_models@[0].1@.len() == 0,
            r.available_models@[1].0@ == "azure_openai"@ && r.available_models@[1].1@.len() == 0,
            r.available_models@[2].0@ == "azure_translator"@ && r.available_models@[2].1@.len()
                == 0,
            r.available_models@[3].0@ == "ollama"@ && r.available_models@[3].1@.len() == 0,
            r.target_language@ == "English"@,
            r.alternative_target_language@ == "Spanish"@,
            r.favorite_languages@.len() == 4,
            r.favorite_languages@[0]@ == "en"@,
            r.favorite_languages@[1]@ == "es"@,
            r.favorite_languages@[2]@ == "fr"@,
            r.favorite_languages@[3]@ == "de"@,
            r.user_source_language is None,
            !r.auto_start,
            r.hotkey@ == "Ctrl+Q"@,
            r.theme@ == "auto"@,
            r.minimize_to_tray,
            r.custom_prompt@
                == "Translate the given text from {detected_language} to {target_language} accurately while preserving the meaning, tone, and nuance of the original content.\n\n# Additional Details\n- Ensure the translation retains the context, cultural meaning, tone, formal/informal style, and any idiomatic expressions.\n- Do **not** alter names, technical terms, or specific formatting unless required for grammatical correctness in the target language.\n- If the detected language is the same as the target language, choose the most appropriate alternative language for translation.\n\n# Output Format\nThe translation output should be provided as valid JSON containing 'detected_language' and 'translated_text' fields.\n\n# Notes\n- Ensure punctuation and capitalization match the norms of the target language.\n- When encountering idiomatic expressions, adapt them to equivalent phrases in the target language rather than direct word-for-word translation.\n- For ambiguous content, aim for the most contextually appropriate meaning.\n- Take into consideration the whole text and what it is about."@,
            r.reasoning_effort matches Some(e) && e@ == "medium"@,
            r.alternatives_fallback_provider is None,
            r.auto_translate_enabled,
            r.auto_translate_debounce_ms == 500,
            r.auto_translate_on_paste,
            r.auto_translate_while_typing,
    {
        let mut available_models: Vec<(String, Vec<ModelConfig>)> = Vec::new();
        available_models.push(("openai".to_owned(), Vec::new()));
        available_models.push(("azure_openai".to_owned(), Vec::new()));
        available_models.push(("azure_translator".to_owned(), Vec::new()));
        available_models.push(("ollama".to_owned(), Vec::new()));
        let mut favorite_languages: Vec<String> = Vec::new();
        favorite_languages.push("en".to_owned());
        favorite_languages.push("es".to_owned());
        favorite_languages.push("fr".to_owned());
        favorite_languages.push("de".to_owned());
        proof {
            reveal_strlit("");
            assert(""@ =~= Seq::<char>::empty());
        }
        Config {
            api_provider: "".to_owned(),
            openai_api_key: "".to_owned(),
            azure_endpoint: "".to_owned(),
            azure_api_key: "".to_owned(),
            azure_api_version: "".to_owned(),
            azure_deployment_name: "".to_owned(),
            azure_translator_endpoint: "https://api.cognitive.microsofttranslator.com".to_owned(),
            azure_translator_api_key: "".to_owned(),
            azure_translator_region: "".to_owned(),
            ollama_url: Some("".to_owned()),
            model: "".to_owned(),
            available_models,
            target_language: "English".to_owned(),
            alternative_target_language: "Spanish".to_owned(),
            favorite_languages,
            user_source_language: None,
            auto_start: false,
            hotkey: "Ctrl+Q".to_owned(),
            theme: "auto".to_owned(),
            minimize_to_tray: true,
            custom_prompt:
                "Translate the given text from {detected_language} to {target_language} accurately while preserving the meaning, tone, and nuance of the original content.\n\n# Additional Details\n- Ensure the translation retains the context, cultural meaning, tone, formal/informal style, and any idiomatic expressions.\n- Do **not** alter names, technical terms, or specific formatting unless required for grammatical correctness in the target language.\n- If the detected language is the same as the target language, choose the most appropriate alternative language for translation.\n\n# Output Format\nThe translation output should be provided as valid JSON containing 'detected_language' and 'translated_text' fields.\n\n# Notes\n- Ensure punctuation and capitalization match the norms of the target language.\n- When encountering idiomatic expressions, adapt them to equivalent phrases in the target language rather than direct word-for-word translation.\n- For ambiguous content, aim for the most contextually appropriate meaning.\n- Take into consideration the whole text and what it is about.".to_owned(),
            reasoning_effort: Some("medium".to_owned()),
            alternatives_fallback_provider: None,
            auto_translate_enabled: true,
            auto_translate_debounce_ms: 500,
            auto_translate_on_paste: true,
            auto_translate_while_typing: true,
        }
    }
}

/// Relies on dirs' `home_dir`: the user's home directory rendered as text,
/// when the platform reports one.  Nothing is promised of the value.
#[verifier::external_body]
fn home_dir_string() -> Option<String> {
    dirs::home_dir().map(|p| p.to_string_lossy().into_owned())
}

/// The providers a fallback spec may name.
pub open spec fn valid_fallback_provider(p: Seq<char>) -> bool {
    p == "openai"@ || p == "azure_openai"@ || p == "ollama"@
}

/// The model list configured for `key`, first match.
pub open spec fn models_for(avail: Seq<(String, Vec<ModelConfig>)>, key: Seq<char>) -> Option<
    Seq<ModelConfig>,
>
    decreases avail.len(),
{
    if avail.len() == 0 {
        None
    } else if avail[0].0@ == key {
        Some(avail[0].1@)
    } else {
        models_for(avail.drop_first(), key)
    }
}

/// The name of the first enabled model, when one exists.
pub open spec fn first_enabled_name(models: Seq<ModelConfig>) -> Option<Seq<char>>
    decreases models.len(),
{
    if models.len() == 0 {
        None
    } else if models[0].is_enabled {
        Some(models[0].name@)
    } else {
        first_enabled_name(models.drop_first())
    }
}

/// What the configured model lists contribute for a fallback provider: the
/// first enabled model's name, else the first model's name, else nothing.
pub open spec fn model_from_lists(avail: Seq<(String, Vec<ModelConfig>)>, provider: Seq<char>) -> Seq<
    char,
> {
    match models_for(avail, provider) {
        Some(models) => match first_enabled_name(models) {
            Some(name) => name,
            None => if models.len() > 0 {
                models[0].name@
            } else {
                Seq::<char>::empty()
            },
        },
        None => Seq::<char>::empty(),
    }
}

/// The model a fallback spec resolves to, given the provider and whatever
/// model text stood in the spec: an explicit model wins; otherwise the
/// configured lists, then the Azure deployment name, then the active global
/// model when its provider matches.
pub open spec fn resolved_fallback_model(c: Config, provider: Seq<char>, model0: Seq<char>) -> Seq<
    char,
> {
    if model0.len() > 0 {
        model0
    } else {
        let m1 = model_from_lists(c.available_models@, provider);
        let m2 = if m1.len() == 0 && provider == "azure_openai"@ && c.azure_deployment_name@.len()
            > 0 {
            c.azure_deployment_name@
        } else {
            m1
        };
        if m2.len() == 0 && c.api_provider@ == provider && c.model@.len() > 0 {
            c.model@
        } else {
            m2
        }
    }
}

/// What the whole fallback spec parses to: provider and model, or nothing
/// when the spec is absent, blank, names an unknown provider, or no model
/// can be resolved.
pub open spec fn parsed_fallback_of(c: Config) -> Option<(Seq<char>, Seq<char>)> {
    match c.alternatives_fallback_provider {
        Option::None => None,
        Option::Some(raw) => {
            let t = trim_spec(raw@);
            if t.len() == 0 {
                None
            } else {
                let provider = match find_char_spec(t, ':', 0) {
                    Some(k) => lower_of(trim_spec(t.take(k))),
                    None => lower_of(t),
                };
                let model0 = match find_char_spec(t, ':', 0) {
                    Some(k) => trim_spec(t.skip(k + 1)),
                    None => Seq::<char>::empty(),
                };
                if !valid_fallback_provider(provider) {
                    None
                } else {
                    let model = resolved_fallback_model(c, provider, model0);
                    if model.len() == 0 {
                        None
                    } else {
                        Some((provider, model))
                    }
                }
            }
        },
    }
}

fn first_enabled_in(models: &Vec<ModelConfig>) -> (r: Option<String>)
    ensures
        match r {
            Some(n) => first_enabled_name(models@) == Some(n@),
            None => first_enabled_name(models@) is None,
        },
{
    let mut i: usize = 0;
    proof {
        assert(models@.skip(0) =~= models@);
    }
    while i < models.len()
        invariant
            i <= models@.len(),
            first_enabled_name(models@) == first_enabled_name(models@.skip(i as int)),
        decreases models@.len() - i,
    {
        proof {
            assert(models@.skip(i as int).drop_first() =~= models@.skip(i as int + 1));
        }
        if models[i].is_enabled {
            return Some(models[i].name.clone());
        }
        i = i + 1;
    }
    None
}

fn lookup_models<'a>(avail: &'a Vec<(String, Vec<ModelConfig>)>, key: &Vec<char>) -> (r: Option<
    &'a Vec<ModelConfig>,
>)
    ensures
        match r {
            Some(ms) => models_for(avail@, key@) == Some(ms@),
            None => models_for(avail@, key@) is None,
        },
{
    let mut i: usize = 0;
    proof {
        assert(avail@.skip(0) =~= avail@);
    }
    while i < avail.len()
        invariant
            i <= avail@.len(),
            models_for(avail@, key@) == models_for(avail@.skip(i as int), key@),
        decreases avail@.len() - i,
    {
        proof {
            assert(avail@.skip(i as int).drop_first() =~= avail@.skip(i as int + 1));
        }
        let kv = str_chars(avail[i].0.as_str());
        if eq_chars(&kv, key) {
            return Some(&avail[i].1);
        }
        i = i + 1;
    }
    None
}

impl Config {
    /// Parses the alternatives fallback spec, `provider` or
    /// `provider:model`, resolving a missing model from the configuration.
    pub fn parse_alternatives_fallback(&self) -> (r: Option<(String, String)>)
        ensures
            match r {
                Some(pm) => parsed_fallback_of(*self) == Some((pm.0@, pm.1@)),
                None => parsed_fallback_of(*self) is None,
            },
    {
        let raw: &String = match &self.alternatives_fallback_provider {
            Option::Some(raw) => raw,
            Option::None => {
                return None;
            },
        };
        let tv = trim_chars(&str_chars(raw.as_str()));
        if tv.len() == 0 {
            return None;
        }
        let colon = crate::extract::find_char(&tv, ':', 0);
        let (provider, model0): (String, Vec<char>) = match colon {
            Some(k) => {
                let mut before: Vec<char> = Vec::new();
                let mut i: usize = 0;
                while i < k
                    invariant
                        i <= k <= tv@.len(),
                        before@ == tv@.take(k as int).take(i as int),
                    decreases k - i,
                {
                    proof {
                        assert(tv@.take(k as int).take(i as int).push(tv@[i as int])
                            =~= tv@.take(k as int).take(i as int + 1));
                        assert(tv@.take(k as int)[i as int] == tv@[i as int]);
                    }
                    before.push(tv[i]);
                    i = i + 1;
                }
                proof {
                    assert(tv@.take(k as int).take(k as int) =~= tv@.take(k as int));
                }
                let mut after: Vec<char> = Vec::new();
                let mut j: usize = k + 1;
                while j < tv.len()
                    invariant
                        k < j <= tv@.len(),
                        after@ == tv@.skip(k as int + 1).take(j - k - 1 as int),
                    decreases tv@.len() - j,
                {
                    proof {
                        assert(tv@.skip(k as int + 1).take(j - k - 1 as int).push(tv@[j as int])
                            =~= tv@.skip(k as int + 1).take(j - k as int));
                        assert(tv@.skip(k as int + 1)[j - k - 1 as int] == tv@[j as int]);
                    }
                    after.push(tv[j]);
                    j = j + 1;
                }
                proof {
                    assert(tv@.skip(k as int + 1).take(tv@.len() - (k + 1) as int) =~= tv@.skip(
                        k as int + 1,
                    ));
                }
                let pt = trim_chars(&before);
                let p = to_lowercase(chars_to_string(&pt).as_str());
                (p, trim_chars(&after))
            },
            None => {
                let p = to_lowercase(chars_to_string(&tv).as_str());
                (p, Vec::new())
            },
        };
        let pv = str_chars(provider.as_str());
        let is_valid = eq_chars(&pv, &str_chars("openai")) || eq_chars(
            &pv,
            &str_chars("azure_openai"),
        ) || eq_chars(&pv, &str_chars("ollama"));
        if !is_valid {
            return None;
        }
        let mut model: Vec<char> = model0;
        if model.len() == 0 {
            match lookup_models(&self.available_models, &pv) {
                Some(ms) => {
                    match first_enabled_in(ms) {
                        Some(n) => {
                            model = str_chars(n.as_str());
                        },
                        None => {
                            if ms.len() > 0 {
                                model = str_chars(ms[0].name.as_str());
                            }
                        },
                    }
                },
                None => {},
            }
            if model.len() == 0 && eq_chars(&pv, &str_chars("azure_openai"))
                && !self.azure_deployment_name.as_str().is_empty() {
                model = str_chars(self.azure_deployment_name.as_str());
            }
            if model.len() == 0 {
                let ap = str_chars(self.api_provider.as_str());
                if eq_chars(&ap, &pv) && !self.model.as_str().is_empty() {
                    model = str_chars(self.model.as_str());
                }
            }
        }
        if model.len() == 0 {
            return None;
        }
        Some((provider, chars_to_string(&model)))
    }

    /// The configuration directory under a given home directory.
    pub fn config_dir_for_home(home: &str) -> (r: String)
        ensures
            r@ == home@ + "/.config/gptranslate"@,
    {
        let mut s: String = home.to_owned();
        s.append("/.config/gptranslate");
        s
    }

    /// The configuration file's path: the standard location under the home
    /// directory, or an error when the platform reports no home.
    pub fn get_config_path() -> (r: Result<String, crate::translation::Error>)
        ensures
            r matches Ok(p) ==> (exists|h: Seq<char>|
                p@ == #[trigger] (h + "/.config/gptranslate/gptranslate.json"@)),
            r matches Err(e) ==> (e matches crate::translation::Error::ApiError(m) && m@
                == "Could not find home directory"@),
    {
        match home_dir_string() {
            Option::Some(h) => {
                let ghost hv = h@;
                let mut s = h;
                s.append("/.config/gptranslate/gptranslate.json");
                proof {
                    assert(s@ == hv + "/.config/gptranslate/gptranslate.json"@);
                }
                Ok(s)
            },
            Option::None => Err(
                crate::translation::Error::ApiError("Could not find home directory".to_owned()),
            ),
        }
    }

    /// For the Azure chat provider, keeps the deployment name equal to the
    /// selected model.
    pub fn ensure_azure_deployment_consistency(&mut self)
        ensures
            *final(self) == (Config {
                azure_deployment_name: final(self).azure_deployment_name,
                ..*old(self)
            }),
            final(self).azure_deployment_name@ == (if old(self).api_provider@ == "azure_openai"@
                && old(self).model@.len() > 0 && old(self).azure_deployment_name@ != old(
                self,
            ).model@ {
                old(self).model@
            } else {
                old(self).azure_deployment_name@
            }),
    {
        let ap = str_chars(self.api_provider.as_str());
        let is_azure = eq_chars(&ap, &str_chars("azure_openai"));
        if is_azure && !self.model.as_str().is_empty() && !(self.azure_deployment_name
            == self.model) {
            self.azure_deployment_name = self.model.clone();
        }
    }
}

} // verus!
