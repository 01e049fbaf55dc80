//! The local generative adapter: endpoint resolution from the configured
//! URL with a default local address, request planning with the same
//! prompting discipline as the hosted chat backend, and reply handling.
//! The generate call itself stays with the caller.

use crate::config::Config;
use crate::extract::extraction_of;
use crate::language::same_language;
use crate::normalize::{clean_text_for_translation, normalized_text_spec};
use crate::prompt::{create_smart_prompt, smart_prompt_spec, targeted_user_prompt_spec};
use crate::text::{all_decimal_digits, chars_to_string, contains_chars, str_chars, trim_chars, trim_spec};
use crate::translation::{parse_response_content, Error, TranslationResult};
use vstd::prelude::*;

verus! {

/// What url's `Url::parse` reads out of a URL: its scheme, its host text
/// when one is present, and its explicit port; the parts depend on the
/// text alone, and `None` stands for a text that does not parse.
pub uninterp spec fn url_parts_of(s: Seq<char>) -> Option<(Seq<char>, Option<Seq<char>>, Option<u16>)>;

/// Relies on url's `Url::parse`, `Url::scheme`, `Url::host_str` and
/// `Url::port`: the scheme, host and explicit port of an absolute URL.
#[verifier::external_body]
fn parse_url_parts(s: &str) -> (r: Option<(String, Option<String>, Option<u16>)>)
    ensures
        r is Some <==> url_parts_of(s@) is Some,
        r matches Some(p) ==> url_parts_of(s@) matches Some(q) && p.0@ == q.0 && (match p.1 {
            Some(h) => q.1 matches Some(qh) && h@ == qh,
            None => q.1 is None,
        }) && p.2 == q.2,
{
    match url::Url::parse(s) {
        Ok(u) => {
            let host = u.host_str().map(|h| h.to_string());
            Some((u.scheme().to_string(), host, u.port()))
        },
        Err(_) => None,
    }
}

/// The digits of a port text: a single leading plus is allowed.
pub open spec fn port_digits(s: Seq<char>) -> Seq<char> {
    if s.len() > 0 && s[0] == '+' {
        s.drop_first()
    } else {
        s
    }
}

/// A decimal port number as `str::parse::<u16>` accepts it: an optional
/// leading plus, then digits, with the value at most 65535.
pub open spec fn parse_u16_spec(s: Seq<char>) -> Option<u16> {
    if port_digits(s).len() > 0 && all_decimal_digits(port_digits(s)) && digits_value(
        port_digits(s),
    ) <= 65535 {
        Some(digits_value(port_digits(s)) as u16)
    } else {
        None
    }
}

/// The value of a digit string, reading left to right; overflowing texts
/// saturate far above the port range.
pub open spec fn digits_value(s: Seq<char>) -> int
    decreases s.len(),
{
    if s.len() == 0 {
        0
    } else {
        let prev = digits_value(s.drop_last());
        if prev >= 0x10000 {
            prev
        } else {
            prev * 10 + (s.last() as int - '0' as int)
        }
    }
}

/// Parses a port number.
pub fn parse_port(s: &Vec<char>) -> (r: Option<u16>)
    ensures
        r == parse_u16_spec(s@),
{
    let start: usize = if s.len() > 0 && s[0] == '+' {
        1
    } else {
        0
    };
    let ghost digits = port_digits(s@);
    proof {
        assert(digits =~= s@.skip(start as int));
    }
    if s.len() == start {
        return None;
    }
    let mut value: u32 = 0;
    let mut i: usize = start;
    proof {
        assert(digits.take(0) =~= Seq::<char>::empty());
    }
    while i < s.len()
        invariant
            start <= i <= s@.len(),
            digits == port_digits(s@),
            digits == s@.skip(start as int),
            forall|k: int| start <= k < i ==> '0' <= #[trigger] s@[k] <= '9',
            value == digits_value(digits.take(i - start as int)),
            value <= 0x10000 * 10,
        decreases s@.len() - i,
    {
        let c = s[i];
        if !('0' <= c && c <= '9') {
            proof {
                assert(digits[i - start as int] == s@[i as int]);
                assert(port_digits(s@)[i - start as int] == s@[i as int]);
                assert(!('0' <= port_digits(s@)[i - start as int] && port_digits(s@)[i
                    - start as int] <= '9'));
                assert(!all_decimal_digits(port_digits(s@)));
                assert(parse_u16_spec(s@) is None);
            }
            return None;
        }
        proof {
            assert(digits.take(i - start as int + 1).drop_last() =~= digits.take(
                i - start as int,
            ));
            assert(digits.take(i - start as int + 1).last() == s@[i as int]);
        }
        if value < 0x10000 {
            value = value * 10 + (c as u32 - 48);
        }
        i = i + 1;
    }
    proof {
        assert(digits.take(digits.len() as int) =~= digits);
        assert forall|j: int| 0 <= j < digits.len() implies '0' <= #[trigger] digits[j]
            <= '9' by {
            assert(digits[j] == s@[j + start]);
        }
        assert(all_decimal_digits(port_digits(s@)));
    }
    if value <= 65535 {
        Some(value as u16)
    } else {
        None
    }
}

/// The host and port the local backend is reached at, resolved from a URL
/// text: a parsed URL contributes scheme, host and port; a text that does
/// not parse falls back to reading `http://host:port` by hand; anything
/// else means the default local address.
pub open spec fn ollama_host_port_spec(url_text: Seq<char>) -> (Seq<char>, u16) {
    match url_parts_of(url_text) {
        Some(parts) => {
            let host = match parts.1 {
                Some(h) => h,
                None => "localhost"@,
            };
            let port = match parts.2 {
                Some(p) => p,
                None => 11434,
            };
            (parts.0 + "://"@ + host, port)
        },
        None => {
            if "http://"@.is_prefix_of(url_text) {
                let rest = url_text.skip(7);
                match crate::extract::find_char_spec(rest, ':', 0) {
                    Some(k) => {
                        let port = match parse_u16_spec(rest.skip(k + 1)) {
                            Some(p) => p,
                            None => 11434,
                        };
                        ("http://"@ + rest.take(k), port)
                    },
                    None => ("http://"@ + rest, 11434),
                }
            } else {
                ("http://localhost"@, 11434)
            }
        },
    }
}

/// The configured URL text, with the default local address standing in.
pub open spec fn ollama_url_text(c: Config) -> Seq<char> {
    match c.ollama_url {
        Some(u) => u@,
        None => "http://localhost:11434"@,
    }
}

/// Resolves the host and port for the local backend.
#[verifier::rlimit(100)]
pub fn resolve_ollama_host_port(config: &Config) -> (r: (String, u16))
    ensures
        r.0@ == ollama_host_port_spec(ollama_url_text(*config)).0,
        r.1 == ollama_host_port_spec(ollama_url_text(*config)).1,
{
    let url_text: &str = match &config.ollama_url {
        Option::Some(u) => u.as_str(),
        Option::None => "http://localhost:11434",
    };
    match parse_url_parts(url_text) {
        Some(parts) => {
            let mut host: String = parts.0;
            host.append("://");
            match parts.1 {
                Option::Some(h) => {
                    host.append(h.as_str());
                },
                Option::None => {
                    host.append("localhost");
                },
            }
            let port: u16 = match parts.2 {
                Option::Some(p) => p,
                Option::None => 11434,
            };
            (host, port)
        },
        None => {
            let uv = str_chars(url_text);
            let prefix = str_chars("http://");
            if crate::text::starts_with_chars(&uv, &prefix) {
                let mut rest: Vec<char> = Vec::new();
                let mut k: usize = 7;
                proof {
                    reveal_strlit("http://");
                }
                while k < uv.len()
                    invariant
                        7 <= k <= uv@.len(),
                        rest@ == uv@.skip(7).take(k - 7 as int),
                    decreases uv@.len() - k,
                {
                    proof {
                        assert(uv@.skip(7).take(k - 7 as int).push(uv@[k as int]) =~= uv@.skip(
                            7,
                        ).take(k - 6 as int));
                        assert(uv@.skip(7)[k - 7 as int] == uv@[k as int]);
                    }
                    rest.push(uv[k]);
                    k = k + 1;
                }
                proof {
                    assert(uv@.skip(7).take(uv@.len() - 7 as int) =~= uv@.skip(7));
                }
                match crate::extract::find_char(&rest, ':', 0) {
                    Some(ci) => {
                        let mut hp: Vec<char> = Vec::new();
                        let mut m: usize = 0;
                        while m < ci
                            invariant
                                m <= ci <= rest@.len(),
                                hp@ == rest@.take(ci as int).take(m as int),
                            decreases ci - m,
                        {
                            proof {
                                assert(rest@.take(ci as int).take(m as int).push(rest@[m as int])
                                    =~= rest@.take(ci as int).take(m as int + 1));
                                assert(rest@.take(ci as int)[m as int] == rest@[m as int]);
                            }
                            hp.push(rest[m]);
                            m = m + 1;
                        }
                        proof {
                            assert(rest@.take(ci as int).take(ci as int) =~= rest@.take(ci as int));
                        }
                        let mut pp: Vec<char> = Vec::new();
                        let mut n: usize = ci + 1;
                        while n < rest.len()
                            invariant
                                ci < n <= rest@.len(),
                                pp@ == rest@.skip(ci as int + 1).take(n - ci - 1 as int),
                            decreases rest@.len() - n,
                        {
                            proof {
                                assert(rest@.skip(ci as int + 1).take(n - ci - 1 as int).push(
                                    rest@[n as int],
                                ) =~= rest@.skip(ci as int + 1).take(n - ci as int));
                                assert(rest@.skip(ci as int + 1)[n - ci - 1 as int]
                                    == rest@[n as int]);
                            }
                            pp.push(rest[n]);
                            n = n + 1;
                        }
                        proof {
                            assert(rest@.skip(ci as int + 1).take(
                                rest@.len() - (ci + 1) as int,
                            ) =~= rest@.skip(ci as int + 1));
                        }
                        let port: u16 = match parse_port(&pp) {
                            Some(p) => p,
                            None => 11434,
                        };
                        let mut host: String = "http://".to_owned();
                        host.append(chars_to_string(&hp).as_str());
                        (host, port)
                    },
                    None => {
                        let mut host: String = "http://".to_owned();
                        host.append(chars_to_string(&rest).as_str());
                        (host, 11434)
                    },
                }
            } else {
                ("http://localhost".to_owned(), 11434)
            }
        },
    }
}

/// One planned generate call against the local backend.
#[derive(Debug, Clone)]
pub struct OllamaRequestPlan {
    pub host: String,
    pub port: u16,
    pub model: String,
    pub prompt: String,
}

/// The full prompt the local backend receives: the alternatives prompt
/// with the quoted selection, or the system prompt, formatting reminder
/// and targeted user prompt.
pub open spec fn ollama_prompt_spec(c: Config, text: Seq<char>) -> Seq<char> {
    if crate::chat::is_alternatives_prompt(c.custom_prompt@) {
        c.custom_prompt@ + "\n\n\""@ + normalized_text_spec(text) + "\""@
    } else {
        smart_prompt_spec(c.custom_prompt@, c.target_language@, c.alternative_target_language@)
            + "\n\nAlways respond with valid JSON containing 'detected_language' and 'translated_text' fields. Preserve line breaks and formatting in the translated text.\n\n"@
            + targeted_user_prompt_spec(c.target_language@, text)
    }
}

/// Plans one generate call.  Fails fast when no model is configured.
pub fn ollama_translate_plan(config: &Config, text: &str) -> (r: Result<OllamaRequestPlan, Error>)
    ensures
        (trim_spec(config.model@).len() == 0) <==> (r matches Err(e) && (e
            matches Error::ApiError(m) && m@ == "Model not configured for Ollama provider"@)),
        trim_spec(config.model@).len() != 0 ==> (r matches Ok(p) && p.host@
            == ollama_host_port_spec(ollama_url_text(*config)).0 && p.port
            == ollama_host_port_spec(ollama_url_text(*config)).1 && p.model == config.model
            && p.prompt@ == ollama_prompt_spec(*config, text@)),
{
    let mt = trim_chars(&str_chars(config.model.as_str()));
    if mt.len() == 0 {
        return Err(Error::ApiError("Model not configured for Ollama provider".to_owned()));
    }
    let hp = resolve_ollama_host_port(config);
    let alternatives = contains_chars(
        &str_chars(config.custom_prompt.as_str()),
        &str_chars("alternatives"),
    );
    let prompt: String;
    if alternatives {
        let cleaned = clean_text_for_translation(text);
        let mut p: String = config.custom_prompt.clone();
        p.append("\n\n\"");
        p.append(cleaned.as_str());
        p.append("\"");
        prompt = p;
    } else {
        let mut p = create_smart_prompt(config, None);
        p.append(
            "\n\nAlways respond with valid JSON containing 'detected_language' and 'translated_text' fields. Preserve line breaks and formatting in the translated text.\n\n",
        );
        let user = crate::prompt::build_targeted_user_prompt(
            config.target_language.as_str(),
            text,
        );
        p.append(user.as_str());
        prompt = p;
    }
    Ok(
        OllamaRequestPlan {
            host: hp.0,
            port: hp.1,
            model: config.model.clone(),
            prompt,
        },
    )
}

/// Handles the reply of a generate call: an empty reply is refused, an
/// alternatives reply passes through raw, a translation reply is decoded
/// with the language switch applied.
pub fn ollama_handle_response(
    content: &str,
    config: &Config,
) -> (r: Result<TranslationResult, Error>)
    ensures
        content@.len() == 0 ==> (r matches Err(e) && (e matches Error::ApiError(m) && m@
            == "Empty response from Ollama"@)),
        content@.len() > 0 && crate::chat::is_alternatives_prompt(config.custom_prompt@) ==> (r
            matches Ok(t) && t.detected_language@ == "unknown"@ && t.translated_text@ == content@
            && t.target_language@ == "alternatives"@),
        content@.len() > 0 && !crate::chat::is_alternatives_prompt(config.custom_prompt@) ==> (r
            matches Ok(t) && t.detected_language@ == extraction_of(content@).0
            && t.translated_text@ == extraction_of(content@).1 && (same_language(
            extraction_of(content@).0,
            config.target_language@,
        ) ==> t.target_language@ == config.alternative_target_language@) && (!same_language(
            extraction_of(content@).0,
            config.target_language@,
        ) ==> t.target_language@ == config.target_language@)),
{
    if content.is_empty() {
        return Err(Error::ApiError("Empty response from Ollama".to_owned()));
    }
    let alternatives = contains_chars(
        &str_chars(config.custom_prompt.as_str()),
        &str_chars("alternatives"),
    );
    if alternatives {
        return Ok(
            TranslationResult {
                detected_language: "unknown".to_owned(),
                translated_text: content.to_owned(),
                target_language: "alternatives".to_owned(),
            },
        );
    }
    Ok(
        parse_response_content(
            content,
            config.target_language.as_str(),
            config.alternative_target_language.as_str(),
        ),
    )
}

} // verus!
