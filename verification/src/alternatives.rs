//! Alternative phrasings: decoding a backend's alternatives reply through
//! three stages — direct JSON, repaired JSON, and plain text lines — and
//! planning which provider answers when the active one cannot.

use crate::config::{parsed_fallback_of, Config};
use crate::extract::replace_all;
use crate::history::byte_len;
use crate::json::{json_get_spec, json_get, parse_json_chars, parse_json_spec, JsonModel, JsonValue};
use crate::language::{lower_of, to_lowercase};
use crate::normalize::{lines_of, lines_vec};
use crate::prompt::{alternatives_prompt_spec, build_alternatives_prompt};
use crate::provider::{provider_for, ProviderKind};
use crate::text::{
    chars_to_string, contains_chars, contains_sub, eq_chars, set_contains, str_chars,
    trim_any, trim_any_chars, trim_chars, trim_end_any, trim_end_any_chars, trim_spec,
    trim_start_any, trim_start_any_chars,
};
use crate::translation::{AlternativeTranslationsResult, Error};
use vstd::math::min;
use vstd::string::StringSliceAdditionalSpecFns;
use vstd::prelude::*;

verus! {

/// ASCII punctuation, as the line fallback rejects all-punctuation lines.
pub open spec fn is_ascii_punct(c: char) -> bool {
    ||| (0x21 <= c as u32 && c as u32 <= 0x2F)
    ||| (0x3A <= c as u32 && c as u32 <= 0x40)
    ||| (0x5B <= c as u32 && c as u32 <= 0x60)
    ||| (0x7B <= c as u32 && c as u32 <= 0x7E)
}

fn is_ascii_punct_exec(c: char) -> (r: bool)
    ensures
        r == is_ascii_punct(c),
{
    let n = c as u32;
    (0x21 <= n && n <= 0x2F) || (0x3A <= n && n <= 0x40) || (0x5B <= n && n <= 0x60) || (0x7B <= n
        && n <= 0x7E)
}

/// Whether a candidate restates the selection, compared trimmed and
/// case-insensitively.
pub open spec fn restates_selection(s: Seq<char>, selected: Seq<char>) -> bool {
    lower_of(trim_spec(s)) == lower_of(trim_spec(selected))
}

/// The string items of a parsed alternatives array, in order, without
/// those that restate the selection.
pub open spec fn strings_of(items: Seq<JsonModel>, selected: Seq<char>) -> Seq<Seq<char>>
    decreases items.len(),
{
    if items.len() == 0 {
        Seq::<Seq<char>>::empty()
    } else {
        let rest = strings_of(items.drop_first(), selected);
        match items[0] {
            JsonModel::Text(s) => if !restates_selection(s, selected) {
                seq![s] + rest
            } else {
                rest
            },
            _ => rest,
        }
    }
}

/// What a parsed reply contributes: the filtered strings under the
/// `alternatives` key, nothing otherwise.
pub open spec fn alternatives_from_model(m: JsonModel, selected: Seq<char>) -> Seq<Seq<char>> {
    match json_get_spec(m, "alternatives"@) {
        Some(JsonModel::Array(items)) => strings_of(items, selected),
        _ => Seq::<Seq<char>>::empty(),
    }
}

/// The repair pass over a reply that did not parse: literal `\n` becomes a
/// newline, newlines become spaces, double spaces single, then a trim.
pub open spec fn fixed_json_of(rt: Seq<char>) -> Seq<char> {
    trim_spec(replace_all(replace_all(replace_all(rt, "\\n"@, "\n"@), "\n"@, " "@), "  "@, " "@))
}

/// A truncated alternatives array gets its closing brackets back.
pub open spec fn completed_json_of(fixed: Seq<char>) -> Seq<char> {
    let ends_brace = fixed.len() > 0 && fixed.last() == '}';
    let ends_bracket = fixed.len() > 0 && fixed.last() == ']';
    if !ends_brace && !ends_bracket {
        if contains_sub(fixed, "\"alternatives\": ["@) {
            trim_end_any(fixed, seq![',']) + "]}"@
        } else {
            fixed
        }
    } else {
        fixed
    }
}

/// Whether a trimmed line cannot be a candidate at all.
pub open spec fn line_rejected(l: Seq<char>) -> bool {
    ||| l.len() == 0
    ||| seq!['#', '-', '{', '}', '[', ']'].contains(l[0])
    ||| contains_sub(l, "detected_language"@)
    ||| contains_sub(l, "translated_text"@)
    ||| contains_sub(l, "alternatives"@)
    ||| l.last() == ':'
    ||| l.last() == ','
    ||| l == "translation failed"@
}

/// The cleanup a surviving line receives: list markers stripped in front,
/// whitespace trimmed, quotes and commas trimmed at both ends.
pub open spec fn line_cleaned(l: Seq<char>) -> Seq<char> {
    trim_any(
        trim_spec(trim_start_any(l, seq!['1', '2', '3', '4', '5', '.', ')', '-', '*'])),
        seq!['"', ','],
    )
}

/// Whether a cleaned line stands as a candidate.
pub open spec fn candidate_kept(cl: Seq<char>, selected: Seq<char>) -> bool {
    &&& cl.len() > 0
    &&& byte_len(cl) > 1
    &&& !(forall|i: int| 0 <= i < cl.len() ==> is_ascii_punct(#[trigger] cl[i]))
    &&& cl != "translation failed"@
    &&& !restates_selection(cl, selected)
}

/// The candidates the line fallback draws from the lines, in order.
pub open spec fn line_candidates(lines: Seq<Seq<char>>, selected: Seq<char>) -> Seq<Seq<char>>
    decreases lines.len(),
{
    if lines.len() == 0 {
        Seq::<Seq<char>>::empty()
    } else {
        let t = trim_spec(lines[0]);
        let rest = line_candidates(lines.drop_first(), selected);
        if line_rejected(t) {
            rest
        } else {
            let cl = line_cleaned(t);
            if candidate_kept(cl, selected) {
                seq![cl] + rest
            } else {
                rest
            }
        }
    }
}

/// Everything decoding an alternatives reply can yield, in order of the
/// three stages; empty when no stage found anything.
pub open spec fn alternatives_of(response: Seq<char>, selected: Seq<char>) -> Seq<Seq<char>> {
    let rt = trim_spec(response);
    let s1 = match parse_json_spec(rt) {
        Some(m) => alternatives_from_model(m, selected),
        None => Seq::<Seq<char>>::empty(),
    };
    if s1.len() > 0 {
        s1
    } else {
        let s2 = match parse_json_spec(completed_json_of(fixed_json_of(rt))) {
            Some(m) => alternatives_from_model(m, selected),
            None => Seq::<Seq<char>>::empty(),
        };
        if s2.len() > 0 {
            s2
        } else {
            let s3 = line_candidates(lines_of(rt), selected);
            s3.take(min(5, s3.len() as int))
        }
    }
}

/// The chat-capable providers an alternatives request can run on.
pub open spec fn known_chat_provider(s: Seq<char>) -> bool {
    s == "openai"@ || s == "azure_openai"@ || s == "ollama"@
}

/// Chooses which backend answers an alternatives request and the
/// configuration it runs under: the active provider with the alternatives
/// prompt; when the machine-translation provider is active, which cannot
/// generate alternatives, the configured fallback provider instead.
pub fn plan_alternatives(config: Config, selected_text: &str, target_language: &str) -> (r: Result<
    (ProviderKind, Config),
    Error,
>)
    ensures
        config.api_provider@ == "azure_translator"@ && parsed_fallback_of(config) is None ==> (r
            matches Err(e) && (e matches Error::ApiError(m) && m@
            == "Azure Translator cannot generate alternatives. Please configure a fallback provider in settings."@)),
        config.api_provider@ == "azure_translator"@ ==> (parsed_fallback_of(config)
            matches Some(pm) ==> r matches Ok(p) && {
            &&& p.1.api_provider@ == pm.0
            &&& p.1.model@ == pm.1
            &&& p.1.custom_prompt@ == alternatives_prompt_spec(target_language@, selected_text@)
            &&& p.1.azure_deployment_name@ == (if pm.0 == "azure_openai"@ {
                pm.1
            } else {
                config.azure_deployment_name@
            })
            &&& p.1 == (Config {
                api_provider: p.1.api_provider,
                model: p.1.model,
                custom_prompt: p.1.custom_prompt,
                azure_deployment_name: p.1.azure_deployment_name,
                ..config
            })
            &&& p.0 == provider_for(pm.0)
        }),
        config.api_provider@ != "azure_translator"@ ==> (r matches Ok(p) && {
            &&& p.0 == provider_for(config.api_provider@)
            &&& p.1.custom_prompt@ == alternatives_prompt_spec(target_language@, selected_text@)
            &&& p.1.api_provider@ == (if known_chat_provider(config.api_provider@) {
                config.api_provider@
            } else {
                "openai"@
            })
            &&& p.1.azure_deployment_name@ == (if config.api_provider@ == "azure_openai"@
                && config.model@.len() > 0 && config.azure_deployment_name@ != config.model@ {
                config.model@
            } else {
                config.azure_deployment_name@
            })
            &&& p.1 == (Config {
                api_provider: p.1.api_provider,
                custom_prompt: p.1.custom_prompt,
                azure_deployment_name: p.1.azure_deployment_name,
                ..config
            })
        }),
{
    let mut ac = config;
    let prompt = build_alternatives_prompt(target_language, selected_text);
    let apv = str_chars(ac.api_provider.as_str());
    let is_mt = eq_chars(&apv, &str_chars("azure_translator"));
    if is_mt {
        match ac.parse_alternatives_fallback() {
            Some(pm) => {
                let (p, m) = pm;
                let pv = str_chars(p.as_str());
                let azure = eq_chars(&pv, &str_chars("azure_openai"));
                ac.api_provider = p;
                ac.model = m.clone();
                ac.custom_prompt = prompt;
                if azure {
                    ac.azure_deployment_name = m;
                }
                ac.ensure_azure_deployment_consistency();
                let kind = crate::provider::create_provider(ac.api_provider.as_str());
                Ok((kind, ac))
            },
            None => Err(
                Error::ApiError(
                    "Azure Translator cannot generate alternatives. Please configure a fallback provider in settings.".to_owned(),
                ),
            ),
        }
    } else {
        ac.custom_prompt = prompt;
        ac.ensure_azure_deployment_consistency();
        let kind = crate::provider::create_provider(ac.api_provider.as_str());
        let known = eq_chars(&apv, &str_chars("openai")) || eq_chars(
            &apv,
            &str_chars("azure_openai"),
        ) || eq_chars(&apv, &str_chars("ollama"));
        if !known {
            ac.api_provider = "openai".to_owned();
        }
        Ok((kind, ac))
    }
}

/// Collects the filtered strings under `alternatives` from a parsed reply.
fn collect_from_value(v: &JsonValue, selected: &str) -> (r: Vec<String>)
    ensures
        r@.len() == alternatives_from_model(v@, selected@).len(),
        forall|i: int|
            0 <= i < r@.len() ==> #[trigger] r@[i]@ == alternatives_from_model(v@, selected@)[i],
{
    let sel_lower = to_lowercase(chars_to_string(&trim_chars(&str_chars(selected))).as_str());
    let mut out: Vec<String> = Vec::new();
    let ghost mut out_v: Seq<Seq<char>> = Seq::empty();
    let arr = match json_get(v, &str_chars("alternatives")) {
        Some(field) => {
            match field {
                JsonValue::Array(items) => items,
                _ => {
                    return out;
                },
            }
        },
        None => {
            return out;
        },
    };
    let ghost models = crate::json::json_models_of(arr@);
    let mut i: usize = 0;
    proof {
        crate::json::lemma_json_models_index(arr@, 0);
        assert(models.skip(0) =~= models);
        assert(strings_of(models, selected@) =~= out_v + strings_of(models.skip(0), selected@));
    }
    while i < arr.len()
        invariant
            i <= arr@.len(),
            models == crate::json::json_models_of(arr@),
            models.len() == arr@.len(),
            sel_lower@ == lower_of(trim_spec(selected@)),
            out_v.len() == out@.len(),
            forall|k: int| 0 <= k < out_v.len() ==> #[trigger] out_v[k] == out@[k]@,
            strings_of(models, selected@) == out_v + strings_of(models.skip(i as int), selected@),
        decreases arr@.len() - i,
    {
        proof {
            crate::json::lemma_json_models_index(arr@, i as int);
            assert(models.skip(i as int).drop_first() =~= models.skip(i as int + 1));
            assert(models.skip(i as int)[0] == models[i as int]);
        }
        let ghost out_v_before = out_v;
        match &arr[i] {
            JsonValue::Text(s) => {
                let cand_lower = to_lowercase(chars_to_string(&trim_chars(s)).as_str());
                if !(cand_lower == sel_lower) {
                    out.push(chars_to_string(s));
                    proof {
                        out_v = out_v.push(s@);
                        assert(out_v_before + (seq![s@] + strings_of(
                            models.skip(i as int + 1),
                            selected@,
                        )) =~= out_v + strings_of(models.skip(i as int + 1), selected@));
                    }
                }
            },
            _ => {},
        }
        i = i + 1;
    }
    proof {
        assert(models.skip(models.len() as int) =~= Seq::<JsonModel>::empty());
        assert(out_v + Seq::<Seq<char>>::empty() =~= out_v);
        assert(out_v =~= strings_of(models, selected@));
    }
    out
}

/// Decodes an alternatives reply: direct JSON first, then the repaired
/// JSON, then plain text lines, keeping at most five; fails only when
/// every stage comes up empty.
#[verifier::rlimit(60)]
pub fn extract_alternatives(response_text: &str, selected_text: &str) -> (r: Result<
    AlternativeTranslationsResult,
    Error,
>)
    ensures
        ({
            let alts = alternatives_of(response_text@, selected_text@);
            if alts.len() == 0 {
                r matches Err(e) && (e matches Error::ApiError(m) && m@
                    == "No alternatives found in response"@)
            } else {
                r matches Ok(ar) && ar.alternatives@.len() == alts.len() && (forall|i: int|
                    0 <= i < alts.len() ==> #[trigger] ar.alternatives@[i]@ == alts[i])
            }
        }),
{
    let rt = trim_chars(&str_chars(response_text));
    // Direct parse.
    match parse_json_chars(&rt) {
        Some(v) => {
            let s1 = collect_from_value(&v, selected_text);
            if s1.len() > 0 {
                return Ok(AlternativeTranslationsResult { alternatives: s1 });
            }
        },
        None => {},
    }
    // Repair and re-parse.
    let a = crate::extract::replace_chars(&rt, &str_chars("\\n"), &str_chars("\n"));
    let b = crate::extract::replace_chars(&a, &str_chars("\n"), &str_chars(" "));
    let c = crate::extract::replace_chars(&b, &str_chars("  "), &str_chars(" "));
    let fixed = trim_chars(&c);
    let ends_brace = fixed.len() > 0 && fixed[fixed.len() - 1] == '}';
    let ends_bracket = fixed.len() > 0 && fixed[fixed.len() - 1] == ']';
    let completed: Vec<char> = if !ends_brace && !ends_bracket {
        if contains_chars(&fixed, &str_chars("\"alternatives\": [")) {
            let mut t = trim_end_any_chars(&fixed, &str_chars(","));
            t.push(']');
            t.push('}');
            proof {
                assert(t@ =~= trim_end_any(fixed@, seq![',']) + "]}"@) by {
                    reveal_strlit("]}");
                    reveal_strlit(",");
                    assert(","@ =~= seq![',']);
                }
            }
            t
        } else {
            fixed
        }
    } else {
        fixed
    };
    match parse_json_chars(&completed) {
        Some(v) => {
            let s2 = collect_from_value(&v, selected_text);
            if s2.len() > 0 {
                return Ok(AlternativeTranslationsResult { alternatives: s2 });
            }
        },
        None => {},
    }
    // Plain text lines.
    let lines = lines_vec(&rt);
    let lead_set = str_chars("12345.)-*");
    let reject_set = str_chars("#-{}[]");
    let quote_set = str_chars("\",");
    let mut out: Vec<String> = Vec::new();
    let ghost mut out_v: Seq<Seq<char>> = Seq::empty();
    let ghost line_views = lines_of(rt@);
    let mut i: usize = 0;
    proof {
        reveal_strlit("12345.)-*");
        reveal_strlit("#-{}[]");
        reveal_strlit("\",");
        assert(lead_set@ =~= seq!['1', '2', '3', '4', '5', '.', ')', '-', '*']);
        assert(reject_set@ =~= seq!['#', '-', '{', '}', '[', ']']);
        assert(quote_set@ =~= seq!['"', ',']);
        assert(line_views.skip(0) =~= line_views);
        assert(line_candidates(line_views, selected_text@) =~= out_v + line_candidates(
            line_views.skip(0),
            selected_text@,
        ));
    }
    let sel_lower = to_lowercase(chars_to_string(&trim_chars(&str_chars(selected_text))).as_str());
    while i < lines.len()
        invariant
            i <= lines@.len(),
            line_views.len() == lines@.len(),
            forall|k: int| 0 <= k < line_views.len() ==> #[trigger] lines@[k]@ == line_views[k],
            lead_set@ == seq!['1', '2', '3', '4', '5', '.', ')', '-', '*'],
            reject_set@ == seq!['#', '-', '{', '}', '[', ']'],
            quote_set@ == seq!['"', ','],
            sel_lower@ == lower_of(trim_spec(selected_text@)),
            out_v.len() == out@.len(),
            forall|k: int| 0 <= k < out_v.len() ==> #[trigger] out_v[k] == out@[k]@,
            line_candidates(line_views, selected_text@) == out_v + line_candidates(
                line_views.skip(i as int),
                selected_text@,
            ),
        decreases lines@.len() - i,
    {
        proof {
            assert(line_views.skip(i as int).drop_first() =~= line_views.skip(i as int + 1));
            assert(line_views.skip(i as int)[0] == line_views[i as int]);
        }
        let ghost out_v_before = out_v;
        let t = trim_chars(&lines[i]);
        let mut rejected = t.len() == 0;
        if !rejected {
            rejected = set_contains(&reject_set, t[0]) || contains_chars(
                &t,
                &str_chars("detected_language"),
            ) || contains_chars(&t, &str_chars("translated_text")) || contains_chars(
                &t,
                &str_chars("alternatives"),
            ) || t[t.len() - 1] == ':' || t[t.len() - 1] == ',' || eq_chars(
                &t,
                &str_chars("translation failed"),
            );
        }
        if !rejected {
            let cl = trim_any_chars(&trim_chars(&trim_start_any_chars(&t, &lead_set)), &quote_set);
            let mut kept = cl.len() > 0;
            if kept {
                kept = chars_to_string(&cl).as_str().as_bytes().len() > 1;
            }
            if kept {
                let mut all_punct = true;
                let mut k: usize = 0;
                while k < cl.len()
                    invariant
                        k <= cl@.len(),
                        all_punct == (forall|m: int|
                            0 <= m < k ==> is_ascii_punct(#[trigger] cl@[m])),
                    decreases cl@.len() - k,
                {
                    if !is_ascii_punct_exec(cl[k]) {
                        all_punct = false;
                    }
                    k = k + 1;
                }
                kept = !all_punct;
            }
            if kept {
                kept = !eq_chars(&cl, &str_chars("translation failed"));
            }
            if kept {
                let cl_lower = to_lowercase(chars_to_string(&trim_chars(&cl)).as_str());
                kept = !(cl_lower == sel_lower);
            }
            if kept {
                out.push(chars_to_string(&cl));
                proof {
                    out_v = out_v.push(line_cleaned(trim_spec(line_views[i as int])));
                    assert(out_v_before + (seq![line_cleaned(trim_spec(line_views[i as int]))]
                        + line_candidates(line_views.skip(i as int + 1), selected_text@)) =~= out_v
                        + line_candidates(line_views.skip(i as int + 1), selected_text@));
                }
            }
        }
        i = i + 1;
    }
    proof {
        assert(line_views.skip(line_views.len() as int) =~= Seq::<Seq<char>>::empty());
        assert(out_v + Seq::<Seq<char>>::empty() =~= out_v);
        assert(out_v =~= line_candidates(line_views, selected_text@));
    }
    let mut result = out;
    if result.len() > 5 {
        result.truncate(5);
    }
    proof {
        assert(result@.len() == min(5, out_v.len() as int));
        assert forall|q: int| 0 <= q < result@.len() implies #[trigger] result@[q]@
            == out_v.take(min(5, out_v.len() as int))[q] by {}
    }
    if result.len() == 0 {
        return Err(Error::ApiError("No alternatives found in response".to_owned()));
    }
    Ok(AlternativeTranslationsResult { alternatives: result })
}

} // verus!
