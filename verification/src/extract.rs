//! The tolerant decoder for backend completions: strips stray control
//! characters, tries a direct JSON parse, recovers a balanced `{...}` span
//! from prose-wrapped replies, and falls back to a synthesized result, so
//! that every input yields an answer.

use crate::json::{
    json_get, json_get_spec, parse_json_chars, parse_json_spec, JsonModel, JsonValue,
};
use crate::text::{chars_to_string, eq_chars, is_control, is_control_char, str_chars};
use vstd::prelude::*;

verus! {

/// Characters the cleanup keeps: everything but control characters, except
/// the newlines and tabs that formatting needs.
pub open spec fn keeps_char(c: char) -> bool {
    !is_control_char(c) || c == '\n' || c == '\r' || c == '\t'
}

/// `s` with every dropped character removed, in order.
pub open spec fn kept_chars(s: Seq<char>) -> Seq<char>
    decreases s.len(),
{
    if s.len() == 0 {
        Seq::<char>::empty()
    } else if keeps_char(s[0]) {
        seq![s[0]] + kept_chars(s.drop_first())
    } else {
        kept_chars(s.drop_first())
    }
}

/// Removes control characters, keeping newlines, carriage returns and tabs.
pub fn strip_control_chars(s: &Vec<char>) -> (r: Vec<char>)
    ensures
        r@ == kept_chars(s@),
{
    let mut out: Vec<char> = Vec::new();
    let mut i: usize = 0;
    proof {
        assert(s@.skip(0) =~= s@);
        assert(out@ + kept_chars(s@.skip(0)) =~= kept_chars(s@));
    }
    while i < s.len()
        invariant
            i <= s@.len(),
            kept_chars(s@) == out@ + kept_chars(s@.skip(i as int)),
        decreases s@.len() - i,
    {
        let ghost out_before = out@;
        proof {
            assert(s@.skip(i as int).drop_first() =~= s@.skip(i as int + 1));
        }
        let c = s[i];
        if !is_control(c) || c == '\n' || c == '\r' || c == '\t' {
            out.push(c);
            proof {
                assert(out_before + (seq![c] + kept_chars(s@.skip(i as int + 1))) =~= out@
                    + kept_chars(s@.skip(i as int + 1)));
            }
        }
        i = i + 1;
    }
    proof {
        assert(s@.skip(s@.len() as int) =~= Seq::<char>::empty());
        assert(out@ + Seq::<char>::empty() =~= out@);
    }
    out
}

/// The first position at or after `from` holding `c`.
pub open spec fn find_char_spec(s: Seq<char>, c: char, from: int) -> Option<int>
    decreases s.len() - from,
{
    if from < 0 || from >= s.len() {
        None
    } else if s[from] == c {
        Some(from)
    } else {
        find_char_spec(s, c, from + 1)
    }
}

pub fn find_char(s: &Vec<char>, c: char, from: usize) -> (r: Option<usize>)
    requires
        from <= s@.len(),
    ensures
        match r {
            Some(p) => find_char_spec(s@, c, from as int) == Some(p as int) && from <= p
                < s@.len() && s@[p as int] == c,
            None => find_char_spec(s@, c, from as int) is None,
        },
{
    let mut i = from;
    while i < s.len()
        invariant
            from <= i <= s@.len(),
            find_char_spec(s@, c, from as int) == find_char_spec(s@, c, i as int),
        decreases s@.len() - i,
    {
        if s[i] == c {
            return Some(i);
        }
        i = i + 1;
    }
    None
}

/// Where the brace span opened before position `i` closes, scanning with
/// `depth` braces already open: the position just past the balancing `}`.
pub open spec fn brace_end_spec(s: Seq<char>, i: int, depth: int) -> Option<int>
    decreases s.len() - i,
{
    if i < 0 || i >= s.len() {
        None
    } else if s[i] == '{' {
        brace_end_spec(s, i + 1, depth + 1)
    } else if s[i] == '}' {
        if depth == 1 {
            Some(i + 1)
        } else {
            brace_end_spec(s, i + 1, depth - 1)
        }
    } else {
        brace_end_spec(s, i + 1, depth)
    }
}

/// Scans forward from `start`, which must hold `{`, for the balancing `}`.
fn find_balanced_end(s: &Vec<char>, start: usize) -> (r: Option<usize>)
    requires
        start < s@.len(),
        s@[start as int] == '{',
    ensures
        match r {
            Some(p) => brace_end_spec(s@, start as int, 0) == Some(p as int) && start < p
                <= s@.len(),
            None => brace_end_spec(s@, start as int, 0) is None,
        },
{
    proof {
        assert(start < s.len());
    }
    let mut depth: usize = 1;
    let mut i = start + 1;
    while i < s.len()
        invariant
            start < i <= s@.len(),
            1 <= depth <= i,
            brace_end_spec(s@, start as int, 0) == brace_end_spec(s@, i as int, depth as int),
        decreases s@.len() - i,
    {
        let c = s[i];
        if c == '{' {
            depth = depth + 1;
        } else if c == '}' {
            if depth == 1 {
                return Some(i + 1);
            }
            depth = depth - 1;
        }
        i = i + 1;
    }
    None
}

/// The marker standing in for a translation that could not be read.
pub open spec fn failure_marker() -> Seq<char> {
    "translation failed"@
}

/// The language name standing in for an unreadable detection.
pub open spec fn unknown_language() -> Seq<char> {
    "unknown"@
}

/// One replacement pass: every non-overlapping occurrence of `pat`, found
/// left to right, becomes `rep`.
pub open spec fn replace_all(s: Seq<char>, pat: Seq<char>, rep: Seq<char>) -> Seq<char>
    decreases s.len(),
{
    if s.len() == 0 || pat.len() == 0 {
        s
    } else if pat.is_prefix_of(s) {
        rep + replace_all(s.skip(pat.len() as int), pat, rep)
    } else {
        seq![s[0]] + replace_all(s.drop_first(), pat, rep)
    }
}

fn is_prefix_at(s: &Vec<char>, pat: &Vec<char>, at: usize) -> (r: bool)
    requires
        at <= s@.len(),
    ensures
        r == pat@.is_prefix_of(s@.skip(at as int)),
{
    if pat.len() > s.len() - at {
        return false;
    }
    let mut k: usize = 0;
    while k < pat.len()
        invariant
            k <= pat@.len(),
            at + pat@.len() <= s@.len(),
            forall|m: int| 0 <= m < k ==> s@[at + m] == pat@[m],
        decreases pat@.len() - k,
    {
        proof {
            assert(at + k < s.len());
        }
        if s[at + k] != pat[k] {
            proof {
                assert(s@.skip(at as int).take(pat@.len() as int)[k as int] == s@[at + k]);
            }
            return false;
        }
        k = k + 1;
    }
    proof {
        assert(s@.skip(at as int).take(pat@.len() as int) =~= pat@);
    }
    true
}

/// Replaces every occurrence of `pat` in `s` with `rep`, left to right.
pub fn replace_chars(s: &Vec<char>, pat: &Vec<char>, rep: &Vec<char>) -> (r: Vec<char>)
    ensures
        r@ == replace_all(s@, pat@, rep@),
{
    if pat.len() == 0 {
        let mut out: Vec<char> = Vec::new();
        let mut i: usize = 0;
        while i < s.len()
            invariant
                i <= s@.len(),
                out@ == s@.take(i as int),
            decreases s@.len() - i,
        {
            out.push(s[i]);
            proof {
                assert(s@.take(i as int).push(s@[i as int]) =~= s@.take(i as int + 1));
            }
            i = i + 1;
        }
        proof {
            assert(s@.take(s@.len() as int) =~= s@);
        }
        return out;
    }
    let mut out: Vec<char> = Vec::new();
    let mut i: usize = 0;
    proof {
        assert(s@.skip(0) =~= s@);
        assert(out@ + replace_all(s@.skip(0), pat@, rep@) =~= replace_all(s@, pat@, rep@));
    }
    while i < s.len()
        invariant
            i <= s@.len(),
            pat@.len() >= 1,
            replace_all(s@, pat@, rep@) == out@ + replace_all(s@.skip(i as int), pat@, rep@),
        decreases s@.len() - i,
    {
        let ghost out_before = out@;
        if is_prefix_at(s, pat, i) {
            let mut k: usize = 0;
            while k < rep.len()
                invariant
                    k <= rep@.len(),
                    out@ == out_before + rep@.take(k as int),
                decreases rep@.len() - k,
            {
                out.push(rep[k]);
                proof {
                    assert((out_before + rep@.take(k as int)).push(rep@[k as int]) =~= out_before
                        + rep@.take(k as int + 1));
                }
                k = k + 1;
            }
            proof {
                assert(rep@.take(rep@.len() as int) =~= rep@);
                assert(s@.skip(i as int).skip(pat@.len() as int) =~= s@.skip(
                    i as int + pat@.len(),
                ));
                assert((out_before + rep@) + replace_all(
                    s@.skip(i as int + pat@.len()),
                    pat@,
                    rep@,
                ) =~= out_before + (rep@ + replace_all(s@.skip(i as int + pat@.len()), pat@, rep@)));
            }
            i = i + pat.len();
        } else {
            let c = s[i];
            out.push(c);
            proof {
                assert(s@.skip(i as int)[0] == c);
                assert(s@.skip(i as int).drop_first() =~= s@.skip(i as int + 1));
                assert((out_before + seq![c]) + replace_all(s@.skip(i as int + 1), pat@, rep@)
                    =~= out_before + (seq![c] + replace_all(s@.skip(i as int + 1), pat@, rep@)));
            }
            i = i + 1;
        }
    }
    proof {
        assert(s@.skip(s@.len() as int) =~= Seq::<char>::empty());
        assert(out@ + Seq::<char>::empty() =~= out@);
    }
    out
}

/// The unescaping the decoder applies to a translated text: literal `\n`,
/// `\r\n` and `\r` sequences become newlines, literal `\t` a tab, in that
/// order of passes.
pub open spec fn unescape_spec(s: Seq<char>) -> Seq<char> {
    replace_all(
        replace_all(replace_all(replace_all(s, "\\n"@, "\n"@), "\\r\\n"@, "\n"@), "\\r"@, "\n"@),
        "\\t"@,
        "\t"@,
    )
}

fn unescape_chars(s: &Vec<char>) -> (r: Vec<char>)
    ensures
        r@ == unescape_spec(s@),
{
    let a = replace_chars(s, &str_chars("\\n"), &str_chars("\n"));
    let b = replace_chars(&a, &str_chars("\\r\\n"), &str_chars("\n"));
    let c = replace_chars(&b, &str_chars("\\r"), &str_chars("\n"));
    replace_chars(&c, &str_chars("\\t"), &str_chars("\t"))
}

/// The JSON the decoder reads out of a cleaned completion: the direct parse
/// when it succeeds, else the parse of the first balanced `{...}` span.
pub open spec fn recovered_json_of(cleaned: Seq<char>) -> Option<JsonModel> {
    match parse_json_spec(cleaned) {
        Some(m) => Some(m),
        None => match find_char_spec(cleaned, '{', 0) {
            Some(start) => match brace_end_spec(cleaned, start, 0) {
                Some(end) => parse_json_spec(cleaned.subrange(start, end)),
                None => None,
            },
            None => None,
        },
    }
}

/// The detected language a parsed reply carries: the like-named string
/// field when present and non-empty, else the unknown marker.
pub open spec fn detected_of(m: JsonModel) -> Seq<char> {
    match json_get_spec(m, "detected_language"@) {
        Some(JsonModel::Text(l)) => if l.len() > 0 {
            l
        } else {
            unknown_language()
        },
        _ => unknown_language(),
    }
}

/// The translated text a parsed reply carries: the like-named string field,
/// unescaped; else the whole reply when it is itself a string; else the
/// failure marker.
pub open spec fn translated_of(m: JsonModel) -> Seq<char> {
    match json_get_spec(m, "translated_text"@) {
        Some(JsonModel::Text(t)) => unescape_spec(t),
        _ => match m {
            JsonModel::Text(w) => unescape_spec(w),
            _ => failure_marker(),
        },
    }
}

/// What the decoder yields for a raw completion: detected language and
/// translated text, with the cleaned input standing in when no JSON can be
/// recovered.
pub open spec fn extraction_of(content: Seq<char>) -> (Seq<char>, Seq<char>) {
    let cleaned = kept_chars(content);
    match recovered_json_of(cleaned) {
        Some(m) => (detected_of(m), translated_of(m)),
        None => (unknown_language(), cleaned),
    }
}

/// Decodes a backend completion into the detected language and the
/// translated text.  Total: every input yields a best-effort answer, and a
/// reply with no readable JSON comes back as the unknown language with the
/// cleaned text itself.
pub fn extract_translation_fields(content: &str) -> (r: (String, String))
    ensures
        r.0@ == extraction_of(content@).0,
        r.1@ == extraction_of(content@).1,
{
    let cv = str_chars(content);
    let cleaned = strip_control_chars(&cv);
    let parsed: Option<JsonValue> = match parse_json_chars(&cleaned) {
        Some(v) => Some(v),
        None => {
            match find_char(&cleaned, '{', 0) {
                Some(start) => {
                    match find_balanced_end(&cleaned, start) {
                        Some(end) => {
                            let mut span: Vec<char> = Vec::new();
                            let mut k = start;
                            while k < end
                                invariant
                                    start <= k <= end <= cleaned@.len(),
                                    span@ == cleaned@.subrange(start as int, k as int),
                                decreases end - k,
                            {
                                span.push(cleaned[k]);
                                proof {
                                    assert(cleaned@.subrange(start as int, k as int).push(
                                        cleaned@[k as int],
                                    ) =~= cleaned@.subrange(start as int, k as int + 1));
                                }
                                k = k + 1;
                            }
                            parse_json_chars(&span)
                        },
                        None => None,
                    }
                },
                None => None,
            }
        },
    };
    match parsed {
        Some(v) => {
            let detected: String = match json_get(&v, &str_chars("detected_language")) {
                Some(field) => {
                    match field {
                        JsonValue::Text(l) => {
                            if l.len() > 0 {
                                chars_to_string(l)
                            } else {
                                "unknown".to_owned()
                            }
                        },
                        _ => "unknown".to_owned(),
                    }
                },
                None => "unknown".to_owned(),
            };
            let translated: String = match json_get(&v, &str_chars("translated_text")) {
                Some(field) => {
                    match field {
                        JsonValue::Text(t) => chars_to_string(&unescape_chars(t)),
                        _ => {
                            match &v {
                                JsonValue::Text(w) => chars_to_string(&unescape_chars(w)),
                                _ => "translation failed".to_owned(),
                            }
                        },
                    }
                },
                None => {
                    match &v {
                        JsonValue::Text(w) => chars_to_string(&unescape_chars(w)),
                        _ => "translation failed".to_owned(),
                    }
                },
            };
            (detected, translated)
        },
        None => ("unknown".to_owned(), chars_to_string(&cleaned)),
    }
}

} // verus!
