//! The history document: one JSON object holding the ordered entry list,
//! written out whole and read back whole.  The writer pins the exact text;
//! the reader tolerates a missing or unreadable document by starting empty.

use crate::history::{TranslationEntry, TranslationHistory};
use crate::json::{
    escape_json, escape_json_spec, hex_digit_char, json_get, json_get_spec, parse_json_chars,
    parse_json_spec, JsonModel, JsonValue,
};
use crate::text::{chars_to_string, str_chars};
use vstd::prelude::*;

verus! {

/// The decimal text of an integer.
pub open spec fn decimal_of(n: int) -> Seq<char>
    decreases (if n < 0 {
        1 - n
    } else {
        n
    }),
{
    if n < 0 {
        seq!['-'] + decimal_of(-n)
    } else if n < 10 {
        seq![hex_digit_char(n)]
    } else {
        decimal_of(n / 10) + seq![hex_digit_char(n % 10)]
    }
}

fn decimal_u64(n: u64) -> (r: Vec<char>)
    ensures
        r@ == decimal_of(n as int),
    decreases n,
{
    if n < 10 {
        let mut r: Vec<char> = Vec::new();
        r.push(hex_digit_exec(n as u32));
        proof {
            assert(r@ =~= seq![hex_digit_char(n as int)]);
        }
        r
    } else {
        let mut r = decimal_u64(n / 10);
        r.push(hex_digit_exec((n % 10) as u32));
        proof {
            assert(r@ =~= decimal_of(n as int / 10) + seq![hex_digit_char(n as int % 10)]);
        }
        r
    }
}

fn hex_digit_exec(n: u32) -> (c: char)
    requires
        n < 16,
    ensures
        c == hex_digit_char(n as int),
{
    if n == 0 {
        '0'
    } else if n == 1 {
        '1'
    } else if n == 2 {
        '2'
    } else if n == 3 {
        '3'
    } else if n == 4 {
        '4'
    } else if n == 5 {
        '5'
    } else if n == 6 {
        '6'
    } else if n == 7 {
        '7'
    } else if n == 8 {
        '8'
    } else if n == 9 {
        '9'
    } else if n == 10 {
        'a'
    } else if n == 11 {
        'b'
    } else if n == 12 {
        'c'
    } else if n == 13 {
        'd'
    } else if n == 14 {
        'e'
    } else {
        'f'
    }
}

/// Renders a signed integer in decimal.
pub fn decimal_i64(n: i64) -> (r: String)
    ensures
        r@ == decimal_of(n as int),
{
    if n >= 0 {
        chars_to_string(&decimal_u64(n as u64))
    } else {
        let m: u64 = (-(n as i128)) as u64;
        let mut s: String = "-".to_owned();
        s.append(chars_to_string(&decimal_u64(m)).as_str());
        proof {
            reveal_strlit("-");
            assert("-"@ =~= seq!['-']);
        }
        s
    }
}

/// The JSON text of one entry.
pub open spec fn entry_json_spec(e: TranslationEntry) -> Seq<char> {
    "{\"id\":\""@ + escape_json_spec(e.id@) + "\",\"original_text\":\""@ + escape_json_spec(
        e.original_text@,
    ) + "\",\"translated_text\":\""@ + escape_json_spec(e.translated_text@)
        + "\",\"detected_language\":\""@ + escape_json_spec(e.detected_language@)
        + "\",\"target_language\":\""@ + escape_json_spec(e.target_language@)
        + "\",\"timestamp_ms\":"@ + decimal_of(e.timestamp_ms as int) + "}"@
}

/// The comma-led JSON text of every entry after the first.
pub open spec fn rest_entries_json_spec(s: Seq<TranslationEntry>) -> Seq<char>
    decreases s.len(),
{
    if s.len() == 0 {
        Seq::<char>::empty()
    } else {
        ","@ + entry_json_spec(s[0]) + rest_entries_json_spec(s.drop_first())
    }
}

/// The JSON text of the entry list.
pub open spec fn entries_json_spec(s: Seq<TranslationEntry>) -> Seq<char> {
    if s.len() == 0 {
        Seq::<char>::empty()
    } else {
        entry_json_spec(s[0]) + rest_entries_json_spec(s.drop_first())
    }
}

/// The whole history document.
pub open spec fn history_json_spec(s: Seq<TranslationEntry>) -> Seq<char> {
    "{\"entries\":["@ + entries_json_spec(s) + "]}"@
}

fn append_entry_json(out: &mut String, e: &TranslationEntry)
    ensures
        final(out)@ == old(out)@ + entry_json_spec(*e),
{
    out.append("{\"id\":\"");
    out.append(escape_json(e.id.as_str()).as_str());
    out.append("\",\"original_text\":\"");
    out.append(escape_json(e.original_text.as_str()).as_str());
    out.append("\",\"translated_text\":\"");
    out.append(escape_json(e.translated_text.as_str()).as_str());
    out.append("\",\"detected_language\":\"");
    out.append(escape_json(e.detected_language.as_str()).as_str());
    out.append("\",\"target_language\":\"");
    out.append(escape_json(e.target_language.as_str()).as_str());
    out.append("\",\"timestamp_ms\":");
    out.append(decimal_i64(e.timestamp_ms).as_str());
    out.append("}");
}

/// Renders the whole history as its JSON document.
pub fn history_to_json_text(history: &TranslationHistory) -> (r: String)
    ensures
        r@ == history_json_spec(history.entries@),
{
    let mut out: String = "{\"entries\":[".to_owned();
    let ghost all = history.entries@;
    if history.entries.len() > 0 {
        append_entry_json(&mut out, &history.entries[0]);
        let mut i: usize = 1;
        proof {
            assert(all.skip(1) =~= all.drop_first());
        }
        while i < history.entries.len()
            invariant
                1 <= i <= all.len(),
                all == history.entries@,
                out@ + rest_entries_json_spec(all.skip(i as int)) == "{\"entries\":["@
                    + entries_json_spec(all),
            decreases all.len() - i,
        {
            let ghost out_before = out@;
            proof {
                assert(all.skip(i as int).drop_first() =~= all.skip(i as int + 1));
                assert(all.skip(i as int)[0] == all[i as int]);
            }
            out.append(",");
            append_entry_json(&mut out, &history.entries[i]);
            proof {
                assert(out@ + rest_entries_json_spec(all.skip(i as int + 1)) =~= out_before
                    + rest_entries_json_spec(all.skip(i as int))) by {
                    reveal_strlit(",");
                    assert(","@ =~= seq![',']);
                    assert(out@ =~= out_before + ","@ + entry_json_spec(all[i as int]));
                }
            }
            i = i + 1;
        }
        proof {
            assert(all.skip(all.len() as int) =~= Seq::<TranslationEntry>::empty());
            assert(out@ + Seq::<char>::empty() =~= out@);
        }
    }
    out.append("]}");
    out
}

/// The value of a digit string; texts far beyond the signed range
/// saturate.
pub open spec fn dec_value(s: Seq<char>) -> int
    decreases s.len(),
{
    if s.len() == 0 {
        0
    } else {
        let prev = dec_value(s.drop_last());
        if prev >= 0x8000000000000000 {
            prev
        } else {
            prev * 10 + (s.last() as int - '0' as int)
        }
    }
}

/// A signed decimal as the reader accepts it: an optional minus, then
/// digits, within the signed 64-bit range.
pub open spec fn parse_i64_spec(s: Seq<char>) -> Option<i64> {
    let neg = s.len() > 0 && s[0] == '-';
    let digits: Seq<char> = if neg {
        s.drop_first()
    } else {
        s
    };
    if digits.len() > 0 && crate::text::all_decimal_digits(digits) && (if neg {
        dec_value(digits) <= 0x8000000000000000
    } else {
        dec_value(digits) < 0x8000000000000000
    }) {
        Some(
            (if neg {
                -dec_value(digits)
            } else {
                dec_value(digits)
            }) as i64,
        )
    } else {
        None
    }
}

/// Parses a signed decimal.
fn parse_i64(s: &Vec<char>) -> (r: Option<i64>)
    ensures
        r == parse_i64_spec(s@),
{
    let neg = s.len() > 0 && s[0] == '-';
    let start: usize = if neg {
        1
    } else {
        0
    };
    let ghost digits = if neg {
        s@.drop_first()
    } else {
        s@
    };
    proof {
        assert(digits =~= s@.skip(start as int));
    }
    if s.len() == start {
        return None;
    }
    let mut value: u128 = 0;
    let mut i: usize = start;
    proof {
        assert(digits.take(0) =~= Seq::<char>::empty());
    }
    while i < s.len()
        invariant
            start <= i <= s@.len(),
            neg == (s@.len() > 0 && s@[0] == '-'),
            start == (if neg {
                1int
            } else {
                0int
            }),
            digits == (if neg {
                s@.drop_first()
            } else {
                s@
            }),
            digits == s@.skip(start as int),
            forall|k: int| start <= k < i ==> '0' <= #[trigger] s@[k] <= '9',
            value == dec_value(digits.take(i - start as int)),
            value <= 0x8000000000000000 * 10,
        decreases s@.len() - i,
    {
        let c = s[i];
        if !('0' <= c && c <= '9') {
            proof {
                assert(digits[i - start as int] == s@[i as int]);
                assert(!('0' <= digits[i - start as int] && digits[i - start as int] <= '9'));
                assert(!crate::text::all_decimal_digits(digits));
            }
            return None;
        }
        proof {
            assert(digits.take(i - start as int + 1).drop_last() =~= digits.take(
                i - start as int,
            ));
            assert(digits.take(i - start as int + 1).last() == s@[i as int]);
        }
        if value < 0x8000000000000000 {
            value = value * 10 + ((c as u32) - 48) as u128;
        }
        i = i + 1;
    }
    proof {
        assert(digits.take(digits.len() as int) =~= digits);
        assert forall|j: int| 0 <= j < digits.len() implies '0' <= #[trigger] digits[j]
            <= '9' by {
            assert(digits[j] == s@[j + start]);
        }
        assert(crate::text::all_decimal_digits(digits));
    }
    if neg {
        if value <= 0x8000000000000000 {
            Some((-(value as i128)) as i64)
        } else {
            None
        }
    } else {
        if value < 0x8000000000000000 {
            Some(value as i64)
        } else {
            None
        }
    }
}

/// The text under `key` in an item, empty when absent or not a string.
pub open spec fn text_of(m: JsonModel, key: Seq<char>) -> Seq<char> {
    match json_get_spec(m, key) {
        Some(JsonModel::Text(t)) => t,
        _ => Seq::<char>::empty(),
    }
}

/// The stamp an item carries: its number read as a signed decimal, zero
/// when absent, malformed or out of range.
pub open spec fn stamp_of(m: JsonModel) -> int {
    match json_get_spec(m, "timestamp_ms"@) {
        Some(JsonModel::Number(x)) => match parse_i64_spec(x) {
            Some(v) => v as int,
            None => 0,
        },
        _ => 0,
    }
}

fn field_text(v: &JsonValue, key: &Vec<char>) -> (r: String)
    ensures
        r@ == text_of(v@, key@),
{
    proof {
        reveal_strlit("");
        assert(""@ =~= Seq::<char>::empty());
    }
    match json_get(v, key) {
        Some(f) => {
            match f {
                JsonValue::Text(t) => chars_to_string(t),
                _ => "".to_owned(),
            }
        },
        None => "".to_owned(),
    }
}

fn field_stamp(v: &JsonValue) -> (r: i64)
    ensures
        r as int == stamp_of(v@),
{
    match json_get(v, &str_chars("timestamp_ms")) {
        Some(f) => {
            match f {
                JsonValue::Number(x) => {
                    match parse_i64(x) {
                        Some(n) => n,
                        None => 0,
                    }
                },
                _ => 0,
            }
        },
        None => 0,
    }
}

/// Whether a history entry restates an item of the parsed document.
pub open spec fn entry_matches_item(e: TranslationEntry, it: JsonModel) -> bool {
    &&& e.id@ == text_of(it, "id"@)
    &&& e.original_text@ == text_of(it, "original_text"@)
    &&& e.translated_text@ == text_of(it, "translated_text"@)
    &&& e.detected_language@ == text_of(it, "detected_language"@)
    &&& e.target_language@ == text_of(it, "target_language"@)
    &&& e.timestamp_ms as int == stamp_of(it)
}

/// Reads the history document back: one entry per item of the `entries`
/// array, missing fields falling back to empty text and a zero stamp; a
/// document that does not parse, or holds no such array, means an empty
/// history.
pub fn history_from_json_text(text: &str) -> (h: TranslationHistory)
    ensures
        match parse_json_spec(text@) {
            Some(m) => match json_get_spec(m, "entries"@) {
                Some(JsonModel::Array(items)) => h.entries@.len() == items.len() && (forall|i: int|
                    0 <= i < items.len() ==> entry_matches_item(
                        #[trigger] h.entries@[i],
                        items[i],
                    )),
                _ => h.entries@.len() == 0,
            },
            None => h.entries@.len() == 0,
        },
{
    let mut h = TranslationHistory::new();
    let tv = str_chars(text);
    let doc = match parse_json_chars(&tv) {
        Some(d) => d,
        None => {
            return h;
        },
    };
    let items = match json_get(&doc, &str_chars("entries")) {
        Some(f) => {
            match f {
                JsonValue::Array(items) => items,
                _ => {
                    return h;
                },
            }
        },
        None => {
            return h;
        },
    };
    let ghost models = crate::json::json_models_of(items@);
    let mut i: usize = 0;
    proof {
        crate::json::lemma_json_models_index(items@, 0);
    }
    while i < items.len()
        invariant
            i <= items@.len(),
            models == crate::json::json_models_of(items@),
            models.len() == items@.len(),
            h.entries@.len() == i,
            forall|k: int|
                0 <= k < i ==> entry_matches_item(#[trigger] h.entries@[k], models[k]),
        decreases items@.len() - i,
    {
        proof {
            crate::json::lemma_json_models_index(items@, i as int);
        }
        let item = &items[i];
        let e = TranslationEntry {
            id: field_text(item, &str_chars("id")),
            original_text: field_text(item, &str_chars("original_text")),
            translated_text: field_text(item, &str_chars("translated_text")),
            detected_language: field_text(item, &str_chars("detected_language")),
            target_language: field_text(item, &str_chars("target_language")),
            timestamp_ms: field_stamp(item),
        };
        h.entries.push(e);
        i = i + 1;
    }
    h
}

} // verus!
