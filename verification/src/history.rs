//! The bounded, deduplicated translation history: near-duplicate
//! consolidation through edit-distance similarity, batch deduplication,
//! deletion and clearing.  Reading and writing the history file is the
//! caller's business; everything here works on the in-memory value.

use crate::language::{lower_of, to_lowercase};
use crate::text::{
    chars_to_string, contains_chars, contains_sub, ends_with_chars, is_space, is_space_char,
    str_chars, trim_chars, trim_spec,
};
use vstd::math::{max, min};
use vstd::prelude::*;
use vstd::utf8::encode_utf8;

verus! {

/// How many entries the history may hold.
pub const HISTORY_CAP: usize = 100;

/// The UTF-8 length of a character sequence, the length `str::len` reports.
pub open spec fn byte_len(s: Seq<char>) -> nat {
    encode_utf8(s).len()
}

/// The Levenshtein distance between two character sequences: the least
/// number of single-character insertions, deletions and substitutions that
/// turns one into the other.
pub open spec fn edit_distance(a: Seq<char>, b: Seq<char>) -> int
    decreases a.len() + b.len(),
{
    if a.len() == 0 {
        b.len() as int
    } else if b.len() == 0 {
        a.len() as int
    } else {
        let cost: int = if a.last() == b.last() {
            0
        } else {
            1
        };
        min(
            min(edit_distance(a.drop_last(), b) + 1, edit_distance(a, b.drop_last()) + 1),
            edit_distance(a.drop_last(), b.drop_last()) + cost,
        )
    }
}

/// The distance is never negative and never exceeds the longer length.
pub proof fn lemma_edit_distance_bound(a: Seq<char>, b: Seq<char>)
    ensures
        0 <= edit_distance(a, b),
        edit_distance(a, b) <= max(a.len() as int, b.len() as int),
    decreases a.len() + b.len(),
{
    if a.len() == 0 {
    } else if b.len() == 0 {
    } else {
        lemma_edit_distance_bound(a.drop_last(), b);
        lemma_edit_distance_bound(a, b.drop_last());
        lemma_edit_distance_bound(a.drop_last(), b.drop_last());
    }
}

fn min_u128(a: u128, b: u128) -> (r: u128)
    ensures
        r == min(a as int, b as int),
{
    if a <= b {
        a
    } else {
        b
    }
}

/// Dynamic-programming form of [`edit_distance`], one row at a time.
fn edit_distance_chars(a: &Vec<char>, b: &Vec<char>) -> (d: usize)
    ensures
        d == edit_distance(a@, b@),
{
    let m = a.len();
    let n = b.len();
    let mut prev: Vec<u128> = Vec::new();
    prev.push(0);
    proof {
        assert(a@.take(0) =~= Seq::<char>::empty());
        assert(b@.take(0) =~= Seq::<char>::empty());
    }
    let mut j: usize = 0;
    while j < n
        invariant
            j <= n,
            n == b@.len(),
            prev@.len() == j + 1,
            forall|q: int| 0 <= q <= j ==> prev@[q] == edit_distance(a@.take(0), b@.take(q)),
        decreases n - j,
    {
        proof {
            assert(a@.take(0) =~= Seq::<char>::empty());
            assert(b@.take(j + 1).len() == j + 1);
        }
        prev.push((j as u128) + 1);
        j = j + 1;
    }
    let mut i: usize = 0;
    while i < m
        invariant
            i <= m,
            m == a@.len(),
            n == b@.len(),
            prev@.len() == n + 1,
            forall|q: int| 0 <= q <= n ==> prev@[q] == edit_distance(a@.take(i as int), b@.take(q)),
        decreases m - i,
    {
        let mut cur: Vec<u128> = Vec::new();
        proof {
            assert(b@.take(0) =~= Seq::<char>::empty());
            assert(a@.take(i + 1).len() == i + 1);
        }
        cur.push((i as u128) + 1);
        let mut j2: usize = 0;
        while j2 < n
            invariant
                i < m,
                j2 <= n,
                m == a@.len(),
                n == b@.len(),
                prev@.len() == n + 1,
                cur@.len() == j2 + 1,
                forall|q: int|
                    0 <= q <= n ==> prev@[q] == edit_distance(a@.take(i as int), b@.take(q)),
                forall|q: int|
                    0 <= q <= j2 ==> cur@[q] == edit_distance(a@.take(i + 1), b@.take(q)),
            decreases n - j2,
        {
            proof {
                let ta = a@.take(i + 1);
                let tb = b@.take(j2 + 1);
                lemma_edit_distance_bound(a@.take(i as int), b@.take(j2 + 1));
                lemma_edit_distance_bound(ta, b@.take(j2 as int));
                lemma_edit_distance_bound(a@.take(i as int), b@.take(j2 as int));
                assert(ta.drop_last() =~= a@.take(i as int));
                assert(tb.drop_last() =~= b@.take(j2 as int));
                assert(ta.last() == a@[i as int]);
                assert(tb.last() == b@[j2 as int]);
            }
            let cost: u128 = if a[i] == b[j2] {
                0
            } else {
                1
            };
            let d1 = prev[j2 + 1] + 1;
            let d2 = cur[j2] + 1;
            let d3 = prev[j2] + cost;
            let dmin = min_u128(min_u128(d1, d2), d3);
            proof {
                assert(dmin == edit_distance(a@.take(i + 1), b@.take(j2 + 1)));
            }
            cur.push(dmin);
            j2 = j2 + 1;
        }
        prev = cur;
        i = i + 1;
    }
    proof {
        assert(a@.take(m as int) =~= a@);
        assert(b@.take(n as int) =~= b@);
        lemma_edit_distance_bound(a@, b@);
    }
    prev[n] as usize
}

/// The Levenshtein distance between two strings, counted over characters.
pub fn levenshtein_distance(s1: &str, s2: &str) -> (d: usize)
    ensures
        d == edit_distance(s1@, s2@),
{
    let av = str_chars(s1);
    let bv = str_chars(s2);
    edit_distance_chars(&av, &bv)
}

/// Whether two texts count as near-duplicates: their similarity
/// `1 - distance / max(byte length)` exceeds 0.8, that is, five times the
/// edit distance stays under the longer byte length.  Two empty texts are
/// fully similar.
pub open spec fn near_duplicate_spec(a: Seq<char>, b: Seq<char>) -> bool {
    if a.len() == 0 && b.len() == 0 {
        true
    } else {
        5 * edit_distance(a, b) < max(byte_len(a) as int, byte_len(b) as int)
    }
}

/// Runtime test for [`near_duplicate_spec`].
pub fn is_near_duplicate(a: &str, b: &str) -> (r: bool)
    ensures
        r == near_duplicate_spec(a@, b@),
{
    let av = str_chars(a);
    let bv = str_chars(b);
    if av.len() == 0 && bv.len() == 0 {
        return true;
    }
    let d = edit_distance_chars(&av, &bv);
    let la = a.as_bytes().len();
    let lb = b.as_bytes().len();
    let mx = if la >= lb {
        la
    } else {
        lb
    };
    proof {
        lemma_edit_distance_bound(a@, b@);
        assert(la == byte_len(a@));
        assert(lb == byte_len(b@));
    }
    5 * (d as u128) < (mx as u128)
}

/// One recorded translation.  The timestamp is milliseconds since the Unix
/// epoch; the id persists across in-place merges.
#[derive(Debug, Clone)]
pub struct TranslationEntry {
    pub id: String,
    pub original_text: String,
    pub translated_text: String,
    pub detected_language: String,
    pub target_language: String,
    pub timestamp_ms: i64,
}

/// The ordered history, newest first, at most [`HISTORY_CAP`] entries.
#[derive(Debug)]
pub struct TranslationHistory {
    pub entries: Vec<TranslationEntry>,
}

impl TranslationHistory {
    /// An empty history.
    pub fn new() -> (h: TranslationHistory)
        ensures
            h.entries@.len() == 0,
    {
        TranslationHistory { entries: Vec::new() }
    }

    /// Puts `entry` in front and keeps only the newest [`HISTORY_CAP`].
    pub fn add_entry(&mut self, entry: TranslationEntry)
        ensures
            final(self).entries@ == (seq![entry] + old(self).entries@).take(
                min(old(self).entries@.len() as int + 1, HISTORY_CAP as int),
            ),
    {
        self.entries.insert(0, entry);
        if self.entries.len() > HISTORY_CAP {
            self.entries.truncate(HISTORY_CAP);
        }
        proof {
            assert(final(self).entries@ =~= (seq![entry] + old(self).entries@).take(
                min(old(self).entries@.len() as int + 1, HISTORY_CAP as int),
            ));
        }
    }
}

/// An incoming text too short to record: fewer than ten bytes once trimmed,
/// treated as incomplete typing.
pub open spec fn too_short_to_record(orig: Seq<char>) -> bool {
    byte_len(trim_spec(orig)) < 10
}

/// Whether the incoming translation consolidates with the newest entry:
/// near-duplicate text and both recorded languages match.
pub open spec fn merges_with_head(
    entries: Seq<TranslationEntry>,
    orig: Seq<char>,
    detected: Seq<char>,
    target: Seq<char>,
) -> bool {
    &&& entries.len() > 0
    &&& near_duplicate_spec(orig, entries[0].original_text@)
    &&& entries[0].detected_language@ == detected
    &&& entries[0].target_language@ == target
}

/// What recording a translation leaves in the history: nothing for a text
/// too short; for a near-duplicate of the newest entry, either an in-place
/// replacement under the old id (when the new text is longer in bytes) or
/// nothing; otherwise the new entry in front, capped at [`HISTORY_CAP`].
pub open spec fn history_after_record(
    entries: Seq<TranslationEntry>,
    original_text: String,
    translated_text: String,
    detected_language: String,
    target_language: String,
    id: String,
    now_ms: i64,
) -> Seq<TranslationEntry> {
    if too_short_to_record(original_text@) {
        entries
    } else if merges_with_head(entries, original_text@, detected_language@, target_language@) {
        if byte_len(original_text@) > byte_len(entries[0].original_text@) {
            entries.update(
                0,
                (TranslationEntry {
                    id: entries[0].id,
                    original_text,
                    translated_text,
                    detected_language,
                    target_language,
                    timestamp_ms: now_ms,
                }),
            )
        } else {
            entries
        }
    } else {
        (seq![
            (TranslationEntry {
                id,
                original_text,
                translated_text,
                detected_language,
                target_language,
                timestamp_ms: now_ms,
            }),
        ] + entries).take(min(entries.len() as int + 1, HISTORY_CAP as int))
    }
}

/// Records one translation with the given identity and time.
pub fn record_translation(
    history: &mut TranslationHistory,
    original_text: String,
    translated_text: String,
    detected_language: String,
    target_language: String,
    id: String,
    now_ms: i64,
)
    ensures
        final(history).entries@ == history_after_record(
            old(history).entries@,
            original_text,
            translated_text,
            detected_language,
            target_language,
            id,
            now_ms,
        ),
{
    let tv = trim_chars(&str_chars(original_text.as_str()));
    let ts = chars_to_string(&tv);
    if ts.as_str().as_bytes().len() < 10 {
        return ;
    }
    if history.entries.len() > 0 {
        let similar = is_near_duplicate(
            original_text.as_str(),
            history.entries[0].original_text.as_str(),
        );
        let langs_match = history.entries[0].detected_language == detected_language
            && history.entries[0].target_language == target_language;
        if similar && langs_match {
            if original_text.as_str().as_bytes().len() > history.entries[0]
                .original_text
                .as_str()
                .as_bytes()
                .len() {
                let kept_id = history.entries[0].id.clone();
                let e = TranslationEntry {
                    id: kept_id,
                    original_text,
                    translated_text,
                    detected_language,
                    target_language,
                    timestamp_ms: now_ms,
                };
                history.entries.remove(0);
                history.entries.insert(0, e);
                proof {
                    assert(final(history).entries@ =~= old(history).entries@.update(
                        0,
                        (TranslationEntry {
                            id: old(history).entries@[0].id,
                            original_text,
                            translated_text,
                            detected_language,
                            target_language,
                            timestamp_ms: now_ms,
                        }),
                    ));
                }
            }
            return ;
        }
    }
    let e = TranslationEntry {
        id,
        original_text,
        translated_text,
        detected_language,
        target_language,
        timestamp_ms: now_ms,
    };
    history.add_entry(e);
}

/// Relies on uuid's `Uuid::new_v4` and its display form: a fresh random
/// identifier rendered hyphenated, 36 characters long.
#[verifier::external_body]
fn fresh_entry_id() -> (r: String)
    ensures
        r@.len() == 36,
{
    uuid::Uuid::new_v4().to_string()
}

/// Relies on chrono's `Utc::now` and `timestamp_millis`: the wall clock as
/// milliseconds since the Unix epoch.  Nothing is promised of the value.
#[verifier::external_body]
fn current_epoch_millis() -> i64 {
    chrono::Utc::now().timestamp_millis()
}

/// Records one translation, stamping it with a fresh identifier and the
/// current time.  Whatever identity and time came back, the history changes
/// exactly as [`history_after_record`] says.
pub fn add_translation_to_history(
    history: &mut TranslationHistory,
    original_text: String,
    translated_text: String,
    detected_language: String,
    target_language: String,
)
    ensures
        exists|id: String, now_ms: i64|
            id@.len() == 36 && final(history).entries@ == history_after_record(
                old(history).entries@,
                original_text,
                translated_text,
                detected_language,
                target_language,
                id,
                now_ms,
            ),
{
    let id = fresh_entry_id();
    let now_ms = current_epoch_millis();
    record_translation(
        history,
        original_text,
        translated_text,
        detected_language,
        target_language,
        id,
        now_ms,
    );
}

/// The entries whose id differs from `id`, in order.
pub open spec fn entries_without_id(entries: Seq<TranslationEntry>, id: Seq<char>) -> Seq<
    TranslationEntry,
> {
    entries.filter(|e: TranslationEntry| e.id@ != id)
}

/// Removes every entry whose id matches exactly.
pub fn delete_history_entry(history: &mut TranslationHistory, entry_id: &str)
    ensures
        final(history).entries@ == entries_without_id(old(history).entries@, entry_id@),
{
    let ghost orig = history.entries@;
    let mut out: Vec<TranslationEntry> = Vec::new();
    proof {
        assert(entries_without_id(orig, entry_id@) =~= entries_without_id(orig, entry_id@) + out@);
    }
    while history.entries.len() > 0
        invariant
            entries_without_id(orig, entry_id@) == entries_without_id(history.entries@, entry_id@)
                + out@,
        decreases history.entries@.len(),
    {
        let ghost before = history.entries@;
        let ghost out_before = out@;
        let e_opt = history.entries.pop();
        let e = e_opt.unwrap();
        let keep = !str_eq_string(entry_id, &e.id);
        proof {
            reveal(Seq::filter);
            assert(before.drop_last() == history.entries@);
            assert(before.last() == e);
        }
        if keep {
            out.insert(0, e);
            proof {
                reveal(Seq::filter);
                assert(entries_without_id(before, entry_id@) =~= entries_without_id(
                    history.entries@,
                    entry_id@,
                ).push(e));
                assert(entries_without_id(history.entries@, entry_id@).push(e) + out_before
                    =~= entries_without_id(history.entries@, entry_id@) + out@);
            }
        } else {
            proof {
                reveal(Seq::filter);
                assert(entries_without_id(before, entry_id@) =~= entries_without_id(
                    history.entries@,
                    entry_id@,
                ));
            }
        }
    }
    proof {
        reveal(Seq::filter);
        assert(entries_without_id(history.entries@, entry_id@) =~= Seq::<
            TranslationEntry,
        >::empty());
        assert(entries_without_id(orig, entry_id@) =~= out@);
    }
    history.entries = out;
}

/// Whether the two strings hold the same characters.
pub fn str_eq_string(a: &str, b: &String) -> (r: bool)
    ensures
        r == (a@ == b@),
{
    let av = str_chars(a);
    let bv = str_chars(b.as_str());
    crate::text::eq_chars(&av, &bv)
}

/// Empties the history.
pub fn clear_translation_history(history: &mut TranslationHistory)
    ensures
        final(history).entries@.len() == 0,
{
    history.entries = Vec::new();
}

/// The history never outgrows its cap: recording onto a history within
/// the cap leaves at most [`HISTORY_CAP`] entries, and a fresh insert onto
/// a full history keeps exactly the newest hundred.
pub proof fn lemma_record_respects_cap(
    entries: Seq<TranslationEntry>,
    original_text: String,
    translated_text: String,
    detected_language: String,
    target_language: String,
    id: String,
    now_ms: i64,
)
    requires
        entries.len() <= HISTORY_CAP,
    ensures
        history_after_record(
            entries,
            original_text,
            translated_text,
            detected_language,
            target_language,
            id,
            now_ms,
        ).len() <= HISTORY_CAP,
        !too_short_to_record(original_text@) && !merges_with_head(
            entries,
            original_text@,
            detected_language@,
            target_language@,
        ) && entries.len() == HISTORY_CAP ==> history_after_record(
            entries,
            original_text,
            translated_text,
            detected_language,
            target_language,
            id,
            now_ms,
        ) == (seq![
            (TranslationEntry {
                id,
                original_text,
                translated_text,
                detected_language,
                target_language,
                timestamp_ms: now_ms,
            }),
        ] + entries).take(HISTORY_CAP as int),
{
}

/// The marks of Norwegian text the repair pass looks for: its letters and
/// common short words.
pub open spec fn has_norwegian_indicator(t: Seq<char>) -> bool {
    ||| contains_sub(t, "\u{e5}"@)
    ||| contains_sub(t, "\u{e6}"@)
    ||| contains_sub(t, "\u{f8}"@)
    ||| contains_sub(t, "\u{c5}"@)
    ||| contains_sub(t, "\u{c6}"@)
    ||| contains_sub(t, "\u{d8}"@)
    ||| contains_sub(t, " og "@)
    ||| contains_sub(t, " av "@)
    ||| contains_sub(t, " p\u{e5} "@)
    ||| contains_sub(t, " med "@)
    ||| contains_sub(t, " til "@)
    ||| contains_sub(t, " for "@)
    ||| contains_sub(t, " ikke "@)
    ||| contains_sub(t, " kan "@)
    ||| contains_sub(t, " det "@)
    ||| contains_sub(t, " er "@)
}

/// A maximal whitespace-free run of `t`.
pub open spec fn word_span(t: Seq<char>, i: int, j: int) -> bool {
    &&& 0 <= i < j <= t.len()
    &&& (forall|k: int| i <= k < j ==> !is_space_char(#[trigger] t[k]))
    &&& (i == 0 || is_space_char(t[i - 1]))
    &&& (j == t.len() || is_space_char(t[j]))
}

/// Whether a word carries one of the characteristic suffixes, checked on
/// the lowercased word.
pub open spec fn norwegian_suffix_word(w: Seq<char>) -> bool {
    ||| "ene"@.is_suffix_of(lower_of(w))
    ||| "ing"@.is_suffix_of(lower_of(w))
    ||| "het"@.is_suffix_of(lower_of(w))
    ||| "else"@.is_suffix_of(lower_of(w))
}

/// Whether some word of `t` carries a characteristic suffix.
pub open spec fn has_norwegian_suffix(t: Seq<char>) -> bool {
    exists|i: int, j: int| word_span(t, i, j) && norwegian_suffix_word(#[trigger] t.subrange(i, j))
}

/// The lexical signals that a recorded text is Norwegian.
pub open spec fn looks_norwegian(t: Seq<char>) -> bool {
    has_norwegian_indicator(t) || has_norwegian_suffix(t)
}

fn word_has_norwegian_suffix(w: &Vec<char>) -> (r: bool)
    ensures
        r == norwegian_suffix_word(w@),
{
    let lw = to_lowercase(chars_to_string(w).as_str());
    let lv = str_chars(lw.as_str());
    ends_with_chars(&lv, &str_chars("ene")) || ends_with_chars(&lv, &str_chars("ing"))
        || ends_with_chars(&lv, &str_chars("het")) || ends_with_chars(&lv, &str_chars("else"))
}

fn has_norwegian_suffix_exec(v: &Vec<char>) -> (r: bool)
    ensures
        r == has_norwegian_suffix(v@),
{
    let mut i: usize = 0;
    while i < v.len()
        invariant
            i <= v@.len(),
            i == 0 || i == v@.len() || is_space_char(v@[i - 1]) || is_space_char(v@[i as int]),
            forall|a: int, b: int|
                word_span(v@, a, b) && a < i ==> !norwegian_suffix_word(#[trigger] v@.subrange(
                    a,
                    b,
                )),
        decreases v@.len() - i,
    {
        if is_space(v[i]) {
            i = i + 1;
        } else {
            // The start of a word: either the text's start or after a space.
            let ws = i;
            let mut j = i + 1;
            while j < v.len() && !is_space(v[j])
                invariant
                    ws < j <= v@.len(),
                    forall|k: int| ws <= k < j ==> !is_space_char(#[trigger] v@[k]),
                    ws == 0 || is_space_char(v@[ws - 1]),
                decreases v@.len() - j,
            {
                j = j + 1;
            }
            let mut w: Vec<char> = Vec::new();
            let mut k = ws;
            while k < j
                invariant
                    ws <= k <= j <= v@.len(),
                    w@ == v@.subrange(ws as int, k as int),
                decreases j - k,
            {
                w.push(v[k]);
                proof {
                    assert(v@.subrange(ws as int, k as int).push(v@[k as int]) =~= v@.subrange(
                        ws as int,
                        k + 1,
                    ));
                }
                k = k + 1;
            }
            proof {
                assert(word_span(v@, ws as int, j as int));
            }
            if word_has_norwegian_suffix(&w) {
                return true;
            }
            proof {
                assert forall|a: int, b: int| word_span(v@, a, b) && a < j implies
                    !norwegian_suffix_word(#[trigger] v@.subrange(a, b)) by {
                    if a < ws {
                    } else if a == ws {
                        if b < j {
                            assert(is_space_char(v@[b]) || b == v@.len());
                            assert(!is_space_char(v@[b]));
                        } else if b > j {
                            assert(!is_space_char(v@[j as int]));
                            assert(is_space_char(v@[j as int]) || j == v@.len());
                        }
                        assert(b == j);
                        assert(v@.subrange(a, b) == w@);
                    } else {
                        assert(!is_space_char(v@[a - 1]));
                        assert(false);
                    }
                }
            }
            i = j;
        }
    }
    proof {
        if has_norwegian_suffix(v@) {
            let (a, b) = choose|a: int, b: int|
                word_span(v@, a, b) && norwegian_suffix_word(v@.subrange(a, b));
            assert(!norwegian_suffix_word(v@.subrange(a, b)));
        }
    }
    false
}

fn looks_norwegian_exec(t: &Vec<char>) -> (r: bool)
    ensures
        r == looks_norwegian(t@),
{
    let has_indicator = contains_chars(t, &str_chars("\u{e5}")) || contains_chars(
        t,
        &str_chars("\u{e6}"),
    ) || contains_chars(t, &str_chars("\u{f8}")) || contains_chars(t, &str_chars("\u{c5}"))
        || contains_chars(t, &str_chars("\u{c6}")) || contains_chars(t, &str_chars("\u{d8}"))
        || contains_chars(t, &str_chars(" og ")) || contains_chars(t, &str_chars(" av "))
        || contains_chars(t, &str_chars(" p\u{e5} ")) || contains_chars(t, &str_chars(" med "))
        || contains_chars(t, &str_chars(" til ")) || contains_chars(t, &str_chars(" for "))
        || contains_chars(t, &str_chars(" ikke ")) || contains_chars(t, &str_chars(" kan "))
        || contains_chars(t, &str_chars(" det ")) || contains_chars(t, &str_chars(" er "));
    if has_indicator {
        return true;
    }
    has_norwegian_suffix_exec(t)
}

/// Whether the repair pass rewrites an entry's target language: both
/// languages recorded as English while the translated text shows Norwegian
/// signals.
pub open spec fn needs_norwegian_fix(e: TranslationEntry) -> bool {
    &&& e.target_language@ == "English"@
    &&& e.detected_language@ == "English"@
    &&& looks_norwegian(e.translated_text@)
}

/// The targeted repair pass: an entry recorded English-to-English whose
/// translated text shows strong Norwegian signals gets its target language
/// rewritten; everything else stays untouched.
pub fn fix_target_language_in_history(history: &mut TranslationHistory)
    ensures
        final(history).entries@.len() == old(history).entries@.len(),
        forall|i: int|
            0 <= i < old(history).entries@.len() ==> {
                let o = old(history).entries@[i];
                let n = #[trigger] final(history).entries@[i];
                &&& n.id == o.id
                &&& n.original_text == o.original_text
                &&& n.translated_text == o.translated_text
                &&& n.detected_language == o.detected_language
                &&& n.timestamp_ms == o.timestamp_ms
                &&& (needs_norwegian_fix(o) ==> n.target_language@ == "Norwegian"@)
                &&& (!needs_norwegian_fix(o) ==> n.target_language == o.target_language)
            },
{
    let ghost orig = history.entries@;
    let english: String = "English".to_owned();
    let mut out: Vec<TranslationEntry> = Vec::new();
    while history.entries.len() > 0
        invariant
            english@ == "English"@,
            out@.len() + history.entries@.len() == orig.len(),
            history.entries@ == orig.skip(out@.len() as int),
            forall|i: int|
                0 <= i < out@.len() ==> {
                    let o = orig[i];
                    let n = #[trigger] out@[i];
                    &&& n.id == o.id
                    &&& n.original_text == o.original_text
                    &&& n.translated_text == o.translated_text
                    &&& n.detected_language == o.detected_language
                    &&& n.timestamp_ms == o.timestamp_ms
                    &&& (needs_norwegian_fix(o) ==> n.target_language@ == "Norwegian"@)
                    &&& (!needs_norwegian_fix(o) ==> n.target_language == o.target_language)
                },
        decreases history.entries@.len(),
    {
        let ghost before = history.entries@;
        let e = history.entries.remove(0);
        proof {
            assert(before.remove(0) =~= before.drop_first());
            assert(before.drop_first() =~= orig.skip(out@.len() as int + 1));
            assert(before[0] == orig[out@.len() as int]);
        }
        let is_english = e.target_language == english && e.detected_language == english;
        let fix = is_english && looks_norwegian_exec(&str_chars(e.translated_text.as_str()));
        if fix {
            let e2 = TranslationEntry { target_language: "Norwegian".to_owned(), ..e };
            out.push(e2);
        } else {
            out.push(e);
        }
    }
    proof {
        assert(out@.len() == orig.len());
    }
    history.entries = out;
}

/// Whether `a` counts as a duplicate of `b`: near-duplicate text and both
/// recorded languages match.
pub open spec fn matches_as_duplicate(a: TranslationEntry, b: TranslationEntry) -> bool {
    &&& near_duplicate_spec(a.original_text@, b.original_text@)
    &&& a.detected_language@ == b.detected_language@
    &&& a.target_language@ == b.target_language@
}

/// Whether some already-kept entry makes `e` a duplicate.
pub open spec fn duplicate_of_any(kept: Seq<TranslationEntry>, e: TranslationEntry) -> bool {
    exists|i: int| 0 <= i < kept.len() && matches_as_duplicate(e, #[trigger] kept[i])
}

/// One walk over the entries in order, keeping an entry only when no
/// already-kept entry makes it a duplicate.
pub open spec fn dedup_pass(kept: Seq<TranslationEntry>, rest: Seq<TranslationEntry>) -> Seq<
    TranslationEntry,
>
    decreases rest.len(),
{
    if rest.len() == 0 {
        kept
    } else if duplicate_of_any(kept, rest[0]) {
        dedup_pass(kept, rest.drop_first())
    } else {
        dedup_pass(kept.push(rest[0]), rest.drop_first())
    }
}

/// Stable insertion by timestamp, newest first: the entry goes after every
/// entry at least as new.
pub open spec fn insert_by_time(s: Seq<TranslationEntry>, e: TranslationEntry) -> Seq<
    TranslationEntry,
>
    decreases s.len(),
{
    if s.len() > 0 && s[0].timestamp_ms >= e.timestamp_ms {
        seq![s[0]] + insert_by_time(s.drop_first(), e)
    } else {
        seq![e] + s
    }
}

/// Stable insertion sort by timestamp, newest first.
pub open spec fn sort_by_time(acc: Seq<TranslationEntry>, rest: Seq<TranslationEntry>) -> Seq<
    TranslationEntry,
>
    decreases rest.len(),
{
    if rest.len() == 0 {
        acc
    } else {
        sort_by_time(insert_by_time(acc, rest[0]), rest.drop_first())
    }
}

fn is_duplicate_of_any(kept: &Vec<TranslationEntry>, e: &TranslationEntry) -> (r: bool)
    ensures
        r == duplicate_of_any(kept@, *e),
{
    let mut i: usize = 0;
    while i < kept.len()
        invariant
            i <= kept.len(),
            forall|k: int| 0 <= k < i ==> !matches_as_duplicate(*e, #[trigger] kept@[k]),
        decreases kept.len() - i,
    {
        let similar = is_near_duplicate(
            e.original_text.as_str(),
            kept[i].original_text.as_str(),
        );
        if similar && e.detected_language == kept[i].detected_language && e.target_language
            == kept[i].target_language {
            return true;
        }
        i = i + 1;
    }
    false
}

proof fn lemma_insert_by_time_at(s: Seq<TranslationEntry>, e: TranslationEntry, p: int)
    requires
        0 <= p <= s.len(),
        forall|k: int| 0 <= k < p ==> s[k].timestamp_ms >= e.timestamp_ms,
        p == s.len() || s[p].timestamp_ms < e.timestamp_ms,
    ensures
        insert_by_time(s, e) == s.take(p) + seq![e] + s.skip(p),
    decreases p,
{
    if p == 0 {
        assert(insert_by_time(s, e) =~= s.take(0) + seq![e] + s.skip(0));
    } else {
        lemma_insert_by_time_at(s.drop_first(), e, p - 1);
        assert(seq![s[0]] + (s.drop_first().take(p - 1) + seq![e] + s.drop_first().skip(p - 1))
            =~= s.take(p) + seq![e] + s.skip(p));
    }
}

fn insert_sorted(out: &mut Vec<TranslationEntry>, e: TranslationEntry)
    ensures
        final(out)@ == insert_by_time(old(out)@, e),
{
    let mut p: usize = 0;
    while p < out.len() && out[p].timestamp_ms >= e.timestamp_ms
        invariant
            p <= out@.len(),
            out@ == old(out)@,
            forall|k: int| 0 <= k < p ==> out@[k].timestamp_ms >= e.timestamp_ms,
        decreases out@.len() - p,
    {
        p = p + 1;
    }
    proof {
        lemma_insert_by_time_at(out@, e, p as int);
    }
    out.insert(p, e);
    proof {
        assert(old(out)@.insert(p as int, e) =~= old(out)@.take(p as int) + seq![e] + old(
            out,
        )@.skip(p as int));
    }
}

/// Batch maintenance: walks the entries in order, keeps an entry only when
/// no already-kept entry is a near-duplicate with matching languages, then
/// re-sorts the survivors by timestamp, newest first.
pub fn deduplicate_history(history: &mut TranslationHistory)
    ensures
        final(history).entries@ == sort_by_time(
            Seq::<TranslationEntry>::empty(),
            dedup_pass(Seq::<TranslationEntry>::empty(), old(history).entries@),
        ),
{
    let ghost orig = history.entries@;
    let mut kept: Vec<TranslationEntry> = Vec::new();
    while history.entries.len() > 0
        invariant
            dedup_pass(Seq::<TranslationEntry>::empty(), orig) == dedup_pass(
                kept@,
                history.entries@,
            ),
        decreases history.entries@.len(),
    {
        let ghost before = history.entries@;
        let ghost kept_before = kept@;
        let e = history.entries.remove(0);
        proof {
            assert(before.remove(0) =~= before.drop_first());
            assert(before[0] == e);
        }
        let dup = is_duplicate_of_any(&kept, &e);
        if !dup {
            kept.push(e);
        }
        proof {
            if dup {
                assert(dedup_pass(kept_before, before) == dedup_pass(kept@, history.entries@));
            } else {
                assert(dedup_pass(kept_before, before) == dedup_pass(kept@, history.entries@));
            }
        }
    }
    let ghost survivors = kept@;
    proof {
        assert(dedup_pass(Seq::<TranslationEntry>::empty(), orig) == survivors);
    }
    let mut sorted: Vec<TranslationEntry> = Vec::new();
    while kept.len() > 0
        invariant
            sort_by_time(Seq::<TranslationEntry>::empty(), survivors) == sort_by_time(
                sorted@,
                kept@,
            ),
        decreases kept@.len(),
    {
        let ghost before = kept@;
        let ghost sorted_before = sorted@;
        let e = kept.remove(0);
        proof {
            assert(before.remove(0) =~= before.drop_first());
            assert(before[0] == e);
        }
        insert_sorted(&mut sorted, e);
        proof {
            assert(sort_by_time(sorted_before, before) == sort_by_time(sorted@, kept@));
        }
    }
    history.entries = sorted;
}

} // verus!
