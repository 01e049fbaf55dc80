//! The orchestration layer: result types, the error taxonomy, the shared
//! response decoding with the language switch applied, and the
//! time-windowed duplicate-request gate.  The provider call itself is I/O
//! and stays with the caller, between `begin_request` and `end_request`.

use crate::config::Config;
use crate::extract::extract_translation_fields;
use crate::extract::extraction_of;
use crate::history::byte_len;
use crate::language::{effective_target, same_language};
use crate::provider::{provider_for, create_provider, ProviderKind};
use crate::text::str_chars;
use vstd::prelude::*;
use vstd::string::StringSliceAdditionalSpecFns;

verus! {

/// Errors surfaced to the caller of the translation pipeline.
#[derive(Debug, Clone, PartialEq, Eq)]
pub enum Error {
    /// The same request was seen again inside the suppression window.
    DuplicateRequest,
    /// Anything the backend or the configuration refused, with its message.
    ApiError(String),
}

impl Error {
    /// Human-readable message, in place of a `Display` impl.
    pub fn message(&self) -> (r: String)
        ensures
            self is DuplicateRequest ==> r@ == "Duplicate request"@,
            self matches Error::ApiError(m) ==> r@ == "API error: "@ + m@,
    {
        match self {
            Error::DuplicateRequest => "Duplicate request".to_owned(),
            Error::ApiError(m) => {
                let mut s: String = "API error: ".to_owned();
                s.append(m.as_str());
                s
            },
        }
    }
}

/// What one provider call yields.
#[derive(Debug, Clone)]
pub struct TranslationResult {
    pub detected_language: String,
    pub translated_text: String,
    pub target_language: String,
}

/// What the pipeline hands upward for one translate call.
#[derive(Debug, Clone)]
pub struct TranslationResponse {
    pub original_text: String,
    pub translated_text: String,
    pub detected_language: String,
    pub target_language: String,
}

/// Alternative phrasings for a selection.
#[derive(Debug, Clone)]
pub struct AlternativeTranslationsResult {
    pub alternatives: Vec<String>,
}

/// Decodes a completion and applies the language switch: every adapter goes
/// through this one function, so the policy cannot diverge.
pub fn parse_response_content(content: &str, primary_target: &str, alternative_target: &str) -> (r:
    TranslationResult)
    ensures
        r.detected_language@ == extraction_of(content@).0,
        r.translated_text@ == extraction_of(content@).1,
        same_language(extraction_of(content@).0, primary_target@) ==> r.target_language@
            == alternative_target@,
        !same_language(extraction_of(content@).0, primary_target@) ==> r.target_language@
            == primary_target@,
{
    let fields = extract_translation_fields(content);
    let target = effective_target(fields.0.as_str(), primary_target, alternative_target);
    TranslationResult {
        detected_language: fields.0,
        translated_text: fields.1,
        target_language: target,
    }
}

/// Builds the outward response, restating which target the switch chose.
pub fn complete_response(
    original_text: String,
    result: TranslationResult,
    primary_target: &str,
    alternative_target: &str,
) -> (r: TranslationResponse)
    ensures
        r.original_text == original_text,
        r.translated_text == result.translated_text,
        r.detected_language == result.detected_language,
        same_language(result.detected_language@, primary_target@) ==> r.target_language@
            == alternative_target@,
        !same_language(result.detected_language@, primary_target@) ==> r.target_language@
            == primary_target@,
{
    let target = effective_target(
        result.detected_language.as_str(),
        primary_target,
        alternative_target,
    );
    TranslationResponse {
        original_text,
        translated_text: result.translated_text,
        detected_language: result.detected_language,
        target_language: target,
    }
}

/// One live fingerprint in the duplicate gate.
#[derive(Debug)]
pub struct DedupEntry {
    pub byte_len: usize,
    pub prefix: Vec<char>,
    pub stamp_ms: i64,
}

/// The mathematical shape of a gate entry.
pub struct FingerprintModel {
    pub byte_len: nat,
    pub prefix: Seq<char>,
    pub stamp_ms: int,
}

impl View for DedupEntry {
    type V = FingerprintModel;

    open spec fn view(&self) -> FingerprintModel {
        FingerprintModel {
            byte_len: self.byte_len as nat,
            prefix: self.prefix@,
            stamp_ms: self.stamp_ms as int,
        }
    }
}

/// The fingerprint prefix of a request: its first fifty characters.
/// Distinct long texts may collide on one fingerprint; suppression is a
/// debounce safeguard and promises nothing stronger.
pub open spec fn fp_prefix_of(text: Seq<char>) -> Seq<char> {
    text.take(vstd::math::min(50int, text.len() as int))
}

/// Whether an entry carries the fingerprint of `text`.
pub open spec fn entry_matches(e: FingerprintModel, text: Seq<char>) -> bool {
    e.byte_len == byte_len(text) && e.prefix == fp_prefix_of(text)
}

/// The entries young enough to keep: those under five seconds old.
pub open spec fn purge_spec(entries: Seq<FingerprintModel>, now_ms: int) -> Seq<FingerprintModel>
    decreases entries.len(),
{
    if entries.len() == 0 {
        Seq::<FingerprintModel>::empty()
    } else if now_ms - entries[0].stamp_ms < 5000 {
        seq![entries[0]] + purge_spec(entries.drop_first(), now_ms)
    } else {
        purge_spec(entries.drop_first(), now_ms)
    }
}

/// The stamp of the first entry carrying the fingerprint of `text`.
pub open spec fn fp_stamp(entries: Seq<FingerprintModel>, text: Seq<char>) -> Option<int>
    decreases entries.len(),
{
    if entries.len() == 0 {
        None
    } else if entry_matches(entries[0], text) {
        Some(entries[0].stamp_ms)
    } else {
        fp_stamp(entries.drop_first(), text)
    }
}

/// The entries after registering `text` at `now_ms`: a matching entry is
/// restamped in place, else a fresh entry joins at the end.
pub open spec fn register_spec(
    entries: Seq<FingerprintModel>,
    text: Seq<char>,
    now_ms: int,
) -> Seq<FingerprintModel>
    decreases entries.len(),
{
    if entries.len() == 0 {
        seq![
            (FingerprintModel {
                byte_len: byte_len(text),
                prefix: fp_prefix_of(text),
                stamp_ms: now_ms,
            }),
        ]
    } else if entry_matches(entries[0], text) {
        seq![(FingerprintModel { stamp_ms: now_ms, ..entries[0] })] + entries.drop_first()
    } else {
        seq![entries[0]] + register_spec(entries.drop_first(), text, now_ms)
    }
}

/// The entries with the fingerprint of `text` removed.
pub open spec fn release_spec(entries: Seq<FingerprintModel>, text: Seq<char>) -> Seq<
    FingerprintModel,
>
    decreases entries.len(),
{
    if entries.len() == 0 {
        Seq::<FingerprintModel>::empty()
    } else if entry_matches(entries[0], text) {
        release_spec(entries.drop_first(), text)
    } else {
        seq![entries[0]] + release_spec(entries.drop_first(), text)
    }
}

/// Time-windowed suppression of duplicate in-flight requests.
#[derive(Debug)]
pub struct DedupGate {
    pub entries: Vec<DedupEntry>,
}

/// The model of every live fingerprint, in order.
pub open spec fn gate_models(entries: Seq<DedupEntry>) -> Seq<FingerprintModel> {
    Seq::new(entries.len(), |i: int| entries[i]@)
}

impl View for DedupGate {
    type V = Seq<FingerprintModel>;

    open spec fn view(&self) -> Seq<FingerprintModel> {
        gate_models(self.entries@)
    }
}

fn entry_matches_exec(e: &DedupEntry, text_len: usize, text_prefix: &Vec<char>) -> (r: bool)
    ensures
        r == (e@.byte_len == text_len && e@.prefix == text_prefix@),
{
    e.byte_len == text_len && crate::text::eq_chars(&e.prefix, text_prefix)
}

/// The position and stamp of the first entry matching the fingerprint.
fn find_fp(entries: &Vec<DedupEntry>, text: &str, text_len: usize, text_prefix: &Vec<char>) -> (r:
    Option<(usize, i64)>)
    requires
        text_len == byte_len(text@),
        text_prefix@ == fp_prefix_of(text@),
    ensures
        match r {
            Some(p) => p.0 < entries@.len() && entry_matches(entries@[p.0 as int]@, text@)
                && (forall|k: int|
                0 <= k < p.0 ==> !entry_matches(#[trigger] gate_models(entries@)[k], text@))
                && fp_stamp(gate_models(entries@), text@) == Some(p.1 as int) && entries@[p.0 as int].stamp_ms
                == p.1,
            None => fp_stamp(gate_models(entries@), text@) is None && (forall|k: int|
                0 <= k < entries@.len() ==> !entry_matches(
                    #[trigger] gate_models(entries@)[k],
                    text@,
                )),
        },
{
    let ghost models = gate_models(entries@);
    let mut idx: usize = 0;
    proof {
        assert(models.skip(0) =~= models);
    }
    while idx < entries.len()
        invariant
            idx <= entries@.len(),
            models == gate_models(entries@),
            text_len == byte_len(text@),
            text_prefix@ == fp_prefix_of(text@),
            fp_stamp(models, text@) == fp_stamp(models.skip(idx as int), text@),
            forall|k: int| 0 <= k < idx ==> !entry_matches(#[trigger] models[k], text@),
        decreases entries@.len() - idx,
    {
        proof {
            assert(models.skip(idx as int).drop_first() =~= models.skip(idx as int + 1));
            assert(models.skip(idx as int)[0] == models[idx as int]);
        }
        if entry_matches_exec(&entries[idx], text_len, text_prefix) {
            return Some((idx, entries[idx].stamp_ms));
        }
        idx = idx + 1;
    }
    proof {
        assert(models.skip(models.len() as int) =~= Seq::<FingerprintModel>::empty());
    }
    None
}

/// The first fifty characters of `text`.
fn take_prefix(text: &str) -> (r: Vec<char>)
    ensures
        r@ == fp_prefix_of(text@),
{
    let cv = str_chars(text);
    let n = if cv.len() < 50 {
        cv.len()
    } else {
        50
    };
    let mut out: Vec<char> = Vec::new();
    let mut i: usize = 0;
    while i < n
        invariant
            i <= n <= cv@.len(),
            out@ == cv@.take(n as int).take(i as int),
        decreases n - i,
    {
        proof {
            assert(cv@.take(n as int).take(i as int).push(cv@[i as int]) =~= cv@.take(
                n as int,
            ).take(i as int + 1));
            assert(cv@.take(n as int)[i as int] == cv@[i as int]);
        }
        out.push(cv[i]);
        i = i + 1;
    }
    proof {
        assert(cv@.take(n as int).take(n as int) =~= cv@.take(n as int));
    }
    out
}

impl DedupGate {
    /// An empty gate.
    pub fn new() -> (g: DedupGate)
        ensures
            g@.len() == 0,
    {
        let g = DedupGate { entries: Vec::new() };
        proof {
            assert(g@ =~= Seq::<FingerprintModel>::empty());
        }
        g
    }

    /// One gate decision: drops fingerprints older than five seconds,
    /// refuses a request whose fingerprint was seen under half a second
    /// ago, and otherwise registers the fingerprint at `now_ms`.
    pub fn check_and_register(&mut self, text: &str, now_ms: i64) -> (r: Result<(), Error>)
        ensures
            ({
                let purged = purge_spec(old(self)@, now_ms as int);
                match fp_stamp(purged, text@) {
                    Some(t) => {
                        if now_ms - t < 500 {
                            r matches Err(e) && e is DuplicateRequest && final(self)@ == purged
                        } else {
                            r is Ok && final(self)@ == register_spec(purged, text@, now_ms as int)
                        }
                    },
                    None => r is Ok && final(self)@ == register_spec(
                        purged,
                        text@,
                        now_ms as int,
                    ),
                }
            }),
    {
        let text_len = text.as_bytes().len();
        let text_prefix = take_prefix(text);
        proof {
            assert(text_len == text.spec_bytes().len());
            assert(text_len == byte_len(text@));
        }
        // Purge entries five seconds old or older.
        let ghost orig = self@;
        let mut kept: Vec<DedupEntry> = Vec::new();
        proof {
            assert(purge_spec(orig, now_ms as int) =~= purge_spec(orig, now_ms as int)
                + gate_models(kept@));
            assert(gate_models(self.entries@) =~= orig);
        }
        while self.entries.len() > 0
            invariant
                purge_spec(orig, now_ms as int) == gate_models(kept@) + purge_spec(
                    gate_models(self.entries@),
                    now_ms as int,
                ),
            decreases self.entries@.len(),
        {
            let ghost before = gate_models(self.entries@);
            let ghost kept_before = gate_models(kept@);
            let e = self.entries.remove(0);
            proof {
                assert(gate_models(self.entries@) =~= before.drop_first());
                assert(before[0] == e@);
            }
            let age_ok = (now_ms as i128) - (e.stamp_ms as i128) < 5000;
            if age_ok {
                kept.push(e);
                proof {
                    assert(gate_models(kept@) =~= kept_before.push(before[0]));
                    assert(kept_before + (seq![before[0]] + purge_spec(
                        gate_models(self.entries@),
                        now_ms as int,
                    )) =~= gate_models(kept@) + purge_spec(
                        gate_models(self.entries@),
                        now_ms as int,
                    ));
                }
            }
        }
        proof {
            assert(gate_models(self.entries@) =~= Seq::<FingerprintModel>::empty());
            assert(gate_models(kept@) + purge_spec(
                Seq::<FingerprintModel>::empty(),
                now_ms as int,
            ) =~= gate_models(kept@));
        }
        self.entries = kept;
        let ghost purged = gate_models(self.entries@);
        // Look the fingerprint up.
        let found = find_fp(&self.entries, text, text_len, &text_prefix);
        match found {
            Some(p) => {
                let (idx, t) = p;
                if (now_ms as i128) - (t as i128) < 500 {
                    return Err(Error::DuplicateRequest);
                }
                // Restamp the entry in place.
                let ghost before = gate_models(self.entries@);
                let mut e = self.entries.remove(idx);
                e.stamp_ms = now_ms;
                self.entries.insert(idx, e);
                proof {
                    lemma_register_at(before, text@, now_ms as int, idx as int);
                    assert(gate_models(self.entries@) =~= before.update(
                        idx as int,
                        (FingerprintModel { stamp_ms: now_ms as int, ..before[idx as int] }),
                    ));
                }
                Ok(())
            },
            None => {
                let ghost before = gate_models(self.entries@);
                self.entries.push(
                    DedupEntry { byte_len: text_len, prefix: text_prefix, stamp_ms: now_ms },
                );
                proof {
                    lemma_register_absent(before, text@, now_ms as int);
                    assert(gate_models(self.entries@) =~= before.push(
                        (FingerprintModel {
                            byte_len: byte_len(text@),
                            prefix: fp_prefix_of(text@),
                            stamp_ms: now_ms as int,
                        }),
                    ));
                }
                Ok(())
            },
        }
    }

    /// Forgets the fingerprint of `text`, so a retry is never blocked.
    pub fn release(&mut self, text: &str)
        ensures
            final(self)@ == release_spec(old(self)@, text@),
    {
        let text_len = text.as_bytes().len();
        let text_prefix = take_prefix(text);
        proof {
            assert(text_len == text.spec_bytes().len());
            assert(text_len == byte_len(text@));
        }
        let ghost orig = self@;
        let mut kept: Vec<DedupEntry> = Vec::new();
        proof {
            assert(gate_models(kept@) =~= Seq::<FingerprintModel>::empty());
            assert(gate_models(self.entries@) =~= orig);
        }
        while self.entries.len() > 0
            invariant
                text_len == byte_len(text@),
                text_prefix@ == fp_prefix_of(text@),
                release_spec(orig, text@) == gate_models(kept@) + release_spec(
                    gate_models(self.entries@),
                    text@,
                ),
            decreases self.entries@.len(),
        {
            let ghost before = gate_models(self.entries@);
            let ghost kept_before = gate_models(kept@);
            let e = self.entries.remove(0);
            proof {
                assert(gate_models(self.entries@) =~= before.drop_first());
                assert(before[0] == e@);
            }
            if !entry_matches_exec(&e, text_len, &text_prefix) {
                kept.push(e);
                proof {
                    assert(gate_models(kept@) =~= kept_before.push(before[0]));
                    assert(kept_before + (seq![before[0]] + release_spec(
                        gate_models(self.entries@),
                        text@,
                    )) =~= gate_models(kept@) + release_spec(gate_models(self.entries@), text@));
                }
            }
        }
        proof {
            assert(gate_models(self.entries@) =~= Seq::<FingerprintModel>::empty());
            assert(gate_models(kept@) + release_spec(Seq::<FingerprintModel>::empty(), text@)
                =~= gate_models(kept@));
        }
        self.entries = kept;
    }
}

/// Registering over a present fingerprint restamps it where it stands.
proof fn lemma_register_at(s: Seq<FingerprintModel>, text: Seq<char>, now_ms: int, idx: int)
    requires
        0 <= idx < s.len(),
        entry_matches(s[idx], text),
        forall|k: int| 0 <= k < idx ==> !entry_matches(#[trigger] s[k], text),
    ensures
        register_spec(s, text, now_ms) == s.update(
            idx,
            (FingerprintModel { stamp_ms: now_ms, ..s[idx] }),
        ),
    decreases idx,
{
    if idx == 0 {
        assert(register_spec(s, text, now_ms) =~= s.update(
            0,
            (FingerprintModel { stamp_ms: now_ms, ..s[0] }),
        ));
    } else {
        lemma_register_at(s.drop_first(), text, now_ms, idx - 1);
        assert(seq![s[0]] + s.drop_first().update(
            idx - 1,
            (FingerprintModel { stamp_ms: now_ms, ..s[idx] }),
        ) =~= s.update(idx, (FingerprintModel { stamp_ms: now_ms, ..s[idx] })));
    }
}

/// Registering an absent fingerprint appends a fresh entry.
proof fn lemma_register_absent(s: Seq<FingerprintModel>, text: Seq<char>, now_ms: int)
    requires
        forall|k: int| 0 <= k < s.len() ==> !entry_matches(#[trigger] s[k], text),
    ensures
        register_spec(s, text, now_ms) == s.push(
            (FingerprintModel {
                byte_len: byte_len(text),
                prefix: fp_prefix_of(text),
                stamp_ms: now_ms,
            }),
        ),
    decreases s.len(),
{
    if s.len() == 0 {
        assert(register_spec(s, text, now_ms) =~= s.push(
            (FingerprintModel {
                byte_len: byte_len(text),
                prefix: fp_prefix_of(text),
                stamp_ms: now_ms,
            }),
        ));
    } else {
        lemma_register_absent(s.drop_first(), text, now_ms);
        assert(seq![s[0]] + s.drop_first().push(
            (FingerprintModel {
                byte_len: byte_len(text),
                prefix: fp_prefix_of(text),
                stamp_ms: now_ms,
            }),
        ) =~= s.push(
            (FingerprintModel {
                byte_len: byte_len(text),
                prefix: fp_prefix_of(text),
                stamp_ms: now_ms,
            }),
        ));
    }
}

/// The orchestrator: a selected provider, the configuration snapshot and
/// the duplicate gate.  The caller performs the provider call between
/// `begin_request` and `end_request`.
#[derive(Debug)]
pub struct TranslationService {
    pub provider: ProviderKind,
    pub config: Config,
    pub gate: DedupGate,
}

impl TranslationService {
    /// Selects the provider for the configuration, after restoring Azure
    /// deployment-name consistency, and starts with an empty gate.
    pub fn new(config: Config) -> (s: TranslationService)
        ensures
            s.provider == provider_for(config.api_provider@),
            s.config == (Config { azure_deployment_name: s.config.azure_deployment_name, ..config }),
            s.config.azure_deployment_name@ == (if config.api_provider@ == "azure_openai"@
                && config.model@.len() > 0 && config.azure_deployment_name@ != config.model@ {
                config.model@
            } else {
                config.azure_deployment_name@
            }),
            s.gate@.len() == 0,
    {
        let mut c = config;
        c.ensure_azure_deployment_consistency();
        let provider = create_provider(c.api_provider.as_str());
        TranslationService { provider, config: c, gate: DedupGate::new() }
    }

    /// Admits or refuses one request at `now_ms`, registering its
    /// fingerprint on admission.
    pub fn begin_request(&mut self, text: &str, now_ms: i64) -> (r: Result<(), Error>)
        ensures
            ({
                let purged = purge_spec(old(self).gate@, now_ms as int);
                match fp_stamp(purged, text@) {
                    Some(t) => {
                        if now_ms - t < 500 {
                            r matches Err(e) && e is DuplicateRequest && final(self).gate@
                                == purged
                        } else {
                            r is Ok && final(self).gate@ == register_spec(
                                purged,
                                text@,
                                now_ms as int,
                            )
                        }
                    },
                    None => r is Ok && final(self).gate@ == register_spec(
                        purged,
                        text@,
                        now_ms as int,
                    ),
                }
            }),
            final(self).provider == old(self).provider,
            final(self).config == old(self).config,
    {
        self.gate.check_and_register(text, now_ms)
    }

    /// Ends one request, successful or not, releasing its fingerprint.
    pub fn end_request(&mut self, text: &str)
        ensures
            final(self).gate@ == release_spec(old(self).gate@, text@),
            final(self).provider == old(self).provider,
            final(self).config == old(self).config,
    {
        self.gate.release(text)
    }
}

} // verus!
