//! Records of finished dictations, as handed to the history store.

use vstd::prelude::*;
use crate::polish::LlmPolishOutcome;
use crate::transcript::TranscriptionResult;

verus! {

/// What a recording was made for.
#[derive(Clone, Copy, Debug, PartialEq, Eq, Structural)]
pub enum HistoryKind {
    Dictation,
    Diary,
}

impl HistoryKind {
    pub open spec fn spec_as_str(self) -> Seq<char> {
        match self {
            HistoryKind::Dictation => "dictation"@,
            HistoryKind::Diary => "diary"@,
        }
    }

    /// The stored name of the kind.
    pub fn as_str(&self) -> (r: &'static str)
        ensures
            r@ == self.spec_as_str(),
    {
        match self {
            HistoryKind::Dictation => "dictation",
            HistoryKind::Diary => "diary",
        }
    }

    /// Parses a stored name; anything unknown gives `None`.
    pub fn from_str(value: &str) -> (r: Option<HistoryKind>)
        ensures
            r matches Some(k) ==> k.spec_as_str() == value@,
            r is None ==> value@ != "dictation"@ && value@ != "diary"@,
    {
        proof {
            reveal_strlit("dictation");
            reveal_strlit("diary");
        }
        if str_equals(value, "dictation") {
            Some(HistoryKind::Dictation)
        } else if str_equals(value, "diary") {
            Some(HistoryKind::Diary)
        } else {
            None
        }
    }
}

/// Outcome of the optional language-model polishing stage.
#[derive(Clone, Copy, Debug, PartialEq, Eq, Structural)]
pub enum LlmPolishStatus {
    Success,
    Skipped,
    QuotaExceeded,
    Failed,
}

impl LlmPolishStatus {
    pub open spec fn spec_as_str(self) -> Seq<char> {
        match self {
            LlmPolishStatus::Success => "success"@,
            LlmPolishStatus::Skipped => "skipped"@,
            LlmPolishStatus::QuotaExceeded => "quota_exceeded"@,
            LlmPolishStatus::Failed => "failed"@,
        }
    }

    /// The stored name of the status.
    pub fn as_str(self) -> (r: &'static str)
        ensures
            r@ == self.spec_as_str(),
    {
        match self {
            LlmPolishStatus::Success => "success",
            LlmPolishStatus::Skipped => "skipped",
            LlmPolishStatus::QuotaExceeded => "quota_exceeded",
            LlmPolishStatus::Failed => "failed",
        }
    }

    /// Parses a stored name; anything unknown reads as `Skipped`.
    pub fn from_str(value: &str) -> (r: LlmPolishStatus)
        ensures
            value@ == "success"@ ==> r == LlmPolishStatus::Success,
            value@ == "quota_exceeded"@ ==> r == LlmPolishStatus::QuotaExceeded,
            value@ == "failed"@ ==> r == LlmPolishStatus::Failed,
            value@ != "success"@ && value@ != "quota_exceeded"@ && value@ != "failed"@
                ==> r == LlmPolishStatus::Skipped,
    {
        proof {
            reveal_strlit("success");
            reveal_strlit("quota_exceeded");
            reveal_strlit("failed");
            assert("success"@.len() == 7 && "quota_exceeded"@.len() == 14 && "failed"@.len() == 6);
        }
        if str_equals(value, "success") {
            LlmPolishStatus::Success
        } else if str_equals(value, "quota_exceeded") {
            LlmPolishStatus::QuotaExceeded
        } else if str_equals(value, "failed") {
            LlmPolishStatus::Failed
        } else {
            LlmPolishStatus::Skipped
        }
    }
}

impl Default for LlmPolishStatus {
    fn default() -> (r: LlmPolishStatus)
        ensures
            r == LlmPolishStatus::Skipped,
    {
        LlmPolishStatus::Skipped
    }
}

/// Character-by-character equality of two strings.
pub fn str_equals(a: &str, b: &str) -> (r: bool)
    ensures
        r == (a@ == b@),
{
    let a_len = a.unicode_len();
    let b_len = b.unicode_len();
    if a_len != b_len {
        return false;
    }
    let mut i: usize = 0;
    while i < a_len
        invariant
            a_len == a@.len(),
            b_len == b@.len(),
            a_len == b_len,
            i <= a_len,
            forall|k: int| 0 <= k < i ==> a@[k] == b@[k],
        decreases a_len - i,
    {
        if a.get_char(i) != b.get_char(i) {
            return false;
        }
        i = i + 1;
    }
    assert(a@ =~= b@);
    true
}

/// A stored history record.
#[derive(Clone, Debug)]
pub struct HistoryEntry {
    pub id: String,
    pub title: Option<String>,
    pub text: String,
    pub kind: HistoryKind,
    pub created_at: String,
    pub duration_seconds: u32,
    pub audio_file_path: Option<String>,
    pub llm_model: Option<String>,
    pub llm_variant_id: Option<String>,
    pub asr_model: Option<String>,
    pub asr_variant_id: Option<String>,
    pub total_words: u32,
    pub total_tokens: u32,
    pub llm_total_tokens: Option<u32>,
    pub source_app: Option<String>,
    pub llm_polish_status: LlmPolishStatus,
    pub llm_polish_error: Option<String>,
}

/// A record about to be stored; absent fields get defaults on insertion.
#[derive(Clone, Debug)]
pub struct NewHistoryEntry {
    pub id: Option<String>,
    pub text: String,
    pub kind: HistoryKind,
    pub title: Option<String>,
    pub duration_seconds: u32,
    pub created_at: Option<String>,
    pub audio_file_path: Option<String>,
    pub llm_model: Option<String>,
    pub llm_variant_id: Option<String>,
    pub asr_model: Option<String>,
    pub asr_variant_id: Option<String>,
    pub total_words: Option<u32>,
    pub total_tokens: Option<u32>,
    pub llm_total_tokens: Option<u32>,
    pub source_app: Option<String>,
    pub llm_polish_status: LlmPolishStatus,
    pub llm_polish_error: Option<String>,
}

/// Paging and kind filter for listing history records.
#[derive(Clone, Copy, Debug)]
pub struct HistoryListFilter {
    pub kind: Option<HistoryKind>,
    pub limit: Option<u32>,
    pub offset: Option<u32>,
}

/// Page size used when a filter names none.
pub const DEFAULT_HISTORY_LIMIT: u32 = 50;
/// Largest page a single listing returns.
pub const MAX_HISTORY_LIMIT: u32 = 200;

impl HistoryListFilter {
    pub open spec fn spec_effective_limit(self) -> u32 {
        let l = match self.limit {
            Some(l) => l,
            None => DEFAULT_HISTORY_LIMIT,
        };
        if l < MAX_HISTORY_LIMIT { l } else { MAX_HISTORY_LIMIT }
    }

    /// The page size actually used: the requested one, or the default, capped.
    pub fn effective_limit(&self) -> (r: u32)
        ensures
            r == self.spec_effective_limit(),
    {
        let l = match self.limit {
            Some(l) => l,
            None => DEFAULT_HISTORY_LIMIT,
        };
        if l < MAX_HISTORY_LIMIT { l } else { MAX_HISTORY_LIMIT }
    }

    /// The number of records skipped before the page, zero by default.
    pub fn effective_offset(&self) -> (r: u32)
        ensures
            r == match self.offset { Some(o) => o, None => 0 },
    {
        match self.offset {
            Some(o) => o,
            None => 0,
        }
    }
}

impl Default for HistoryListFilter {
    fn default() -> (r: HistoryListFilter)
        ensures
            r.kind is None,
            r.limit == Some(DEFAULT_HISTORY_LIMIT),
            r.offset == Some(0u32),
    {
        HistoryListFilter { kind: None, limit: Some(DEFAULT_HISTORY_LIMIT), offset: Some(0) }
    }
}

/// Totals over all history records.
#[derive(Clone, Copy, Debug)]
pub struct HistoryStats {
    pub total_entries: u32,
    pub total_words: u32,
    pub total_duration_seconds: u64,
    pub total_apps_used: u32,
}

/// Whole seconds of a duration in milliseconds, rounded up and capped.
pub open spec fn seconds_of(ms: Option<u32>) -> u32 {
    match ms {
        Some(m) => ((m as int + 999) / 1000) as u32,
        None => 0,
    }
}

/// The record of a finished dictation: its final text and outcome, the
/// recognizer that produced it, and the word count, which counts characters.
pub fn history_entry_for(
    transcription: &TranscriptionResult,
    kind: HistoryKind,
    asr_model_id: String,
    asr_variant_id: String,
    outcome: &LlmPolishOutcome,
    audio_file_path: Option<String>,
) -> (r: NewHistoryEntry)
    ensures
        r.text == transcription.text,
        r.kind == kind,
        r.duration_seconds == seconds_of(transcription.duration_ms),
        r.total_words == Some(
            (if transcription.text@.len() > u32::MAX { u32::MAX as int } else { transcription.text@.len() as int }) as u32,
        ),
        r.total_tokens == r.total_words,
        r.asr_model == Some(asr_model_id),
        r.asr_variant_id == Some(asr_variant_id),
        r.llm_model == outcome.llm_model,
        r.llm_variant_id == outcome.llm_variant_id,
        r.llm_total_tokens == outcome.llm_total_tokens,
        r.llm_polish_status == outcome.status,
        r.llm_polish_error == outcome.error,
        r.audio_file_path == audio_file_path,
        r.id is None && r.title is None && r.created_at is None && r.source_app is None,
{
    let duration_seconds: u32 = match transcription.duration_ms {
        Some(ms) => (ms / 1000) + if ms % 1000 > 0 { 1u32 } else { 0u32 },
        None => 0,
    };
    let chars = transcription.text.unicode_len();
    let words: u32 = if chars > 0xffff_ffff { 0xffff_ffff } else { chars as u32 };
    NewHistoryEntry {
        id: None,
        text: transcription.text.clone(),
        kind,
        title: None,
        duration_seconds,
        created_at: None,
        audio_file_path,
        llm_model: outcome.llm_model.clone(),
        llm_variant_id: outcome.llm_variant_id.clone(),
        asr_model: Some(asr_model_id),
        asr_variant_id: Some(asr_variant_id),
        total_words: Some(words),
        total_tokens: Some(words),
        llm_total_tokens: outcome.llm_total_tokens,
        source_app: None,
        llm_polish_status: outcome.status,
        llm_polish_error: outcome.error.clone(),
    }
}

} // verus!
