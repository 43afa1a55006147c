//! The optional language-model polishing stage: its outcome classification
//! and how it overwrites the transcription result.

use vstd::prelude::*;
use crate::history::LlmPolishStatus;
use crate::transcript::TranscriptionResult;
use crate::models::{trim_text, trimmed};

verus! {

/// The polishing service.
pub struct LLMService;

impl LLMService {
    /// Whether the text is worth sending: blank text is returned as it is,
    /// with no request and no token usage.
    pub fn should_polish(text: &str) -> (r: bool)
        ensures
            r == (trimmed(text@).len() > 0),
    {
        let t = trim_text(text);
        t.unicode_len() > 0
    }
}

/// Text returned by the polishing service, with its token usage.
#[derive(Clone, Debug)]
pub struct PolishResult {
    pub text: String,
    pub total_tokens: Option<u32>,
}

/// Why polishing did not produce text, classified so that callers can react.
#[derive(Clone, Debug)]
pub enum PolishError {
    /// No text model is configured; polishing is skipped.
    NotConfigured,
    /// The free quota is used up; not to be retried automatically.
    QuotaExceeded(String),
    /// The service or the network failed.
    Failed(String),
}

/// What polishing did to one transcription.
#[derive(Clone, Debug)]
pub struct LlmPolishOutcome {
    pub text: String,
    pub llm_model: Option<String>,
    pub llm_variant_id: Option<String>,
    pub llm_total_tokens: Option<u32>,
    pub status: LlmPolishStatus,
    pub error: Option<String>,
}

impl LlmPolishOutcome {
    /// An outcome that keeps the given text and records no token usage.
    pub fn from_error(
        text: String,
        status: LlmPolishStatus,
        error: Option<String>,
        model: Option<String>,
        variant: Option<String>,
    ) -> (r: LlmPolishOutcome)
        ensures
            r.text == text,
            r.status == status,
            r.error == error,
            r.llm_model == model,
            r.llm_variant_id == variant,
            r.llm_total_tokens is None,
    {
        LlmPolishOutcome { text, llm_model: model, llm_variant_id: variant, llm_total_tokens: None, status, error }
    }

    /// Classifies the service's answer: polished text on success; otherwise
    /// the original text is kept, with `Skipped` when nothing is configured,
    /// `QuotaExceeded` or `Failed` with the message otherwise.
    pub fn from_result(
        original: String,
        result: Result<PolishResult, PolishError>,
        model: Option<String>,
        variant: Option<String>,
    ) -> (r: LlmPolishOutcome)
        ensures
            r.llm_model == model,
            r.llm_variant_id == variant,
            match result {
                Ok(p) => r.text == p.text && r.status == LlmPolishStatus::Success && r.error is None
                    && r.llm_total_tokens == p.total_tokens,
                Err(PolishError::NotConfigured) => r.text == original && r.status == LlmPolishStatus::Skipped
                    && r.error is None && r.llm_total_tokens is None,
                Err(PolishError::QuotaExceeded(m)) => r.text == original && r.status
                    == LlmPolishStatus::QuotaExceeded && r.error == Some(m) && r.llm_total_tokens is None,
                Err(PolishError::Failed(m)) => r.text == original && r.status == LlmPolishStatus::Failed
                    && r.error == Some(m) && r.llm_total_tokens is None,
            },
    {
        match result {
            Ok(p) => LlmPolishOutcome {
                text: p.text,
                llm_model: model,
                llm_variant_id: variant,
                llm_total_tokens: p.total_tokens,
                status: LlmPolishStatus::Success,
                error: None,
            },
            Err(PolishError::NotConfigured) => Self::from_error(original, LlmPolishStatus::Skipped, None, model, variant),
            Err(PolishError::QuotaExceeded(m)) => Self::from_error(
                original,
                LlmPolishStatus::QuotaExceeded,
                Some(m),
                model,
                variant,
            ),
            Err(PolishError::Failed(m)) => Self::from_error(original, LlmPolishStatus::Failed, Some(m), model, variant),
        }
    }

    /// Whether the user should be told that polishing went wrong.
    pub fn needs_notice(&self) -> (r: bool)
        ensures
            r == (self.status == LlmPolishStatus::Failed || self.status == LlmPolishStatus::QuotaExceeded),
    {
        self.status == LlmPolishStatus::Failed || self.status == LlmPolishStatus::QuotaExceeded
    }
}

/// Writes the polishing outcome into the result: its text, status and error
/// are replaced; the duration and utterances stay.
pub fn apply_polish(result: &mut TranscriptionResult, outcome: LlmPolishOutcome)
    ensures
        final(result).text == outcome.text,
        final(result).llm_polish_status == outcome.status,
        final(result).llm_polish_error == outcome.error,
        final(result).duration_ms == old(result).duration_ms,
        final(result).utterances == old(result).utterances,
{
    result.text = outcome.text;
    result.llm_polish_status = outcome.status;
    result.llm_polish_error = outcome.error;
}

} // verus!
