//! Assembly of recognized segments into the final transcription result.

use vstd::prelude::*;
use crate::history::LlmPolishStatus;

verus! {

/// One recognized stretch of speech, with its place in the recording.
#[derive(Clone, Debug)]
pub struct TranscriptionUtterance {
    pub text: String,
    pub start_time: u32,
    pub end_time: u32,
}

/// The finished transcription of one dictation.
#[derive(Clone, Debug)]
pub struct TranscriptionResult {
    pub text: String,
    pub duration_ms: Option<u32>,
    pub utterances: Vec<TranscriptionUtterance>,
    pub llm_polish_status: LlmPolishStatus,
    pub llm_polish_error: Option<String>,
}

/// The utterances whose text is not empty, in their original order.
pub open spec fn spoken(us: Seq<TranscriptionUtterance>) -> Seq<TranscriptionUtterance>
    decreases us.len(),
{
    if us.len() == 0 {
        Seq::empty()
    } else {
        let rest = spoken(us.drop_last());
        if us.last().text@.len() > 0 {
            rest.push(us.last())
        } else {
            rest
        }
    }
}

/// The texts joined with single spaces.
pub open spec fn joined(us: Seq<TranscriptionUtterance>) -> Seq<char>
    decreases us.len(),
{
    if us.len() == 0 {
        Seq::empty()
    } else if us.len() == 1 {
        us[0].text@
    } else {
        joined(us.drop_last()) + seq![' '] + us.last().text@
    }
}

/// Start times never decrease along the sequence.
pub open spec fn starts_ordered(us: Seq<TranscriptionUtterance>) -> bool {
    forall|i: int, j: int| 0 <= i < j < us.len() ==> us[i].start_time <= us[j].start_time
}

/// Each element of `spoken(us)` is an element of `us`, met in the same order.
pub proof fn lemma_spoken_subsequence(us: Seq<TranscriptionUtterance>)
    ensures
        spoken(us).len() <= us.len(),
        starts_ordered(us) ==> starts_ordered(spoken(us)),
        forall|k: int| 0 <= k < spoken(us).len() ==> spoken(us)[k].text@.len() > 0,
        forall|k: int|
            0 <= k < spoken(us).len() ==> exists|j: int| 0 <= j < us.len() && us[j] == #[trigger] spoken(us)[k],
    decreases us.len(),
{
    if us.len() > 0 {
        let init = us.drop_last();
        lemma_spoken_subsequence(init);
        let rest = spoken(init);
        assert forall|k: int| 0 <= k < spoken(us).len() implies exists|j: int|
            0 <= j < us.len() && us[j] == #[trigger] spoken(us)[k] by {
            if k < rest.len() {
                let j = choose|j: int| 0 <= j < init.len() && init[j] == rest[k];
                assert(us[j] == spoken(us)[k]);
            } else {
                assert(us[us.len() - 1] == spoken(us)[k]);
            }
        }
        if starts_ordered(us) {
            assert(starts_ordered(init));
            assert forall|a: int, b: int| 0 <= a < b < spoken(us).len() implies
                spoken(us)[a].start_time <= spoken(us)[b].start_time by {
                if b < rest.len() {
                } else {
                    let j = choose|j: int| 0 <= j < init.len() && init[j] == rest[a];
                    assert(us[j] == spoken(us)[a]);
                    assert(spoken(us)[b] == us[us.len() - 1]);
                }
            }
        }
    }
}

/// `spoken(us)` is empty exactly when every text is empty.
pub proof fn lemma_spoken_empty(us: Seq<TranscriptionUtterance>)
    ensures
        spoken(us).len() == 0 <==> forall|i: int| 0 <= i < us.len() ==> (#[trigger] us[i]).text@.len() == 0,
    decreases us.len(),
{
    if us.len() > 0 {
        let init = us.drop_last();
        lemma_spoken_empty(init);
        if spoken(us).len() == 0 {
            assert forall|i: int| 0 <= i < us.len() implies (#[trigger] us[i]).text@.len() == 0 by {
                if i < init.len() {
                    assert(init[i] == us[i]);
                }
            }
        } else if forall|i: int| 0 <= i < us.len() ==> (#[trigger] us[i]).text@.len() == 0 {
            assert(us[us.len() - 1].text@.len() == 0);
            assert forall|i: int| 0 <= i < init.len() implies (#[trigger] init[i]).text@.len() == 0 by {
                assert(init[i] == us[i]);
            }
        }
    }
}

/// Why a dictation produced no result.
#[derive(Clone, Copy, Debug, PartialEq, Eq, Structural)]
pub enum TranscribeError {
    /// The recording holds no samples.
    EmptyAudio,
    /// The recording is shorter than the minimum duration.
    TooShort,
    /// No segment produced any text.
    NoSpeechDetected,
}

impl TranscribeError {
    /// The user-facing message for the failure.
    pub fn message(&self) -> (r: String)
        ensures
            *self == TranscribeError::EmptyAudio ==> r@ == "录音数据为空"@,
            *self == TranscribeError::TooShort ==> r@ == "录音时间太短，请重新尝试"@,
            *self == TranscribeError::NoSpeechDetected ==> r@ == "未识别到有效文本，请重新尝试"@,
    {
        match self {
            TranscribeError::EmptyAudio => {
                proof { reveal_strlit("录音数据为空"); }
                "录音数据为空".to_owned()
            },
            TranscribeError::TooShort => {
                proof { reveal_strlit("录音时间太短，请重新尝试"); }
                "录音时间太短，请重新尝试".to_owned()
            },
            TranscribeError::NoSpeechDetected => {
                proof { reveal_strlit("未识别到有效文本，请重新尝试"); }
                "未识别到有效文本，请重新尝试".to_owned()
            },
        }
    }
}

/// The text a segment contributes: its punctuated form when punctuation ran
/// and gave something, else the raw recognizer text.
pub fn segment_text(raw: String, punctuated: Option<String>) -> (r: String)
    ensures
        r@ == (match punctuated {
            Some(p) => if p@.len() > 0 { p@ } else { raw@ },
            None => raw@,
        }),
{
    match punctuated {
        Some(p) => {
            if p.unicode_len() > 0 {
                p
            } else {
                raw
            }
        },
        None => raw,
    }
}

/// Builds the result from the recognized segments, in recording order: the
/// segments with text are kept, and their texts joined with single spaces.
/// Fails with `NoSpeechDetected` when no segment has text.
pub fn assemble_transcription(utterances: Vec<TranscriptionUtterance>, duration_ms: u32) -> (r: Result<
    TranscriptionResult,
    TranscribeError,
>)
    ensures
        spoken(utterances@).len() == 0 ==> r == Err::<TranscriptionResult, TranscribeError>(
            TranscribeError::NoSpeechDetected,
        ),
        spoken(utterances@).len() > 0 ==> (r matches Ok(t) && {
            &&& t.text@ == joined(spoken(utterances@))
            &&& t.utterances@ == spoken(utterances@)
            &&& t.duration_ms == Some(duration_ms)
            &&& t.llm_polish_status == LlmPolishStatus::Skipped
            &&& t.llm_polish_error is None
        }),
        starts_ordered(utterances@) ==> (r matches Ok(t) ==> starts_ordered(t.utterances@)),
{
    let mut kept: Vec<TranscriptionUtterance> = Vec::new();
    let mut text = String::new();
    let n = utterances.len();
    let mut i: usize = 0;
    proof {
        reveal_strlit(" ");
        assert(utterances@.subrange(0, 0) =~= Seq::<TranscriptionUtterance>::empty());
    }
    while i < n
        invariant
            n == utterances@.len(),
            i <= n,
            kept@ == spoken(utterances@.subrange(0, i as int)),
            text@ == joined(kept@),
        decreases n - i,
    {
        let u = &utterances[i];
        let ghost prefix = utterances@.subrange(0, i as int);
        let ghost next = utterances@.subrange(0, i + 1);
        proof {
            assert(next.drop_last() =~= prefix);
            assert(next.last() == utterances@[i as int]);
        }
        if u.text.unicode_len() > 0 {
            let ghost before = kept@;
            let ghost text_before = text@;
            proof { reveal_strlit(" "); assert(" "@ =~= seq![' ']); }
            if kept.len() > 0 {
                text.append(" ");
            }
            text.append(u.text.as_str());
            let piece = TranscriptionUtterance {
                text: u.text.clone(),
                start_time: u.start_time,
                end_time: u.end_time,
            };
            kept.push(piece);
            proof {
                assert(kept@.drop_last() =~= before);
                if before.len() == 0 {
                    assert(text@ =~= kept@[0].text@);
                } else {
                    assert(text@ =~= text_before + seq![' '] + u.text@);
                    assert(kept@.last().text@ == u.text@);
                    assert(text@ =~= joined(before) + seq![' '] + kept@.last().text@);
                }
            }
        }
        i = i + 1;
    }
    proof {
        assert(utterances@.subrange(0, n as int) =~= utterances@);
        lemma_spoken_subsequence(utterances@);
    }
    if kept.len() == 0 {
        return Err(TranscribeError::NoSpeechDetected);
    }
    Ok(TranscriptionResult {
        text,
        duration_ms: Some(duration_ms),
        utterances: kept,
        llm_polish_status: LlmPolishStatus::Skipped,
        llm_polish_error: None,
    })
}

} // verus!
