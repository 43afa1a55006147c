//! The transcription pipeline around the recognizer: validation of a
//! finished recording, conversion to the target rate, segmentation into
//! speech, and assembly of the recognized segment texts into the result.

use vstd::prelude::*;
use vstd::arithmetic::div_mod::lemma_div_is_ordered;
use crate::capture::{duration_ms, recording_ms};
use crate::models::{trim_text, trimmed};
use crate::resample::{resample, resampled, resampled_len, samples_to_ms, target_ms, TARGET_SAMPLE_RATE};
use crate::transcript::{
    assemble_transcription, joined, lemma_spoken_empty, lemma_spoken_subsequence, segment_text, spoken,
    starts_ordered, TranscribeError, TranscriptionResult, TranscriptionUtterance,
};
use crate::history::LlmPolishStatus;
use crate::vad::{padded_len, segment_speech, speech_ranges, SpeechSegment, VadConfig};

verus! {

/// Recordings shorter than this many milliseconds are not transcribed.
pub const MIN_RECORDING_MS: u64 = 500;

/// The stages a transcription goes through, as reported to the interface.
#[derive(Clone, Copy, Debug, PartialEq, Eq, Structural)]
pub enum TranscribingStage {
    Asr,
    Polishing,
}

/// Notification that a transcription entered a stage.
#[derive(Clone, Copy, Debug, PartialEq, Eq, Structural)]
pub struct OnTranscribingStage {
    pub stage: TranscribingStage,
}

/// A recording ready for recognition: its speech segments at the target
/// rate, and the duration of the whole converted recording.
pub struct PreparedRecording {
    pub segments: Vec<SpeechSegment>,
    pub duration_ms: u32,
}

impl PreparedRecording {
    /// Segments are non-empty, lie within addressable positions, and each
    /// ends before the next starts.
    pub open spec fn wf(self) -> bool {
        &&& forall|i: int|
            0 <= i < self.segments@.len() ==> (#[trigger] self.segments@[i]).samples@.len() > 0
                && self.segments@[i].start_sample + self.segments@[i].samples@.len() <= usize::MAX
        &&& forall|i: int|
            0 <= i < self.segments@.len() - 1 ==> (#[trigger] self.segments@[i]).start_sample
                + self.segments@[i].samples@.len() <= self.segments@[i + 1].start_sample
    }
}

/// The text a segment contributes: the punctuated text when punctuation gave
/// something, else the trimmed recognizer text.
pub open spec fn chosen_text(raw: String, punctuated: Option<String>) -> Seq<char> {
    match punctuated {
        Some(p) => if p@.len() > 0 { p@ } else { trimmed(raw@) },
        None => trimmed(raw@),
    }
}

proof fn lemma_target_ms_monotone(a: nat, b: nat)
    requires
        a <= b,
    ensures
        target_ms(a) <= target_ms(b),
{
    assert(a * 1000 + 8000 <= b * 1000 + 8000) by (nonlinear_arith)
        requires a <= b;
    lemma_div_is_ordered((a * 1000 + 8000) as int, (b * 1000 + 8000) as int, 16000);
}

/// The transcription pipeline.
pub struct AudioTranscribing;

impl AudioTranscribing {
    /// Checks a finished recording and cuts it into speech segments at the
    /// target rate. An empty recording is refused first, then one shorter than
    /// the minimum duration (a recording with no known rate has no duration);
    /// in both cases nothing is recognized.
    pub fn prepare(samples: &Vec<i16>, sample_rate: u32, config: &VadConfig) -> (r: Result<
        PreparedRecording,
        TranscribeError,
    >)
        requires
            config.wf(),
            padded_len(
                resampled_len(samples@.len(), sample_rate as nat, TARGET_SAMPLE_RATE as nat),
                *config,
            ) <= usize::MAX,
        ensures
            samples@.len() == 0 ==> r == Err::<PreparedRecording, TranscribeError>(TranscribeError::EmptyAudio),
            samples@.len() > 0 && duration_ms(samples@.len(), sample_rate as nat) < MIN_RECORDING_MS
                ==> r == Err::<PreparedRecording, TranscribeError>(TranscribeError::TooShort),
            samples@.len() > 0 && duration_ms(samples@.len(), sample_rate as nat) >= MIN_RECORDING_MS
                ==> (r matches Ok(p) && {
                let x = resampled(samples@, sample_rate as nat, TARGET_SAMPLE_RATE as nat);
                let ranges = speech_ranges(x, *config);
                &&& p.wf()
                &&& p.duration_ms == target_ms(x.len())
                &&& p.segments@.len() == ranges.len()
                &&& p.segments@.len() >= 1
                &&& forall|i: int| 0 <= i < p.segments@.len() ==> {
                    &&& (#[trigger] p.segments@[i]).start_sample == ranges[i].0
                    &&& p.segments@[i].samples@ == x.subrange(ranges[i].0 as int, ranges[i].1 as int)
                }
            }),
    {
        if samples.len() == 0 {
            return Err(TranscribeError::EmptyAudio);
        }
        let ms = recording_ms(samples.len(), sample_rate);
        if ms < MIN_RECORDING_MS {
            return Err(TranscribeError::TooShort);
        }
        proof {
            let n = samples@.len();
            let d = TARGET_SAMPLE_RATE as nat;
            assert(sample_rate > 0);
            if sample_rate != TARGET_SAMPLE_RATE {
                assert((n * d + sample_rate - 1) / (sample_rate as int) >= 1) by (nonlinear_arith)
                    requires n >= 1, d == 16000, sample_rate >= 1;
            }
            assert(padded_len(resampled_len(n, sample_rate as nat, d), *config)
                >= resampled_len(n, sample_rate as nat, d));
        }
        let at_target = resample(samples, sample_rate, TARGET_SAMPLE_RATE);
        let segments = segment_speech(&at_target, config);
        let duration = samples_to_ms(at_target.len());
        let prepared = PreparedRecording { segments, duration_ms: duration };
        proof {
            let x = resampled(samples@, sample_rate as nat, TARGET_SAMPLE_RATE as nat);
            assert(at_target@ == x);
            assert(x.len() > 0);
            let ranges = speech_ranges(x, *config);
            assert forall|i: int| 0 <= i < prepared.segments@.len() implies {
                &&& (#[trigger] prepared.segments@[i]).start_sample == ranges[i].0
                &&& prepared.segments@[i].samples@ == x.subrange(ranges[i].0 as int, ranges[i].1 as int)
            } by {
                assert(prepared.segments@[i].start_sample == speech_ranges(at_target@, *config)[i].0);
            }
            assert forall|i: int| 0 <= i < prepared.segments@.len() implies (#[trigger] prepared.segments@[i]).samples@.len() > 0
                && prepared.segments@[i].start_sample + prepared.segments@[i].samples@.len() <= usize::MAX by {
                crate::vad::lemma_speech_ranges_ordered(x, *config);
                let rg = ranges[i];
                assert(rg.0 < rg.1 <= x.len());
                assert(prepared.segments@[i].samples@.len() == rg.1 - rg.0);
            }
        }
        Ok(prepared)
    }

    /// The place of a segment in the recording, in milliseconds at the target
    /// rate: its start and its end.
    pub fn segment_times(segment: &SpeechSegment) -> (r: (u32, u32))
        requires
            segment.start_sample + segment.samples@.len() <= usize::MAX,
        ensures
            r.0 == target_ms(segment.start_sample as nat),
            r.1 == target_ms((segment.start_sample + segment.samples@.len()) as nat),
    {
        let start = samples_to_ms(segment.start_sample);
        let end = samples_to_ms(segment.start_sample + segment.samples.len());
        (start, end)
    }

    /// One utterance per segment, in order: its text is the punctuated text
    /// when punctuation gave something, else the trimmed recognizer text; its
    /// times are the segment's place in the recording.
    pub fn build_utterances(
        prepared: &PreparedRecording,
        recognized: Vec<String>,
        punctuated: Vec<Option<String>>,
    ) -> (r: Vec<TranscriptionUtterance>)
        requires
            prepared.wf(),
            recognized@.len() == prepared.segments@.len(),
            punctuated@.len() == prepared.segments@.len(),
        ensures
            r@.len() == prepared.segments@.len(),
            forall|i: int| 0 <= i < r@.len() ==> {
                let s = prepared.segments@[i];
                &&& (#[trigger] r@[i]).text@ == chosen_text(recognized@[i], punctuated@[i])
                &&& r@[i].start_time == target_ms(s.start_sample as nat)
                &&& r@[i].end_time == target_ms((s.start_sample + s.samples@.len()) as nat)
                &&& r@[i].start_time <= r@[i].end_time
            },
            forall|i: int| 0 <= i < r@.len() - 1 ==> (#[trigger] r@[i]).end_time <= r@[i + 1].start_time,
            starts_ordered(r@),
    {
        let n = prepared.segments.len();
        let mut out: Vec<TranscriptionUtterance> = Vec::new();
        let mut i: usize = 0;
        while i < n
            invariant
                prepared.wf(),
                n == prepared.segments@.len(),
                recognized@.len() == n,
                punctuated@.len() == n,
                i <= n,
                out@.len() == i,
                forall|k: int| 0 <= k < i ==> {
                    let s = prepared.segments@[k];
                    &&& (#[trigger] out@[k]).text@ == chosen_text(recognized@[k], punctuated@[k])
                    &&& out@[k].start_time == target_ms(s.start_sample as nat)
                    &&& out@[k].end_time == target_ms((s.start_sample + s.samples@.len()) as nat)
                },
            decreases n - i,
        {
            let seg = &prepared.segments[i];
            let raw = trim_text(recognized[i].as_str());
            let punct = match &punctuated[i] {
                Some(p) => Some(p.clone()),
                None => None,
            };
            let text = segment_text(raw, punct);
            let (start, end) = Self::segment_times(seg);
            out.push(TranscriptionUtterance { text, start_time: start, end_time: end });
            i = i + 1;
        }
        proof {
            assert forall|k: int| 0 <= k < n implies (#[trigger] out@[k]).start_time <= out@[k].end_time by {
                let s = prepared.segments@[k];
                lemma_target_ms_monotone(s.start_sample as nat, (s.start_sample + s.samples@.len()) as nat);
            }
            assert forall|k: int| 0 <= k < n - 1 implies (#[trigger] out@[k]).end_time <= out@[k + 1].start_time by {
                let s = prepared.segments@[k];
                let t = prepared.segments@[k + 1];
                lemma_target_ms_monotone((s.start_sample + s.samples@.len()) as nat, t.start_sample as nat);
            }
            assert forall|a: int, b: int| 0 <= a < b < n implies out@[a].start_time <= out@[b].start_time by {
                let s = prepared.segments@[a];
                let t = prepared.segments@[b];
                assert(s.start_sample <= t.start_sample) by {
                    assert forall|k: int| a <= k <= b implies s.start_sample <= (#[trigger] prepared.segments@[k]).start_sample by {
                        lemma_starts_chain(prepared, a, k);
                    }
                }
                lemma_target_ms_monotone(s.start_sample as nat, t.start_sample as nat);
            }
        }
        out
    }

    /// Builds the transcription from each segment's recognized text and its
    /// optional punctuated form. Segments with no text are skipped; when no
    /// segment has text, there was no speech.
    pub fn transcribe_recognized(
        prepared: &PreparedRecording,
        recognized: Vec<String>,
        punctuated: Vec<Option<String>>,
    ) -> (r: Result<TranscriptionResult, TranscribeError>)
        requires
            prepared.wf(),
            recognized@.len() == prepared.segments@.len(),
            punctuated@.len() == prepared.segments@.len(),
        ensures
            (forall|i: int| 0 <= i < recognized@.len() ==> (#[trigger] chosen_text(recognized@[i], punctuated@[i])).len() == 0)
                ==> r == Err::<TranscriptionResult, TranscribeError>(TranscribeError::NoSpeechDetected),
            (exists|i: int| 0 <= i < recognized@.len() && (#[trigger] chosen_text(recognized@[i], punctuated@[i])).len() > 0)
                ==> (r matches Ok(t) && {
                &&& t.duration_ms == Some(prepared.duration_ms)
                &&& t.llm_polish_status == LlmPolishStatus::Skipped
                &&& t.llm_polish_error is None
                &&& t.utterances@.len() >= 1
                &&& t.text@ == joined(t.utterances@)
                &&& starts_ordered(t.utterances@)
                &&& forall|k: int| 0 <= k < t.utterances@.len() ==> (#[trigger] t.utterances@[k]).text@.len() > 0
            }),
    {
        let ghost rec = recognized@;
        let ghost pun = punctuated@;
        let us = Self::build_utterances(prepared, recognized, punctuated);
        proof {
            lemma_spoken_empty(us@);
            lemma_spoken_subsequence(us@);
            if exists|i: int| 0 <= i < rec.len() && (#[trigger] chosen_text(rec[i], pun[i])).len() > 0 {
                let i = choose|i: int| 0 <= i < rec.len() && (#[trigger] chosen_text(rec[i], pun[i])).len() > 0;
                assert(us@[i].text@.len() > 0);
            } else {
                assert forall|i: int| 0 <= i < us@.len() implies (#[trigger] us@[i]).text@.len() == 0 by {
                    assert(chosen_text(rec[i], pun[i]).len() == 0);
                }
            }
        }
        assemble_transcription(us, prepared.duration_ms)
    }
}

proof fn lemma_starts_chain(p: &PreparedRecording, a: int, k: int)
    requires
        p.wf(),
        0 <= a <= k < p.segments@.len(),
    ensures
        p.segments@[a].start_sample <= p.segments@[k].start_sample,
    decreases k - a,
{
    if a < k {
        lemma_starts_chain(p, a, k - 1);
        assert(p.segments@[k - 1].start_sample + p.segments@[k - 1].samples@.len() <= p.segments@[k].start_sample);
    }
}

} // verus!
