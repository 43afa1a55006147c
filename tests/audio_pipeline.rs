use miaoyu_desktop::capture::{encode_recording, keep_first_channel, recording_ms, unsigned_to_signed, CaptureError, CaptureSession, CaptureState};
use miaoyu_desktop::pipeline::AudioTranscribing;
use miaoyu_desktop::resample::{resample, samples_to_ms, TARGET_SAMPLE_RATE};
use miaoyu_desktop::transcript::TranscribeError;
use miaoyu_desktop::vad::{segment_speech, SpeechDetector, VadConfig};

fn sine(n: usize, rate: u32, freq: f64, amp: f64) -> Vec<i16> {
    (0..n)
        .map(|i| ((i as f64 / rate as f64 * freq * 2.0 * std::f64::consts::PI).sin() * amp) as i16)
        .collect()
}

#[test]
fn resample_same_rate_is_identity() {
    let x = vec![1i16, -5, 300, 7];
    assert_eq!(resample(&x, 44100, 44100), x);
    assert_eq!(resample(&Vec::new(), 48000, 16000), Vec::<i16>::new());
}

#[test]
fn resample_two_seconds_48k_to_16k_length() {
    let x = sine(96000, 48000, 440.0, 8000.0);
    let y = resample(&x, 48000, 16000);
    assert_eq!(y.len(), 32000);
}

#[test]
fn resample_downsample_picks_grid_samples() {
    let x = vec![0i16, 10, 20, 30, 40, 50];
    assert_eq!(resample(&x, 3, 1), vec![0, 30]);
}

#[test]
fn resample_upsample_interpolates() {
    let x = vec![0i16, 100, -100];
    assert_eq!(resample(&x, 1, 2), vec![0, 50, 100, 0, -100, -100]);
}

#[test]
fn resample_integer_upsample_round_trip_is_exact() {
    let x = vec![3i16, -7, 1000, -32768, 32767, 0, 12];
    let up = resample(&x, 16000, 48000);
    assert_eq!(up.len(), 21);
    assert_eq!(resample(&up, 48000, 16000), x);
}

#[test]
fn resample_general_round_trip_is_close() {
    let x = sine(4410, 44100, 200.0, 10000.0);
    let back = resample(&resample(&x, 44100, 16000), 16000, 44100);
    assert!(back.len() >= x.len());
    for i in 1..x.len() - 3 {
        let lo = x[i - 1].min(x[i]).min(x[i + 1]).min(x[i + 2]) as i32 - 1;
        let hi = x[i - 1].max(x[i]).max(x[i + 1]).max(x[i + 2]) as i32 + 1;
        assert!((back[i] as i32) >= lo - 200 && (back[i] as i32) <= hi + 200);
    }
}

#[test]
fn resample_zero_source_rate_gives_nothing() {
    assert_eq!(resample(&vec![1i16, 2], 0, 16000), Vec::<i16>::new());
    assert_eq!(resample(&vec![1i16, 2], 16000, 0), Vec::<i16>::new());
}

#[test]
fn samples_to_ms_rounds_to_nearest() {
    assert_eq!(samples_to_ms(16000), 1000);
    assert_eq!(samples_to_ms(7), 0);
    assert_eq!(samples_to_ms(8), 1);
    assert_eq!(samples_to_ms(24), 2);
    assert_eq!(samples_to_ms(0), 0);
}

#[test]
fn vad_all_silence_gives_one_fallback_segment() {
    let x = vec![0i16; 48000];
    let segs = segment_speech(&x, &VadConfig::default());
    assert_eq!(segs.len(), 1);
    assert_eq!(segs[0].start_sample, 0);
    assert_eq!(segs[0].samples.len(), 48000);
}

#[test]
fn vad_empty_waveform_gives_no_segment() {
    let segs = segment_speech(&Vec::new(), &VadConfig::default());
    assert!(segs.is_empty());
}

#[test]
fn vad_finds_two_bursts_in_order() {
    let mut x = vec![0i16; 16000];
    x.extend(sine(16000, 16000, 300.0, 12000.0));
    x.extend(vec![0i16; 16000]);
    x.extend(sine(8000, 16000, 300.0, 12000.0));
    x.extend(vec![0i16; 4000]);
    let segs = segment_speech(&x, &VadConfig::default());
    assert_eq!(segs.len(), 2);
    assert!(segs[0].start_sample >= 15000 && segs[0].start_sample <= 16000);
    assert!(segs[0].samples.len() >= 15000);
    for w in segs.windows(2) {
        assert!(w[0].start_sample + w[0].samples.len() <= w[1].start_sample);
    }
    for s in &segs {
        assert_eq!(&x[s.start_sample..s.start_sample + s.samples.len()], &s.samples[..]);
    }
}

#[test]
fn vad_splits_regions_longer_than_the_maximum() {
    let x = sine(16000 * 3, 16000, 250.0, 12000.0);
    let cfg = VadConfig { max_speech_windows: 32, ..VadConfig::default() };
    let segs = segment_speech(&x, &cfg);
    assert!(segs.len() >= 2);
    for s in &segs {
        assert!(s.samples.len() <= 32 * 512);
    }
    for w in segs.windows(2) {
        assert!(w[0].start_sample + w[0].samples.len() <= w[1].start_sample);
    }
}

#[test]
fn vad_drops_clicks_shorter_than_minimum_speech() {
    let mut x = vec![0i16; 16000];
    for v in x.iter_mut().skip(8000).take(512) {
        *v = 20000;
    }
    let segs = segment_speech(&x, &VadConfig::default());
    // the click is discarded, so the whole waveform comes back as the fallback
    assert_eq!(segs.len(), 1);
    assert_eq!(segs[0].samples.len(), 16000);
}

#[test]
fn detector_streams_and_flushes() {
    let mut det = SpeechDetector::new(VadConfig { min_speech_windows: 1, ..VadConfig::default() });
    det.accept_window(true, 0, 512);
    assert!(det.is_speech());
    det.accept_window(true, 512, 1024);
    det.flush();
    assert!(!det.is_speech());
    let mut out = Vec::new();
    det.drain_into(&mut out);
    assert_eq!(out, vec![(0, 1024)]);
}

#[test]
fn prepare_rejects_short_recording() {
    let x = vec![100i16; 7000];
    let r = AudioTranscribing::prepare(&x, 16000, &VadConfig::default());
    assert!(matches!(r, Err(TranscribeError::TooShort)));
    let y = vec![100i16; 23999];
    let r = AudioTranscribing::prepare(&y, 48000, &VadConfig::default());
    assert!(matches!(r, Err(TranscribeError::TooShort)));
}

#[test]
fn prepare_rejects_empty_recording() {
    let r = AudioTranscribing::prepare(&Vec::new(), 16000, &VadConfig::default());
    assert!(matches!(r, Err(TranscribeError::EmptyAudio)));
    let r = AudioTranscribing::prepare(&Vec::new(), 0, &VadConfig::default());
    assert!(matches!(r, Err(TranscribeError::EmptyAudio)));
    assert_eq!(TranscribeError::EmptyAudio.message(), "录音数据为空");
}

#[test]
fn prepare_without_rate_is_too_short() {
    let r = AudioTranscribing::prepare(&vec![5i16; 100], 0, &VadConfig::default());
    assert!(matches!(r, Err(TranscribeError::TooShort)));
}

#[test]
fn recognized_segments_become_the_result() {
    let mut x = vec![0i16; 16000];
    x.extend(sine(16000, 16000, 300.0, 12000.0));
    x.extend(vec![0i16; 16000]);
    x.extend(sine(8000, 16000, 300.0, 12000.0));
    let p = AudioTranscribing::prepare(&x, 16000, &VadConfig::default()).unwrap();
    assert_eq!(p.segments.len(), 2);
    assert_eq!(p.duration_ms, 3500);
    let r = AudioTranscribing::transcribe_recognized(
        &p,
        vec!["hello ".to_string(), " world".to_string()],
        vec![Some("Hello.".to_string()), None],
    )
    .unwrap();
    assert_eq!(r.text, "Hello. world");
    assert_eq!(r.duration_ms, Some(3500));
    assert!(r.utterances[0].start_time < r.utterances[1].start_time);
    assert!(r.utterances[0].end_time <= r.utterances[1].start_time);
}

#[test]
fn whitespace_only_recognition_is_no_speech() {
    let p = AudioTranscribing::prepare(&vec![0i16; 16000], 16000, &VadConfig::default()).unwrap();
    let r = AudioTranscribing::transcribe_recognized(&p, vec!["  \n ".to_string()], vec![None]);
    assert!(matches!(r, Err(TranscribeError::NoSpeechDetected)));
    assert_eq!(TranscribeError::NoSpeechDetected.message(), "未识别到有效文本，请重新尝试");
}

#[test]
fn prepare_resamples_then_segments() {
    let x = vec![0i16; 48000];
    let p = AudioTranscribing::prepare(&x, 48000, &VadConfig::default()).unwrap();
    assert_eq!(p.segments.len(), 1);
    assert_eq!(p.segments[0].samples.len(), 16000);
    assert_eq!(p.duration_ms, 1000);
    assert_eq!(AudioTranscribing::segment_times(&p.segments[0]), (0, 1000));
    assert_eq!(TARGET_SAMPLE_RATE, 16000);
}

#[test]
fn keep_first_channel_of_stereo() {
    let data = vec![1i16, -1, 2, -2, 3];
    assert_eq!(keep_first_channel(&data, 2), vec![1, 2, 3]);
    assert_eq!(keep_first_channel(&data, 1), data);
    assert_eq!(keep_first_channel(&data, 0), Vec::<i16>::new());
    assert_eq!(keep_first_channel(&data, 3), vec![1, -2]);
}

#[test]
fn unsigned_samples_are_centred() {
    assert_eq!(unsigned_to_signed(0), -32768);
    assert_eq!(unsigned_to_signed(32768), 0);
    assert_eq!(unsigned_to_signed(65535), 32767);
}

#[test]
fn capture_session_lifecycle() {
    let mut s = CaptureSession::new(48000, 2);
    s.append(&vec![5, 6]);
    assert!(s.samples.is_empty());
    s.activate();
    assert_eq!(s.state, CaptureState::Active);
    s.append(&vec![1, 9, 2, 9]);
    s.append(&vec![3, 9]);
    let (samples, rate, ms) = s.finish().unwrap();
    assert_eq!(samples, vec![1, 2, 3]);
    assert_eq!(rate, 48000);
    assert_eq!(ms, 0);
    assert_eq!(s.state, CaptureState::Finished);
    assert_eq!(s.finish().unwrap_err(), CaptureError::NotActive);
}

#[test]
fn capture_cancel_discards() {
    let mut s = CaptureSession::new(16000, 1);
    s.activate();
    s.append(&vec![1, 2, 3]);
    s.cancel();
    assert_eq!(s.state, CaptureState::Cancelled);
    assert!(s.samples.is_empty());
    assert_eq!(s.finish().unwrap_err(), CaptureError::NotActive);
}

#[test]
fn recording_duration_in_ms() {
    assert_eq!(recording_ms(8000, 16000), 500);
    assert_eq!(recording_ms(7999, 16000), 499);
    assert_eq!(recording_ms(10, 0), 0);
}

#[test]
fn wav_encoding_has_pcm_header_and_samples() {
    let bytes = encode_recording(&vec![1i16, -2, 300], 16000).unwrap();
    assert_eq!(bytes.len(), 44 + 6);
    assert_eq!(&bytes[0..4], b"RIFF");
    assert_eq!(&bytes[8..12], b"WAVE");
    assert_eq!(&bytes[44..46], &1i16.to_le_bytes());
    assert_eq!(&bytes[48..50], &300i16.to_le_bytes());
    assert_eq!(u32::from_le_bytes([bytes[24], bytes[25], bytes[26], bytes[27]]), 16000);
}

#[test]
fn wav_encoding_refuses_unusable_rates() {
    assert_eq!(encode_recording(&vec![1i16], 0), Err(CaptureError::UnsupportedFormat));
    assert_eq!(encode_recording(&vec![1i16], 0x8000_0000), Err(CaptureError::UnsupportedFormat));
}
