use miaoyu_desktop::history::{history_entry_for, HistoryKind, HistoryListFilter, LlmPolishStatus};
use miaoyu_desktop::models::{
    ensure_model_ready, resolve_api_key, resolve_variant_id, sanitize_api_key, select_provider, supported_models,
    CredentialError, ModelError, RecognizerKind, PARAFORMER_MODEL_ID, SENSEVOICE_MODEL_ID,
};
use miaoyu_desktop::polish::{apply_polish, LLMService, LlmPolishOutcome, PolishError, PolishResult};
use miaoyu_desktop::session::{AudioRuntimeState, AudioState, SessionError, StartError};
use miaoyu_desktop::transcript::{assemble_transcription, segment_text, TranscribeError, TranscriptionUtterance};
use miaoyu_desktop::ui::{AppWindowId, EscapeShortcutState, OSPermissionStatus, ShowAppWindow, TrayItem};

fn utt(text: &str, start: u32, end: u32) -> TranscriptionUtterance {
    TranscriptionUtterance { text: text.to_string(), start_time: start, end_time: end }
}

#[test]
fn start_twice_is_refused() {
    let mut s = AudioRuntimeState::new();
    assert!(s.start_recording(HistoryKind::Dictation, Ok(())).is_ok());
    assert_eq!(s.state, AudioState::Recording);
    let before = s;
    assert!(matches!(s.start_recording(HistoryKind::Diary, Ok(())), Err(StartError::Session(SessionError::AlreadyActive))));
    assert_eq!(s, before);
    assert!(s.capture_opened());
    assert_eq!(s.stop_recording(), Ok(HistoryKind::Dictation));
    assert_eq!(s.state, AudioState::Transcribing);
    assert!(matches!(s.start_recording(HistoryKind::Diary, Ok(())), Err(StartError::Session(SessionError::AlreadyActive))));
    assert_eq!(s.state, AudioState::Transcribing);
    s.set_idle();
    assert!(s.start_recording(HistoryKind::Diary, Ok(())).is_ok());
    assert_eq!(s.history_kind, HistoryKind::Diary);
}

#[test]
fn cancel_then_start_succeeds() {
    let mut s = AudioRuntimeState::new();
    s.start_recording(HistoryKind::Dictation, Ok(())).unwrap();
    s.capture_opened();
    s.cancel_recording();
    assert_eq!(s.state, AudioState::Idle);
    assert!(!s.capture_open);
    assert!(s.start_recording(HistoryKind::Dictation, Ok(())).is_ok());
}

#[test]
fn stop_when_idle_reports_no_recording() {
    let mut s = AudioRuntimeState::new();
    assert_eq!(s.stop_recording(), Err(SessionError::NoActiveRecording));
    assert_eq!(s.state, AudioState::Idle);
    assert!(!SessionError::NoActiveRecording.message().is_empty());
}

#[test]
fn stop_before_capture_opens_is_refused() {
    let mut s = AudioRuntimeState::new();
    s.start_recording(HistoryKind::Dictation, Ok(())).unwrap();
    assert_eq!(s.stop_recording(), Err(SessionError::CaptureNotReady));
    assert_eq!(s.state, AudioState::Idle);
    assert!(!s.capture_opened());
    assert_eq!(SessionError::AlreadyActive.message(), "当前已有录音进行中");
}

#[test]
fn assembles_punctuated_segments_in_order() {
    let first = segment_text("hello ".to_string(), Some("Hello.".to_string()));
    let second = segment_text("world".to_string(), Some("World.".to_string()));
    let r = assemble_transcription(vec![utt(&first, 0, 800), utt(&second, 900, 1500)], 1500).unwrap();
    assert_eq!(r.text, "Hello. World.");
    assert_eq!(r.utterances.len(), 2);
    assert_eq!(r.utterances[0].text, "Hello.");
    assert_eq!(r.utterances[1].text, "World.");
    assert!(r.utterances[0].start_time <= r.utterances[1].start_time);
    assert_eq!(r.duration_ms, Some(1500));
    assert_eq!(r.llm_polish_status, LlmPolishStatus::Skipped);
    assert!(r.llm_polish_error.is_none());
}

#[test]
fn empty_segments_are_skipped() {
    let r = assemble_transcription(vec![utt("", 0, 10), utt("a", 20, 30), utt("", 40, 50), utt("b", 60, 70)], 70).unwrap();
    assert_eq!(r.text, "a b");
    assert_eq!(r.utterances.len(), 2);
}

#[test]
fn no_text_means_no_speech_detected() {
    let r = assemble_transcription(vec![utt("", 0, 10)], 10);
    assert!(matches!(r, Err(TranscribeError::NoSpeechDetected)));
    let r = assemble_transcription(Vec::new(), 0);
    assert!(matches!(r, Err(TranscribeError::NoSpeechDetected)));
}

#[test]
fn punctuation_falls_back_to_raw_text() {
    assert_eq!(segment_text("raw".to_string(), None), "raw");
    assert_eq!(segment_text("raw".to_string(), Some(String::new())), "raw");
    assert_eq!(segment_text("raw".to_string(), Some("Raw.".to_string())), "Raw.");
}

#[test]
fn polish_outcomes_are_classified() {
    let ok = LlmPolishOutcome::from_result(
        "orig".to_string(),
        Ok(PolishResult { text: "Polished.".to_string(), total_tokens: Some(12) }),
        Some("deepseek".to_string()),
        None,
    );
    assert_eq!(ok.status, LlmPolishStatus::Success);
    assert_eq!(ok.text, "Polished.");
    assert_eq!(ok.llm_total_tokens, Some(12));
    assert!(!ok.needs_notice());
    let skipped = LlmPolishOutcome::from_result("orig".to_string(), Err(PolishError::NotConfigured), None, None);
    assert_eq!(skipped.status, LlmPolishStatus::Skipped);
    assert_eq!(skipped.text, "orig");
    assert!(skipped.error.is_none());
    let quota = LlmPolishOutcome::from_result("orig".to_string(), Err(PolishError::QuotaExceeded("q".to_string())), None, None);
    assert_eq!(quota.status, LlmPolishStatus::QuotaExceeded);
    assert_eq!(quota.error.as_deref(), Some("q"));
    assert!(quota.needs_notice());
    let failed = LlmPolishOutcome::from_result("orig".to_string(), Err(PolishError::Failed("net".to_string())), None, None);
    assert_eq!(failed.status, LlmPolishStatus::Failed);
    assert_eq!(failed.text, "orig");

    let mut result = assemble_transcription(vec![utt("hi", 0, 10)], 10).unwrap();
    apply_polish(&mut result, ok);
    assert_eq!(result.text, "Polished.");
    assert_eq!(result.llm_polish_status, LlmPolishStatus::Success);
    assert_eq!(result.utterances[0].text, "hi");
}

#[test]
fn api_keys_are_trimmed_and_prioritised() {
    assert_eq!(sanitize_api_key(Some("  sk-1 \n".to_string())), Some("sk-1".to_string()));
    assert_eq!(sanitize_api_key(Some("   ".to_string())), None);
    assert_eq!(sanitize_api_key(None), None);
    assert_eq!(
        resolve_api_key(Some(" ".to_string()), Some(" stored ".to_string()), Some("env".to_string()), None),
        Ok("stored".to_string())
    );
    assert_eq!(resolve_api_key(Some("o".to_string()), Some("s".to_string()), None, None), Ok("o".to_string()));
    assert_eq!(resolve_api_key(None, None, None, Some(" d ".to_string())), Ok("d".to_string()));
    assert_eq!(resolve_api_key(None, Some("".to_string()), None, None), Err(CredentialError::Missing));
}

#[test]
fn model_readiness_lists_missing_files() {
    match ensure_model_ready(PARAFORMER_MODEL_ID, &vec![true, false]) {
        Err(ModelError::NotReady { missing_files }) => {
            assert_eq!(missing_files, vec![format!("词表文件（{}/tokens.txt）", PARAFORMER_MODEL_ID)])
        }
        _ => panic!("expected a not-ready error"),
    }
    match ensure_model_ready(SENSEVOICE_MODEL_ID, &vec![]) {
        Err(ModelError::NotReady { missing_files }) => assert_eq!(missing_files.len(), 2),
        _ => panic!("expected a not-ready error"),
    }
    assert!(ensure_model_ready(SENSEVOICE_MODEL_ID, &vec![true, true]).is_ok());
    match ensure_model_ready("nope", &vec![true, true]) {
        Err(ModelError::UnknownModel { model_id }) => assert_eq!(model_id, "nope"),
        _ => panic!("expected an unknown-model error"),
    }
}

#[test]
fn start_refused_when_model_missing() {
    let mut s = AudioRuntimeState::new();
    let before = s;
    let r = s.start_recording(HistoryKind::Dictation, ensure_model_ready(PARAFORMER_MODEL_ID, &vec![false, false]));
    assert!(matches!(r, Err(StartError::Model(ModelError::NotReady { .. }))));
    assert_eq!(s, before);
}

#[test]
fn recognizer_kind_by_model_id() {
    assert_eq!(RecognizerKind::from_model_id(SENSEVOICE_MODEL_ID), RecognizerKind::SenseVoice);
    assert_eq!(RecognizerKind::from_model_id(PARAFORMER_MODEL_ID), RecognizerKind::Paraformer);
    assert_eq!(RecognizerKind::from_model_id("other"), RecognizerKind::Paraformer);
}

#[test]
fn catalogue_and_variant_ids() {
    let m = supported_models();
    assert_eq!(m.llm_models.len(), 2);
    assert_eq!(m.asr_models[1].id, SENSEVOICE_MODEL_ID);
    let model = &m.llm_models[0];
    assert_eq!(resolve_variant_id(model, &model.providers[0]), "deepseek-chat");
    let asr = &m.asr_models[0];
    let mut p = model.providers[1].clone();
    p.model = None;
    assert_eq!(resolve_variant_id(model, &p), "deepseek::modelscope");
    assert_eq!(asr.providers[0].id, "local");
    assert_eq!(select_provider(&m, "deepseek", "modelscope"), Some((0, 1)));
    assert_eq!(select_provider(&m, "qwen", "deepseek"), Some((1, 0)));
    assert_eq!(select_provider(&m, "other", "deepseek"), None);
    assert!(LLMService::should_polish(" hi "));
    assert!(!LLMService::should_polish(" \t "));
}

#[test]
fn history_names_round_trip() {
    assert_eq!(HistoryKind::Diary.as_str(), "diary");
    assert_eq!(HistoryKind::from_str("dictation"), Some(HistoryKind::Dictation));
    assert_eq!(HistoryKind::from_str("x"), None);
    assert_eq!(LlmPolishStatus::QuotaExceeded.as_str(), "quota_exceeded");
    assert_eq!(LlmPolishStatus::from_str("failed"), LlmPolishStatus::Failed);
    assert_eq!(LlmPolishStatus::from_str("???"), LlmPolishStatus::Skipped);
    assert_eq!(LlmPolishStatus::default(), LlmPolishStatus::Skipped);
    let f = HistoryListFilter::default();
    assert_eq!(f.effective_limit(), 50);
    assert_eq!(f.effective_offset(), 0);
    let big = HistoryListFilter { kind: None, limit: Some(1000), offset: None };
    assert_eq!(big.effective_limit(), 200);
}

#[test]
fn shell_values() {
    assert_eq!(AppWindowId::AudioRecording.label(), "recording");
    for w in [
        AppWindowId::Notification,
        AppWindowId::Settings,
        AppWindowId::Dashboard,
        AppWindowId::Onboarding,
        AppWindowId::AudioRecording,
        AppWindowId::AudioTranscribing,
    ] {
        assert_eq!(AppWindowId::from_str(&w.label()), Ok(w));
    }
    assert_eq!(AppWindowId::from_str("x"), Err("unknown window label: x".to_string()));
    assert!(AppWindowId::Settings.activates_dock());
    assert!(!AppWindowId::Notification.activates_dock());
    assert_eq!(ShowAppWindow::Dashboard.id(), AppWindowId::Dashboard);
    assert!(OSPermissionStatus::Granted.permitted());
    assert!(OSPermissionStatus::NotNeeded.permitted());
    assert!(!OSPermissionStatus::Denied.permitted());
    assert!(!OSPermissionStatus::Empty.permitted());
    assert_eq!(TrayItem::Quit.menu_id(), "quit");
    assert_eq!(TrayItem::from_menu_id("models"), Some(TrayItem::Models));
    assert_eq!(TrayItem::from_menu_id("nope"), None);
    let mut esc = EscapeShortcutState { enabled: false };
    assert!(esc.set_enabled(true));
    assert!(!esc.set_enabled(true));
}

#[test]
fn history_entry_from_transcription() {
    let mut r = assemble_transcription(vec![utt("你好 world", 0, 1500)], 1501).unwrap();
    let outcome = LlmPolishOutcome::from_result(r.text.clone(), Err(PolishError::NotConfigured), None, None);
    apply_polish(&mut r, outcome.clone());
    let e = history_entry_for(&r, HistoryKind::Diary, "asr".to_string(), "asr::local".to_string(), &outcome, None);
    assert_eq!(e.duration_seconds, 2);
    assert_eq!(e.total_words, Some(8));
    assert_eq!(e.kind, HistoryKind::Diary);
    assert_eq!(e.llm_polish_status, LlmPolishStatus::Skipped);
    assert_eq!(e.asr_variant_id.as_deref(), Some("asr::local"));
    assert!(e.id.is_none());
}
