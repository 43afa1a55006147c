use base64::Engine;
use miaoyu_desktop::remote::{build_payload, check_response, RemoteError};

#[test]
fn payload_is_base64_of_wave_file() {
    let payload = build_payload(&vec![1i16, -2, 300], 16000).unwrap();
    assert_eq!(payload.len(), 4 * ((50 + 2) / 3));
    assert!(payload.starts_with("UklGR"));
    let bytes = base64::engine::general_purpose::STANDARD.decode(payload).unwrap();
    assert_eq!(bytes.len(), 50);
    assert_eq!(&bytes[8..12], b"WAVE");
}

#[test]
fn empty_recording_is_not_sent() {
    assert_eq!(build_payload(&Vec::new(), 16000), Err(RemoteError::EmptyAudio));
    assert_eq!(build_payload(&vec![1i16], 0), Err(RemoteError::UnsupportedSampleRate));
}

#[test]
fn response_checks() {
    assert_eq!(check_response(false, 503, None, 20000000, "x".to_string()), Err(RemoteError::HttpStatus(503)));
    assert_eq!(check_response(true, 200, Some(45000001), 20000000, "x".to_string()), Err(RemoteError::ApiStatus(45000001)));
    assert_eq!(check_response(true, 200, Some(20000000), 20000000, String::new()), Err(RemoteError::NoSpeechDetected));
    assert_eq!(check_response(true, 200, None, 20000000, "hi".to_string()), Ok("hi".to_string()));
}
