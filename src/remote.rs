//! The cloud recognizer's request payload and response checks. The HTTP
//! transport itself stays with the caller.

use vstd::prelude::*;
use crate::capture::{encode_recording, wav_bytes};
use base64::Engine;

verus! {

/// Standard base64 (with padding) of the bytes.
pub uninterp spec fn base64_of(bytes: Seq<u8>) -> Seq<char>;

/// Relies on base64's `STANDARD.encode`: padded output of four characters per
/// started group of three bytes. It panics only when that length overflows.
#[verifier::external_body]
fn base64_encode(bytes: &Vec<u8>) -> (r: String)
    requires
        bytes@.len() <= 0x3000_0000,
    ensures
        r@ == base64_of(bytes@),
        r@.len() == 4 * ((bytes@.len() + 2) / 3),
{
    base64::engine::general_purpose::STANDARD.encode(bytes)
}

/// Why the cloud recognizer produced no text.
#[derive(Clone, Copy, Debug, PartialEq, Eq, Structural)]
pub enum RemoteError {
    /// The recording holds no samples; nothing was sent.
    EmptyAudio,
    /// The sample rate cannot be written into a WAVE header.
    UnsupportedSampleRate,
    /// The HTTP exchange failed with this status.
    HttpStatus(u16),
    /// The service reported this status code in its response header.
    ApiStatus(u32),
    /// The service answered, but recognized nothing.
    NoSpeechDetected,
}

/// Builds the request body: the recording as a 16-bit mono WAVE file,
/// base64-encoded. An empty recording is refused before anything is sent,
/// and so is a rate that a WAVE header cannot hold.
pub fn build_payload(samples: &Vec<i16>, sample_rate: u32) -> (r: Result<String, RemoteError>)
    requires
        samples@.len() <= 0x1000_0000,
    ensures
        samples@.len() == 0 ==> r == Err::<String, RemoteError>(RemoteError::EmptyAudio),
        samples@.len() > 0 && !(0 < sample_rate <= 0x7fff_ffff) ==> r == Err::<String, RemoteError>(
            RemoteError::UnsupportedSampleRate,
        ),
        samples@.len() > 0 && 0 < sample_rate <= 0x7fff_ffff ==> (r matches Ok(p) && p@ == base64_of(
            wav_bytes(samples@, sample_rate),
        )),
{
    if samples.len() == 0 {
        return Err(RemoteError::EmptyAudio);
    }
    match encode_recording(samples, sample_rate) {
        Ok(wav) => Ok(base64_encode(&wav)),
        Err(_) => Err(RemoteError::UnsupportedSampleRate),
    }
}

/// Checks the service's answer: a failed HTTP status, then a status code in
/// the response header other than `success_code`, are errors; otherwise the
/// recognized text, which must not be empty.
pub fn check_response(
    http_success: bool,
    http_status: u16,
    api_status: Option<u32>,
    success_code: u32,
    text: String,
) -> (r: Result<String, RemoteError>)
    ensures
        !http_success ==> r == Err::<String, RemoteError>(RemoteError::HttpStatus(http_status)),
        http_success && api_status is Some && api_status.unwrap() != success_code ==> r == Err::<
            String,
            RemoteError,
        >(RemoteError::ApiStatus(api_status.unwrap())),
        http_success && (api_status is None || api_status.unwrap() == success_code) ==> {
            &&& text@.len() == 0 ==> r == Err::<String, RemoteError>(RemoteError::NoSpeechDetected)
            &&& text@.len() > 0 ==> r == Ok::<String, RemoteError>(text)
        },
{
    if !http_success {
        return Err(RemoteError::HttpStatus(http_status));
    }
    if let Some(code) = api_status {
        if code != success_code {
            return Err(RemoteError::ApiStatus(code));
        }
    }
    if text.unicode_len() == 0 {
        return Err(RemoteError::NoSpeechDetected);
    }
    Ok(text)
}

} // verus!
