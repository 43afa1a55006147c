//! The capture session's sample buffer: conversion of raw device samples to
//! mono 16-bit, append-only accumulation while active, and hand-off when the
//! session finishes or is cancelled.

use vstd::prelude::*;

verus! {

/// Lifecycle of one capture session.
#[derive(Clone, Copy, Debug, PartialEq, Eq, Structural)]
pub enum CaptureState {
    Initializing,
    Active,
    Finished,
    Cancelled,
    Failed,
}

/// Why capture could not produce a recording.
#[derive(Clone, Copy, Debug, PartialEq, Eq, Structural)]
pub enum CaptureError {
    /// No input device exists.
    NoInputDevice,
    /// The device offers no usable sample format.
    UnsupportedFormat,
    /// The audio driver failed.
    DeviceError,
    /// The session is not capturing, so there is nothing to finish.
    NotActive,
}

/// Every `channels`-th sample starting with the first: the first channel of
/// an interleaved buffer.
pub open spec fn first_channel(data: Seq<i16>, channels: nat) -> Seq<i16> {
    if channels == 0 {
        Seq::empty()
    } else {
        Seq::new(
            ((data.len() + channels - 1) / (channels as int)) as nat,
            |i: int| data[i * channels],
        )
    }
}

/// Keeps only the first channel of an interleaved buffer. A stream that
/// reports no channels contributes nothing.
pub fn keep_first_channel(data: &Vec<i16>, channels: u16) -> (r: Vec<i16>)
    ensures
        r@ == first_channel(data@, channels as nat),
        channels == 1 ==> r@ == data@,
{
    let mut out: Vec<i16> = Vec::new();
    if channels == 0 {
        return out;
    }
    let n = data.len();
    let ch = channels as usize;
    let count: usize = if n == 0 { 0 } else { (n - 1) / ch + 1 };
    proof {
        assert(count == (n + ch - 1) / (ch as int)) by (nonlinear_arith)
            requires ch >= 1, n == 0 ==> count == 0, n > 0 ==> count == (n - 1) / (ch as int) + 1;
    }
    let mut taken: usize = 0;
    while taken < count
        invariant
            n == data@.len(),
            ch == channels as nat,
            ch >= 1,
            count == (n + ch - 1) / (ch as int),
            taken <= count,
            out@.len() == taken,
            forall|k: int| 0 <= k < taken ==> out@[k] == data@[k * ch],
        decreases count - taken,
    {
        proof {
            assert(taken * ch < n) by (nonlinear_arith)
                requires taken < count, count == (n + ch - 1) / (ch as int), ch >= 1;
        }
        out.push(data[taken * ch]);
        taken = taken + 1;
    }
    proof {
        if ch == 1 {
            assert(count == n) by (nonlinear_arith)
                requires ch == 1, count == (n + ch - 1) / (ch as int);
            assert forall|k: int| 0 <= k < n implies out@[k] == data@[k] by {
                assert(k * ch == k);
            }
            assert(out@ =~= data@);
        }
    }
    assert(out@ =~= first_channel(data@, channels as nat));
    out
}

/// Maps an unsigned 16-bit sample onto the signed range, keeping its offset
/// from the midpoint.
pub fn unsigned_to_signed(s: u16) -> (r: i16)
    ensures
        r == s - 32768,
{
    (s as i32 - 32768) as i16
}

/// Milliseconds spanned by `n` samples at `rate` Hz, rounded down and capped
/// at `u64::MAX`; zero when the rate is unknown.
pub open spec fn duration_ms(n: nat, rate: nat) -> nat {
    if rate == 0 {
        0
    } else {
        let ms = (n * 1000) as int / (rate as int);
        if ms > u64::MAX { u64::MAX as nat } else { ms as nat }
    }
}

/// The buffer of one capture session.
pub struct CaptureSession {
    pub state: CaptureState,
    pub sample_rate: u32,
    pub channels: u16,
    pub samples: Vec<i16>,
}

impl CaptureSession {
    /// A session whose device has not confirmed capture yet.
    pub fn new(sample_rate: u32, channels: u16) -> (r: CaptureSession)
        ensures
            r.state == CaptureState::Initializing,
            r.sample_rate == sample_rate,
            r.channels == channels,
            r.samples@.len() == 0,
    {
        CaptureSession { state: CaptureState::Initializing, sample_rate, channels, samples: Vec::new() }
    }

    /// The device started delivering samples.
    pub fn activate(&mut self)
        ensures
            old(self).state == CaptureState::Initializing ==> final(self).state == CaptureState::Active,
            old(self).state != CaptureState::Initializing ==> final(self).state == old(self).state,
            final(self).samples@ == old(self).samples@,
            final(self).sample_rate == old(self).sample_rate,
            final(self).channels == old(self).channels,
    {
        if self.state == CaptureState::Initializing {
            self.state = CaptureState::Active;
        }
    }

    /// Setup failed; the session never captures.
    pub fn fail(&mut self)
        ensures
            final(self).state == CaptureState::Failed,
            final(self).samples@.len() == 0,
            final(self).sample_rate == old(self).sample_rate,
            final(self).channels == old(self).channels,
    {
        self.state = CaptureState::Failed;
        self.samples = Vec::new();
    }

    /// Appends one device buffer, reduced to its first channel. Buffers that
    /// arrive when the session is not active are ignored.
    pub fn append(&mut self, data: &Vec<i16>)
        requires
            old(self).samples@.len() + data@.len() <= usize::MAX,
        ensures
            final(self).state == old(self).state,
            final(self).sample_rate == old(self).sample_rate,
            final(self).channels == old(self).channels,
            old(self).state == CaptureState::Active ==> final(self).samples@ == old(self).samples@
                + first_channel(data@, old(self).channels as nat),
            old(self).state != CaptureState::Active ==> final(self).samples@ == old(self).samples@,
    {
        if self.state != CaptureState::Active {
            return;
        }
        let mut mono = keep_first_channel(data, self.channels);
        proof {
            let ch = self.channels as nat;
            if ch > 0 {
                assert((data@.len() + ch - 1) / (ch as int) <= data@.len()) by (nonlinear_arith)
                    requires ch >= 1;
            }
        }
        self.samples.append(&mut mono);
    }

    /// Stops capture and hands over the recording: its samples, sample rate
    /// and duration in milliseconds. Only an active session can finish.
    pub fn finish(&mut self) -> (r: Result<(Vec<i16>, u32, u64), CaptureError>)
        ensures
            old(self).state == CaptureState::Active ==> {
                &&& final(self).state == CaptureState::Finished
                &&& final(self).samples@.len() == 0
                &&& r matches Ok((s, rate, ms)) && s@ == old(self).samples@ && rate == old(self).sample_rate
                    && ms == duration_ms(s@.len(), rate as nat)
            },
            old(self).state != CaptureState::Active ==> {
                &&& r == Err::<(Vec<i16>, u32, u64), CaptureError>(CaptureError::NotActive)
                &&& final(self).state == old(self).state
                &&& final(self).samples@ == old(self).samples@
            },
    {
        if self.state != CaptureState::Active {
            return Err(CaptureError::NotActive);
        }
        self.state = CaptureState::Finished;
        let mut samples: Vec<i16> = Vec::new();
        samples.append(&mut self.samples);
        assert(samples@ =~= old(self).samples@);
        let rate = self.sample_rate;
        let ms = recording_ms(samples.len(), rate);
        Ok((samples, rate, ms))
    }

    /// Stops capture and discards everything. Never fails.
    pub fn cancel(&mut self)
        ensures
            final(self).state == CaptureState::Cancelled,
            final(self).samples@.len() == 0,
            final(self).sample_rate == old(self).sample_rate,
            final(self).channels == old(self).channels,
    {
        self.state = CaptureState::Cancelled;
        self.samples = Vec::new();
    }
}

/// Milliseconds spanned by `n` samples at `rate` Hz, rounded down and capped.
pub fn recording_ms(n: usize, rate: u32) -> (r: u64)
    ensures
        r == duration_ms(n as nat, rate as nat),
{
    if rate == 0 {
        return 0;
    }
    let whole = (n as u64) / (rate as u64);
    let rest = (n as u64) % (rate as u64);
    proof {
        assert(whole * 1000 <= 0xffff_ffff_ffff_ffff * 1000) by (nonlinear_arith)
            requires whole <= 0xffff_ffff_ffff_ffff;
    }
    let ms_wide: u128 = whole as u128 * 1000 + (rest as u128 * 1000) / (rate as u128);
    proof {
        let nn = n as int;
        let rr = rate as int;
        assert(nn == whole * rr + rest) by (nonlinear_arith)
            requires whole == nn / rr, rest == nn % rr, rr > 0;
        assert(ms_wide == nn * 1000 / rr) by (nonlinear_arith)
            requires
                nn == whole * rr + rest,
                0 <= rest < rr,
                ms_wide == whole * 1000 + (rest * 1000) / rr,
                rr > 0;
    }
    if ms_wide > 0xffff_ffff_ffff_ffffu128 {
        0xffff_ffff_ffff_ffffu64
    } else {
        ms_wide as u64
    }
}

} // verus!

verus! {

#[verifier::external_type_specification]
#[verifier::external_body]
pub struct ExHoundError(hound::Error);

/// Little-endian bytes of a 16-bit value.
pub open spec fn le16(v: int) -> Seq<u8> {
    seq![(v % 256) as u8, ((v / 256) % 256) as u8]
}

/// Little-endian bytes of a 32-bit value.
pub open spec fn le32(v: int) -> Seq<u8> {
    seq![(v % 256) as u8, ((v / 256) % 256) as u8, ((v / 65536) % 256) as u8, ((v / 16777216) % 256) as u8]
}

/// The samples as two's-complement little-endian pairs of bytes.
pub open spec fn pcm_bytes(samples: Seq<i16>) -> Seq<u8>
    decreases samples.len(),
{
    if samples.len() == 0 {
        Seq::empty()
    } else {
        pcm_bytes(samples.drop_last()) + le16((samples.last() + 65536) % 65536)
    }
}

/// A mono 16-bit PCM WAVE file holding `samples` at `rate` Hz: the RIFF and
/// `fmt ` headers (44 bytes up to the data), then the samples.
pub open spec fn wav_bytes(samples: Seq<i16>, rate: u32) -> Seq<u8> {
    let data_len = 2 * samples.len() as int;
    seq![0x52u8, 0x49, 0x46, 0x46] + le32(36 + data_len) + seq![0x57u8, 0x41, 0x56, 0x45]
        + seq![0x66u8, 0x6d, 0x74, 0x20] + le32(16) + le16(1) + le16(1) + le32(rate as int)
        + le32(2 * rate) + le16(2) + le16(16) + seq![0x64u8, 0x61, 0x74, 0x61] + le32(data_len)
        + pcm_bytes(samples)
}

/// Relies on hound's `WavWriter` (mono, 16-bit integer PCM) writing into an
/// in-memory cursor: the PCM header, then each sample as two little-endian
/// bytes. Writing to memory has no error path for this format; the rate must
/// be non-zero and its byte rate must fit in 32 bits.
#[verifier::external_body]
fn write_wav(samples: &Vec<i16>, rate: u32) -> (r: Result<Vec<u8>, hound::Error>)
    requires
        2 * samples@.len() + 36 <= u32::MAX,
        rate > 0,
        rate <= 0x7fff_ffff,
    ensures
        r is Ok,
        r matches Ok(b) ==> b@ == wav_bytes(samples@, rate) && b@.len() == 44 + 2 * samples@.len(),
{
    let spec = hound::WavSpec { channels: 1, sample_rate: rate, bits_per_sample: 16, sample_format: hound::SampleFormat::Int };
    let mut cursor = std::io::Cursor::new(Vec::new());
    {
        let mut writer = hound::WavWriter::new(&mut cursor, spec)?;
        for s in samples.iter() {
            writer.write_sample(*s)?;
        }
        writer.finalize()?;
    }
    Ok(cursor.into_inner())
}

/// Encodes a finished recording as a WAVE container for storage or upload.
/// A rate of zero, or one whose byte rate overflows 32 bits, cannot be
/// written and is refused as an unsupported format.
pub fn encode_recording(samples: &Vec<i16>, rate: u32) -> (r: Result<Vec<u8>, CaptureError>)
    requires
        2 * samples@.len() + 36 <= u32::MAX,
    ensures
        0 < rate <= 0x7fff_ffff ==> (r matches Ok(b) && b@ == wav_bytes(samples@, rate) && b@.len() == 44
            + 2 * samples@.len()),
        !(0 < rate <= 0x7fff_ffff) ==> r == Err::<Vec<u8>, CaptureError>(CaptureError::UnsupportedFormat),
{
    if rate == 0 || rate > 0x7fff_ffff {
        return Err(CaptureError::UnsupportedFormat);
    }
    match write_wav(samples, rate) {
        Ok(bytes) => Ok(bytes),
        Err(_) => Err(CaptureError::UnsupportedFormat),
    }
}

} // verus!
