//! Voice-activity segmentation: an energy detector fed window by window over
//! the waveform followed by a stretch of silence, with a whole-waveform
//! fallback when nothing is detected.

use vstd::prelude::*;

verus! {

/// Tunable thresholds of the detector. Durations are counted in windows.
#[derive(Clone, Copy, Debug)]
pub struct VadConfig {
    /// Samples per analysis window.
    pub window_size: usize,
    /// A window is speech when its mean absolute amplitude reaches this.
    pub threshold: u32,
    /// Silent windows that end a speech region.
    pub min_silence_windows: usize,
    /// Shorter regions are dropped.
    pub min_speech_windows: usize,
    /// Longer regions are split.
    pub max_speech_windows: usize,
    /// Windows of silence fed after the waveform to close a trailing region.
    pub pad_windows: usize,
}

impl VadConfig {
    /// Settings the detector accepts. The upper bounds are arithmetic limits,
    /// not tuning advice: they keep window sums and region lengths within
    /// 32-bit positions on every target (4096-sample windows hold 256 ms at
    /// 16 kHz, and 65536 windows are about 35 minutes).
    pub open spec fn wf(self) -> bool {
        &&& 1 <= self.window_size <= 4096
        &&& 1 <= self.min_silence_windows <= 65536
        &&& self.min_speech_windows <= self.max_speech_windows
        &&& 1 <= self.max_speech_windows <= 65536
        &&& self.pad_windows <= 65536
    }

    pub open spec fn min_len(self) -> int {
        self.min_speech_windows * self.window_size
    }

    pub open spec fn max_len(self) -> int {
        self.max_speech_windows * self.window_size
    }

    pub open spec fn pad_len(self) -> int {
        self.pad_windows * self.window_size
    }
}

impl Default for VadConfig {
    /// Settings for 16 kHz input: 32 ms windows, a threshold near -40 dBFS,
    /// 256 ms of silence to split, regions of 256 ms to 20 s, and 3 s of
    /// trailing silence.
    fn default() -> (r: VadConfig)
        ensures
            r.wf(),
            r.window_size == 512,
            r.threshold == 300,
            r.min_silence_windows == 8,
            r.min_speech_windows == 8,
            r.max_speech_windows == 625,
            r.pad_windows == 94,
    {
        VadConfig {
            window_size: 512,
            threshold: 300,
            min_silence_windows: 8,
            min_speech_windows: 8,
            max_speech_windows: 625,
            pad_windows: 94,
        }
    }
}

/// A contiguous stretch of the waveform believed to hold speech.
#[derive(Clone, Debug)]
pub struct SpeechSegment {
    pub start_sample: usize,
    pub samples: Vec<i16>,
}

/// The detector's state between windows: whether a region is open, where it
/// starts, where its last speech window ends, and the silent windows since.
#[derive(Clone, Copy, Debug, PartialEq, Eq, Structural)]
pub struct DetectorCore {
    pub in_speech: bool,
    pub start: usize,
    pub end: usize,
    pub silence: usize,
}

pub open spec fn idle_core() -> DetectorCore {
    DetectorCore { in_speech: false, start: 0, end: 0, silence: 0 }
}

/// The region an open core yields when it closes, if it is long enough.
pub open spec fn close_emit(c: DetectorCore, cfg: VadConfig) -> Option<(usize, usize)> {
    if c.end - c.start >= cfg.min_len() {
        Some((c.start, c.end))
    } else {
        None
    }
}

/// One window `[lo, hi)` of the detector.
pub open spec fn detector_step(c: DetectorCore, speech: bool, lo: usize, hi: usize, cfg: VadConfig) -> (
    DetectorCore,
    Option<(usize, usize)>,
) {
    if !c.in_speech {
        if speech {
            let opened = DetectorCore { in_speech: true, start: lo, end: hi, silence: 0 };
            if hi - lo >= cfg.max_len() {
                (idle_core(), close_emit(opened, cfg))
            } else {
                (opened, None)
            }
        } else {
            (c, None)
        }
    } else if speech {
        let grown = DetectorCore { end: hi, silence: 0, ..c };
        if hi - c.start >= cfg.max_len() {
            (idle_core(), close_emit(grown, cfg))
        } else {
            (grown, None)
        }
    } else if c.silence + 1 >= cfg.min_silence_windows {
        (idle_core(), close_emit(c, cfg))
    } else {
        (DetectorCore { silence: (c.silence + 1) as usize, ..c }, None)
    }
}

pub open spec fn padded_len(n: nat, cfg: VadConfig) -> nat {
    n + cfg.pad_len() as nat
}

pub open spec fn window_count(n: nat, cfg: VadConfig) -> nat {
    ((padded_len(n, cfg) + cfg.window_size - 1) / (cfg.window_size as int)) as nat
}

pub open spec fn window_lo(k: nat, cfg: VadConfig) -> nat {
    (k * cfg.window_size) as nat
}

pub open spec fn window_hi(n: nat, k: nat, cfg: VadConfig) -> nat {
    let h = ((k + 1) * cfg.window_size) as nat;
    if h < padded_len(n, cfg) { h } else { padded_len(n, cfg) }
}

/// Magnitude of padded sample `i`: the waveform, then silence.
pub open spec fn magnitude_at(x: Seq<i16>, i: int) -> int {
    if 0 <= i < x.len() {
        if x[i] < 0 { -x[i] } else { x[i] as int }
    } else {
        0
    }
}

pub open spec fn magnitude_sum(x: Seq<i16>, lo: int, hi: int) -> int
    decreases hi - lo,
{
    if hi <= lo {
        0
    } else {
        magnitude_sum(x, lo, hi - 1) + magnitude_at(x, hi - 1)
    }
}

pub open spec fn window_is_speech(x: Seq<i16>, k: nat, cfg: VadConfig) -> bool {
    let lo = window_lo(k, cfg);
    let hi = window_hi(x.len(), k, cfg);
    magnitude_sum(x, lo as int, hi as int) >= cfg.threshold * (hi - lo)
}

/// The detector after the first `k` windows, with every region it completed.
pub open spec fn run_detector(x: Seq<i16>, cfg: VadConfig, k: nat) -> (DetectorCore, Seq<(usize, usize)>)
    decreases k,
{
    if k == 0 {
        (idle_core(), Seq::empty())
    } else {
        let (c, rs) = run_detector(x, cfg, (k - 1) as nat);
        let (c2, e) = detector_step(
            c,
            window_is_speech(x, (k - 1) as nat, cfg),
            window_lo((k - 1) as nat, cfg) as usize,
            window_hi(x.len(), (k - 1) as nat, cfg) as usize,
            cfg,
        );
        (c2, match e {
            Some(r) => rs.push(r),
            None => rs,
        })
    }
}

/// Every region of the padded waveform, after the final flush.
pub open spec fn detected_regions(x: Seq<i16>, cfg: VadConfig) -> Seq<(usize, usize)> {
    let (c, rs) = run_detector(x, cfg, window_count(x.len(), cfg));
    if c.in_speech {
        match close_emit(c, cfg) {
            Some(r) => rs.push(r),
            None => rs,
        }
    } else {
        rs
    }
}

/// The regions cut to the waveform itself: those starting in the padding go.
pub open spec fn clipped(rs: Seq<(usize, usize)>, n: usize) -> Seq<(usize, usize)>
    decreases rs.len(),
{
    if rs.len() == 0 {
        Seq::empty()
    } else {
        let head = clipped(rs.drop_last(), n);
        let r = rs.last();
        if r.0 < n {
            head.push((r.0, if r.1 < n { r.1 } else { n }))
        } else {
            head
        }
    }
}

/// The segments as sample ranges: the detected regions, or the whole
/// waveform when there are none and the waveform is not empty.
pub open spec fn speech_ranges(x: Seq<i16>, cfg: VadConfig) -> Seq<(usize, usize)> {
    let c = clipped(detected_regions(x, cfg), x.len() as usize);
    if c.len() == 0 && x.len() > 0 {
        seq![(0usize, x.len() as usize)]
    } else {
        c
    }
}

/// Ranges are non-empty, inside `[0, bound]`, and each ends before the next starts.
pub open spec fn ranges_ordered(rs: Seq<(usize, usize)>, bound: int) -> bool {
    &&& forall|i: int| 0 <= i < rs.len() ==> (#[trigger] rs[i]).0 < rs[i].1 <= bound
    &&& forall|i: int| 0 <= i < rs.len() - 1 ==> #[trigger] rs[i].1 <= rs[i + 1].0
}

pub open spec fn core_ok(c: DetectorCore, rs: Seq<(usize, usize)>, pos: int, cfg: VadConfig) -> bool {
    &&& ranges_ordered(rs, pos)
    &&& c.in_speech ==> {
        &&& c.start < c.end <= pos
        &&& c.silence < cfg.min_silence_windows
        &&& c.end - c.start < cfg.max_len()
        &&& (rs.len() > 0 ==> rs.last().1 <= c.start)
    }
    &&& !c.in_speech ==> c == idle_core()
}

proof fn lemma_push_ordered(rs: Seq<(usize, usize)>, r: (usize, usize), bound: int, new_bound: int)
    requires
        ranges_ordered(rs, bound),
        r.0 < r.1 <= new_bound,
        bound <= new_bound,
        rs.len() > 0 ==> rs.last().1 <= r.0,
    ensures
        ranges_ordered(rs.push(r), new_bound),
{
    let s = rs.push(r);
    assert forall|i: int| 0 <= i < s.len() - 1 implies #[trigger] s[i].1 <= s[i + 1].0 by {
        if i < rs.len() - 1 {
            assert(s[i] == rs[i] && s[i + 1] == rs[i + 1]);
        }
    }
}

proof fn lemma_run_ordered(x: Seq<i16>, cfg: VadConfig, k: nat)
    requires
        cfg.wf(),
        padded_len(x.len(), cfg) <= usize::MAX,
        k <= window_count(x.len(), cfg),
    ensures
        ({
            let (c, rs) = run_detector(x, cfg, k);
            core_ok(c, rs, window_lo(k, cfg) as int, cfg)
        }),
    decreases k,
{
    let w = cfg.window_size as int;
    if k > 0 {
        let j = (k - 1) as nat;
        lemma_run_ordered(x, cfg, j);
        let (c, rs) = run_detector(x, cfg, j);
        let lo = window_lo(j, cfg);
        let hi = window_hi(x.len(), j, cfg);
        assert(core_ok(c, rs, lo as int, cfg));
        assert(ranges_ordered(rs, lo as int));
        assert(lo == j * w && window_lo(k, cfg) == j * w + w) by (nonlinear_arith)
            requires lo == j * w, window_lo(k, cfg) == k * w, k == j + 1;
        assert(lo < padded_len(x.len(), cfg)) by (nonlinear_arith)
            requires
                j < window_count(x.len(), cfg),
                window_count(x.len(), cfg) == (padded_len(x.len(), cfg) + w - 1) / w,
                lo == j * w,
                w >= 1;
        assert(lo < hi <= lo + w);
        let (c2, e) = detector_step(c, window_is_speech(x, j, cfg), lo as usize, hi as usize, cfg);
        let rs2 = match e {
            Some(r) => rs.push(r),
            None => rs,
        };
        assert(ranges_ordered(rs, window_lo(k, cfg) as int));
        if rs.len() > 0 {
            assert(rs[rs.len() - 1].0 < rs[rs.len() - 1].1 <= lo);
        }
        if let Some(r) = e {
            lemma_push_ordered(rs, r, lo as int, window_lo(k, cfg) as int);
        }
    }
}

/// The regions after the flush are ordered and lie within the padded waveform.
proof fn lemma_detected_ordered(x: Seq<i16>, cfg: VadConfig)
    requires
        cfg.wf(),
        padded_len(x.len(), cfg) <= usize::MAX,
    ensures
        ranges_ordered(detected_regions(x, cfg), window_lo(window_count(x.len(), cfg), cfg) as int),
{
    let k = window_count(x.len(), cfg);
    lemma_run_ordered(x, cfg, k);
    let (c, rs) = run_detector(x, cfg, k);
    if c.in_speech {
        if let Some(r) = close_emit(c, cfg) {
            lemma_push_ordered(rs, r, window_lo(k, cfg) as int, window_lo(k, cfg) as int);
        }
    }
}

proof fn lemma_clipped_ordered(rs: Seq<(usize, usize)>, bound: int, n: usize)
    requires
        ranges_ordered(rs, bound),
    ensures
        ranges_ordered(clipped(rs, n), n as int),
        n == 0 ==> clipped(rs, n).len() == 0,
    decreases rs.len(),
{
    if rs.len() > 0 {
        let init = rs.drop_last();
        assert(ranges_ordered(init, bound)) by {
            assert forall|i: int| 0 <= i < init.len() - 1 implies #[trigger] init[i].1 <= init[i + 1].0 by {
                assert(rs[i].1 <= rs[i + 1].0);
            }
            assert forall|i: int| 0 <= i < init.len() implies (#[trigger] init[i]).0 < init[i].1 <= bound by {
                assert(rs[i].0 < rs[i].1);
            }
        }
        lemma_clipped_ordered(init, bound, n);
        let head = clipped(init, n);
        let r = rs.last();
        if r.0 < n {
            if head.len() > 0 {
                assert(init.len() > 0);
                assert(init.last().1 <= r.0) by {
                    assert(rs[rs.len() - 2].1 <= rs[rs.len() - 1].0);
                }
            }
            lemma_push_ordered(head, (r.0, if r.1 < n { r.1 } else { n }), n as int, n as int);
        }
    }
}

/// Segment ranges are non-empty, ordered by start, never overlap, and lie
/// within the waveform; a non-empty waveform always yields at least one.
pub proof fn lemma_speech_ranges_ordered(x: Seq<i16>, cfg: VadConfig)
    requires
        cfg.wf(),
        padded_len(x.len(), cfg) <= usize::MAX,
    ensures
        ranges_ordered(speech_ranges(x, cfg), x.len() as int),
        x.len() > 0 ==> speech_ranges(x, cfg).len() >= 1,
        x.len() == 0 ==> speech_ranges(x, cfg).len() == 0,
{
    lemma_detected_ordered(x, cfg);
    let d = detected_regions(x, cfg);
    lemma_clipped_ordered(d, window_lo(window_count(x.len(), cfg), cfg) as int, x.len() as usize);
    let c = clipped(d, x.len() as usize);
    if x.len() == 0 {
    }
}

/// The streaming detector: its core state, the regions it completed that were
/// not taken yet, and its configuration.
pub struct SpeechDetector {
    pub core: DetectorCore,
    pub pending: Vec<(usize, usize)>,
    pub config: VadConfig,
}

impl SpeechDetector {
    /// A detector with no open region and nothing pending.
    pub fn new(config: VadConfig) -> (r: SpeechDetector)
        requires
            config.wf(),
        ensures
            r.core == idle_core(),
            r.pending@.len() == 0,
            r.config == config,
    {
        SpeechDetector {
            core: DetectorCore { in_speech: false, start: 0, end: 0, silence: 0 },
            pending: Vec::new(),
            config,
        }
    }

    fn close(&mut self)
        requires
            old(self).config.wf(),
            old(self).core.in_speech ==> old(self).core.start <= old(self).core.end,
        ensures
            final(self).core == idle_core(),
            final(self).config == old(self).config,
            final(self).pending@ == (match close_emit(old(self).core, old(self).config) {
                Some(r) => old(self).pending@.push(r),
                None => old(self).pending@,
            }),
    {
        let c = self.core;
        assert(self.config.min_speech_windows as u64 * self.config.window_size as u64 <= 65536 * 4096) by (nonlinear_arith)
            requires self.config.min_speech_windows <= 65536, self.config.window_size <= 4096;
        let min_len = self.config.min_speech_windows as u64 * self.config.window_size as u64;
        if c.end >= c.start && (c.end - c.start) as u64 >= min_len {
            self.pending.push((c.start, c.end));
        }
        self.core = DetectorCore { in_speech: false, start: 0, end: 0, silence: 0 };
    }

    /// Feeds one window `[lo, hi)`, judged speech or not.
    pub fn accept_window(&mut self, speech: bool, lo: usize, hi: usize)
        requires
            old(self).config.wf(),
            lo < hi,
            old(self).core.in_speech ==> {
                &&& old(self).core.start < old(self).core.end <= lo
                &&& old(self).core.silence < old(self).config.min_silence_windows
            },
        ensures
            final(self).config == old(self).config,
            ({
                let (c2, e) = detector_step(old(self).core, speech, lo, hi, old(self).config);
                &&& final(self).core == c2
                &&& final(self).pending@ == (match e {
                    Some(r) => old(self).pending@.push(r),
                    None => old(self).pending@,
                })
            }),
    {
        assert(self.config.max_speech_windows as u64 * self.config.window_size as u64 <= 65536 * 4096) by (nonlinear_arith)
            requires self.config.max_speech_windows <= 65536, self.config.window_size <= 4096;
        let max_len = self.config.max_speech_windows as u64 * self.config.window_size as u64;
        if !self.core.in_speech {
            if speech {
                self.core = DetectorCore { in_speech: true, start: lo, end: hi, silence: 0 };
                if (hi - lo) as u64 >= max_len {
                    self.close();
                }
            }
        } else if speech {
            self.core.end = hi;
            self.core.silence = 0;
            if (hi - self.core.start) as u64 >= max_len {
                self.close();
            }
        } else if self.core.silence + 1 >= self.config.min_silence_windows {
            self.close();
        } else {
            self.core.silence = self.core.silence + 1;
        }
    }

    /// Whether a speech region is open.
    pub fn is_speech(&self) -> (r: bool)
        ensures
            r == self.core.in_speech,
    {
        self.core.in_speech
    }

    /// Closes the open region, if any, at the end of the stream.
    pub fn flush(&mut self)
        requires
            old(self).config.wf(),
            old(self).core.in_speech ==> old(self).core.start <= old(self).core.end,
        ensures
            final(self).config == old(self).config,
            !final(self).core.in_speech,
            final(self).pending@ == (if old(self).core.in_speech {
                match close_emit(old(self).core, old(self).config) {
                    Some(r) => old(self).pending@.push(r),
                    None => old(self).pending@,
                }
            } else {
                old(self).pending@
            }),
    {
        if self.core.in_speech {
            self.close();
        }
    }

    /// Moves every completed region onto the end of `out`, oldest first.
    pub fn drain_into(&mut self, out: &mut Vec<(usize, usize)>)
        ensures
            final(self).core == old(self).core,
            final(self).config == old(self).config,
            final(self).pending@.len() == 0,
            final(out)@ == old(out)@ + old(self).pending@,
    {
        out.append(&mut self.pending);
    }
}

/// Whether the padded window `[lo, hi)` is speech.
fn window_speech(x: &Vec<i16>, lo: usize, hi: usize, threshold: u32) -> (r: bool)
    requires
        lo <= hi,
        hi - lo <= 4096,
    ensures
        r == (magnitude_sum(x@, lo as int, hi as int) >= threshold * (hi - lo)),
{
    let n = x.len();
    let mut sum: u64 = 0;
    let mut i: usize = lo;
    while i < hi
        invariant
            n == x@.len(),
            lo <= i <= hi,
            hi - lo <= 4096,
            sum == magnitude_sum(x@, lo as int, i as int),
            sum <= 32768 * (i - lo),
        decreases hi - i,
    {
        let m: u64 = if i < n {
            let v = x[i];
            if v < 0 { (-(v as i32)) as u64 } else { v as u64 }
        } else {
            0
        };
        sum = sum + m;
        i = i + 1;
    }
    proof {
        let t = threshold as int;
        let d = (hi - lo) as int;
        assert(t * d <= 0xffff_ffff * 4096) by (nonlinear_arith)
            requires 0 <= t <= 0xffff_ffff, 0 <= d <= 4096;
    }
    sum >= threshold as u64 * (hi - lo) as u64
}

/// Copies `x[lo..hi)`.
fn copy_range(x: &Vec<i16>, lo: usize, hi: usize) -> (r: Vec<i16>)
    requires
        lo <= hi <= x@.len(),
    ensures
        r@ == x@.subrange(lo as int, hi as int),
{
    let mut out: Vec<i16> = Vec::new();
    let mut i: usize = lo;
    while i < hi
        invariant
            lo <= i <= hi <= x@.len(),
            out@ == x@.subrange(lo as int, i as int),
        decreases hi - i,
    {
        out.push(x[i]);
        i = i + 1;
        assert(out@ =~= x@.subrange(lo as int, i as int));
    }
    out
}

/// Splits a waveform into speech segments. The waveform is fed window by
/// window to the detector, followed by the configured stretch of silence;
/// completed regions are taken after each speech window and once more after
/// the final flush. With no region found, a non-empty waveform comes back
/// whole as one segment.
pub fn segment_speech(samples: &Vec<i16>, config: &VadConfig) -> (r: Vec<SpeechSegment>)
    requires
        config.wf(),
        padded_len(samples@.len(), *config) <= usize::MAX,
    ensures
        r@.len() == speech_ranges(samples@, *config).len(),
        forall|i: int|
            0 <= i < r@.len() ==> {
                let range = #[trigger] speech_ranges(samples@, *config)[i];
                &&& r@[i].start_sample == range.0
                &&& r@[i].samples@ == samples@.subrange(range.0 as int, range.1 as int)
            },
        forall|i: int| 0 <= i < r@.len() ==> (#[trigger] r@[i]).samples@.len() > 0,
        forall|i: int|
            0 <= i < r@.len() - 1 ==> (#[trigger] r@[i]).start_sample + r@[i].samples@.len()
                <= r@[i + 1].start_sample,
        samples@.len() > 0 ==> r@.len() >= 1,
        samples@.len() == 0 ==> r@.len() == 0,
{
    let ghost x = samples@;
    let ghost cfg = *config;
    let n = samples.len();
    let w = config.window_size;
    proof {
        assert(config.pad_windows * w <= 65536 * 4096) by (nonlinear_arith)
            requires config.pad_windows <= 65536, 1 <= w <= 4096;
    }
    let total = n + config.pad_windows * w;
    proof {
        if total > 0 {
            assert((total - 1) / (w as int) + 1 <= total) by (nonlinear_arith)
                requires total >= 1, w >= 1;
        }
    }
    let nw = if total > 0 { (total - 1) / w + 1 } else { 0 };
    proof {
        assert(nw == window_count(x.len(), cfg)) by (nonlinear_arith)
            requires
                total > 0 ==> nw == (total - 1) / (w as int) + 1,
                total == 0 ==> nw == 0,
                total == padded_len(x.len(), cfg),
                w == cfg.window_size,
                w >= 1,
                window_count(x.len(), cfg) == (padded_len(x.len(), cfg) + w - 1) / (w as int);
    }
    let mut det = SpeechDetector::new(*config);
    let mut regions: Vec<(usize, usize)> = Vec::new();
    let mut k: usize = 0;
    while k < nw
        invariant
            cfg == *config,
            cfg.wf(),
            x == samples@,
            n == x.len(),
            w == cfg.window_size,
            total == padded_len(n as nat, cfg),
            total <= usize::MAX,
            nw == window_count(n as nat, cfg),
            k <= nw,
            det.config == cfg,
            run_detector(x, cfg, k as nat) == (det.core, regions@ + det.pending@),
        decreases nw - k,
    {
        proof {
            lemma_run_ordered(x, cfg, k as nat);
            assert((k as int) * w < total) by (nonlinear_arith)
                requires
                    k < nw,
                    nw == (total + w - 1) / (w as int),
                    w >= 1;
            assert(((k + 1) as int) * w == (k as int) * w + w) by (nonlinear_arith);
        }
        let lo = k * w;
        let hi = if total - lo > w { lo + w } else { total };
        let speech = window_speech(samples, lo, hi, config.threshold);
        proof {
            assert(lo == window_lo(k as nat, cfg));
            assert(hi == window_hi(n as nat, k as nat, cfg));
            assert(speech == window_is_speech(x, k as nat, cfg));
        }
        let ghost before = regions@ + det.pending@;
        det.accept_window(speech, lo, hi);
        proof {
            let (c2, e) = detector_step(run_detector(x, cfg, k as nat).0, speech, lo, hi, cfg);
            match e {
                Some(r) => { assert(regions@ + det.pending@ =~= before.push(r)); },
                None => { assert(regions@ + det.pending@ =~= before); },
            }
        }
        if det.is_speech() {
            let ghost all = regions@ + det.pending@;
            det.drain_into(&mut regions);
            assert(regions@ + det.pending@ =~= all);
        }
        k = k + 1;
    }
    proof {
        lemma_run_ordered(x, cfg, nw as nat);
    }
    let ghost all = regions@ + det.pending@;
    det.flush();
    det.drain_into(&mut regions);
    proof {
        let (c, rs) = run_detector(x, cfg, nw as nat);
        if c.in_speech {
            match close_emit(c, cfg) {
                Some(r) => { assert(regions@ =~= all.push(r)); },
                None => { assert(regions@ =~= all); },
            }
        } else {
            assert(regions@ =~= all);
        }
        assert(regions@ == detected_regions(x, cfg));
        lemma_detected_ordered(x, cfg);
        lemma_speech_ranges_ordered(x, cfg);
    }
    let ghost bound = window_lo(window_count(x.len(), cfg), cfg) as int;
    let mut segments: Vec<SpeechSegment> = Vec::new();
    let mut j: usize = 0;
    let rn = regions.len();
    while j < rn
        invariant
            x == samples@,
            n == x.len(),
            rn == regions@.len(),
            j <= rn,
            ranges_ordered(regions@, bound),
            segments@.len() == clipped(regions@.subrange(0, j as int), n).len(),
            forall|i: int|
                0 <= i < segments@.len() ==> {
                    let range = #[trigger] clipped(regions@.subrange(0, j as int), n)[i];
                    &&& segments@[i].start_sample == range.0
                    &&& segments@[i].samples@ == x.subrange(range.0 as int, range.1 as int)
                },
        decreases rn - j,
    {
        let ghost prefix = regions@.subrange(0, j as int);
        let ghost next = regions@.subrange(0, j + 1);
        proof {
            assert(next.drop_last() =~= prefix);
            assert(next.last() == regions@[j as int]);
        }
        let (s, e) = regions[j];
        if s < n {
            proof {
                assert(regions@[j as int].0 < regions@[j as int].1);
            }
            let end = if e < n { e } else { n };
            let piece = copy_range(samples, s, end);
            segments.push(SpeechSegment { start_sample: s, samples: piece });
        }
        j = j + 1;
    }
    proof {
        assert(regions@.subrange(0, rn as int) =~= regions@);
    }
    if segments.len() == 0 && n > 0 {
        let whole = copy_range(samples, 0, n);
        segments.push(SpeechSegment { start_sample: 0, samples: whole });
        proof {
            assert(whole@ =~= x);
        }
    }
    proof {
        let sr = speech_ranges(x, cfg);
        assert(sr.len() == segments@.len());
        assert forall|i: int| 0 <= i < segments@.len() implies (#[trigger] segments@[i]).samples@.len() > 0 by {
            assert(sr[i].0 < sr[i].1);
        }
        assert forall|i: int| 0 <= i < segments@.len() - 1 implies (#[trigger] segments@[i]).start_sample
            + segments@[i].samples@.len() <= segments@[i + 1].start_sample by {
            assert(sr[i].0 < sr[i].1);
            assert(sr[i].1 <= sr[i + 1].0);
        }
    }
    segments
}

} // verus!
