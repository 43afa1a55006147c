//! Linear-interpolation resampling of mono 16-bit signals.

use vstd::prelude::*;
use vstd::arithmetic::div_mod::{lemma_div_is_ordered, lemma_fundamental_div_mod, lemma_fundamental_div_mod_converse, lemma_mod_bound};

verus! {

/// The rate every recognizer backend expects, in Hz.
pub const TARGET_SAMPLE_RATE: u32 = 16_000;

/// Number of output samples: `ceil(n * dst / src)`, or `n` itself when there is
/// nothing to convert. A zero source rate carries no timing and yields nothing.
pub open spec fn resampled_len(n: nat, src: nat, dst: nat) -> nat {
    if n == 0 || src == dst {
        n
    } else if src == 0 {
        0
    } else {
        ((n * dst + src - 1) / (src as int)) as nat
    }
}

/// Linear interpolation between `a` and `b` at fraction `rem / den`, computed on
/// the offset-binary values so that the division always rounds down.
pub open spec fn lerp(a: i16, b: i16, rem: nat, den: nat) -> int {
    ((a + 32768) * (den - rem) + (b + 32768) * rem) / (den as int) - 32768
}

/// Output sample `i`: the source position is `i * src / dst`; it falls between
/// source samples `base` and `base + 1` (the last sample repeats at the end).
pub open spec fn resampled_at(x: Seq<i16>, src: nat, dst: nat, i: nat) -> i16 {
    let pos = i * src;
    let base = pos / dst;
    let rem = pos % dst;
    let cur = x[base as int];
    let next = if base + 1 < x.len() { x[base + 1int] } else { cur };
    lerp(cur, next, rem as nat, dst) as i16
}

/// The whole resampled signal.
pub open spec fn resampled(x: Seq<i16>, src: nat, dst: nat) -> Seq<i16> {
    if x.len() == 0 || src == dst {
        x
    } else if src == 0 {
        Seq::empty()
    } else {
        Seq::new(resampled_len(x.len(), src, dst), |i: int| resampled_at(x, src, dst, i as nat))
    }
}

proof fn lemma_lerp_bounds(a: i16, b: i16, rem: nat, den: nat)
    requires
        rem < den,
    ensures
        a <= b ==> a <= lerp(a, b, rem, den) <= b,
        b <= a ==> b <= lerp(a, b, rem, den) <= a,
        rem == 0 ==> lerp(a, b, rem, den) == a,
{
    let ua = a + 32768;
    let ub = b + 32768;
    let d = den as int;
    let r = rem as int;
    let num = ua * (d - r) + ub * r;
    assert(ua >= 0 && ub >= 0);
    if ua <= ub {
        assert(ua * d <= num) by (nonlinear_arith)
            requires ua <= ub, 0 <= r < d, num == ua * (d - r) + ub * r;
        assert(num <= ub * d) by (nonlinear_arith)
            requires ua <= ub, 0 <= r < d, num == ua * (d - r) + ub * r;
    } else {
        assert(ub * d <= num) by (nonlinear_arith)
            requires ub <= ua, 0 <= r < d, num == ua * (d - r) + ub * r;
        assert(num <= ua * d) by (nonlinear_arith)
            requires ub <= ua, 0 <= r < d, num == ua * (d - r) + ub * r;
    }
    assert(ua * d / d == ua) by (nonlinear_arith)
        requires d > 0;
    assert(ub * d / d == ub) by (nonlinear_arith)
        requires d > 0;
    if ua <= ub {
        assert(ua <= num / d <= ub) by (nonlinear_arith)
            requires d > 0, ua * d <= num, num <= ub * d, ua * d / d == ua, ub * d / d == ub;
    } else {
        assert(ub <= num / d <= ua) by (nonlinear_arith)
            requires d > 0, ub * d <= num, num <= ua * d, ua * d / d == ua, ub * d / d == ub;
    }
}

/// The interpolated value always lies between its two neighbours, so the cast
/// to `i16` in `resampled_at` keeps it exactly.
pub proof fn lemma_resampled_at_between(x: Seq<i16>, src: nat, dst: nat, i: nat)
    requires
        dst > 0,
        (i * src) / dst < x.len(),
    ensures
        ({
            let base = (i * src) / dst;
            let cur = x[base as int];
            let next = if base + 1 < x.len() { x[base + 1int] } else { cur };
            let v = lerp(cur, next, ((i * src) % dst) as nat, dst);
            &&& cur <= next ==> cur <= v <= next
            &&& next <= cur ==> next <= v <= cur
            &&& (i * src) % dst == 0 ==> v == cur
            &&& resampled_at(x, src, dst, i) == v
        }),
{
    let base = (i * src) / dst;
    let cur = x[base as int];
    let next = if base + 1 < x.len() { x[base + 1int] } else { cur };
    lemma_lerp_bounds(cur, next, ((i * src) % dst) as nat, dst);
}

/// Upsampling by a whole factor and resampling back to the original rate gives
/// the input back exactly: every original sample sits on an output grid point.
pub proof fn lemma_integer_upsample_round_trip(x: Seq<i16>, rate: nat, factor: nat)
    requires
        rate > 0,
        factor >= 1,
    ensures
        resampled(resampled(x, rate, rate * factor), rate * factor, rate) == x,
{
    let n = x.len();
    let hi = rate * factor;
    if factor == 1 {
        assert(hi == rate) by (nonlinear_arith)
            requires hi == rate * factor, factor == 1;
        return;
    }
    if n == 0 {
        return;
    }
    assert(hi > rate) by (nonlinear_arith)
        requires rate > 0, factor > 1, hi == rate * factor;
    let z = resampled(x, rate, hi);
    assert(resampled_len(n, rate, hi) == n * factor) by (nonlinear_arith)
        requires rate > 0, hi == rate * factor, n > 0,
            resampled_len(n, rate, hi) == ((n * hi + rate - 1) / (rate as int)) as nat;
    assert(z.len() == n * factor);
    assert(z.len() > 0) by (nonlinear_arith)
        requires z.len() == n * factor, n > 0, factor > 1;
    assert(resampled_len(z.len(), hi, rate) == n) by (nonlinear_arith)
        requires rate > 0, hi == rate * factor, factor > 1, z.len() == n * factor, n > 0,
            resampled_len(z.len(), hi, rate) == ((z.len() * rate + hi - 1) / (hi as int)) as nat;
    let y = resampled(z, hi, rate);
    assert(y.len() == n);
    assert forall|j: int| 0 <= j < n implies y[j] == x[j] by {
        let jk = (j * factor) as nat;
        assert(0 <= j * factor < n * factor) by (nonlinear_arith)
            requires 0 <= j < n, factor >= 1;
        assert(jk * rate == j * hi) by (nonlinear_arith)
            requires jk == j * factor, hi == rate * factor;
        lemma_fundamental_div_mod_converse((jk * rate) as int, hi as int, j, 0);
        lemma_resampled_at_between(x, rate, hi, jk);
        assert(resampled_at(x, rate, hi, jk) == x[j]);
        assert(z[jk as int] == resampled_at(x, rate, hi, jk));
        assert(((j as nat) * hi) / rate == jk && ((j as nat) * hi) % rate == 0) by (nonlinear_arith)
            requires jk == j * factor, hi == rate * factor, rate > 0, j >= 0;
        lemma_resampled_at_between(z, hi, rate, j as nat);
    }
    assert(y =~= x);
}

proof fn lemma_floor(x: int, d: int)
    requires
        d > 0,
    ensures
        d * (x / d) <= x < d * (x / d) + d,
        x % d == x - d * (x / d),
{
    lemma_fundamental_div_mod(x, d);
    lemma_mod_bound(x, d);
}

/// `v` lies between two samples of `x` taken at positions `j - 1` to `j + 1`.
pub open spec fn near_samples(v: int, x: Seq<i16>, j: int) -> bool {
    exists|a: int, b: int|
        j - 1 <= a <= j + 1 && j - 1 <= b <= j + 1 && 0 <= a < x.len() && 0 <= b < x.len()
            && #[trigger] x[a] <= v <= #[trigger] x[b]
}

proof fn lemma_between_near(v: int, p: int, q: int, x: Seq<i16>, j: int)
    requires
        near_samples(p, x, j),
        near_samples(q, x, j),
        (p <= v <= q) || (q <= v <= p),
    ensures
        near_samples(v, x, j),
{
    let (a1, b1) = choose|a: int, b: int|
        j - 1 <= a <= j + 1 && j - 1 <= b <= j + 1 && 0 <= a < x.len() && 0 <= b < x.len()
            && #[trigger] x[a] <= p <= #[trigger] x[b];
    let (a2, b2) = choose|a: int, b: int|
        j - 1 <= a <= j + 1 && j - 1 <= b <= j + 1 && 0 <= a < x.len() && 0 <= b < x.len()
            && #[trigger] x[a] <= q <= #[trigger] x[b];
    if p <= v <= q {
        assert(x[a1] <= v <= x[b2]);
    } else {
        assert(x[a2] <= v <= x[b1]);
    }
}

/// Sample `m` of `resampled(x, src, dst)` lies between samples of `x` near
/// position `j`, when the source position of `m` falls in `[j - 1, j + 1]`,
/// touching `j + 1` only exactly.
proof fn lemma_stage_near(x: Seq<i16>, src: nat, dst: nat, m: nat, j: int)
    requires
        src > 0,
        dst > 0,
        (m * src) / dst < x.len(),
        j - 1 <= (m * src) / dst <= j + 1,
        (m * src) / dst == j + 1 ==> (m * src) % dst == 0,
    ensures
        near_samples(resampled_at(x, src, dst, m) as int, x, j),
{
    let c = ((m * src) / dst) as int;
    lemma_resampled_at_between(x, src, dst, m);
    let v = resampled_at(x, src, dst, m) as int;
    if (m * src) % dst == 0 || c + 1 >= x.len() {
        assert(x[c] <= v <= x[c]);
    } else {
        assert(c <= j);
        if x[c] <= x[c + 1] {
            assert(x[c] <= v <= x[c + 1]);
        } else {
            assert(x[c + 1] <= v <= x[c]);
        }
    }
}

/// Raising the rate and lowering it back loses no sample (it may add one at
/// the end), and each of the first `x.len()` samples of the result lies
/// within the range of the original samples at the same position and its two
/// neighbours: the round trip moves a sample no further than interpolation
/// between its neighbours can.
pub proof fn lemma_round_trip_near(x: Seq<i16>, low: nat, high: nat)
    requires
        0 < low <= high,
    ensures
        resampled(resampled(x, low, high), high, low).len() >= x.len(),
        forall|j: int|
            0 <= j < x.len() ==> near_samples(
                #[trigger] resampled(resampled(x, low, high), high, low)[j] as int,
                x,
                j,
            ),
{
    let n = x.len() as int;
    let lo = low as int;
    let hi = high as int;
    let z = resampled(x, low, high);
    let y = resampled(z, high, low);
    if n == 0 {
        return;
    }
    if low == high {
        assert forall|j: int| 0 <= j < n implies near_samples(#[trigger] y[j] as int, x, j) by {
            assert(x[j] <= y[j] <= x[j]);
        }
        return;
    }
    let q = z.len() as int;
    assert(q == (n * hi + lo - 1) / lo);
    lemma_floor(n * hi + lo - 1, lo);
    assert(q * lo >= n * hi) by (nonlinear_arith)
        requires lo * q > n * hi + lo - 1 - lo, lo > 0;
    assert(q >= 1) by (nonlinear_arith)
        requires q * lo >= n * hi, n >= 1, hi >= 1, lo >= 1;
    assert(y.len() == (q * lo + hi - 1) / hi);
    lemma_floor(q * lo + hi - 1, hi);
    assert(y.len() >= n) by (nonlinear_arith)
        requires
            hi * (y.len() as int) + hi > q * lo + hi - 1,
            q * lo >= n * hi,
            hi > 0;
    assert forall|j: int| 0 <= j < n implies near_samples(#[trigger] y[j] as int, x, j) by {
        let b = (j * hi) / lo;
        let rem = (j * hi) % lo;
        lemma_floor(j * hi, lo);
        assert(b * lo <= j * hi < b * lo + lo) by (nonlinear_arith)
            requires lo * b <= j * hi < lo * b + lo;
        assert(b >= 0) by (nonlinear_arith)
            requires b * lo <= j * hi, j * hi < b * lo + lo, j >= 0, hi > 0, lo > 0;
        assert(j * hi < n * hi) by (nonlinear_arith)
            requires j < n, hi > 0;
        assert(b < q) by (nonlinear_arith)
            requires b * lo < q * lo, lo > 0;
        let cb = (b * lo) / hi;
        lemma_floor(b * lo, hi);
        assert(j - 1 <= cb <= j) by (nonlinear_arith)
            requires hi * cb <= b * lo < hi * cb + hi, b * lo <= j * hi, j * hi < b * lo + lo, 0 < lo <= hi;
        assert(cb < n);
        lemma_stage_near(x, low, high, b as nat, j);
        assert(z[b] == resampled_at(x, low, high, b as nat));
        lemma_resampled_at_between(z, high, low, j as nat);
        if rem == 0 || b + 1 >= q {
            assert(y[j] == z[b]);
        } else {
            let c2 = ((b + 1) * lo) / hi;
            let rem2 = ((b + 1) * lo) % hi;
            lemma_floor((b + 1) * lo, hi);
            assert((b + 1) * lo == b * lo + lo) by (nonlinear_arith);
            assert((j + 1) * hi == j * hi + hi) by (nonlinear_arith);
            lemma_div_is_ordered(b * lo, (b + 1) * lo, hi);
            assert((b + 1) * lo <= (j + 1) * hi);
            lemma_div_is_ordered((b + 1) * lo, (j + 1) * hi, hi);
            lemma_fundamental_div_mod_converse((j + 1) * hi, hi, j + 1, 0);
            assert(cb <= c2 <= j + 1);
            assert(c2 == j + 1 ==> rem2 == 0) by (nonlinear_arith)
                requires
                    rem2 == (b + 1) * lo - hi * c2,
                    (b + 1) * lo <= (j + 1) * hi,
                    rem2 >= 0;
            lemma_floor(n * hi + lo - 1, lo);
            assert(c2 < n) by (nonlinear_arith)
                requires
                    hi * c2 <= (b + 1) * lo,
                    b + 1 < q,
                    lo * q <= n * hi + lo - 1,
                    0 < lo <= hi;
            lemma_stage_near(x, low, high, (b + 1) as nat, j);
            assert(z[b + 1] == resampled_at(x, low, high, (b + 1) as nat));
            lemma_between_near(y[j] as int, z[b] as int, z[b + 1] as int, x, j);
        }
    }
}

/// `v` lies between two samples of `x` taken within `radius` of position `j`.
pub open spec fn within_samples(v: int, x: Seq<i16>, j: int, radius: int) -> bool {
    exists|a: int, b: int|
        j - radius <= a <= j + radius && j - radius <= b <= j + radius && 0 <= a < x.len() && 0 <= b < x.len()
            && #[trigger] x[a] <= v <= #[trigger] x[b]
}

proof fn lemma_between_within(v: int, p: int, q: int, x: Seq<i16>, j: int, radius: int)
    requires
        within_samples(p, x, j, radius),
        within_samples(q, x, j, radius),
        (p <= v <= q) || (q <= v <= p),
    ensures
        within_samples(v, x, j, radius),
{
    let (a1, b1) = choose|a: int, b: int|
        j - radius <= a <= j + radius && j - radius <= b <= j + radius && 0 <= a < x.len() && 0 <= b < x.len()
            && #[trigger] x[a] <= p <= #[trigger] x[b];
    let (a2, b2) = choose|a: int, b: int|
        j - radius <= a <= j + radius && j - radius <= b <= j + radius && 0 <= a < x.len() && 0 <= b < x.len()
            && #[trigger] x[a] <= q <= #[trigger] x[b];
    if p <= v <= q {
        assert(x[a1] <= v <= x[b2]);
    } else {
        assert(x[a2] <= v <= x[b1]);
    }
}

proof fn lemma_stage_within(x: Seq<i16>, src: nat, dst: nat, m: nat, j: int, radius: int)
    requires
        src > 0,
        dst > 0,
        (m * src) / dst < x.len(),
        j - radius <= (m * src) / dst <= j + radius,
        (m * src) % dst != 0 ==> (m * src) / dst + 1 <= j + radius,
    ensures
        within_samples(resampled_at(x, src, dst, m) as int, x, j, radius),
{
    let c = ((m * src) / dst) as int;
    lemma_resampled_at_between(x, src, dst, m);
    let v = resampled_at(x, src, dst, m) as int;
    if (m * src) % dst == 0 || c + 1 >= x.len() {
        assert(x[c] <= v <= x[c]);
    } else if x[c] <= x[c + 1] {
        assert(x[c] <= v <= x[c + 1]);
    } else {
        assert(x[c + 1] <= v <= x[c]);
    }
}

/// Lowering the rate and raising it back loses no sample, and each of the
/// first `x.len()` samples of the result lies within the range of the
/// original samples no further than `high / low + 1` positions away: the
/// coarser grid in between can only reach that far.
pub proof fn lemma_round_trip_within(x: Seq<i16>, high: nat, low: nat)
    requires
        0 < low < high,
    ensures
        resampled(resampled(x, high, low), low, high).len() >= x.len(),
        forall|j: int|
            0 <= j < x.len() ==> within_samples(
                #[trigger] resampled(resampled(x, high, low), low, high)[j] as int,
                x,
                j,
                (high / low + 1) as int,
            ),
{
    let n = x.len() as int;
    let lo = low as int;
    let hi = high as int;
    let rad = hi / lo + 1;
    let z = resampled(x, high, low);
    let y = resampled(z, low, high);
    if n == 0 {
        return;
    }
    let q = z.len() as int;
    assert(q == (n * lo + hi - 1) / hi);
    lemma_floor(n * lo + hi - 1, hi);
    assert(q * hi >= n * lo) by (nonlinear_arith)
        requires hi * q > n * lo + hi - 1 - hi, hi > 0;
    assert(q >= 1) by (nonlinear_arith)
        requires q * hi >= n * lo, n >= 1, lo >= 1, hi >= 1;
    assert(y.len() == (q * hi + lo - 1) / lo);
    lemma_floor(q * hi + lo - 1, lo);
    assert(y.len() >= n) by (nonlinear_arith)
        requires
            lo * (y.len() as int) + lo > q * hi + lo - 1,
            q * hi >= n * lo,
            lo > 0, hi > 0;
    lemma_floor(hi, lo);
    assert forall|j: int| 0 <= j < n implies within_samples(#[trigger] y[j] as int, x, j, rad) by {
        let b = (j * lo) / hi;
        let rem = (j * lo) % hi;
        lemma_floor(j * lo, hi);
        assert(b >= 0) by (nonlinear_arith)
            requires hi * b <= j * lo < hi * b + hi, j >= 0, lo > 0, hi > 0;
        assert(j * lo < n * lo) by (nonlinear_arith)
            requires j < n, lo > 0;
        assert(b * hi <= j * lo) by (nonlinear_arith)
            requires hi * b <= j * lo;
        assert(b < q) by (nonlinear_arith)
            requires b * hi < q * hi, hi > 0;
        // the first neighbour in z, at x-position b * hi / lo
        let cb = (b * hi) / lo;
        lemma_floor(b * hi, lo);
        assert(cb <= j) by (nonlinear_arith)
            requires lo * cb <= b * hi, hi * b <= j * lo, lo > 0;
        assert(cb >= j - rad) by (nonlinear_arith)
            requires
                lo * cb + lo > b * hi,
                j * lo < hi * b + hi,
                lo * (hi / lo) + lo > hi,
                rad == hi / lo + 1,
                lo > 0;
        assert(cb < n);
        lemma_stage_within(x, high, low, b as nat, j, rad);
        assert(z[b] == resampled_at(x, high, low, b as nat));
        lemma_resampled_at_between(z, low, high, j as nat);
        if rem == 0 || b + 1 >= q {
            assert(y[j] == z[b]);
        } else {
            let c2 = ((b + 1) * hi) / lo;
            let rem2 = ((b + 1) * hi) % lo;
            lemma_floor((b + 1) * hi, lo);
            assert((b + 1) * hi == b * hi + hi) by (nonlinear_arith);
            lemma_div_is_ordered(b * hi, (b + 1) * hi, lo);
            assert(c2 <= j + rad - 1) by (nonlinear_arith)
                requires
                    lo * c2 <= (b + 1) * hi,
                    (b + 1) * hi == b * hi + hi,
                    hi * b <= j * lo,
                    lo * (hi / lo) <= hi,
                    hi < lo * (hi / lo) + lo,
                    rad == hi / lo + 1,
                    lo > 0;
            lemma_floor(n * lo + hi - 1, hi);
            assert(c2 < n) by (nonlinear_arith)
                requires
                    lo * c2 <= (b + 1) * hi,
                    b + 1 < q,
                    hi * q <= n * lo + hi - 1,
                    lo > 0, hi > 0;
            lemma_stage_within(x, high, low, (b + 1) as nat, j, rad);
            assert(z[b + 1] == resampled_at(x, high, low, (b + 1) as nat));
            lemma_between_within(y[j] as int, z[b] as int, z[b + 1] as int, x, j, rad);
        }
    }
}

/// Resamples a mono signal from `src_rate` to `dst_rate` by linear
/// interpolation. Same rates, or an empty input, give the input back unchanged.
pub fn resample(samples: &Vec<i16>, src_rate: u32, dst_rate: u32) -> (r: Vec<i16>)
    requires
        resampled_len(samples@.len(), src_rate as nat, dst_rate as nat) <= usize::MAX,
    ensures
        r@ == resampled(samples@, src_rate as nat, dst_rate as nat),
        r@.len() == resampled_len(samples@.len(), src_rate as nat, dst_rate as nat),
        src_rate == dst_rate ==> r@ == samples@,
{
    let n = samples.len();
    if n == 0 || src_rate == dst_rate {
        return samples.clone();
    }
    if src_rate == 0 || dst_rate == 0 {
        if src_rate != 0 {
            assert(((n as int) * 0 + (src_rate as int) - 1) / (src_rate as int) == 0) by (nonlinear_arith)
                requires src_rate > 0;
        }
        assert(resampled(samples@, src_rate as nat, dst_rate as nat) =~= Seq::<i16>::empty());
        return Vec::new();
    }
    let src = src_rate as u128;
    let dst = dst_rate as u128;
    assert(n as u128 * dst + src <= 0x1_0000_0000_0000_0000_0000_0000u128) by (nonlinear_arith)
        requires n <= 0xffff_ffff_ffff_ffffu128, dst <= 0xffff_ffffu128, src <= 0xffff_ffffu128;
    let out_len_wide: u128 = (n as u128 * dst + src - 1) / src;
    assert(out_len_wide == resampled_len(n as nat, src_rate as nat, dst_rate as nat));
    let out_len = out_len_wide as usize;
    let mut out: Vec<i16> = Vec::with_capacity(out_len);
    let mut i: usize = 0;
    while i < out_len
        invariant
            n == samples@.len(),
            n > 0,
            src_rate != dst_rate,
            src == src_rate as u128,
            dst == dst_rate as u128,
            src > 0,
            dst > 0,
            out_len == resampled_len(n as nat, src_rate as nat, dst_rate as nat),
            out_len == out_len_wide,
            i <= out_len,
            out@.len() == i,
            forall|k: int|
                0 <= k < i ==> out@[k] == resampled_at(
                    samples@,
                    src_rate as nat,
                    dst_rate as nat,
                    k as nat,
                ),
        decreases out_len - i,
    {
        proof {
            assert(dst > 0);
            assert((i as int) * (src as int) < (n as int) * (dst as int)) by (nonlinear_arith)
                requires
                    i < out_len_wide,
                    out_len_wide == ((n as int) * (dst as int) + (src as int) - 1) / (src as int),
                    src > 0;
            assert(((i as int) * (src as int)) / (dst as int) < n) by (nonlinear_arith)
                requires
                    (i as int) * (src as int) < (n as int) * (dst as int),
                    dst > 0;
            assert((i as int) * (src as int) <= (out_len_wide as int) * (src as int)) by (nonlinear_arith)
                requires i < out_len_wide, src > 0;
            assert((out_len_wide as int) * (src as int) <= (n as int) * (dst as int) + (src as int)) by (nonlinear_arith)
                requires
                    out_len_wide == ((n as int) * (dst as int) + (src as int) - 1) / (src as int),
                    src > 0;
            lemma_resampled_at_between(samples@, src_rate as nat, dst_rate as nat, i as nat);
        }
        assert(i as u128 * src <= 0x1_0000_0000_0000_0000_0000_0000u128) by (nonlinear_arith)
            requires i <= 0xffff_ffff_ffff_ffffu128, src <= 0xffff_ffffu128;
        let pos: u128 = i as u128 * src;
        let base_wide: u128 = pos / dst;
        let rem: u128 = pos % dst;
        let base = base_wide as usize;
        let cur = samples[base];
        let next = if base + 1 < n { samples[base + 1] } else { cur };
        let ua = (cur as i32 + 32768) as u128;
        let ub = (next as i32 + 32768) as u128;
        proof {
            assert(ua * (dst - rem) <= 65535 * dst) by (nonlinear_arith)
                requires ua <= 65535, rem <= dst;
            assert(ub * rem <= 65535 * dst) by (nonlinear_arith)
                requires ub <= 65535, rem <= dst;
        }
        let num: u128 = ua * (dst - rem) + ub * rem;
        let v = (num / dst) as i32 - 32768;
        proof {
            assert(v == lerp(cur, next, rem as nat, dst as nat));
        }
        out.push(v as i16);
        i = i + 1;
    }
    assert(out@ =~= resampled(samples@, src_rate as nat, dst_rate as nat));
    out
}

} // verus!

verus! {

/// Milliseconds spanned by `n` samples at the target rate, rounded to the
/// nearest millisecond (halves up) and capped at `u32::MAX`.
pub open spec fn target_ms(n: nat) -> nat {
    let ms = (n * 1000 + 8000) as int / 16000;
    if ms > u32::MAX { u32::MAX as nat } else { ms as nat }
}

/// Duration of `samples` samples at the target rate, in milliseconds.
pub fn samples_to_ms(samples: usize) -> (r: u32)
    ensures
        r == target_ms(samples as nat),
{
    let whole = samples / 16;
    let up: usize = if samples % 16 >= 8 { 1 } else { 0 };
    proof {
        let s = samples as int;
        assert((s * 1000 + 8000) / 16000 == (s + 8) / 16) by (nonlinear_arith);
        assert((s + 8) / 16 == s / 16 + (if s % 16 >= 8 { 1int } else { 0int })) by (nonlinear_arith);
    }
    if whole >= 0xffff_ffff {
        0xffff_ffff
    } else {
        (whole + up) as u32
    }
}

} // verus!
