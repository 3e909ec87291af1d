//! Sample-rate conversion: the control of a streaming resampler.

use crate::audio::Audio;
use crate::frame::Frame;
use crate::samp::{convert, recoded, Sample};
use crate::sink::{accepted, Sink};
use vstd::arithmetic::div_mod::{
    lemma_fundamental_div_mod, lemma_mod_multiples_basic, lemma_small_mod,
};
use vstd::prelude::*;

verus! {

/// `d` divides `n`.
pub open spec fn divides(d: nat, n: nat) -> bool {
    d > 0 && n % d == 0
}

/// `g` is the greatest common divisor of `a` and `b`; that of zero and zero
/// is zero.
pub open spec fn is_gcd(g: nat, a: nat, b: nat) -> bool {
    if a == 0 && b == 0 {
        g == 0
    } else {
        &&& divides(g, a)
        &&& divides(g, b)
        &&& forall|d: nat| divides(d, a) && divides(d, b) ==> d <= g
    }
}

/// The greatest common divisor of `a` and `b`.
pub open spec fn gcd_of(a: nat, b: nat) -> nat {
    choose|g: nat| is_gcd(g, a, b)
}

/// Two numbers have one greatest common divisor.
pub proof fn lemma_gcd_is_unique(g: nat, h: nat, a: nat, b: nat)
    requires
        is_gcd(g, a, b),
        is_gcd(h, a, b),
    ensures
        g == h,
        g == gcd_of(a, b),
{
    let c = gcd_of(a, b);
    assert(is_gcd(c, a, b));
}

/// The ratio `num / den` in lowest terms.
pub open spec fn reduced(num: nat, den: nat) -> (nat, nat) {
    (num / gcd_of(num, den), den / gcd_of(num, den))
}

/// A common divisor of `a` and `b` divides the remainder of `b` by `a`.
proof fn lemma_divides_remainder(d: nat, a: nat, b: nat)
    requires
        a > 0,
        divides(d, a),
        divides(d, b),
    ensures
        divides(d, b % a),
{
    let (a, b, d) = (a as int, b as int, d as int);
    lemma_fundamental_div_mod(b, a);
    lemma_fundamental_div_mod(a, d);
    lemma_fundamental_div_mod(b, d);
    let k = b / d - (a / d) * (b / a);
    assert(b % a == k * d) by (nonlinear_arith)
        requires
            b == a * (b / a) + b % a,
            a == d * (a / d),
            b == d * (b / d),
            k == b / d - (a / d) * (b / a),
    ;
    lemma_mod_multiples_basic(k, d);
}

/// A common divisor of `a` and of the remainder of `b` by `a` divides `b`.
proof fn lemma_divides_dividend(d: nat, a: nat, b: nat)
    requires
        a > 0,
        divides(d, a),
        divides(d, b % a),
    ensures
        divides(d, b),
{
    let (a, b, d) = (a as int, b as int, d as int);
    let r = b % a;
    lemma_fundamental_div_mod(b, a);
    lemma_fundamental_div_mod(a, d);
    lemma_fundamental_div_mod(r, d);
    let k = (a / d) * (b / a) + r / d;
    assert(b == k * d) by (nonlinear_arith)
        requires
            b == a * (b / a) + r,
            a == d * (a / d),
            r == d * (r / d),
            k == (a / d) * (b / a) + r / d,
    ;
    lemma_mod_multiples_basic(k, d);
}

/// Calculate the greatest common divisor of two 32-bit integers.
pub fn gcd(a: u32, b: u32) -> (g: u32)
    ensures
        is_gcd(g as nat, a as nat, b as nat),
        g == gcd_of(a as nat, b as nat),
{
    let g = gcd_by_remainders(a, b);
    proof {
        lemma_gcd_is_unique(g as nat, g as nat, a as nat, b as nat);
    }
    g
}

/// Euclid's algorithm.
fn gcd_by_remainders(a: u32, b: u32) -> (g: u32)
    ensures
        is_gcd(g as nat, a as nat, b as nat),
{
    if b == 0 {
        proof {
            if a != 0 {
                lemma_mod_multiples_basic(1, a as int);
                assert forall|d: nat| divides(d, a as nat) && divides(d, 0) implies d <= a by {
                    if d > a {
                        lemma_small_mod(a as nat, d);
                    }
                }
            }
        }
        return a;
    }
    let mut x: u32 = a;
    let mut y: u32 = b;
    while x != 0
        invariant
            y != 0,
            forall|d: nat|
                divides(d, x as nat) && divides(d, y as nat) <==> divides(d, a as nat) && divides(
                    d,
                    b as nat,
                ),
        decreases x,
    {
        let r: u32 = y % x;
        proof {
            assert forall|d: nat|
                divides(d, r as nat) && divides(d, x as nat) <==> divides(d, a as nat) && divides(
                    d,
                    b as nat,
                ) by {
                if divides(d, x as nat) && divides(d, y as nat) {
                    lemma_divides_remainder(d, x as nat, y as nat);
                }
                if divides(d, r as nat) && divides(d, x as nat) {
                    lemma_divides_dividend(d, x as nat, y as nat);
                }
            }
        }
        y = x;
        x = r;
    }
    proof {
        lemma_mod_multiples_basic(1, y as int);
        assert(divides(y as nat, y as nat));
        assert(divides(y as nat, 0));
        assert forall|d: nat| divides(d, a as nat) && divides(d, b as nat) implies d <= y by {
            assert(divides(d, y as nat));
            if d > y {
                lemma_small_mod(y as nat, d);
            }
        }
    }
    y
}

/// `r` is the ratio `num / den` in lowest terms.
pub open spec fn is_reduced(r: (nat, nat), num: nat, den: nat) -> bool {
    &&& r.0 > 0
    &&& r.1 > 0
    &&& r.0 * den == r.1 * num
    &&& is_gcd(1, r.0, r.1)
}

/// Every two numbers have a greatest common divisor.
pub proof fn lemma_gcd_exists(a: nat, b: nat)
    ensures
        is_gcd(gcd_of(a, b), a, b),
    decreases a,
{
    if a == 0 {
        if b != 0 {
            lemma_mod_multiples_basic(1, b as int);
            assert forall|d: nat| divides(d, 0) && divides(d, b) implies d <= b by {
                if d > b {
                    lemma_small_mod(b, d);
                }
            }
            assert(is_gcd(b, a, b));
        } else {
            assert(is_gcd(0, a, b));
        }
    } else {
        let r = b % a;
        lemma_gcd_exists(r, a);
        let g = gcd_of(r, a);
        lemma_divides_dividend(g, a, b);
        assert forall|d: nat| divides(d, a) && divides(d, b) implies d <= g by {
            lemma_divides_remainder(d, a, b);
        }
        assert(is_gcd(g, a, b));
    }
}

/// The reduced form of a ratio is that ratio, and is in lowest terms.
pub proof fn lemma_reduced(num: nat, den: nat)
    requires
        num >= 1,
        den >= 1,
    ensures
        is_reduced(reduced(num, den), num, den),
        reduced(num, den).0 * gcd_of(num, den) == num,
        reduced(num, den).1 * gcd_of(num, den) == den,
{
    lemma_gcd_exists(num, den);
    let factor = gcd_of(num, den);
    let (n, d, g) = (num as int, den as int, factor as int);
    lemma_fundamental_div_mod(n, g);
    lemma_fundamental_div_mod(d, g);
    let (p, q) = (n / g, d / g);
    assert(n == p * g && d == q * g && p * d == q * n && p > 0 && q > 0) by (nonlinear_arith)
        requires
            n == g * p,
            d == g * q,
            n > 0,
            d > 0,
            g > 0,
    ;
    lemma_mod_multiples_basic(p, 1);
    lemma_mod_multiples_basic(q, 1);
    let (pn, qn) = (p as nat, q as nat);
    assert forall|c: nat| divides(c, pn) && divides(c, qn) implies c <= 1 by {
        let c = c as int;
        lemma_fundamental_div_mod(p, c);
        lemma_fundamental_div_mod(q, c);
        let (u, v) = (p / c, q / c);
        assert(n == u * (c * g) && d == v * (c * g) && c * g > 0) by (nonlinear_arith)
            requires
                n == p * g,
                d == q * g,
                p == c * u,
                q == c * v,
                c > 0,
                g > 0,
        ;
        lemma_mod_multiples_basic(u, c * g);
        lemma_mod_multiples_basic(v, c * g);
        assert(divides((c * g) as nat, num));
        assert(divides((c * g) as nat, den));
        assert(c * g <= g);
        assert(c <= 1) by (nonlinear_arith)
            requires
                c * g <= g,
                g > 0,
                c > 0,
        ;
    }
}

/// Simplify a ratio (fraction with non-zero numerator and denominator).
pub fn simplify(num: u32, den: u32) -> (r: (u32, u32))
    requires
        num != 0,
        den != 0,
    ensures
        is_reduced((r.0 as nat, r.1 as nat), num as nat, den as nat),
        (r.0 as nat, r.1 as nat) == reduced(num as nat, den as nat),
{
    let factor = gcd(num, den);
    proof {
        lemma_reduced(num as nat, den as nat);
    }
    (num / factor, den / factor)
}

/// Taps of the filter as long as the rate is not lowered.
pub const BASE_FILTER_LEN: u64 = 64;

/// Number of taps of the filter for the reduced ratio `num / den` of the
/// input rate to the output rate.  A lowered rate widens the filter by the
/// ratio, rounded up to a multiple of eight.
pub open spec fn filter_length(num: nat, den: nat) -> nat {
    if num > den {
        ((((64 * num) / den - 1) / 8 + 1) * 8) as nat
    } else {
        64
    }
}

/// A phase of `fraction / old_den` of an input sample, in units of `1 / den`.
pub open spec fn rescaled(fraction: nat, den: nat, old_den: nat) -> nat {
    let scaled = fraction * den / old_den;
    if scaled >= den {
        (den - 1) as nat
    } else {
        scaled
    }
}

/// The place of one output sample on the time axis of the input: the input
/// sample `center`, counted from the first sample ever fed, plus
/// `fraction / den` of a sample.
pub struct Cursor {
    pub center: nat,
    pub fraction: nat,
}

/// The place of the output sample that follows the one at `c`.
pub open spec fn next_cursor(c: Cursor, num: nat, den: nat) -> Cursor {
    Cursor { center: c.center + (c.fraction + num) / den, fraction: (c.fraction + num) % den }
}

/// The place of the `n`-th output sample after the one at `c`.
pub open spec fn cursor_after(c: Cursor, num: nat, den: nat, n: nat) -> Cursor
    decreases n,
{
    if n == 0 {
        c
    } else {
        cursor_after(next_cursor(c, num, den), num, den, (n - 1) as nat)
    }
}

/// The places of the output samples that can be computed, the next one
/// being at `c`, when `end` input samples have been fed and the sink has
/// `room` frames left.  An output sample needs the `half` input samples that
/// follow its center.
pub open spec fn schedule(c: Cursor, num: nat, den: nat, half: nat, end: nat, room: nat) -> Seq<
    Cursor,
>
    decreases room,
{
    if room == 0 || c.center + half >= end {
        Seq::empty()
    } else {
        seq![c] + schedule(next_cursor(c, num, den), num, den, half, end, (room - 1) as nat)
    }
}

/// What a stream is, in input samples counted from the first one ever fed.
pub struct StreamView {
    /// Target sample rate.
    pub target: nat,
    /// Source sample rate, once one was seen.
    pub source: Option<nat>,
    /// Reduced ratio of the source rate to the target rate.
    pub ratio: (nat, nat),
    /// Taps of the filter.
    pub filter_len: nat,
    /// A frame went through the filter.
    pub started: bool,
    /// The filter was designed anew since it last ran.
    pub stale: bool,
    /// First input sample that the backlog still holds.
    pub origin: nat,
    /// Input samples fed so far.
    pub end: nat,
    /// Place of the next output sample.
    pub cursor: Cursor,
}

impl StreamView {
    /// A stream that nothing was piped through.
    pub open spec fn fresh(target: nat) -> StreamView {
        StreamView {
            target,
            source: None,
            ratio: (0, 1),
            filter_len: 0,
            started: false,
            stale: false,
            origin: 0,
            end: 0,
            cursor: Cursor { center: 0, fraction: 0 },
        }
    }

    /// Input latency: half the taps of the filter.
    pub open spec fn latency(self) -> nat {
        self.filter_len / 2
    }

    /// Input samples that the backlog holds.
    pub open spec fn backlog(self) -> nat {
        (self.end - self.origin) as nat
    }

    /// The stream is in a state that piping leads to.
    pub open spec fn wf(self) -> bool {
        &&& 1 <= self.target <= u32::MAX
        &&& match self.source {
            None => self.ratio == (0nat, 1nat) && self.filter_len == 0 && !self.started
                && !self.stale,
            Some(hz) => {
                &&& 1 <= hz <= u32::MAX
                &&& self.ratio == reduced(hz, self.target)
                &&& self.filter_len == filter_length(self.ratio.0, self.ratio.1)
            },
        }
        &&& self.cursor.fraction < self.ratio.1
        &&& self.origin <= self.end
        &&& self.origin <= self.cursor.center
        &&& !self.started ==> self.end == 0 && self.cursor.center == 0
    }

    /// The stream after the source rate changed to `hz`: the ratio is
    /// reduced anew, the phase keeps its share of an input sample, and the
    /// filter is designed for the new ratio.
    pub open spec fn retuned(self, hz: nat) -> StreamView {
        let ratio = reduced(hz, self.target);
        StreamView {
            source: Some(hz),
            ratio,
            filter_len: filter_length(ratio.0, ratio.1),
            stale: true,
            cursor: Cursor {
                center: self.cursor.center,
                fraction: rescaled(self.cursor.fraction, ratio.1, self.ratio.1),
            },
            ..self
        }
    }

    /// The places of the output samples that `frames` more input frames
    /// and `room` free frames in the sink allow.
    pub open spec fn taps(self, frames: nat, room: nat) -> Seq<Cursor> {
        schedule(
            self.cursor,
            self.ratio.0,
            self.ratio.1,
            self.latency(),
            self.end + frames,
            room,
        )
    }

    /// The stream after `frames` more input frames went through the filter
    /// into a sink with `room` free frames.  The backlog keeps what the
    /// next output sample can still reach back to.
    pub open spec fn fed(self, frames: nat, room: nat) -> StreamView {
        let end = self.end + frames;
        let cursor = cursor_after(
            self.cursor,
            self.ratio.0,
            self.ratio.1,
            self.taps(frames, room).len(),
        );
        let reach = if cursor.center + 1 >= self.latency() {
            (cursor.center + 1 - self.latency()) as nat
        } else {
            0
        };
        let origin = if reach <= self.origin {
            self.origin
        } else if reach >= end {
            end
        } else {
            reach
        };
        StreamView { started: true, stale: false, origin, end, cursor, ..self }
    }

    /// The piped audio is copied: nothing went through the filter yet and
    /// the source rate is the target rate.
    pub open spec fn copies(self, hz: nat) -> bool {
        !self.started && hz == self.target
    }

    /// The stream as it stands when the filter is about to run on audio at
    /// the source rate `hz`.
    pub open spec fn tuned(self, hz: nat) -> StreamView {
        if self.source == Some(hz) {
            self
        } else {
            self.retuned(hz)
        }
    }

    /// The stream after `frames` frames at the source rate `hz` were piped
    /// into a sink with `room` free frames.
    pub open spec fn piped(self, hz: nat, frames: nat, room: nat) -> StreamView {
        if self.copies(hz) {
            self
        } else if frames == 0 {
            self.tuned(hz)
        } else {
            self.tuned(hz).fed(frames, room)
        }
    }
}

/// One output sample that the filter has to compute.
#[derive(Clone, Copy, Debug, PartialEq, Eq)]
pub struct Tap {
    /// Index into the backlog of the input sample at the center of the
    /// filter.  The filter reaches `latency - 1` samples back from it, where
    /// samples before the backlog count as silence, and `latency` samples
    /// ahead.
    pub center: usize,
    /// Phase of the output sample after the center, in units of one over
    /// the denominator of the ratio.
    pub fraction: u32,
}

impl Tap {
    /// The place of the tap, when the backlog begins at input sample
    /// `origin`.
    pub open spec fn at(self, origin: nat) -> Cursor {
        Cursor { center: origin + self.center as nat, fraction: self.fraction as nat }
    }
}

/// Entries of the filter table for each tap of the filter.
pub const TABLE_OVERSAMPLE: u32 = 32;

/// Where the weight of one input sample lies in the filter table: between
/// the entries `entry` and `entry + 1`, at `rest / den` of an entry before
/// the latter.  The weight is the mean of the two entries in that
/// proportion.
#[derive(Clone, Copy, Debug, PartialEq, Eq)]
pub struct Weight {
    /// Index of the earlier of the two entries.
    pub entry: usize,
    /// Share of the earlier entry in the weight, in units of one over the
    /// denominator of the ratio.
    pub rest: u32,
}

impl Tap {
    /// Index into the backlog of the input sample that the `j`-th tap of a
    /// filter with the input latency `latency` weighs; `None` for a sample
    /// before the backlog, which counts as silence.
    pub fn sample(&self, j: usize, latency: usize) -> (index: Option<usize>)
        requires
            latency >= 1,
            self.center + j <= usize::MAX,
        ensures
            match index {
                Some(i) => i == self.center + j - (latency - 1),
                None => self.center + j < latency - 1,
            },
    {
        if self.center + j >= latency - 1 {
            Some(self.center + j - (latency - 1))
        } else {
            None
        }
    }

    /// Where the weight of the `j`-th tap lies in the table of a filter
    /// for a ratio with the denominator `den`.  The table has
    /// [`TABLE_OVERSAMPLE`] entries for each tap and one more, from the first
    /// tap at no phase to the end of the last; the output sample lags its
    /// center by the phase of the tap, so the weight lies that much before
    /// the end of the `j`-th tap.
    pub fn weight(&self, j: usize, den: u32) -> (w: Weight)
        requires
            self.fraction < den,
            (j + 1) * TABLE_OVERSAMPLE <= usize::MAX,
        ensures
            w.rest < den,
            (w.entry + 1) * den - w.rest == (j + 1) * TABLE_OVERSAMPLE * den - self.fraction
                * TABLE_OVERSAMPLE,
            j * TABLE_OVERSAMPLE <= w.entry < (j + 1) * TABLE_OVERSAMPLE,
    {
        let phase: u64 = self.fraction as u64 * TABLE_OVERSAMPLE as u64;
        let shift: u64 = phase / den as u64;
        let rest: u64 = phase % den as u64;
        proof {
            lemma_fundamental_div_mod(phase as int, den as int);
            assert(shift < 32) by (nonlinear_arith)
                requires
                    phase == den * shift + rest,
                    phase == self.fraction * 32,
                    self.fraction < den,
                    rest >= 0,
            ;
            assert(((j + 1) * 32 - shift) * den - rest == (j + 1) * 32 * den - self.fraction * 32)
                by (nonlinear_arith)
                requires
                    self.fraction * 32 == den * shift + rest,
            ;
            assert(j * 32 + 32 == (j + 1) * 32) by (nonlinear_arith);
        }
        Weight {
            entry: (j + 1) * TABLE_OVERSAMPLE as usize - shift as usize - 1,
            rest: rest as u32,
        }
    }
}

/// The places of `taps`, when the backlog begins at input sample `origin`.
pub open spec fn placed(taps: Seq<Tap>, origin: nat) -> Seq<Cursor> {
    Seq::new(taps.len(), |i: int| taps[i].at(origin))
}

/// The taps are within reach of `held` frames in the backlog and of a
/// filter with the input latency `latency`, their phases are less than
/// `den`, there are no more of them than the sink has `room` for, and no more
/// frames are discarded than the backlog holds.
pub open spec fn within(
    taps: Seq<Tap>,
    drop: usize,
    latency: nat,
    den: nat,
    held: nat,
    room: nat,
) -> bool {
    &&& taps.len() <= room
    &&& drop <= held
    &&& forall|i: int|
        0 <= i < taps.len() ==> (#[trigger] taps[i]).center + latency < held && taps[i].fraction
            < den
}

/// What is to be done with the audio of one call.
#[derive(Clone, Debug, PartialEq, Eq)]
pub enum Work {
    /// Nothing is written to the sink.
    Idle,
    /// The first `frames` frames of the input go to the sink as they are.
    Copy { frames: usize },
    /// The input is appended to the backlog, one output frame is computed
    /// for each tap and written to the sink, and the first `drop` frames of
    /// the backlog are discarded.
    Filter {
        /// The filter was designed anew since it last ran.
        redesigned: bool,
        /// The output samples to compute, in the order in which they are
        /// written.
        taps: Vec<Tap>,
        /// Frames at the front of the backlog that no later output sample
        /// reaches back to.
        drop: usize,
    },
}

/// Stream resampler: the control of a rate conversion for `N` channels that
/// share one phase.
pub struct Stream<const N: usize> {
    /// Target sample rate (constant).
    output_sample_rate: u32,
    /// Source sample rate (changeable).
    input_sample_rate: Option<u32>,
    /// Simplified ratio of input to output samples.
    ratio: (u32, u32),
    /// Taps of the filter.
    filter_len: u64,
    /// Calculated input latency for resampler.
    input_latency: u64,
    /// Center of the next output sample, as an index into the backlog.
    center: u128,
    /// Phase of the next output sample.
    fraction: u32,
    /// Frames in the backlog.
    backlog: usize,
    /// A frame went through the filter.
    started: bool,
    /// The filter was designed anew since it last ran.
    stale: bool,
    /// Input frames that left the backlog.
    origin: Ghost<nat>,
}

impl<const N: usize> View for Stream<N> {
    type V = StreamView;

    closed spec fn view(&self) -> StreamView {
        StreamView {
            target: self.output_sample_rate as nat,
            source: match self.input_sample_rate {
                Some(hz) => Some(hz as nat),
                None => None,
            },
            ratio: (self.ratio.0 as nat, self.ratio.1 as nat),
            filter_len: self.filter_len as nat,
            started: self.started,
            stale: self.stale,
            origin: self.origin@,
            end: self.origin@ + self.backlog as nat,
            cursor: Cursor {
                center: self.origin@ + self.center as nat,
                fraction: self.fraction as nat,
            },
        }
    }
}

/// The filter of a ratio has an even number of taps, at least the base
/// number.
pub proof fn lemma_filter_length(num: nat, den: nat)
    requires
        den >= 1,
    ensures
        filter_length(num, den) >= 64,
        filter_length(num, den) % 8 == 0,
        filter_length(num, den) <= 64 * num + 64,
{
    if num > den {
        let scaled = (64 * num) as int / den as int;
        lemma_fundamental_div_mod(64 * num as int, den as int);
        assert(scaled >= 64 && scaled <= 64 * num) by (nonlinear_arith)
            requires
                64 * num == den * scaled + (64 * num as int) % (den as int),
                0 <= (64 * num as int) % (den as int) < den,
                num > den,
                den >= 1,
        ;
        let len = ((scaled - 1) / 8 + 1) * 8;
        assert(len >= scaled && len <= scaled + 7 && len % 8 == 0);
    }
}

/// The step from one output sample to the next, by the whole and the
/// proper part of the ratio.
proof fn lemma_next_cursor(c: Cursor, num: nat, den: nat)
    requires
        den >= 1,
        c.fraction < den,
    ensures
        next_cursor(c, num, den).fraction < den,
        next_cursor(c, num, den).center >= c.center,
        next_cursor(c, num, den).center <= c.center + num / den + 1,
        c.fraction + num % den >= den ==> next_cursor(c, num, den) == (Cursor {
            center: c.center + num / den + 1,
            fraction: (c.fraction + num % den - den) as nat,
        }),
        c.fraction + num % den < den ==> next_cursor(c, num, den) == (Cursor {
            center: c.center + num / den,
            fraction: c.fraction + num % den,
        }),
{
    let (n, d, f) = (num as int, den as int, c.fraction as int);
    lemma_fundamental_div_mod(n, d);
    let (whole, part) = (n / d, n % d);
    if f + part >= d {
        assert(f + n == (whole + 1) * d + (f + part - d)) by (nonlinear_arith)
            requires
                n == d * whole + part,
        ;
        vstd::arithmetic::div_mod::lemma_fundamental_div_mod_converse(
            f + n,
            d,
            whole + 1,
            f + part - d,
        );
    } else {
        assert(f + n == whole * d + (f + part)) by (nonlinear_arith)
            requires
                n == d * whole + part,
        ;
        vstd::arithmetic::div_mod::lemma_fundamental_div_mod_converse(f + n, d, whole, f + part);
    }
}

impl<const N: usize> Stream<N> {
    #[verifier::type_invariant]
    spec fn inv(self) -> bool {
        &&& self@.wf()
        &&& self.input_latency == self.filter_len / 2
        &&& self.center <= self.backlog + 0x2_0000_0000
    }

    /// Create a new stream at target sample rate.
    pub fn new(target_hz: u32) -> (stream: Self)
        requires
            target_hz != 0,
        ensures
            stream@ == StreamView::fresh(target_hz as nat),
    {
        Self {
            output_sample_rate: target_hz,
            input_sample_rate: None,
            ratio: (0, 1),
            filter_len: 0,
            input_latency: 0,
            center: 0,
            fraction: 0,
            backlog: 0,
            started: false,
            stale: false,
            origin: Ghost(0),
        }
    }

    /// Target sample rate.
    pub fn target_hz(&self) -> (hz: u32)
        ensures
            hz == self@.target,
    {
        self.output_sample_rate
    }

    /// Simplified ratio of input to output samples; `(0, 1)` until a
    /// source rate was seen.
    pub fn ratio(&self) -> (r: (u32, u32))
        ensures
            r.0 == self@.ratio.0,
            r.1 == self@.ratio.1,
    {
        self.ratio
    }

    /// Taps of the filter; zero until a source rate was seen.
    pub fn filter_len(&self) -> (len: u64)
        ensures
            len == self@.filter_len,
    {
        self.filter_len
    }

    /// Input latency of the filter: half its taps.
    pub fn input_latency(&self) -> (latency: u64)
        ensures
            latency == self@.latency(),
    {
        proof {
            use_type_invariant(self);
        }
        self.input_latency
    }

    /// Frames in the backlog.
    pub fn backlog(&self) -> (frames: usize)
        ensures
            frames == self@.backlog(),
    {
        self.backlog
    }

    /// Whether a frame went through the filter.
    pub fn is_started(&self) -> (started: bool)
        ensures
            started == self@.started,
    {
        self.started
    }

    /// Switch source sample rate.
    fn source_hz(&mut self, hz: u32)
        requires
            hz != 0,
        ensures
            final(self)@ == old(self)@.retuned(hz as nat),
    {
        proof {
            use_type_invariant(&*self);
        }
        // Calculate new simplified ratio of input to output samples.
        let ratio = simplify(hz, self.output_sample_rate);
        let (num, den) = ratio;
        // Store fractional sample data.
        let old_den: u32 = self.ratio.1;
        assert(self.fraction as u64 * den as u64 <= 0xffff_ffff * 0xffff_ffff) by (nonlinear_arith)
            requires
                self.fraction <= 0xffff_ffff,
                den <= 0xffff_ffff,
        ;
        let scaled: u64 = self.fraction as u64 * den as u64 / old_den as u64;
        let fraction: u32 = if scaled >= den as u64 {
            den - 1
        } else {
            scaled as u32
        };
        // Update filter and calculate input latency.
        let filter_len = filter_length_for(num, den);
        *self = Self {
            output_sample_rate: self.output_sample_rate,
            input_sample_rate: Some(hz),
            ratio,
            filter_len,
            input_latency: filter_len / 2,
            center: self.center,
            fraction,
            backlog: self.backlog,
            started: self.started,
            stale: true,
            origin: self.origin,
        };
    }

    /// Plan the piping of audio through this stream: `frames` frames at the
    /// sample rate `source_hz`, on their way to a sink at the sample rate
    /// `sink_hz` that has `room` frames left.
    ///
    /// If the sink gets full, then no more audio is written, and the frames
    /// that the filter did not get to stay in the backlog.
    pub fn plan(&mut self, source_hz: u32, frames: usize, sink_hz: u32, room: usize) -> (work: Work)
        requires
            source_hz != 0,
            sink_hz == old(self)@.target,
            old(self)@.backlog() + frames <= usize::MAX,
        ensures
            old(self)@.wf(),
            final(self)@.wf(),
            final(self)@ == old(self)@.piped(source_hz as nat, frames as nat, room as nat),
            old(self)@.copies(source_hz as nat) ==> work == (Work::Copy {
                frames: if frames <= room {
                    frames
                } else {
                    room
                },
            }),
            !old(self)@.copies(source_hz as nat) && frames == 0 ==> work == Work::Idle,
            !old(self)@.copies(source_hz as nat) && frames != 0 ==> {
                &&& work matches Work::Filter { redesigned, taps, drop }
                &&& redesigned == old(self)@.tuned(source_hz as nat).stale
                &&& placed(taps@, old(self)@.origin) == old(self)@.tuned(source_hz as nat).taps(
                    frames as nat,
                    room as nat,
                )
                &&& drop == final(self)@.origin - old(self)@.origin
                &&& within(
                    taps@,
                    drop,
                    final(self)@.latency(),
                    final(self)@.ratio.1,
                    old(self)@.backlog() + frames as nat,
                    room as nat,
                )
            },
    {
        proof {
            use_type_invariant(&*self);
        }
        // If sample rates match, do a copy (faster than resampling).
        if !self.started && sink_hz == source_hz {
            return Work::Copy { frames: if frames <= room { frames } else { room } };
        }
        // Change source sample rate if it doesn't match.
        let changed = match self.input_sample_rate {
            Some(hz) => hz != source_hz,
            None => true,
        };
        if changed {
            self.source_hz(source_hz);
        }
        let work = self.resample_audio(frames, room);
        proof {
            use_type_invariant(&*self);
        }
        work
    }

    /// Pipe audio through this stream, and out to the sink.
    ///
    /// Where the audio is copied, this writes it to the sink, each sample in
    /// the encoding of the sink, and nothing is left to be done.  Otherwise
    /// the sink is left as it is, and the work for the filter is returned.
    ///
    /// If the sink gets full, then no more audio will be written.
    pub fn pipe<S: Sample, T: Sample, K: Sink<T, N>>(
        &mut self,
        audio: &Audio<S, N>,
        sink: &mut K,
    ) -> (work: Work)
        requires
            old(sink).rate() == old(self)@.target,
            old(self)@.backlog() + audio@.len() <= usize::MAX,
        ensures
            final(self)@.wf(),
            final(self)@ == old(self)@.piped(audio.rate(), audio@.len(), old(sink).room()),
            final(sink).rate() == old(sink).rate(),
            final(sink).capacity() == old(sink).capacity(),
            old(self)@.copies(audio.rate()) ==> {
                let count = accepted(audio@.len(), old(sink).room());
                let before = old(sink).taken().len();
                &&& work == Work::Idle
                &&& final(sink).room() == old(sink).room() - count
                &&& final(sink).taken().len() == before + count
                &&& final(sink).taken().take(before as int) == old(sink).taken()
                &&& forall|i: int, c: int|
                    before <= i < before + count && 0 <= c < N ==> (#[trigger] final(sink).taken()[i]@[c]).value() == recoded(
                        audio@[i - before]@[c].value(),
                        S::depth(),
                        T::depth(),
                    )
            },
            !old(self)@.copies(audio.rate()) ==> {
                &&& final(sink).room() == old(sink).room()
                &&& final(sink).taken() == old(sink).taken()
                &&& audio@.len() == 0 ==> work == Work::Idle
                &&& audio@.len() != 0 ==> {
                    &&& work matches Work::Filter { redesigned, taps, drop }
                    &&& redesigned == old(self)@.tuned(audio.rate()).stale
                    &&& placed(taps@, old(self)@.origin) == old(self)@.tuned(audio.rate()).taps(
                        audio@.len(),
                        old(sink).room(),
                    )
                    &&& drop == final(self)@.origin - old(self)@.origin
                    &&& within(
                        taps@,
                        drop,
                        final(self)@.latency(),
                        final(self)@.ratio.1,
                        old(self)@.backlog() + audio@.len(),
                        old(sink).room(),
                    )
                }
            },
    {
        let work = self.plan(
            audio.sample_rate(),
            audio.len(),
            sink.sample_rate(),
            sink.remaining(),
        );
        match work {
            Work::Copy { frames } => {
                // If sample rates match, do a copy (faster than resampling).
                let source = audio.as_slice();
                let mut copied: Vec<Frame<T, N>> = Vec::new();
                let mut i: usize = 0;
                while i < frames
                    invariant
                        i <= frames <= source@.len(),
                        copied@.len() == i,
                        forall|j: int, c: int|
                            0 <= j < i && 0 <= c < N ==> (#[trigger] copied@[j]@[c]).value()
                                == recoded(source@[j]@[c].value(), S::depth(), T::depth()),
                    decreases frames - i,
                {
                    copied.push(recode(source[i]));
                    i += 1;
                }
                let ghost before = sink.taken();
                sink.sink_with(copied.as_slice());
                proof {
                    assert(copied@.take(frames as int) =~= copied@);
                    assert(sink.taken().take(before.len() as int) =~= before);
                    assert forall|i: int, c: int|
                        before.len() <= i < before.len() + frames && 0 <= c < N implies (
                    #[trigger] sink.taken()[i]@[c]).value() == recoded(
                        audio@[i - before.len()]@[c].value(),
                        S::depth(),
                        T::depth(),
                    ) by {
                        assert(sink.taken()[i] == copied@[i - before.len()]);
                    }
                }
                Work::Idle
            },
            work => work,
        }
    }

    /// Flush audio to the sink and end the stream: as many frames of
    /// silence as the input is late are fed to the filter, which computes
    /// what the sink still has room for.
    pub fn flush<T, K: Sink<T, N>>(self, sink: &K) -> (work: Work)
        requires
            self@.started ==> self@.backlog() + self@.latency() <= usize::MAX,
        ensures
            self@.wf(),
            !self@.started ==> work == Work::Idle,
            self@.started ==> {
                &&& work matches Work::Filter { redesigned, taps, drop }
                &&& redesigned == self@.stale
                &&& placed(taps@, self@.origin) == self@.taps(self@.latency(), sink.room())
                &&& drop == self@.fed(self@.latency(), sink.room()).origin - self@.origin
                &&& within(
                    taps@,
                    drop,
                    self@.latency(),
                    self@.ratio.1,
                    self@.backlog() + self@.latency(),
                    sink.room(),
                )
            },
    {
        let room = sink.remaining();
        proof {
            use_type_invariant(&self);
            if self@.started {
                lemma_filter_length(self@.ratio.0, self@.ratio.1);
            }
        }
        if !self.started {
            return Work::Idle;
        }
        let mut stream = self;
        let silence: usize = stream.input_latency as usize;
        stream.resample_audio(silence, room)
    }

    /// Run the filter over the backlog and `frames` more frames.
    fn resample_audio(&mut self, frames: usize, room: usize) -> (work: Work)
        requires
            old(self)@.source is Some,
            old(self)@.backlog() + frames <= usize::MAX,
        ensures
            frames == 0 ==> work == Work::Idle && final(self)@ == old(self)@,
            frames != 0 ==> {
                &&& final(self)@ == old(self)@.fed(frames as nat, room as nat)
                &&& work matches Work::Filter { redesigned, taps, drop }
                &&& redesigned == old(self)@.stale
                &&& placed(taps@, old(self)@.origin) == old(self)@.taps(frames as nat, room as nat)
                &&& drop == final(self)@.origin - old(self)@.origin
                &&& within(
                    taps@,
                    drop,
                    old(self)@.latency(),
                    old(self)@.ratio.1,
                    old(self)@.backlog() + frames as nat,
                    room as nat,
                )
            },
    {
        proof {
            use_type_invariant(&*self);
            lemma_filter_length(self@.ratio.0, self@.ratio.1);
        }
        // If no input samples, skip doing the work.
        if frames == 0 {
            return Work::Idle;
        }
        let redesigned = self.stale;
        let (num, den) = self.ratio;
        let whole: u32 = num / den;
        let part: u32 = num % den;
        let half: u64 = self.input_latency;
        let backlog: usize = self.backlog + frames;
        let ghost origin = self.origin@;
        let ghost first = self@.cursor;
        let ghost end = origin + backlog as nat;
        let mut center: u128 = self.center;
        let mut fraction: u32 = self.fraction;
        let mut taps: Vec<Tap> = Vec::new();
        while taps.len() < room && center + (half as u128) < backlog as u128
            invariant
                den >= 1,
                whole == num / den,
                part == num % den,
                fraction < den,
                half < 0x1_0000_0000_0000,
                center <= backlog + 0x2_0000_0000,
                end == origin + backlog as nat,
                taps.len() <= room,
                forall|i: int|
                    0 <= i < taps.len() ==> (#[trigger] taps@[i]).center + half < backlog
                        && taps@[i].fraction < den,
                (Cursor { center: origin + center as nat, fraction: fraction as nat })
                    == cursor_after(first, num as nat, den as nat, taps.len() as nat),
                placed(taps@, origin) + schedule(
                    Cursor { center: origin + center as nat, fraction: fraction as nat },
                    num as nat,
                    den as nat,
                    half as nat,
                    end,
                    (room - taps.len()) as nat,
                ) == schedule(first, num as nat, den as nat, half as nat, end, room as nat),
            decreases room - taps.len(),
        {
            let ghost here = Cursor { center: origin + center as nat, fraction: fraction as nat };
            let ghost before = taps@;
            proof {
                lemma_next_cursor(here, num as nat, den as nat);
                lemma_cursor_after_next(first, num as nat, den as nat, taps.len() as nat);
            }
            taps.push(Tap { center: center as usize, fraction });
            let stepped: u64 = fraction as u64 + part as u64;
            if stepped >= den as u64 {
                fraction = (stepped - den as u64) as u32;
                center = center + whole as u128 + 1;
            } else {
                fraction = stepped as u32;
                center = center + whole as u128;
            }
            proof {
                let next = Cursor { center: origin + center as nat, fraction: fraction as nat };
                let rest = schedule(
                    next,
                    num as nat,
                    den as nat,
                    half as nat,
                    end,
                    (room - taps.len()) as nat,
                );
                assert(next == next_cursor(here, num as nat, den as nat));
                assert(schedule(
                    here,
                    num as nat,
                    den as nat,
                    half as nat,
                    end,
                    (room - before.len()) as nat,
                ) == seq![here] + rest);
                assert(placed(taps@, origin) =~= placed(before, origin) + seq![here]);
                assert(placed(taps@, origin) + rest =~= placed(before, origin) + (seq![here]
                    + rest));
            }
        }
        proof {
            assert(schedule(
                Cursor { center: origin + center as nat, fraction: fraction as nat },
                num as nat,
                den as nat,
                half as nat,
                end,
                (room - taps.len()) as nat,
            ) =~= Seq::empty());
            assert(placed(taps@, origin) =~= self@.taps(frames as nat, room as nat));
        }
        // Keep what the next output sample can still reach back to.
        let reach: u128 = if center + 1 >= half as u128 {
            center + 1 - half as u128
        } else {
            0
        };
        let drop: usize = if reach >= backlog as u128 {
            backlog
        } else {
            reach as usize
        };
        *self = Self {
            output_sample_rate: self.output_sample_rate,
            input_sample_rate: self.input_sample_rate,
            ratio: self.ratio,
            filter_len: self.filter_len,
            input_latency: self.input_latency,
            center: center - drop as u128,
            fraction,
            backlog: backlog - drop,
            started: true,
            stale: false,
            origin: Ghost(origin + drop as nat),
        };
        Work::Filter { redesigned, taps, drop }
    }
}

/// The `n + 1`-th output sample after one is the next after the `n`-th.
proof fn lemma_cursor_after_next(c: Cursor, num: nat, den: nat, n: nat)
    ensures
        cursor_after(c, num, den, n + 1) == next_cursor(cursor_after(c, num, den, n), num, den),
    decreases n,
{
    if n > 0 {
        lemma_cursor_after_next(next_cursor(c, num, den), num, den, (n - 1) as nat);
    } else {
        assert(cursor_after(c, num, den, 1) == cursor_after(
            next_cursor(c, num, den),
            num,
            den,
            0,
        ));
    }
}

/// Number of taps of the filter for a reduced ratio.
fn filter_length_for(num: u32, den: u32) -> (len: u64)
    requires
        den >= 1,
    ensures
        len == filter_length(num as nat, den as nat),
{
    proof {
        lemma_filter_length(num as nat, den as nat);
    }
    if num > den {
        let scaled: u64 = BASE_FILTER_LEN * (num as u64) / (den as u64);
        proof {
            lemma_fundamental_div_mod(64 * num as int, den as int);
            assert(scaled >= 64) by (nonlinear_arith)
                requires
                    64 * num == den * scaled + (64 * num as int) % (den as int),
                    0 <= (64 * num as int) % (den as int) < den,
                    num > den,
                    den >= 1,
            ;
        }
        // Round up to a multiple of eight.
        ((scaled - 1) / 8 + 1) * 8
    } else {
        BASE_FILTER_LEN
    }
}

/// The `m + n`-th output sample after one is the `n`-th after the `m`-th.
proof fn lemma_cursor_after_add(c: Cursor, num: nat, den: nat, m: nat, n: nat)
    ensures
        cursor_after(c, num, den, m + n) == cursor_after(cursor_after(c, num, den, m), num, den, n),
    decreases m,
{
    if m > 0 {
        lemma_cursor_after_add(next_cursor(c, num, den), num, den, (m - 1) as nat, n);
    }
}

/// Each output sample is `num / den` input samples after the one before
/// it: `n` output samples span `n * num` units of `1 / den` input sample.
pub proof fn lemma_cursor_after(c: Cursor, num: nat, den: nat, n: nat)
    requires
        den >= 1,
        c.fraction < den,
    ensures
        cursor_after(c, num, den, n).fraction < den,
        cursor_after(c, num, den, n).center >= c.center,
        cursor_after(c, num, den, n).center * den + cursor_after(c, num, den, n).fraction
            == c.center * den + c.fraction + n * num,
    decreases n,
{
    if n > 0 {
        let next = next_cursor(c, num, den);
        lemma_fundamental_div_mod((c.fraction + num) as int, den as int);
        lemma_next_cursor(c, num, den);
        lemma_cursor_after(next, num, den, (n - 1) as nat);
        let last = cursor_after(c, num, den, n);
        let step = (c.fraction + num) as int / den as int;
        assert(last.center * den + last.fraction == c.center * den + c.fraction + n * num)
            by (nonlinear_arith)
            requires
                last.center * den + last.fraction == next.center * den + next.fraction + (n - 1)
                    * num,
                next.center == c.center + step,
                c.fraction + num == den * step + next.fraction,
        ;
    } else {
        assert(c.center * den + c.fraction + 0 * num == c.center * den + c.fraction)
            by (nonlinear_arith);
    }
}

/// The schedule holds the output samples one after the other, each within
/// reach of the input that was fed, and ends where the sink is full or the
/// next output sample is out of reach.
pub proof fn lemma_schedule(c: Cursor, num: nat, den: nat, half: nat, end: nat, room: nat)
    requires
        den >= 1,
        c.fraction < den,
    ensures
        schedule(c, num, den, half, end, room).len() <= room,
        forall|k: int|
            0 <= k < schedule(c, num, den, half, end, room).len() ==> {
                &&& #[trigger] schedule(c, num, den, half, end, room)[k] == cursor_after(
                    c,
                    num,
                    den,
                    k as nat,
                )
                &&& cursor_after(c, num, den, k as nat).center + half < end
            },
        schedule(c, num, den, half, end, room).len() < room ==> cursor_after(
            c,
            num,
            den,
            schedule(c, num, den, half, end, room).len(),
        ).center + half >= end,
    decreases room,
{
    if room == 0 || c.center + half >= end {
    } else {
        let next = next_cursor(c, num, den);
        let rest = schedule(next, num, den, half, end, (room - 1) as nat);
        lemma_next_cursor(c, num, den);
        lemma_schedule(next, num, den, half, end, (room - 1) as nat);
        let all = schedule(c, num, den, half, end, room);
        assert(all == seq![c] + rest);
        assert forall|k: int| 0 <= k < all.len() implies {
            &&& #[trigger] all[k] == cursor_after(c, num, den, k as nat)
            &&& cursor_after(c, num, den, k as nat).center + half < end
        } by {
            if k > 0 {
                assert(all[k] == rest[k - 1]);
                assert(cursor_after(c, num, den, k as nat) == cursor_after(
                    next,
                    num,
                    den,
                    (k - 1) as nat,
                ));
            }
        }
    }
}

/// Output samples that are within reach of less input come first among
/// those within reach of more input.
proof fn lemma_schedule_split(
    c: Cursor,
    num: nat,
    den: nat,
    half: nat,
    end: nat,
    more: nat,
    room: nat,
)
    requires
        den >= 1,
        c.fraction < den,
        end <= more,
    ensures
        schedule(c, num, den, half, end, room).len() <= room,
        schedule(c, num, den, half, more, room) == schedule(c, num, den, half, end, room)
            + schedule(
            cursor_after(c, num, den, schedule(c, num, den, half, end, room).len()),
            num,
            den,
            half,
            more,
            (room - schedule(c, num, den, half, end, room).len()) as nat,
        ),
    decreases room,
{
    let first = schedule(c, num, den, half, end, room);
    if room == 0 || c.center + half >= end {
        assert(first =~= Seq::empty());
        assert(schedule(c, num, den, half, more, room) =~= first + schedule(
            c,
            num,
            den,
            half,
            more,
            room,
        ));
    } else {
        let next = next_cursor(c, num, den);
        lemma_next_cursor(c, num, den);
        lemma_schedule_split(next, num, den, half, end, more, (room - 1) as nat);
        let rest = schedule(next, num, den, half, end, (room - 1) as nat);
        assert(first == seq![c] + rest);
        let tail = schedule(
            cursor_after(next, num, den, rest.len()),
            num,
            den,
            half,
            more,
            (room - 1 - rest.len()) as nat,
        );
        assert(cursor_after(c, num, den, first.len()) == cursor_after(next, num, den, rest.len()));
        assert(schedule(c, num, den, half, more, room) == seq![c] + (rest + tail));
        assert(seq![c] + (rest + tail) =~= (seq![c] + rest) + tail);
    }
}

/// Piping audio in two chunks leads to the same output samples, at the
/// same places, as piping it at once, and leaves the stream in the same
/// state: the phase and the backlog carry over from one chunk to the next.
pub proof fn lemma_chunks_join(v: StreamView, a: nat, b: nat, room: nat)
    requires
        v.wf(),
    ensures
        v.taps(a, room).len() <= room,
        v.taps(a + b, room) == v.taps(a, room) + v.fed(a, room).taps(
            b,
            (room - v.taps(a, room).len()) as nat,
        ),
        v.fed(a + b, room) == v.fed(a, room).fed(b, (room - v.taps(a, room).len()) as nat),
{
    let (num, den) = v.ratio;
    let half = v.latency();
    let first = v.taps(a, room);
    let mid = v.fed(a, room);
    let left = (room - first.len()) as nat;
    lemma_schedule_split(v.cursor, num, den, half, v.end + a, v.end + a + b, room);
    lemma_cursor_after(v.cursor, num, den, first.len());
    let second = mid.taps(b, left);
    lemma_cursor_after_add(v.cursor, num, den, first.len(), second.len());
    lemma_cursor_after(mid.cursor, num, den, second.len());
    assert(v.taps(a + b, room).len() == first.len() + second.len());
}

/// Piping `frames` frames through a fresh stream and flushing it leads to
/// as many output frames as the input lasts at the target rate, unless the
/// sink is full before: the count is the least one whose duration covers
/// that of the input, so it is within one frame of the resampled length.
pub proof fn lemma_flush_drains(target: nat, hz: nat, frames: nat, room: nat)
    requires
        1 <= target <= u32::MAX,
        1 <= hz <= u32::MAX,
        hz != target,
        frames >= 1,
    ensures
        ({
            let tuned = StreamView::fresh(target).tuned(hz);
            let piped = StreamView::fresh(target).piped(hz, frames, room);
            let first = tuned.taps(frames, room).len();
            let last = piped.taps(piped.latency(), (room - first) as nat).len();
            let (num, den) = piped.ratio;
            &&& piped == tuned.fed(frames, room)
            &&& num >= 1 && den >= 1
            &&& first + last <= room
            &&& first + last < room ==> (first + last) * num >= frames * den
            &&& first + last >= 1 ==> (first + last - 1) * num < frames * den
        }),
{
    let tuned = StreamView::fresh(target).tuned(hz);
    let piped = StreamView::fresh(target).piped(hz, frames, room);
    lemma_reduced(hz, target);
    let (num, den) = tuned.ratio;
    let half = tuned.latency();
    let start = Cursor { center: 0, fraction: 0 };
    assert(rescaled(0, den, 1) == 0) by {
        assert(0nat * den / 1 == 0) by (nonlinear_arith);
    }
    assert(tuned.cursor == start);
    assert(tuned.wf());
    lemma_chunks_join(tuned, frames, half, room);
    let all = schedule(start, num, den, half, frames + half, room);
    let total = all.len();
    lemma_schedule(start, num, den, half, frames + half, room);
    lemma_cursor_after(start, num, den, total);
    if total < room {
        let after = cursor_after(start, num, den, total);
        assert(total * num >= frames * den) by (nonlinear_arith)
            requires
                after.center * den + after.fraction == 0 * den + 0 + total * num,
                after.center >= frames,
                den >= 1,
        ;
    }
    if total >= 1 {
        let before = cursor_after(start, num, den, (total - 1) as nat);
        assert(all[total - 1] == before);
        lemma_cursor_after(start, num, den, (total - 1) as nat);
        assert((total - 1) * num < frames * den) by (nonlinear_arith)
            requires
                before.center * den + before.fraction == 0 * den + 0 + (total - 1) * num,
                before.center + 1 <= frames,
                before.fraction < den,
                den >= 1,
        ;
    }
}

/// Number of frames that `frames` frames at the rate `source_hz` last at
/// the rate `target_hz`: the least number of frames that last as long.
pub open spec fn expected_frames(frames: nat, source_hz: nat, target_hz: nat) -> nat {
    ((frames * target_hz + source_hz - 1) / source_hz as int) as nat
}

/// Number of frames that `frames` frames at the rate `source_hz` last at
/// the rate `target_hz`; the largest number that there is where that would
/// be more.
pub fn resampled_len(frames: usize, source_hz: u32, target_hz: u32) -> (len: usize)
    requires
        source_hz != 0,
        target_hz != 0,
    ensures
        len == if expected_frames(frames as nat, source_hz as nat, target_hz as nat)
            <= usize::MAX {
            expected_frames(frames as nat, source_hz as nat, target_hz as nat)
        } else {
            usize::MAX as nat
        },
{
    assert(frames as u128 * target_hz as u128 <= 0xffff_ffff_ffff_ffff * 0xffff_ffff)
        by (nonlinear_arith)
        requires
            frames <= 0xffff_ffff_ffff_ffff,
            target_hz <= 0xffff_ffff,
    ;
    let scaled: u128 = frames as u128 * target_hz as u128 + (source_hz as u128 - 1);
    let len: u128 = scaled / source_hz as u128;
    if len > usize::MAX as u128 {
        usize::MAX
    } else {
        len as usize
    }
}

/// The expected number of frames is the least number whose duration at
/// the target rate covers the duration of the input at the source rate.
pub proof fn lemma_expected_frames(frames: nat, source_hz: nat, target_hz: nat)
    requires
        source_hz >= 1,
    ensures
        expected_frames(frames, source_hz, target_hz) * source_hz >= frames * target_hz,
        expected_frames(frames, source_hz, target_hz) * source_hz < frames * target_hz
            + source_hz,
{
    let total = (frames * target_hz + source_hz - 1) as int;
    lemma_fundamental_div_mod(total, source_hz as int);
    let expected = total / source_hz as int;
    assert(expected >= 0 && expected * source_hz >= frames * target_hz && expected * source_hz
        < frames * target_hz + source_hz) by (nonlinear_arith)
        requires
            total == source_hz * expected + total % (source_hz as int),
            0 <= total % (source_hz as int) < source_hz,
            total == frames * target_hz + source_hz - 1,
            frames * target_hz >= 0,
            source_hz >= 1,
    ;
}

/// Piping `frames` frames through a fresh stream and flushing it fills a
/// sink of the expected number of frames, and no more than that where the
/// sink is longer.
pub proof fn lemma_flush_fills_expected(target: nat, hz: nat, frames: nat, room: nat)
    requires
        1 <= target <= u32::MAX,
        1 <= hz <= u32::MAX,
        hz != target,
        frames >= 1,
    ensures
        ({
            let tuned = StreamView::fresh(target).tuned(hz);
            let piped = tuned.fed(frames, room);
            let first = tuned.taps(frames, room).len();
            let last = piped.taps(piped.latency(), (room - first) as nat).len();
            first + last == if expected_frames(frames, hz, target) <= room {
                expected_frames(frames, hz, target)
            } else {
                room
            }
        }),
{
    let tuned = StreamView::fresh(target).tuned(hz);
    let piped = tuned.fed(frames, room);
    let first = tuned.taps(frames, room).len();
    let last = piped.taps(piped.latency(), (room - first) as nat).len();
    let total = (first + last) as int;
    let expected = expected_frames(frames, hz, target) as int;
    lemma_flush_drains(target, hz, frames, room);
    lemma_expected_frames(frames, hz, target);
    lemma_reduced(hz, target);
    let (num, den) = tuned.ratio;
    let g = gcd_of(hz, target) as int;
    // Durations in units of the reduced ratio and in hertz compare alike.
    assert(g >= 1) by (nonlinear_arith)
        requires
            num * g == hz,
            hz >= 1,
            num >= 1,
            g >= 0,
    ;
    if total < room {
        assert(total * hz >= frames * target) by (nonlinear_arith)
            requires
                total * num >= frames * den,
                num * g == hz,
                den * g == target,
                g >= 1,
        ;
    }
    if total >= 1 {
        assert((total - 1) * hz < frames * target) by (nonlinear_arith)
            requires
                (total - 1) * num < frames * den,
                num * g == hz,
                den * g == target,
                g >= 1,
        ;
    }
    if total < room {
        assert(total == expected) by (nonlinear_arith)
            requires
                total * hz >= frames * target,
                total >= 1 ==> (total - 1) * hz < frames * target,
                expected * hz >= frames * target,
                expected * hz < frames * target + hz,
                frames * target >= 1,
                hz >= 1,
                total >= 0,
                expected >= 0,
        ;
    } else {
        assert(total == room);
        assert(expected >= total) by (nonlinear_arith)
            requires
                total >= 1 ==> (total - 1) * hz < frames * target,
                expected * hz >= frames * target,
                hz >= 1,
                total >= 0,
                expected >= 0,
        ;
    }
}

/// A frame in another encoding: every sample is recoded.
fn recode<S: Sample, T: Sample, const N: usize>(frame: Frame<S, N>) -> (r: Frame<T, N>)
    ensures
        forall|c: int|
            0 <= c < N ==> (#[trigger] r@[c]).value() == recoded(
                frame@[c].value(),
                S::depth(),
                T::depth(),
            ),
{
    let mut out: Frame<T, N> = Frame::default();
    proof {
        out.lemma_view();
        frame.lemma_view();
    }
    let mut c: usize = 0;
    while c < N
        invariant
            c <= N,
            out@.len() == N,
            frame@.len() == N,
            forall|d: int|
                0 <= d < c ==> (#[trigger] out@[d]).value() == recoded(
                    frame@[d].value(),
                    S::depth(),
                    T::depth(),
                ),
        decreases N - c,
    {
        let sample: T = convert::<S, T>(frame.samples()[c]);
        let slots = out.samples_mut();
        slots[c] = sample;
        c += 1;
    }
    out
}

} // verus!
