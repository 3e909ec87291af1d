//! Frames: one sample for each channel of a speaker configuration.

use crate::layout::{heading, heading_of, is_lfe, locate, placement, Angle, Placement};
use crate::pos::Position;
use crate::samp::{
    amplified, convert, difference, highest, interpolation, lowest, negation, product, quantized,
    recoded, sum, Sample,
};
use core::ops::{Add, Index, IndexMut, Mul, Neg, Sub};
use vstd::prelude::*;
use vstd::std_specs::ops::{
    AddSpec, AddSpecImpl, MulSpec, MulSpecImpl, NegSpec, NegSpecImpl, SubSpec, SubSpecImpl,
};

verus! {

/// Frame - a number of interleaved samples, one for each channel.
///
/// The view of a frame is the sequence of its samples, in channel order.
#[derive(Copy, Clone, Debug, PartialEq)]
pub struct Frame<S, const N: usize>([S; N]);

impl<S, const N: usize> View for Frame<S, N> {
    type V = Seq<S>;

    closed spec fn view(&self) -> Seq<S> {
        self.0@
    }
}

impl<S, const N: usize> Frame<S, N> {
    /// A frame has one sample for each of its `N` channels.
    pub broadcast proof fn lemma_view(self)
        ensures
            #[trigger] self@.len() == N,
    {
    }

    /// Two frames with the same samples are one frame.
    pub proof fn lemma_same_samples(a: Self, b: Self)
        requires
            a@ =~= b@,
        ensures
            a == b,
    {
        assert(a.0 =~= b.0);
    }

    /// Get a slice of the samples in this frame.
    pub fn samples(&self) -> (r: &[S; N])
        ensures
            r@ == self@,
    {
        &self.0
    }

    /// Get a mutable slice of the samples in this frame.
    pub fn samples_mut(&mut self) -> (r: &mut [S; N])
        ensures
            r@ == old(self)@,
            final(self)@ == final(r)@,
    {
        &mut self.0
    }
}

impl<S: Copy, const N: usize> Frame<S, N> {
    /// A frame with the same sample in every channel.
    pub fn splat(sample: S) -> (r: Self)
        ensures
            r@ == Seq::new(N as nat, |i: int| sample),
    {
        let r = Frame([sample;N]);
        assert(r@ =~= Seq::new(N as nat, |i: int| sample));
        r
    }
}

impl<S, const N: usize, P: Position<N>> Index<P> for Frame<S, N> {
    type Output = S;

    fn index(&self, position: P) -> (r: &S)
        ensures
            *r == self@[P::slot()],
    {
        &self.0[position.index()]
    }
}

impl<S, const N: usize, P: Position<N>> vstd::std_specs::core::IndexSpecImpl<P> for Frame<S, N> {
    open spec fn index_req(&self, index: &P) -> bool {
        true
    }
}

impl<S, const N: usize, P: Position<N>> IndexMut<P> for Frame<S, N> {
    fn index_mut(&mut self, position: P) -> (r: &mut S)
        ensures
            *r == old(self)@[P::slot()],
            final(self)@ == old(self)@.update(P::slot(), *final(r)),
    {
        &mut self.0[position.index()]
    }
}

impl<S> Frame<S, 1> {
    /// Create a new mono interleaved audio frame from sample(s).
    pub fn new(mono: S) -> (r: Self)
        ensures
            r@ == seq![mono],
    {
        let r = Frame([mono]);
        assert(r@ =~= seq![mono]);
        r
    }
}

impl<S> Frame<S, 2> {
    /// Create a new stereo interleaved audio frame from sample(s).
    pub fn new(left: S, right: S) -> (r: Self)
        ensures
            r@ == seq![left, right],
    {
        let r = Frame([left, right]);
        assert(r@ =~= seq![left, right]);
        r
    }
}

impl<S> Frame<S, 3> {
    /// Create a new surround 3.0 interleaved audio frame from sample(s).
    pub fn new(left: S, right: S, center: S) -> (r: Self)
        ensures
            r@ == seq![left, right, center],
    {
        let r = Frame([left, right, center]);
        assert(r@ =~= seq![left, right, center]);
        r
    }
}

impl<S> Frame<S, 4> {
    /// Create a new surround 4.0 interleaved audio frame from sample(s).
    pub fn new(left: S, right: S, back_left: S, back_right: S) -> (r: Self)
        ensures
            r@ == seq![left, right, back_left, back_right],
    {
        let r = Frame([left, right, back_left, back_right]);
        assert(r@ =~= seq![left, right, back_left, back_right]);
        r
    }
}

impl<S> Frame<S, 5> {
    /// Create a new surround 5.0 interleaved audio frame from sample(s).
    pub fn new(left: S, right: S, center: S, back_left: S, back_right: S) -> (r: Self)
        ensures
            r@ == seq![left, right, center, back_left, back_right],
    {
        let r = Frame([left, right, center, back_left, back_right]);
        assert(r@ =~= seq![left, right, center, back_left, back_right]);
        r
    }
}

impl<S> Frame<S, 6> {
    /// Create a new surround 5.1 interleaved audio frame from sample(s).
    pub fn new(left: S, right: S, center: S, lfe: S, back_left: S, back_right: S) -> (r: Self)
        ensures
            r@ == seq![left, right, center, lfe, back_left, back_right],
    {
        let r = Frame([left, right, center, lfe, back_left, back_right]);
        assert(r@ =~= seq![left, right, center, lfe, back_left, back_right]);
        r
    }
}

impl<S> Frame<S, 7> {
    /// Create a new surround 6.1 interleaved audio frame from sample(s).
    pub fn new(
        left: S,
        right: S,
        center: S,
        lfe: S,
        back: S,
        side_left: S,
        side_right: S,
    ) -> (r: Self)
        ensures
            r@ == seq![left, right, center, lfe, back, side_left, side_right],
    {
        let r = Frame([left, right, center, lfe, back, side_left, side_right]);
        assert(r@ =~= seq![left, right, center, lfe, back, side_left, side_right]);
        r
    }
}

impl<S> Frame<S, 8> {
    /// Create a new surround 7.1 interleaved audio frame from sample(s).
    pub fn new(
        left: S,
        right: S,
        center: S,
        lfe: S,
        back_left: S,
        back_right: S,
        side_left: S,
        side_right: S,
    ) -> (r: Self)
        ensures
            r@ == seq![left, right, center, lfe, back_left, back_right, side_left, side_right],
    {
        let r = Frame([left, right, center, lfe, back_left, back_right, side_left, side_right]);
        assert(r@ =~= seq![
            left,
            right,
            center,
            lfe,
            back_left,
            back_right,
            side_left,
            side_right,
        ]);
        r
    }
}

impl<S: Sample, const N: usize> Frame<S, N> {
    /// Every sample of the frame is the sum of the samples of `a` and `b`
    /// in its channel.
    pub open spec fn is_sum(self, a: Self, b: Self) -> bool {
        forall|i: int| 0 <= i < N ==> #[trigger] self@[i] == AddSpec::add_spec(a@[i], b@[i])
    }

    /// Every sample of the frame is the difference of the samples of `a` and `b`
    /// in its channel.
    pub open spec fn is_difference(self, a: Self, b: Self) -> bool {
        forall|i: int| 0 <= i < N ==> #[trigger] self@[i] == SubSpec::sub_spec(a@[i], b@[i])
    }

    /// Every sample of the frame is the product of the samples of `a` and `b`
    /// in its channel.
    pub open spec fn is_product(self, a: Self, b: Self) -> bool {
        forall|i: int| 0 <= i < N ==> #[trigger] self@[i] == MulSpec::mul_spec(a@[i], b@[i])
    }

    /// Every sample of the frame is the negation of the sample of `a` in
    /// its channel.
    pub open spec fn is_negation(self, a: Self) -> bool {
        forall|i: int| 0 <= i < N ==> #[trigger] self@[i] == NegSpec::neg_spec(a@[i])
    }
}

impl<S: Sample, const N: usize> Add for Frame<S, N> {
    type Output = Self;

    /// Channel by channel, the saturating sum.
    fn add(self, other: Self) -> (r: Self)
        ensures
            r@.len() == N,
            forall|i: int|
                0 <= i < N ==> (#[trigger] r@[i]).value() == sum(
                    self@[i].value(),
                    other@[i].value(),
                    S::depth(),
                ),
    {
        let mut out = self;
        let mut i: usize = 0;
        while i < N
            invariant
                i <= N,
                forall|j: int|
                    0 <= j < i ==> {
                        &&& out@[j] == AddSpec::add_spec(self@[j], other@[j])
                        &&& (#[trigger] out@[j]).value() == sum(
                            self@[j].value(),
                            other@[j].value(),
                            S::depth(),
                        )
                    },
                forall|j: int| i <= j < N ==> out@[j] == self@[j],
            decreases N - i,
        {
            proof {
                S::lemma_arithmetic(self@[i as int], other@[i as int]);
            }
            out.0[i] = self.0[i] + other.0[i];
            i += 1;
        }
        proof {
            let chosen = choose|r: Self| #[trigger] r.is_sum(self, other);
            assert(out.is_sum(self, other));
            assert(chosen@ =~= out@);
            Self::lemma_same_samples(chosen, out);
        }
        out
    }
}

impl<S: Sample, const N: usize> AddSpecImpl for Frame<S, N> {
    open spec fn obeys_add_spec() -> bool {
        true
    }

    open spec fn add_req(self, other: Self) -> bool {
        true
    }

    open spec fn add_spec(self, other: Self) -> Self {
        choose|r: Self| #[trigger] r.is_sum(self, other)
    }
}

impl<S: Sample, const N: usize> Sub for Frame<S, N> {
    type Output = Self;

    /// Channel by channel, the saturating difference.
    fn sub(self, other: Self) -> (r: Self)
        ensures
            r@.len() == N,
            forall|i: int|
                0 <= i < N ==> (#[trigger] r@[i]).value() == difference(
                    self@[i].value(),
                    other@[i].value(),
                    S::depth(),
                ),
    {
        let mut out = self;
        let mut i: usize = 0;
        while i < N
            invariant
                i <= N,
                forall|j: int|
                    0 <= j < i ==> {
                        &&& out@[j] == SubSpec::sub_spec(self@[j], other@[j])
                        &&& (#[trigger] out@[j]).value() == difference(
                            self@[j].value(),
                            other@[j].value(),
                            S::depth(),
                        )
                    },
                forall|j: int| i <= j < N ==> out@[j] == self@[j],
            decreases N - i,
        {
            proof {
                S::lemma_arithmetic(self@[i as int], other@[i as int]);
            }
            out.0[i] = self.0[i] - other.0[i];
            i += 1;
        }
        proof {
            let chosen = choose|r: Self| #[trigger] r.is_difference(self, other);
            assert(out.is_difference(self, other));
            assert(chosen@ =~= out@);
            Self::lemma_same_samples(chosen, out);
        }
        out
    }
}

impl<S: Sample, const N: usize> SubSpecImpl for Frame<S, N> {
    open spec fn obeys_sub_spec() -> bool {
        true
    }

    open spec fn sub_req(self, other: Self) -> bool {
        true
    }

    open spec fn sub_spec(self, other: Self) -> Self {
        choose|r: Self| #[trigger] r.is_difference(self, other)
    }
}

impl<S: Sample, const N: usize> Mul for Frame<S, N> {
    type Output = Self;

    /// Channel by channel, the saturating product.
    fn mul(self, other: Self) -> (r: Self)
        ensures
            r@.len() == N,
            forall|i: int|
                0 <= i < N ==> (#[trigger] r@[i]).value() == product(
                    self@[i].value(),
                    other@[i].value(),
                    S::depth(),
                ),
    {
        let mut out = self;
        let mut i: usize = 0;
        while i < N
            invariant
                i <= N,
                forall|j: int|
                    0 <= j < i ==> {
                        &&& out@[j] == MulSpec::mul_spec(self@[j], other@[j])
                        &&& (#[trigger] out@[j]).value() == product(
                            self@[j].value(),
                            other@[j].value(),
                            S::depth(),
                        )
                    },
                forall|j: int| i <= j < N ==> out@[j] == self@[j],
            decreases N - i,
        {
            proof {
                S::lemma_arithmetic(self@[i as int], other@[i as int]);
            }
            out.0[i] = self.0[i] * other.0[i];
            i += 1;
        }
        proof {
            let chosen = choose|r: Self| #[trigger] r.is_product(self, other);
            assert(out.is_product(self, other));
            assert(chosen@ =~= out@);
            Self::lemma_same_samples(chosen, out);
        }
        out
    }
}

impl<S: Sample, const N: usize> MulSpecImpl for Frame<S, N> {
    open spec fn obeys_mul_spec() -> bool {
        true
    }

    open spec fn mul_req(self, other: Self) -> bool {
        true
    }

    open spec fn mul_spec(self, other: Self) -> Self {
        choose|r: Self| #[trigger] r.is_product(self, other)
    }
}

impl<S: Sample, const N: usize> Neg for Frame<S, N> {
    type Output = Self;

    /// Channel by channel, the negation.
    fn neg(self) -> (r: Self)
        ensures
            r@.len() == N,
            forall|i: int| 0 <= i < N ==> (#[trigger] r@[i]).value() == negation(self@[i].value()),
    {
        let mut out = self;
        let mut i: usize = 0;
        while i < N
            invariant
                i <= N,
                forall|j: int|
                    0 <= j < i ==> {
                        &&& out@[j] == NegSpec::neg_spec(self@[j])
                        &&& (#[trigger] out@[j]).value() == negation(self@[j].value())
                    },
                forall|j: int| i <= j < N ==> out@[j] == self@[j],
            decreases N - i,
        {
            proof {
                S::lemma_arithmetic(self@[i as int], self@[i as int]);
            }
            out.0[i] = self.0[i].neg();
            i += 1;
        }
        proof {
            let chosen = choose|r: Self| #[trigger] r.is_negation(self);
            assert(out.is_negation(self));
            assert(chosen@ =~= out@);
            Self::lemma_same_samples(chosen, out);
        }
        out
    }
}

impl<S: Sample, const N: usize> NegSpecImpl for Frame<S, N> {
    open spec fn obeys_neg_spec() -> bool {
        true
    }

    open spec fn neg_req(self) -> bool {
        true
    }

    open spec fn neg_spec(self) -> Self {
        choose|r: Self| #[trigger] r.is_negation(self)
    }
}

/// The codes of the samples of a frame, in channel order.
pub open spec fn codes<S: Sample>(samples: Seq<S>) -> Seq<int> {
    Seq::new(samples.len(), |i: int| samples[i].value())
}

/// The codes of a frame after a sample was panned into it: each of the two
/// speakers of the placement gets the sample times its gain on top of what
/// it has, the first speaker first.
pub open spec fn panned(
    frame: Seq<int>,
    depth: nat,
    sample: int,
    place: Placement,
    near_gain: int,
    far_gain: int,
) -> Seq<int> {
    let first = frame.update(
        place.near as int,
        sum(frame[place.near as int], product(sample, near_gain, depth), depth),
    );
    first.update(
        place.far as int,
        sum(first[place.far as int], product(sample, far_gain, depth), depth),
    )
}

/// The codes of a frame of `to` channels after the first `upto` channels
/// of a frame of `from` channels were mixed into `mixed`.  Each channel is
/// attenuated by `amplitude`, recoded, and panned to where its speaker is
/// heard from with the gains that `gains` holds for it; the channel for low
/// frequency effects goes to the channel for low frequency effects where
/// there is one.
pub open spec fn routed(
    mixed: Seq<int>,
    source: Seq<int>,
    from: nat,
    to: nat,
    source_depth: nat,
    depth: nat,
    amplitude: int,
    gains: Seq<(int, int)>,
    upto: nat,
) -> Seq<int>
    decreases upto,
{
    if upto == 0 {
        mixed
    } else {
        let channel = (upto - 1) as nat;
        let before = routed(
            mixed,
            source,
            from,
            to,
            source_depth,
            depth,
            amplitude,
            gains,
            channel,
        );
        let sample = recoded(
            product(source[channel as int], amplitude, source_depth),
            source_depth,
            depth,
        );
        if is_lfe(from, channel) && is_lfe(to, 3) {
            before.update(3, sample)
        } else {
            panned(
                before,
                depth,
                sample,
                placement(to, heading(from, channel)),
                gains[channel as int].0,
                gains[channel as int].1,
            )
        }
    }
}

/// The codes of the frame of `to` channels that a frame of `from` channels
/// is converted to.
///
/// - The same number of channels: each sample is recoded.
/// - From one channel: the sample is recoded into the first two channels.
/// - From two channels: the samples are recoded into the first two
///   channels, or into their mean where there is one channel.
/// - Otherwise the channels are routed.
///
/// Channels that get nothing are silent.
pub open spec fn converted(
    source: Seq<int>,
    from: nat,
    to: nat,
    source_depth: nat,
    depth: nat,
    amplitude: int,
    gains: Seq<(int, int)>,
) -> Seq<int> {
    if from == to {
        Seq::new(to, |i: int| recoded(source[i], source_depth, depth))
    } else if from == 1 {
        Seq::new(
            to,
            |i: int|
                if i < 2 {
                    recoded(source[0], source_depth, depth)
                } else {
                    0
                },
        )
    } else if from == 2 && to == 1 {
        seq![
            (recoded(source[0], source_depth, depth) + recoded(source[1], source_depth, depth)) / 2,
        ]
    } else if from == 2 {
        Seq::new(
            to,
            |i: int|
                if i < 2 {
                    recoded(source[i], source_depth, depth)
                } else {
                    0
                },
        )
    } else {
        routed(
            Seq::new(to, |i: int| 0),
            source,
            from,
            to,
            source_depth,
            depth,
            amplitude,
            gains,
            from,
        )
    }
}

/// The squares of two gains add up to one, within one part in 4096: the
/// sound that the two speakers play together is as loud as the sound that
/// is panned between them.
pub open spec fn constant_power(near: int, far: int, depth: nat) -> bool {
    let unit = 2 * highest(depth) + 1;
    let power = (2 * near + 1) * (2 * near + 1) + (2 * far + 1) * (2 * far + 1);
    -(unit * unit) <= 4096 * (power - unit * unit) <= unit * unit
}

/// The gains of the two speakers that a sound is panned between, of
/// constant power.
///
/// The view of the gains is the pair of their codes.
#[derive(Debug)]
pub struct Gains<S: Sample> {
    near: S,
    far: S,
}

impl<S: Sample> View for Gains<S> {
    type V = (int, int);

    closed spec fn view(&self) -> (int, int) {
        (self.near.value(), self.far.value())
    }
}

impl<S: Sample> Clone for Gains<S> {
    fn clone(&self) -> (gains: Self)
        ensures
            gains == *self,
    {
        *self
    }
}

impl<S: Sample> Copy for Gains<S> {

}

impl<S: Sample> Gains<S> {
    #[verifier::type_invariant]
    spec fn inv(self) -> bool {
        constant_power(self.near.value(), self.far.value(), S::depth())
    }

    /// The gains `near` of the first speaker and `far` of the second, where
    /// their squares add up to one.
    pub fn new(near: S, far: S) -> (gains: Option<Self>)
        ensures
            gains is Some <==> constant_power(near.value(), far.value(), S::depth()),
            gains matches Some(g) ==> g@ == (near.value(), far.value()),
    {
        proof {
            near.lemma_range();
            far.lemma_range();
        }
        let unit: i128 = near.as_ratio().1 as i128;
        let a: i128 = near.as_ratio().0 as i128;
        let b: i128 = far.as_ratio().0 as i128;
        assert(-0x0100_0000 * 0x0100_0000 <= a * a <= 0x0100_0000 * 0x0100_0000 && -0x0100_0000
            * 0x0100_0000 <= b * b <= 0x0100_0000 * 0x0100_0000 && 0 <= unit * unit <= 0x0100_0000
            * 0x0100_0000) by (nonlinear_arith)
            requires
                -0x0100_0000 <= a <= 0x0100_0000,
                -0x0100_0000 <= b <= 0x0100_0000,
                0 <= unit <= 0x0100_0000,
        ;
        let excess: i128 = 4096 * (a * a + b * b - unit * unit);
        if -(unit * unit) <= excess && excess <= unit * unit {
            Some(Gains { near, far })
        } else {
            None
        }
    }

    /// The gains of a sound on the first speaker: one for the first
    /// speaker, and nothing for the second.
    pub fn on_near() -> (gains: Self)
        ensures
            gains@ == (highest(S::depth()), 0int),
    {
        let near = S::max_value();
        let far = S::mid_value();
        proof {
            near.lemma_range();
            let unit = 2 * highest(S::depth()) + 1;
            assert(unit * unit >= 4096) by (nonlinear_arith)
                requires
                    unit >= 65_535,
            ;
        }
        Gains { near, far }
    }

    /// The gain of the first speaker.
    pub fn near(&self) -> (gain: S)
        ensures
            gain.value() == self@.0,
            constant_power(self@.0, self@.1, S::depth()),
    {
        proof {
            use_type_invariant(self);
        }
        self.near
    }

    /// The gain of the second speaker.
    pub fn far(&self) -> (gain: S)
        ensures
            gain.value() == self@.1,
            constant_power(self@.0, self@.1, S::depth()),
    {
        proof {
            use_type_invariant(self);
        }
        self.far
    }
}

/// Code of the gain on every channel of a frame of `from` channels that is
/// converted to a frame of `to` channels: the ratio of the two numbers where
/// that is less than one, and one otherwise.
pub open spec fn attenuation(from: nat, to: nat, depth: nat) -> int {
    quantized(
        if to < from {
            to as int
        } else {
            from as int
        },
        from as int,
        depth,
    )
}

/// The gains of a conversion from frames of `N` channels of samples `S` to
/// frames of `M` channels of samples `T`: one attenuation for every source
/// channel, and for each of up to eight source channels the gains of the two
/// speakers that it is panned between.
#[derive(Debug)]
pub struct Mix<S: Sample, T: Sample, const N: usize, const M: usize> {
    amplitude: S,
    gains: [Gains<T>; 8],
}

impl<S: Sample, T: Sample, const N: usize, const M: usize> Clone for Mix<S, T, N, M> {
    fn clone(&self) -> (mix: Self)
        ensures
            mix == *self,
    {
        proof {
            use_type_invariant(self);
        }
        Mix { amplitude: self.amplitude, gains: self.gains }
    }
}

impl<S: Sample, T: Sample, const N: usize, const M: usize> Mix<S, T, N, M> {
    #[verifier::type_invariant]
    spec fn inv(self) -> bool {
        &&& 1 <= N <= 8
        &&& 1 <= M <= 8
        &&& forall|c: int|
            0 <= c < 8 ==> constant_power(
                (#[trigger] self.gains@[c])@.0,
                self.gains@[c]@.1,
                T::depth(),
            )
    }

    /// Code of the attenuation.
    pub closed spec fn amplitude(self) -> int {
        self.amplitude.value()
    }

    /// Codes of the gains, by source channel.
    pub closed spec fn gains(self) -> Seq<(int, int)> {
        Seq::new(8, |c: int| self.gains@[c]@)
    }

    /// Gains of a conversion between two layouts of one to eight channels.
    ///
    /// Where there are fewer channels to go to than to come from, every
    /// channel is attenuated by the ratio of the two numbers.
    pub fn new(gains: [Gains<T>; 8]) -> (mix: Self)
        requires
            1 <= N <= 8,
            1 <= M <= 8,
        ensures
            mix.amplitude() == attenuation(N as nat, M as nat, S::depth()),
            mix.gains() == Seq::new(8, |c: int| gains@[c]@),
    {
        let fewer: usize = if M < N {
            M
        } else {
            N
        };
        let mut c: usize = 0;
        while c < 8
            invariant
                c <= 8,
                forall|d: int|
                    0 <= d < c ==> constant_power(
                        (#[trigger] gains@[d])@.0,
                        gains@[d]@.1,
                        T::depth(),
                    ),
            decreases 8 - c,
        {
            let pair = gains[c];
            proof {
                use_type_invariant(&pair);
            }
            c += 1;
        }
        Mix { amplitude: S::from_ratio(fewer as i64, N as u32), gains }
    }

    /// Gains that play every channel through the first of its two speakers
    /// alone.
    pub fn unity() -> (mix: Self)
        requires
            1 <= N <= 8,
            1 <= M <= 8,
        ensures
            mix.amplitude() == attenuation(N as nat, M as nat, S::depth()),
            mix.gains() == Seq::new(8, |c: int| (highest(T::depth()), 0int)),
    {
        let mix = Self::new([Gains::on_near();8]);
        assert(mix.gains() =~= Seq::new(8, |c: int| (highest(T::depth()), 0int)));
        mix
    }
}

impl<S: Sample, const N: usize> Default for Frame<S, N> {
    /// A frame of silence.
    fn default() -> (r: Self)
        ensures
            r@.len() == N,
            codes(r@) == Seq::new(N as nat, |i: int| 0int),
            forall|i: int| 0 <= i < N ==> (#[trigger] r@[i]).value() == 0,
    {
        let r = Frame::splat(S::mid_value());
        assert(codes(r@) =~= Seq::new(N as nat, |i: int| 0int));
        r
    }
}

impl<S: Sample, const N: usize> Frame<S, N> {
    /// Apply the gain `num / den` to the channels.  This function may
    /// introduce hard clipping distortion if the gain is greater than 1.
    pub fn gain(&mut self, num: i64, den: u32)
        ensures
            final(self)@.len() == N,
            forall|i: int|
                0 <= i < N ==> (#[trigger] final(self)@[i]).value() == amplified(
                    old(self)@[i].value(),
                    num as int,
                    den as int,
                    S::depth(),
                ),
    {
        let before = *self;
        let mut out = before;
        let mut i: usize = 0;
        while i < N
            invariant
                i <= N,
                forall|j: int|
                    0 <= j < i ==> (#[trigger] out@[j]).value() == amplified(
                        before@[j].value(),
                        num as int,
                        den as int,
                        S::depth(),
                    ),
                forall|j: int| i <= j < N ==> out@[j] == before@[j],
            decreases N - i,
        {
            out.0[i] = before.0[i].gain(num, den);
            i += 1;
        }
        *self = out;
    }

    /// Apply linear interpolation with another frame.
    pub fn lerp(&mut self, rhs: Self, t: S)
        ensures
            final(self)@.len() == N,
            forall|i: int|
                0 <= i < N ==> (#[trigger] final(self)@[i]).value() == interpolation(
                    old(self)@[i].value(),
                    rhs@[i].value(),
                    t.value(),
                    S::depth(),
                ),
    {
        let before = *self;
        let mut out = before;
        let mut i: usize = 0;
        while i < N
            invariant
                i <= N,
                forall|j: int|
                    0 <= j < i ==> (#[trigger] out@[j]).value() == interpolation(
                        before@[j].value(),
                        rhs@[j].value(),
                        t.value(),
                        S::depth(),
                    ),
                forall|j: int| i <= j < N ==> out@[j] == before@[j],
            decreases N - i,
        {
            out.0[i] = before.0[i].lerp(rhs.0[i], t);
            i += 1;
        }
        *self = out;
    }

    /// Add a sample times a gain to one channel.
    fn accumulate(&mut self, slot: usize, sample: S, gain: S)
        requires
            slot < N,
        ensures
            codes(final(self)@) == codes(old(self)@).update(
                slot as int,
                sum(
                    old(self)@[slot as int].value(),
                    product(sample.value(), gain.value(), S::depth()),
                    S::depth(),
                ),
            ),
    {
        proof {
            S::lemma_arithmetic(sample, gain);
            S::lemma_arithmetic(self@[slot as int], sample.mul_spec(gain));
        }
        let ghost before = *self;
        self.0[slot] = self.0[slot] + sample * gain;
        assert(codes(self@) =~= codes(before@).update(
            slot as int,
            sum(
                before@[slot as int].value(),
                product(sample.value(), gain.value(), S::depth()),
                S::depth(),
            ),
        ));
    }

    /// Pan a sample between the two speakers of a placement.
    fn place(&mut self, sample: S, place: Placement, gains: Gains<S>)
        requires
            place.near < N,
            place.far < N,
        ensures
            codes(final(self)@) == panned(
                codes(old(self)@),
                S::depth(),
                sample.value(),
                place,
                gains@.0,
                gains@.1,
            ),
    {
        self.accumulate(place.near, sample, gains.near());
        self.accumulate(place.far, sample, gains.far());
    }

    /// Mix a panned channel into this audio frame.
    ///
    /// The sample is heard from the direction `angle`.  It is played by the
    /// two speakers that [`locate`] names for that direction, with the gains
    /// `gains`, whose squares add up to one: the cosine and the sine of the
    /// angle that the placement describes.
    pub fn pan<T: Sample>(self, sample: T, angle: Angle, gains: Gains<S>) -> (r: Self)
        requires
            1 <= N <= 8,
        ensures
            r@.len() == N,
            codes(r@) == panned(
                codes(self@),
                S::depth(),
                recoded(sample.value(), T::depth(), S::depth()),
                placement(N as nat, angle@),
                gains@.0,
                gains@.1,
            ),
            forall|c: int|
                0 <= c < N ==> (#[trigger] r@[c]).value() == panned(
                    codes(self@),
                    S::depth(),
                    recoded(sample.value(), T::depth(), S::depth()),
                    placement(N as nat, angle@),
                    gains@.0,
                    gains@.1,
                )[c],
            constant_power(gains@.0, gains@.1, S::depth()),
    {
        proof {
            use_type_invariant(&gains);
        }
        let mut out = self;
        out.place(convert::<T, S>(sample), locate(N, angle), gains);
        proof {
            assert forall|c: int| 0 <= c < N implies (#[trigger] out@[c]).value() == codes(
                out@,
            )[c] by {}
        }
        out
    }

    /// The codes of `r` are those that the frame is converted to; see
    /// [`converted`].
    pub open spec fn converts_to<T: Sample, const M: usize>(
        self,
        mix: Mix<S, T, N, M>,
        r: Frame<T, M>,
    ) -> bool {
        codes(r@) == converted(
            codes(self@),
            N as nat,
            M as nat,
            S::depth(),
            T::depth(),
            mix.amplitude(),
            mix.gains(),
        )
    }

    /// The frame of `M` channels of samples `T` that the frame is converted
    /// to with the gains `mix`.
    pub open spec fn converted_with<T: Sample, const M: usize>(
        self,
        mix: Mix<S, T, N, M>,
    ) -> Frame<T, M> {
        choose|r: Frame<T, M>| #[trigger] self.converts_to(mix, r)
    }

    /// Convert an audio frame to another format.
    ///
    /// Where the conversion pans channels, `mix` holds the attenuation and
    /// the gains; see [`converted`].
    pub fn to<T: Sample, const M: usize>(self, mix: &Mix<S, T, N, M>) -> (r: Frame<T, M>)
        ensures
            r@.len() == M,
            forall|c: int|
                0 <= c < M ==> (#[trigger] r@[c]).value() == converted(
                    codes(self@),
                    N as nat,
                    M as nat,
                    S::depth(),
                    T::depth(),
                    mix.amplitude(),
                    mix.gains(),
                )[c],
            r == self.converted_with::<T, M>(*mix),
            forall|c: int|
                0 <= c < 8 ==> constant_power(
                    (#[trigger] mix.gains()[c]).0,
                    mix.gains()[c].1,
                    T::depth(),
                ),
            codes(r@) == converted(
                codes(self@),
                N as nat,
                M as nat,
                S::depth(),
                T::depth(),
                mix.amplitude(),
                mix.gains(),
            ),
    {
        proof {
            use_type_invariant(mix);
        }
        let mut out: Frame<T, M> = Frame::default();
        let ghost silence = codes(out@);
        if N == M || N <= 2 && M >= 2 {
            // Samples keep their channels; one channel alone goes to two.
            let mut i: usize = 0;
            while i < M && (i < N || i < 2)
                invariant
                    1 <= N <= 8,
                    N == M || N <= 2 && M >= 2,
                    i <= M,
                    i <= N || i <= 2,
                    forall|j: int|
                        0 <= j < i ==> (#[trigger] out@[j]).value() == recoded(
                            self@[if j < N {
                                j
                            } else {
                                0
                            }].value(),
                            S::depth(),
                            T::depth(),
                        ),
                    forall|j: int| i <= j < M ==> (#[trigger] out@[j]).value() == 0,
                decreases M - i,
            {
                let from: usize = if i < N {
                    i
                } else {
                    0
                };
                let ghost before = out;
                out.0[i] = convert::<S, T>(self.0[from]);
                assert(out@ == before@.update(i as int, out@[i as int]));
                i += 1;
            }
            assert(codes(out@) =~= converted(
                codes(self@),
                N as nat,
                M as nat,
                S::depth(),
                T::depth(),
                mix.amplitude(),
                mix.gains(),
            ));
        } else if N == 2 {
            // Two channels go to one: it gets their mean.
            let left: T = convert::<S, T>(self.0[0]);
            let right: T = convert::<S, T>(self.0[1]);
            proof {
                left.lemma_range();
                right.lemma_range();
            }
            let total: i32 = left.code() + right.code();
            let mean: i32 = if total >= 0 {
                total / 2
            } else {
                (total - 1) / 2
            };
            out.0[0] = T::from_code(mean);
            assert(codes(out@) =~= converted(
                codes(self@),
                N as nat,
                M as nat,
                S::depth(),
                T::depth(),
                mix.amplitude(),
                mix.gains(),
            ));
        } else {
            let mut channel: usize = 0;
            while channel < N
                invariant
                    3 <= N <= 8,
                    1 <= M <= 8,
                    channel <= N,
                    codes(out@) == routed(
                        silence,
                        codes(self@),
                        N as nat,
                        M as nat,
                        S::depth(),
                        T::depth(),
                        mix.amplitude(),
                        mix.gains(),
                        channel as nat,
                    ),
                decreases N - channel,
            {
                proof {
                    S::lemma_arithmetic(self@[channel as int], mix.amplitude);
                }
                let sample: T = convert::<S, T>(self.0[channel] * mix.amplitude);
                if N >= 6 && channel == 3 && M >= 6 {
                    let ghost before = out;
                    out.0[3] = sample;
                    assert(codes(out@) =~= codes(before@).update(3, sample.value()));
                } else {
                    out.place(sample, locate(M, heading_of(N, channel)), mix.gains[channel]);
                }
                channel += 1;
            }
        }
        proof {
            let chosen = self.converted_with::<T, M>(*mix);
            assert(self.converts_to(*mix, out));
            lemma_same_codes(chosen, out);
            assert forall|c: int| 0 <= c < M implies (#[trigger] out@[c]).value() == codes(
                out@,
            )[c] by {}
        }
        out
    }
}

/// Two frames with the same codes are one frame.
pub proof fn lemma_same_codes<S: Sample, const N: usize>(a: Frame<S, N>, b: Frame<S, N>)
    requires
        codes(a@) == codes(b@),
    ensures
        a == b,
{
    assert(a@.len() == N && b@.len() == N);
    assert forall|i: int| 0 <= i < N implies a@[i] == b@[i] by {
        assert(codes(a@)[i] == a@[i].value());
        assert(codes(b@)[i] == b@[i].value());
        S::lemma_same_code(a@[i], b@[i]);
    }
    assert(a@ =~= b@);
    Frame::lemma_same_samples(a, b);
}

/// Converting a frame of one channel to two channels of the same encoding
/// puts the sample into both channels as it is.
pub proof fn lemma_mono_to_stereo(x: int, depth: nat, amplitude: int, gains: Seq<(int, int)>)
    ensures
        converted(seq![x], 1, 2, depth, depth, amplitude, gains) == seq![x, x],
{
    assert(converted(seq![x], 1, 2, depth, depth, amplitude, gains) =~= seq![x, x]);
}

/// Converting a frame of two channels to one channel of the same encoding
/// gives the mean of the two samples, rounded down.
pub proof fn lemma_stereo_to_mono(
    left: int,
    right: int,
    depth: nat,
    amplitude: int,
    gains: Seq<(int, int)>,
)
    ensures
        converted(seq![left, right], 2, 1, depth, depth, amplitude, gains) == seq![
            (left + right) / 2,
        ],
        left == right ==> converted(seq![left, right], 2, 1, depth, depth, amplitude, gains)
            == seq![left],
{
}

/// Converting a frame to its own layout and encoding gives the frame back.
pub proof fn lemma_same_layout_copies(
    source: Seq<int>,
    count: nat,
    depth: nat,
    amplitude: int,
    gains: Seq<(int, int)>,
)
    requires
        source.len() == count,
    ensures
        converted(source, count, count, depth, depth, amplitude, gains) == source,
{
    assert(converted(source, count, count, depth, depth, amplitude, gains) =~= source);
}

/// A sample that is panned with a gain of one for the first speaker and a
/// gain of nothing for the second is added to the first speaker as it is,
/// and every other channel stays as it is.
pub proof fn lemma_pan_onto_speaker(frame: Seq<int>, depth: nat, sample: int, place: Placement)
    requires
        depth == 16 || depth == 24,
        0 <= place.near < frame.len(),
        0 <= place.far < frame.len(),
        lowest(depth) <= sample <= highest(depth),
        forall|i: int|
            0 <= i < frame.len() ==> lowest(depth) <= #[trigger] frame[i] <= highest(depth),
    ensures
        panned(frame, depth, sample, place, highest(depth), 0) == frame.update(
            place.near as int,
            sum(frame[place.near as int], sample, depth),
        ),
{
    let h = highest(depth);
    assert(sample * h / h == sample && (-(sample * h)) / h == -sample) by (nonlinear_arith)
        requires
            h > 0,
    ;
    assert(sample * 0 == 0) by (nonlinear_arith);
    assert(product(sample, h, depth) == sample);
    assert(product(sample, 0, depth) == 0);
    assert(panned(frame, depth, sample, place, h, 0) =~= frame.update(
        place.near as int,
        sum(frame[place.near as int], sample, depth),
    ));
}

} // verus!
