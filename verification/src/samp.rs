//! Sample encodings.
//!
//! A sample is one audio value of one channel.  Two integer encodings are
//! provided: [`Samp16`] (16-bit signed PCM) and [`Samp24`] (24-bit signed
//! PCM).  Both place silence at code `0`, full negative scale at the lowest
//! code and full positive scale at the highest code; the real number that a
//! code `v` stands for is `(v + 1/2) / (highest + 1/2)`.
//!
//! Every contract in this module is stated over the integer code of a sample,
//! which is its view (`s@`).

use crate::private::Sealed;
use core::cmp::Ordering;
use core::ops::{Add, AddAssign, Mul, MulAssign, Neg, Sub, SubAssign};
use vstd::prelude::*;
use vstd::std_specs::cmp::PartialOrdSpecImpl;
use vstd::std_specs::convert::FromSpecImpl;
use vstd::std_specs::ops::{
    AddSpec, AddSpecImpl, MulSpec, MulSpecImpl, NegSpec, NegSpecImpl, SubSpec, SubSpecImpl,
};

verus! {

/// `v` limited to the closed range from `lo` to `hi`.
pub open spec fn saturate(v: int, lo: int, hi: int) -> int {
    if v < lo {
        lo
    } else if v > hi {
        hi
    } else {
        v
    }
}

/// Quotient of `a` by a positive `b`, rounded toward zero.
pub open spec fn quotient(a: int, b: int) -> int {
    if a >= 0 {
        a / b
    } else {
        -((-a) / b)
    }
}

/// Lowest code of an encoding that is `depth` bits wide.
pub open spec fn lowest(depth: nat) -> int {
    if depth == 16 {
        -32_768
    } else {
        -8_388_608
    }
}

/// Highest code of an encoding that is `depth` bits wide.  It also stands
/// for a gain of one in products.
pub open spec fn highest(depth: nat) -> int {
    if depth == 16 {
        32_767
    } else {
        8_388_607
    }
}

/// Code of the saturating sum of two codes.
pub open spec fn sum(a: int, b: int, depth: nat) -> int {
    saturate(a + b, lowest(depth), highest(depth))
}

/// Code of the saturating difference of two codes.
pub open spec fn difference(a: int, b: int, depth: nat) -> int {
    saturate(a - b, lowest(depth), highest(depth))
}

/// Code of the saturating product of two codes: the exact product is scaled
/// down by the highest code, rounded toward zero, then limited to the range.
pub open spec fn product(a: int, b: int, depth: nat) -> int {
    saturate(quotient(a * b, highest(depth)), lowest(depth), highest(depth))
}

/// Code of the negation of a code: every bit of the code is flipped.
pub open spec fn negation(a: int) -> int {
    -a - 1
}

/// Code of the linear interpolation `a + t * (b - a)`, each step saturating.
pub open spec fn interpolation(a: int, b: int, t: int, depth: nat) -> int {
    sum(a, product(t, difference(b, a, depth), depth), depth)
}

/// Code of the real number `num / den`, where `den` is not negative: the
/// number is limited to the range from minus one to one, scaled by the
/// highest code and a half, and rounded down.  A ratio over nothing is as
/// large as can be, in the direction of its numerator.
pub open spec fn quantized(num: int, den: int, depth: nat) -> int {
    if den != 0 {
        saturate(((2 * highest(depth) + 1) * num) / (2 * den), lowest(depth), highest(depth))
    } else if num > 0 {
        highest(depth)
    } else if num < 0 {
        lowest(depth)
    } else {
        0
    }
}

/// Code of the real number that the code `v` stands for, times the gain
/// `num / den`, where `den` is not negative: the code and a half times the
/// gain, rounded down, and limited to the range of the encoding.  A gain over
/// nothing is as large as can be, in the direction of its numerator.
pub open spec fn amplified(v: int, num: int, den: int, depth: nat) -> int {
    if den != 0 {
        saturate(((2 * v + 1) * num) / (2 * den), lowest(depth), highest(depth))
    } else if (2 * v + 1) * num > 0 {
        highest(depth)
    } else if (2 * v + 1) * num < 0 {
        lowest(depth)
    } else {
        0
    }
}

/// 24-bit code that a 16-bit code is promoted to.  The 16-bit code becomes
/// the upper two bytes; the low byte repeats the code's own upper byte with
/// its top bit flipped, so that the two extremes map to the two extremes.
pub open spec fn promoted(v: int) -> int {
    v * 256 + (v + 32_768) / 256
}

/// 16-bit code that a 24-bit code is reduced to: its upper two bytes.
pub open spec fn reduced(v: int) -> int {
    v / 256
}

/// Code in an encoding of `to` bits for a code in an encoding of `from` bits.
pub open spec fn recoded(v: int, from: nat, to: nat) -> int {
    if from == to {
        v
    } else if from == 16 {
        promoted(v)
    } else {
        reduced(v)
    }
}

/// One audio value in a fixed encoding.
pub trait Sample: Copy + Sized + Sealed + Add<Output = Self> + Sub<Output = Self> + Mul<
    Output = Self,
> + Neg<Output = Self> {
    /// The integer code that the sample stores.
    spec fn value(self) -> int;

    /// Width of the encoding in bits.
    spec fn depth() -> nat;

    /// The encoding is one of the two widths, and a code is within its range.
    proof fn lemma_range(self)
        ensures
            Self::depth() == 16 || Self::depth() == 24,
            lowest(Self::depth()) <= self.value() <= highest(Self::depth()),
    ;

    /// Two samples with one code are one sample.
    proof fn lemma_same_code(a: Self, b: Self)
        requires
            a.value() == b.value(),
        ensures
            a == b,
    ;

    /// What `+`, `-`, `*` and unary `-` compute, over codes.
    proof fn lemma_arithmetic(a: Self, b: Self)
        ensures
            <Self as AddSpec>::obeys_add_spec(),
            <Self as SubSpec>::obeys_sub_spec(),
            <Self as MulSpec>::obeys_mul_spec(),
            <Self as NegSpec>::obeys_neg_spec(),
            a.add_req(b),
            a.sub_req(b),
            a.mul_req(b),
            a.neg_req(),
            a.add_spec(b).value() == sum(a.value(), b.value(), Self::depth()),
            a.sub_spec(b).value() == difference(a.value(), b.value(), Self::depth()),
            a.mul_spec(b).value() == product(a.value(), b.value(), Self::depth()),
            a.neg_spec().value() == negation(a.value()),
    ;

    /// Minimum value (*negative one*).
    fn min_value() -> (s: Self)
        ensures
            s.value() == lowest(Self::depth()),
    ;

    /// Mid value (*silence*).
    fn mid_value() -> (s: Self)
        ensures
            s.value() == 0,
    ;

    /// Maximum value (*one*).
    fn max_value() -> (s: Self)
        ensures
            s.value() == highest(Self::depth()),
    ;

    /// The integer code that the sample stores.
    fn code(self) -> (v: i32)
        ensures
            v == self.value(),
    ;

    /// The sample that stores the code `v`, limited to the range of the
    /// encoding.
    fn from_code(v: i32) -> (r: Self)
        ensures
            r.value() == saturate(v as int, lowest(Self::depth()), highest(Self::depth())),
    ;

    /// The real number that the sample stands for, as a ratio: the code
    /// and a half, over the highest code and a half.
    fn as_ratio(self) -> (r: (i32, u32))
        ensures
            r.0 == 2 * self.value() + 1,
            r.1 == 2 * highest(Self::depth()) + 1,
    ;

    /// The sample that stands for the real number `num / den`; a number
    /// outside the range from minus one to one is limited to it.
    fn from_ratio(num: i64, den: u32) -> (r: Self)
        ensures
            r.value() == quantized(num as int, den as int, Self::depth()),
    ;

    /// The sample times the gain `num / den`.  A gain of more than one may
    /// saturate the sample.
    fn gain(self, num: i64, den: u32) -> (r: Self)
        ensures
            r.value() == amplified(self.value(), num as int, den as int, Self::depth()),
    ;

    /// Convert from the 16-bit encoding.
    fn from_samp16(s: Samp16) -> (r: Self)
        ensures
            r.value() == recoded(s@, 16, Self::depth()),
    ;

    /// Convert from the 24-bit encoding.
    fn from_samp24(s: Samp24) -> (r: Self)
        ensures
            r.value() == recoded(s@, 24, Self::depth()),
    ;

    /// Convert to the 16-bit encoding.
    fn into_samp16(self) -> (r: Samp16)
        ensures
            r@ == recoded(self.value(), Self::depth(), 16),
    ;

    /// Convert to the 24-bit encoding.
    fn into_samp24(self) -> (r: Samp24)
        ensures
            r@ == recoded(self.value(), Self::depth(), 24),
    ;

    /// Linear interpolation toward `rhs` by the gain `t`.
    fn lerp(self, rhs: Self, t: Self) -> (r: Self)
        ensures
            r.value() == interpolation(self.value(), rhs.value(), t.value(), Self::depth()),
    ;
}

/// The ratio `num / den` times half of `scale`, rounded down, and limited
/// to what an `i32` holds; a ratio over nothing is as large as can be, in
/// the direction of its numerator times `scale`.
fn scaled_ratio(num: i64, den: u32, scale: i32) -> (v: i32)
    requires
        -0x0200_0000 <= scale <= 0x0200_0000,
    ensures
        den != 0 ==> v == saturate((scale * num) / (2 * den), -0x8000_0000, 0x7fff_ffff),
        den == 0 ==> v == if scale * num > 0 {
            0x7fff_ffffint
        } else if scale * num < 0 {
            -0x8000_0000int
        } else {
            0int
        },
{
    assert(-0x8000_0000_0000_0000 * 0x0200_0000 <= scale * num <= 0x8000_0000_0000_0000
        * 0x0200_0000) by (nonlinear_arith)
        requires
            -0x8000_0000_0000_0000 <= num <= 0x7fff_ffff_ffff_ffff,
            -0x0200_0000 <= scale <= 0x0200_0000,
    ;
    let product: i128 = scale as i128 * num as i128;
    if den == 0 {
        return if product > 0 {
            0x7fff_ffff
        } else if product < 0 {
            -0x8000_0000
        } else {
            0
        };
    }
    let divisor: i128 = 2 * den as i128;
    let floor: i128 = if product >= 0 {
        product / divisor
    } else {
        -((divisor - 1 - product) / divisor)
    };
    proof {
        let (p, d) = (product as int, divisor as int);
        if p < 0 {
            // Rounding the opposite number up and taking the opposite
            // rounds down.
            let up = (d - 1 - p) / d;
            vstd::arithmetic::div_mod::lemma_fundamental_div_mod(d - 1 - p, d);
            let rest = (d - 1 - p) % d;
            assert(p == (-up) * d + (d - 1 - rest)) by (nonlinear_arith)
                requires
                    d - 1 - p == d * up + rest,
            ;
            vstd::arithmetic::div_mod::lemma_fundamental_div_mod_converse(
                p,
                d,
                -up,
                d - 1 - rest,
            );
        }
        assert(floor == p / d);
    }
    if floor < -0x8000_0000 {
        -0x8000_0000
    } else if floor > 0x7fff_ffff {
        0x7fff_ffff
    } else {
        floor as i32
    }
}

/// A sample stands for a real number that gives the sample back: the code
/// of the ratio of a code is that code.
pub proof fn lemma_ratio_round_trip(v: int, depth: nat)
    requires
        lowest(depth) <= v <= highest(depth),
    ensures
        quantized(2 * v + 1, 2 * highest(depth) + 1, depth) == v,
        quantized(-1, 1, depth) == lowest(depth),
        quantized(1, 1, depth) == highest(depth),
        quantized(0, 1, depth) == 0,
{
    let h = 2 * highest(depth) + 1;
    assert((h * -1) / (2 * 1int) == lowest(depth));
    assert((h * 1) / (2 * 1int) == highest(depth));
    assert((h * 0) / (2 * 1int) == 0);
    assert((h * (2 * v + 1)) / (2 * h) == v) by {
        assert(h * (2 * v + 1) == v * (2 * h) + h) by (nonlinear_arith);
        vstd::arithmetic::div_mod::lemma_fundamental_div_mod_converse(
            h * (2 * v + 1),
            2 * h,
            v,
            h,
        );
    }
}

/// Convert a sample to another encoding.
pub fn convert<S: Sample, T: Sample>(s: S) -> (r: T)
    ensures
        r.value() == recoded(s.value(), S::depth(), T::depth()),
{
    proof {
        s.lemma_range();
        if S::depth() == 16 {
            lemma_promotion_is_lossless(s.value());
        }
    }
    let r = T::from_samp24(s.into_samp24());
    proof {
        r.lemma_range();
    }
    r
}

/// Promoting a 16-bit code and reducing the result gives the code back.
pub proof fn lemma_promotion_is_lossless(v: int)
    requires
        -32_768 <= v <= 32_767,
    ensures
        reduced(promoted(v)) == v,
        -8_388_608 <= promoted(v) <= 8_388_607,
{
}

/// A gain of one leaves a code as it is, and a gain of minus one negates
/// it: the real number that the negation of a code stands for is the
/// opposite of the real number that the code stands for.
pub proof fn lemma_unit_gains(v: int, depth: nat)
    requires
        lowest(depth) <= v <= highest(depth),
    ensures
        amplified(v, 1, 1, depth) == v,
        amplified(v, -1, 1, depth) == negation(v),
{
    assert(((2 * v + 1) * 1) / (2 * 1int) == v);
    assert(((2 * v + 1) * -1) / (2 * 1int) == -v - 1);
}

/// Negating a sample twice gives the sample back, and negation swaps the
/// lowest and the highest value of an encoding.
pub proof fn lemma_negation_symmetry<S: Sample>(x: S)
    ensures
        x.neg_spec().neg_spec() == x,
        negation(lowest(S::depth())) == highest(S::depth()),
        negation(highest(S::depth())) == lowest(S::depth()),
{
    S::lemma_arithmetic(x, x);
    S::lemma_arithmetic(x.neg_spec(), x);
    S::lemma_same_code(x.neg_spec().neg_spec(), x);
}

/// A sum, a difference and a product stay within the range of the encoding,
/// and a sum or a difference that fits in the range is exact.
pub proof fn lemma_saturation(a: int, b: int, depth: nat)
    ensures
        lowest(depth) <= sum(a, b, depth) <= highest(depth),
        lowest(depth) <= difference(a, b, depth) <= highest(depth),
        lowest(depth) <= product(a, b, depth) <= highest(depth),
        lowest(depth) <= a + b <= highest(depth) ==> sum(a, b, depth) == a + b,
        lowest(depth) <= a - b <= highest(depth) ==> difference(a, b, depth) == a - b,
        a + b > highest(depth) ==> sum(a, b, depth) == highest(depth),
        a + b < lowest(depth) ==> sum(a, b, depth) == lowest(depth),
{
}

/// 16-bit sample.
#[derive(Clone, Copy, Debug, PartialEq, Eq, Structural)]
pub struct Samp16(i16);

impl View for Samp16 {
    type V = int;

    closed spec fn view(&self) -> int {
        self.0 as int
    }
}

impl Samp16 {
    /// The sample that stores the code `v`, limited to the 16-bit range.
    pub closed spec fn of(v: int) -> Samp16 {
        Samp16(saturate(v, -32_768, 32_767) as i16)
    }

    /// A code is within the 16-bit range, and is the only one of its sample.
    pub broadcast proof fn lemma_view(self)
        ensures
            -32_768 <= #[trigger] self@ <= 32_767,
            Samp16::of(self@) == self,
    {
    }

    /// The sample of a code stores that code, limited to the 16-bit range.
    pub broadcast proof fn lemma_of(v: int)
        ensures
            #[trigger] Samp16::of(v)@ == saturate(v, -32_768, 32_767),
    {
    }

    /// Create a new 16-bit sample value.
    pub fn new(value: i16) -> (s: Self)
        ensures
            s@ == value,
            s == Samp16::of(value as int),
    {
        Self(value)
    }
}

impl Default for Samp16 {
    fn default() -> (s: Self)
        ensures
            s@ == 0,
    {
        Samp16(0)
    }
}

impl From<Samp24> for Samp16 {
    fn from(ch: Samp24) -> (s: Samp16)
        ensures
            s@ == reduced(ch@),
    {
        Samp16(ch.0)
    }
}

impl FromSpecImpl<Samp24> for Samp16 {
    open spec fn obeys_from_spec() -> bool {
        true
    }

    closed spec fn from_spec(ch: Samp24) -> Samp16 {
        Samp16(ch.0)
    }
}

impl From<Samp16> for i16 {
    fn from(ch: Samp16) -> (v: i16)
        ensures
            v == ch@,
    {
        ch.0
    }
}

impl FromSpecImpl<Samp16> for i16 {
    open spec fn obeys_from_spec() -> bool {
        true
    }

    closed spec fn from_spec(ch: Samp16) -> i16 {
        ch.0
    }
}

impl Add for Samp16 {
    type Output = Samp16;

    fn add(self, rhs: Samp16) -> (r: Samp16)
        ensures
            r@ == sum(self@, rhs@, 16),
    {
        let v: i32 = self.0 as i32 + rhs.0 as i32;
        if v < -32_768 {
            Samp16(-32_768)
        } else if v > 32_767 {
            Samp16(32_767)
        } else {
            Samp16(v as i16)
        }
    }
}

impl AddSpecImpl for Samp16 {
    open spec fn obeys_add_spec() -> bool {
        true
    }

    open spec fn add_req(self, rhs: Samp16) -> bool {
        true
    }

    closed spec fn add_spec(self, rhs: Samp16) -> Samp16 {
        Samp16(sum(self.0 as int, rhs.0 as int, 16) as i16)
    }
}

impl Sub for Samp16 {
    type Output = Samp16;

    fn sub(self, rhs: Samp16) -> (r: Samp16)
        ensures
            r@ == difference(self@, rhs@, 16),
    {
        let v: i32 = self.0 as i32 - rhs.0 as i32;
        if v < -32_768 {
            Samp16(-32_768)
        } else if v > 32_767 {
            Samp16(32_767)
        } else {
            Samp16(v as i16)
        }
    }
}

impl SubSpecImpl for Samp16 {
    open spec fn obeys_sub_spec() -> bool {
        true
    }

    open spec fn sub_req(self, rhs: Samp16) -> bool {
        true
    }

    closed spec fn sub_spec(self, rhs: Samp16) -> Samp16 {
        Samp16(difference(self.0 as int, rhs.0 as int, 16) as i16)
    }
}

impl Mul for Samp16 {
    type Output = Samp16;

    fn mul(self, rhs: Samp16) -> (r: Samp16)
        ensures
            r@ == product(self@, rhs@, 16),
    {
        let l: i32 = self.0 as i32;
        let r: i32 = rhs.0 as i32;
        assert(-1_073_741_824 < l * r <= 1_073_741_824) by (nonlinear_arith)
            requires
                -32_768 <= l <= 32_767,
                -32_768 <= r <= 32_767,
        ;
        let v: i32 = (l * r) / 32_767;
        if v < -32_768 {
            Samp16(-32_768)
        } else if v > 32_767 {
            Samp16(32_767)
        } else {
            Samp16(v as i16)
        }
    }
}

impl MulSpecImpl for Samp16 {
    open spec fn obeys_mul_spec() -> bool {
        true
    }

    open spec fn mul_req(self, rhs: Samp16) -> bool {
        true
    }

    closed spec fn mul_spec(self, rhs: Samp16) -> Samp16 {
        Samp16(product(self.0 as int, rhs.0 as int, 16) as i16)
    }
}

impl Neg for Samp16 {
    type Output = Samp16;

    fn neg(self) -> (r: Samp16)
        ensures
            r@ == negation(self@),
    {
        Samp16(-1 - self.0)
    }
}

impl NegSpecImpl for Samp16 {
    open spec fn obeys_neg_spec() -> bool {
        true
    }

    open spec fn neg_req(self) -> bool {
        true
    }

    closed spec fn neg_spec(self) -> Samp16 {
        Samp16(negation(self.0 as int) as i16)
    }
}

impl AddAssign for Samp16 {
    fn add_assign(&mut self, rhs: Samp16)
        ensures
            final(self)@ == sum(old(self)@, rhs@, 16),
    {
        *self = *self + rhs;
    }
}

impl SubAssign for Samp16 {
    fn sub_assign(&mut self, rhs: Samp16)
        ensures
            final(self)@ == difference(old(self)@, rhs@, 16),
    {
        *self = *self - rhs;
    }
}

impl MulAssign for Samp16 {
    fn mul_assign(&mut self, rhs: Samp16)
        ensures
            final(self)@ == product(old(self)@, rhs@, 16),
    {
        *self = *self * rhs;
    }
}

impl PartialOrd for Samp16 {
    fn partial_cmp(&self, other: &Samp16) -> (r: Option<Ordering>) {
        if self.0 < other.0 {
            Some(Ordering::Less)
        } else if self.0 > other.0 {
            Some(Ordering::Greater)
        } else {
            Some(Ordering::Equal)
        }
    }
}

impl PartialOrdSpecImpl for Samp16 {
    open spec fn obeys_partial_cmp_spec() -> bool {
        true
    }

    open spec fn partial_cmp_spec(&self, other: &Samp16) -> Option<Ordering> {
        if self@ < other@ {
            Some(Ordering::Less)
        } else if self@ > other@ {
            Some(Ordering::Greater)
        } else {
            Some(Ordering::Equal)
        }
    }
}

impl Sample for Samp16 {
    open spec fn value(self) -> int {
        self@
    }

    open spec fn depth() -> nat {
        16
    }

    proof fn lemma_range(self) {
    }

    proof fn lemma_same_code(a: Self, b: Self) {
    }

    proof fn lemma_arithmetic(a: Self, b: Self) {
    }

    fn min_value() -> (s: Self) {
        Samp16(-32_768)
    }

    fn mid_value() -> (s: Self) {
        Samp16(0)
    }

    fn max_value() -> (s: Self) {
        Samp16(32_767)
    }

    fn code(self) -> (v: i32) {
        self.0 as i32
    }

    fn from_code(v: i32) -> (r: Self) {
        if v < -32_768 {
            Samp16(-32_768)
        } else if v > 32_767 {
            Samp16(32_767)
        } else {
            Samp16(v as i16)
        }
    }

    fn as_ratio(self) -> (r: (i32, u32)) {
        (2 * (self.0 as i32) + 1, 65_535)
    }

    fn from_ratio(num: i64, den: u32) -> (r: Self) {
        Samp16::from_code(scaled_ratio(num, den, 65_535))
    }

    fn gain(self, num: i64, den: u32) -> (r: Self) {
        Samp16::from_code(scaled_ratio(num, den, 2 * (self.0 as i32) + 1))
    }

    fn from_samp16(s: Samp16) -> (r: Self) {
        s
    }

    fn from_samp24(s: Samp24) -> (r: Self) {
        Samp16::from(s)
    }

    fn into_samp16(self) -> (r: Samp16) {
        self
    }

    fn into_samp24(self) -> (r: Samp24) {
        Samp24::from(self)
    }

    fn lerp(self, rhs: Self, t: Self) -> (r: Self) {
        self + t * (rhs - self)
    }
}

/// 24-bit sample, held as the upper two bytes and the low byte of its code.
#[derive(Clone, Copy, Debug, PartialEq, Eq, Structural)]
pub struct Samp24(i16, u8);

impl View for Samp24 {
    type V = int;

    closed spec fn view(&self) -> int {
        self.0 * 256 + self.1
    }
}

impl Samp24 {
    /// The sample that stores the code `v`, limited to the 24-bit range.
    pub closed spec fn of(v: int) -> Samp24 {
        let c = saturate(v, -8_388_608, 8_388_607);
        Samp24((c / 256) as i16, (c % 256) as u8)
    }

    /// The upper two bytes of the code, as a signed number.
    pub closed spec fn high(self) -> int {
        self.0 as int
    }

    /// The low byte of the code.
    pub closed spec fn low(self) -> int {
        self.1 as int
    }

    /// A code is within the 24-bit range, is made of its two parts, and is
    /// the only one of its sample.
    pub broadcast proof fn lemma_view(self)
        ensures
            -8_388_608 <= #[trigger] self@ <= 8_388_607,
            self@ == self.high() * 256 + self.low(),
            -32_768 <= self.high() <= 32_767,
            0 <= self.low() <= 255,
            Samp24::of(self@) == self,
    {
    }

    /// The sample of a code stores that code, limited to the 24-bit range.
    pub broadcast proof fn lemma_of(v: int)
        ensures
            #[trigger] Samp24::of(v)@ == saturate(v, -8_388_608, 8_388_607),
    {
    }

    /// Create a new 24-bit sample value.  A value outside the 24-bit range
    /// is limited to it.
    pub fn new(value: i32) -> (s: Self)
        ensures
            s@ == saturate(value as int, -8_388_608, 8_388_607),
            s == Samp24::of(value as int),
    {
        let value: i32 = if value < -8_388_608 {
            -8_388_608
        } else if value > 8_388_607 {
            8_388_607
        } else {
            value
        };
        let shifted: i32 = value + 8_388_608;
        Self((shifted / 256 - 32_768) as i16, (shifted % 256) as u8)
    }
}

/// The 24-bit code that three bytes hold, the low byte first.
pub open spec fn le_code(low: u8, middle: u8, high: u8) -> int {
    low + 256 * middle + 65_536 * high - if high >= 128 {
        16_777_216int
    } else {
        0
    }
}

impl Samp24 {
    /// The three bytes of the sample, the low byte first.
    pub fn to_le_bytes(self) -> (bytes: [u8; 3])
        ensures
            le_code(bytes@[0], bytes@[1], bytes@[2]) == self@,
    {
        let upper: i32 = self.0 as i32 + 32_768;
        let high: u8 = if upper >= 32_768 {
            ((upper - 32_768) / 256) as u8
        } else {
            ((upper + 32_768) / 256) as u8
        };
        [self.1, (upper % 256) as u8, high]
    }

    /// The sample of three bytes, the low byte first.
    pub fn from_le_bytes(bytes: [u8; 3]) -> (s: Self)
        ensures
            s@ == le_code(bytes@[0], bytes@[1], bytes@[2]),
    {
        let upper: i32 = bytes[1] as i32 + 256 * (bytes[2] as i32);
        let upper: i32 = if upper >= 32_768 {
            upper - 65_536
        } else {
            upper
        };
        Samp24(upper as i16, bytes[0])
    }
}

impl Default for Samp24 {
    fn default() -> (s: Self)
        ensures
            s@ == 0,
    {
        Samp24(0, 0)
    }
}

impl From<Samp16> for Samp24 {
    fn from(ch: Samp16) -> (s: Samp24)
        ensures
            s@ == promoted(ch@),
            s.high() == ch@,
            s.low() == (ch@ + 32_768) / 256,
    {
        Samp24(ch.0, ((ch.0 as i32 + 32_768) / 256) as u8)
    }
}

impl FromSpecImpl<Samp16> for Samp24 {
    open spec fn obeys_from_spec() -> bool {
        true
    }

    closed spec fn from_spec(ch: Samp16) -> Samp24 {
        Samp24(ch.0, ((ch.0 + 32_768) / 256) as u8)
    }
}

impl From<Samp24> for i32 {
    fn from(ch: Samp24) -> (v: i32)
        ensures
            v == ch@,
    {
        ch.0 as i32 * 256 + ch.1 as i32
    }
}

impl FromSpecImpl<Samp24> for i32 {
    open spec fn obeys_from_spec() -> bool {
        true
    }

    closed spec fn from_spec(ch: Samp24) -> i32 {
        (ch.0 * 256 + ch.1) as i32
    }
}

impl Add for Samp24 {
    type Output = Samp24;

    fn add(self, rhs: Samp24) -> (r: Samp24)
        ensures
            r@ == sum(self@, rhs@, 24),
    {
        Samp24::new(i32::from(self) + i32::from(rhs))
    }
}

impl AddSpecImpl for Samp24 {
    open spec fn obeys_add_spec() -> bool {
        true
    }

    open spec fn add_req(self, rhs: Samp24) -> bool {
        true
    }

    closed spec fn add_spec(self, rhs: Samp24) -> Samp24 {
        Samp24::of(self@ + rhs@)
    }
}

impl Sub for Samp24 {
    type Output = Samp24;

    fn sub(self, rhs: Samp24) -> (r: Samp24)
        ensures
            r@ == difference(self@, rhs@, 24),
    {
        Samp24::new(i32::from(self) - i32::from(rhs))
    }
}

impl SubSpecImpl for Samp24 {
    open spec fn obeys_sub_spec() -> bool {
        true
    }

    open spec fn sub_req(self, rhs: Samp24) -> bool {
        true
    }

    closed spec fn sub_spec(self, rhs: Samp24) -> Samp24 {
        Samp24::of(self@ - rhs@)
    }
}

impl Mul for Samp24 {
    type Output = Samp24;

    fn mul(self, rhs: Samp24) -> (r: Samp24)
        ensures
            r@ == product(self@, rhs@, 24),
    {
        let l: i64 = i32::from(self) as i64;
        let r: i64 = i32::from(rhs) as i64;
        assert(-70_368_744_177_664 < l * r <= 70_368_744_177_664) by (nonlinear_arith)
            requires
                -8_388_608 <= l <= 8_388_607,
                -8_388_608 <= r <= 8_388_607,
        ;
        let v: i64 = (l * r) / 8_388_607;
        if v < -8_388_608 {
            Samp24::new(-8_388_608)
        } else if v > 8_388_607 {
            Samp24::new(8_388_607)
        } else {
            Samp24::new(v as i32)
        }
    }
}

impl MulSpecImpl for Samp24 {
    open spec fn obeys_mul_spec() -> bool {
        true
    }

    open spec fn mul_req(self, rhs: Samp24) -> bool {
        true
    }

    closed spec fn mul_spec(self, rhs: Samp24) -> Samp24 {
        Samp24::of(quotient(self@ * rhs@, 8_388_607))
    }
}

impl Neg for Samp24 {
    type Output = Samp24;

    fn neg(self) -> (r: Samp24)
        ensures
            r@ == negation(self@),
    {
        Samp24::new(-1 - i32::from(self))
    }
}

impl NegSpecImpl for Samp24 {
    open spec fn obeys_neg_spec() -> bool {
        true
    }

    open spec fn neg_req(self) -> bool {
        true
    }

    closed spec fn neg_spec(self) -> Samp24 {
        Samp24::of(negation(self@))
    }
}

impl AddAssign for Samp24 {
    fn add_assign(&mut self, rhs: Samp24)
        ensures
            final(self)@ == sum(old(self)@, rhs@, 24),
    {
        *self = *self + rhs;
    }
}

impl SubAssign for Samp24 {
    fn sub_assign(&mut self, rhs: Samp24)
        ensures
            final(self)@ == difference(old(self)@, rhs@, 24),
    {
        *self = *self - rhs;
    }
}

impl MulAssign for Samp24 {
    fn mul_assign(&mut self, rhs: Samp24)
        ensures
            final(self)@ == product(old(self)@, rhs@, 24),
    {
        *self = *self * rhs;
    }
}

impl PartialOrd for Samp24 {
    fn partial_cmp(&self, other: &Samp24) -> (r: Option<Ordering>) {
        if self.0 < other.0 || (self.0 == other.0 && self.1 < other.1) {
            Some(Ordering::Less)
        } else if self.0 > other.0 || (self.0 == other.0 && self.1 > other.1) {
            Some(Ordering::Greater)
        } else {
            Some(Ordering::Equal)
        }
    }
}

impl PartialOrdSpecImpl for Samp24 {
    open spec fn obeys_partial_cmp_spec() -> bool {
        true
    }

    open spec fn partial_cmp_spec(&self, other: &Samp24) -> Option<Ordering> {
        if self@ < other@ {
            Some(Ordering::Less)
        } else if self@ > other@ {
            Some(Ordering::Greater)
        } else {
            Some(Ordering::Equal)
        }
    }
}

impl Sample for Samp24 {
    open spec fn value(self) -> int {
        self@
    }

    open spec fn depth() -> nat {
        24
    }

    proof fn lemma_range(self) {
    }

    proof fn lemma_same_code(a: Self, b: Self) {
    }

    proof fn lemma_arithmetic(a: Self, b: Self) {
    }

    fn min_value() -> (s: Self) {
        Samp24(-32_768, 0)
    }

    fn mid_value() -> (s: Self) {
        Samp24(0, 0)
    }

    fn max_value() -> (s: Self) {
        Samp24(32_767, 255)
    }

    fn code(self) -> (v: i32) {
        i32::from(self)
    }

    fn from_code(v: i32) -> (r: Self) {
        Samp24::new(v)
    }

    fn as_ratio(self) -> (r: (i32, u32)) {
        (2 * i32::from(self) + 1, 16_777_215)
    }

    fn from_ratio(num: i64, den: u32) -> (r: Self) {
        Samp24::new(scaled_ratio(num, den, 16_777_215))
    }

    fn gain(self, num: i64, den: u32) -> (r: Self) {
        Samp24::new(scaled_ratio(num, den, 2 * i32::from(self) + 1))
    }

    fn from_samp16(s: Samp16) -> (r: Self) {
        Samp24::from(s)
    }

    fn from_samp24(s: Samp24) -> (r: Self) {
        s
    }

    fn into_samp16(self) -> (r: Samp16) {
        Samp16::from(self)
    }

    fn into_samp24(self) -> (r: Samp24) {
        self
    }

    fn lerp(self, rhs: Self, t: Self) -> (r: Self) {
        self + t * (rhs - self)
    }
}

} // verus!
