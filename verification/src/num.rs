//! Fixed width unsigned integers (256 and 512 bits) and the Q128.128 fixed point decimal built on them.
use vstd::arithmetic::power2::{lemma2_to64, lemma_pow2_adds, pow2};
use vstd::prelude::*;

verus! {

/// 2^64
pub open spec fn w64() -> nat {
    0x1_0000_0000_0000_0000nat
}

/// 2^128
pub open spec fn w128() -> nat {
    0x1_0000_0000_0000_0000_0000_0000_0000_0000nat
}

/// 2^192
pub open spec fn w192() -> nat {
    0x1_0000_0000_0000_0000_0000_0000_0000_0000_0000_0000_0000_0000nat
}

/// 2^256
pub open spec fn w256() -> nat {
    0x1_0000_0000_0000_0000_0000_0000_0000_0000_0000_0000_0000_0000_0000_0000_0000_0000nat
}

/// 2^512
pub open spec fn w512() -> nat {
    0x1_0000_0000_0000_0000_0000_0000_0000_0000_0000_0000_0000_0000_0000_0000_0000_0000_0000_0000_0000_0000_0000_0000_0000_0000_0000_0000_0000_0000_0000_0000_0000_0000nat
}

/// A 256-bit unsigned integer, held as four 64-bit words, least significant first.
#[derive(Debug, Clone, Copy)]
pub struct U256 {
    pub words: [u64; 4],
}

/// A 512-bit unsigned integer, held as eight 64-bit words, least significant first.
#[derive(Debug, Clone, Copy)]
pub struct U512 {
    pub words: [u64; 8],
}

/// The number held by four little-endian 64-bit words.
pub open spec fn words4_value(w: Seq<u64>) -> nat {
    (w[0] + w[1] * w64() + w[2] * w128() + w[3] * w192()) as nat
}

/// The number held by eight little-endian 64-bit words.
pub open spec fn words8_value(w: Seq<u64>) -> nat {
    (words4_value(w) + words4_value(w.subrange(4, 8)) * w256()) as nat
}

/// The number that big-endian bytes represent.
pub open spec fn be_bytes_value(bytes: Seq<u8>) -> nat
    decreases bytes.len(),
{
    if bytes.len() == 0 {
        0
    } else {
        be_bytes_value(bytes.drop_last()) * 256 + bytes.last() as nat
    }
}

impl U256 {
    /// The number this value represents.
    pub open spec fn value(self) -> nat {
        words4_value(self.words@)
    }
}

impl U512 {
    /// The number this value represents.
    pub open spec fn value(self) -> nat {
        words8_value(self.words@)
    }
}

/// Four words hold less than 2^256.
pub proof fn lemma_u256_bound(x: U256)
    ensures
        x.value() < w256(),
{
    let w = x.words@;
    let (a, b, c, d) = (w[0] as int, w[1] as int, w[2] as int, w[3] as int);
    assert(a + b * 0x1_0000_0000_0000_0000int + c * 0x1_0000_0000_0000_0000_0000_0000_0000_0000int
        + d * 0x1_0000_0000_0000_0000_0000_0000_0000_0000_0000_0000_0000_0000int
        < 0x1_0000_0000_0000_0000_0000_0000_0000_0000_0000_0000_0000_0000_0000_0000_0000_0000int)
        by (nonlinear_arith)
        requires
            0 <= a < 0x1_0000_0000_0000_0000int,
            0 <= b < 0x1_0000_0000_0000_0000int,
            0 <= c < 0x1_0000_0000_0000_0000int,
            0 <= d < 0x1_0000_0000_0000_0000int,
    ;
}

/// Eight words hold less than 2^512.
pub proof fn lemma_u512_bound(x: U512)
    ensures
        x.value() < w512(),
{
    let w = x.words@;
    let lo = words4_value(w);
    let hi = words4_value(w.subrange(4, 8));
    lemma_u256_bound(U256 { words: [w[0], w[1], w[2], w[3]] });
    assert(lo == U256 { words: [w[0], w[1], w[2], w[3]] }.value());
    lemma_u256_bound(U256 { words: [w[4], w[5], w[6], w[7]] });
    assert(hi == U256 { words: [w[4], w[5], w[6], w[7]] }.value());
    assert(lo + hi * w256() < w512()) by (nonlinear_arith)
        requires
            lo < w256(),
            hi < w256(),
            w512() == w256() * w256(),
    ;
}

/// The powers of two that the fixed point arithmetic shifts by.
pub proof fn lemma_pow2_words()
    ensures
        pow2(64) == w64(),
        pow2(128) == w128(),
        pow2(256) == w256(),
{
    lemma2_to64();
    lemma_pow2_adds(64, 64);
    lemma_pow2_adds(128, 128);
    assert(w128() * w128() == w256()) by (nonlinear_arith);
}

/// The integer part of a fixed point value fits a `u128`.
pub proof fn lemma_fixed_floor_bound(x: FixedU256)
    ensures
        x.raw_value() / w128() < w128(),
{
    lemma_u256_bound(x.0);
    assert(x.raw_value() / w128() < w128()) by (nonlinear_arith)
        requires
            x.raw_value() < w256(),
            w256() == w128() * w128(),
            w128() > 0,
    ;
}

// ---------------------------------------------------------------------------------------------
// Trusted items: the arithmetic of `primitive_types` (the `uint` crate's 256 and 512-bit integers)
// ---------------------------------------------------------------------------------------------

/// `primitive_types::U256::from(u128)`: places the number in the two low words.
#[verifier::external_body]
fn u256_from_u128(x: u128) -> (r: U256)
    ensures
        r.value() == x,
{
    U256 { words: primitive_types::U256::from(x).0 }
}

/// `primitive_types::U256::zero()`.
#[verifier::external_body]
fn u256_zero() -> (r: U256)
    ensures
        r.value() == 0,
{
    U256 { words: primitive_types::U256::zero().0 }
}

/// `primitive_types::U256::is_zero`.
#[verifier::external_body]
fn u256_is_zero(x: U256) -> (r: bool)
    ensures
        r == (x.value() == 0),
{
    primitive_types::U256(x.words).is_zero()
}

/// `<primitive_types::U256 as PartialEq>::eq`: equal words.
#[verifier::external_body]
fn u256_eq(x: U256, y: U256) -> (r: bool)
    ensures
        r == (x.value() == y.value()),
{
    primitive_types::U256(x.words) == primitive_types::U256(y.words)
}

/// `<primitive_types::U256 as PartialOrd>::lt`: numeric order.
#[verifier::external_body]
fn u256_lt(x: U256, y: U256) -> (r: bool)
    ensures
        r == (x.value() < y.value()),
{
    primitive_types::U256(x.words) < primitive_types::U256(y.words)
}

/// `primitive_types::U256::checked_add`: `None` exactly when the sum does not fit 256 bits.
#[verifier::external_body]
fn u256_checked_add(x: U256, y: U256) -> (r: Option<U256>)
    ensures
        r is Some <==> x.value() + y.value() < w256(),
        r matches Some(s) ==> s.value() == x.value() + y.value(),
{
    primitive_types::U256(x.words).checked_add(primitive_types::U256(y.words)).map(|v| U256 { words: v.0 })
}

/// `primitive_types::U256::checked_sub`: `None` exactly when `y > x`.
#[verifier::external_body]
fn u256_checked_sub(x: U256, y: U256) -> (r: Option<U256>)
    ensures
        r is Some <==> y.value() <= x.value(),
        r matches Some(d) ==> d.value() == x.value() - y.value(),
{
    primitive_types::U256(x.words).checked_sub(primitive_types::U256(y.words)).map(|v| U256 { words: v.0 })
}

/// `primitive_types::U256::abs_diff`.
#[verifier::external_body]
fn u256_abs_diff(x: U256, y: U256) -> (r: U256)
    ensures
        r.value() == if x.value() >= y.value() {
            x.value() - y.value()
        } else {
            y.value() - x.value()
        },
{
    U256 { words: primitive_types::U256(x.words).abs_diff(primitive_types::U256(y.words)).0 }
}

/// `<primitive_types::U256 as Shl<u32>>::shl`: bits moved past the top are lost.
#[verifier::external_body]
fn u256_shl(x: U256, shift: u32) -> (r: U256)
    ensures
        r.value() == (x.value() * pow2(shift as nat)) % w256(),
{
    U256 { words: (primitive_types::U256(x.words) << shift).0 }
}

/// `<primitive_types::U256 as Shr<u32>>::shr`: floor division by a power of two.
#[verifier::external_body]
fn u256_shr(x: U256, shift: u32) -> (r: U256)
    ensures
        r.value() == x.value() / pow2(shift as nat),
{
    U256 { words: (primitive_types::U256(x.words) >> shift).0 }
}

/// `<u128 as TryFrom<primitive_types::U256>>::try_from`: fails exactly when the value needs more than 128 bits.
#[verifier::external_body]
fn u256_try_into_u128(x: U256) -> (r: Option<u128>)
    ensures
        r is Some <==> x.value() < w128(),
        r matches Some(v) ==> v == x.value(),
{
    u128::try_from(primitive_types::U256(x.words)).ok()
}

/// `primitive_types::U256::from_big_endian`.
#[verifier::external_body]
fn u256_from_big_endian(bytes: [u8; 32]) -> (r: U256)
    ensures
        r.value() == be_bytes_value(bytes@),
{
    U256 { words: primitive_types::U256::from_big_endian(&bytes).0 }
}

/// `primitive_types::U256::to_big_endian`: writes the 32 big-endian bytes of the value.
#[verifier::external_body]
fn u256_to_big_endian(x: U256, bytes: &mut [u8; 32])
    ensures
        be_bytes_value(final(bytes)@) == x.value(),
{
    primitive_types::U256(x.words).to_big_endian(bytes)
}

/// `primitive_types::U512::checked_mul`: `None` exactly when the product does not fit 512 bits.
#[verifier::external_body]
fn u512_checked_mul(x: U512, y: U512) -> (r: Option<U512>)
    ensures
        r is Some <==> x.value() * y.value() < w512(),
        r matches Some(p) ==> p.value() == x.value() * y.value(),
{
    primitive_types::U512(x.words).checked_mul(primitive_types::U512(y.words)).map(|v| U512 { words: v.0 })
}

/// `primitive_types::U512::checked_div`: `None` exactly when dividing by zero, otherwise the floor quotient.
#[verifier::external_body]
fn u512_checked_div(x: U512, y: U512) -> (r: Option<U512>)
    ensures
        r is Some <==> y.value() != 0,
        r matches Some(q) ==> q.value() == x.value() / y.value(),
{
    primitive_types::U512(x.words).checked_div(primitive_types::U512(y.words)).map(|v| U512 { words: v.0 })
}

/// `<primitive_types::U512 as Shl<u32>>::shl`: bits moved past the top are lost.
#[verifier::external_body]
fn u512_shl(x: U512, shift: u32) -> (r: U512)
    ensures
        r.value() == (x.value() * pow2(shift as nat)) % w512(),
{
    U512 { words: (primitive_types::U512(x.words) << shift).0 }
}

/// `<primitive_types::U512 as Shr<u32>>::shr`: floor division by a power of two.
#[verifier::external_body]
fn u512_shr(x: U512, shift: u32) -> (r: U512)
    ensures
        r.value() == x.value() / pow2(shift as nat),
{
    U512 { words: (primitive_types::U512(x.words) >> shift).0 }
}

// ---------------------------------------------------------------------------------------------
// U256
// ---------------------------------------------------------------------------------------------

/// A 512-bit value does not fit 256 bits.
#[derive(Debug, Clone, Copy)]
pub struct OverflowError;

impl U512 {
    /// Widens a 256-bit value: its words, then four zero words.
    pub fn from_u256(value: U256) -> (r: U512)
        ensures
            r.value() == value.value(),
    {
        let w = value.words;
        let r = U512 { words: [w[0], w[1], w[2], w[3], 0, 0, 0, 0] };
        assert(r.words@.subrange(4, 8) =~= seq![0u64, 0u64, 0u64, 0u64]);
        r
    }
}

impl U256 {
    /// Narrows a 512-bit value: its four low words, or `OverflowError` when a high word is set, that is when the
    /// value needs more than 256 bits.
    pub fn try_from_u512(value: U512) -> (r: Result<U256, OverflowError>)
        ensures
            r is Ok <==> value.value() < w256(),
            r matches Ok(v) ==> v.value() == value.value(),
    {
        let w = value.words;
        let ghost lo = words4_value(w@);
        let ghost hi = words4_value(w@.subrange(4, 8));
        assert(hi == w[4] + w[5] * w64() + w[6] * w128() + w[7] * w192());
        proof {
            lemma_u256_bound(U256 { words: [w[0], w[1], w[2], w[3]] });
            assert(lo == U256 { words: [w[0], w[1], w[2], w[3]] }.value());
            assert(w[5] * w64() >= 0 && w[6] * w128() >= 0 && w[7] * w192() >= 0) by (nonlinear_arith);
        }
        if w[4] != 0 || w[5] != 0 || w[6] != 0 || w[7] != 0 {
            proof {
                assert(hi >= 1) by (nonlinear_arith)
                    requires
                        hi == w[4] + w[5] * w64() + w[6] * w128() + w[7] * w192(),
                        w[4] != 0 || w[5] != 0 || w[6] != 0 || w[7] != 0,
                        w64() > 0,
                        w128() > 0,
                        w192() > 0,
                ;
                assert(hi * w256() >= w256()) by (nonlinear_arith)
                    requires
                        hi >= 1,
                ;
            }
            return Err(OverflowError);
        }
        let r = U256 { words: [w[0], w[1], w[2], w[3]] };
        Ok(r)
    }
}

impl U256 {
    /// The number zero.
    pub fn zero() -> (r: U256)
        ensures
            r.value() == 0,
    {
        u256_zero()
    }

    /// Widens a `u128`.
    pub fn from_u128(x: u128) -> (r: U256)
        ensures
            r.value() == x,
    {
        u256_from_u128(x)
    }

    /// True when the value is zero.
    pub fn is_zero(self) -> (r: bool)
        ensures
            r == (self.value() == 0),
    {
        u256_is_zero(self)
    }

    /// Narrows to a `u128`, `None` when the value needs more than 128 bits.
    pub fn try_into_u128(self) -> (r: Option<u128>)
        ensures
            r is Some <==> self.value() < w128(),
            r matches Some(v) ==> v == self.value(),
    {
        u256_try_into_u128(self)
    }

    /// Reads 32 big-endian bytes.
    pub fn from_be_bytes(be_bytes: [u8; 32]) -> (r: U256)
        ensures
            r.value() == be_bytes_value(be_bytes@),
    {
        u256_from_big_endian(be_bytes)
    }

    /// The 32 big-endian bytes of the value.
    pub fn to_be_bytes(self) -> (r: [u8; 32])
        ensures
            be_bytes_value(r@) == self.value(),
    {
        let mut u256_be_bytes = [0u8; 32];
        u256_to_big_endian(self, &mut u256_be_bytes);
        u256_be_bytes
    }

    /// `self * mul / div` rounded down, `None` when `div` is zero or the quotient needs more than 256 bits.
    pub fn checked_mul_div(self, mul: u128, div: u128) -> (r: Option<U256>)
        ensures
            r is Some <==> div != 0 && self.value() * mul / (div as int) < w256(),
            r matches Some(q) ==> div != 0 && q.value() == self.value() * mul / (div as int),
    {
        let lhs = U512::from_u256(self);
        let rhs = U512::from_u256(u256_from_u128(mul));
        proof {
            lemma_u256_bound(self);
            assert(self.value() * mul <= self.value() * w128()) by (nonlinear_arith)
                requires
                    mul < w128(),
            ;
            assert(self.value() * w128() < w512()) by (nonlinear_arith)
                requires
                    self.value() < w256(),
                    w128() < w256(),
                    w512() == w256() * w256(),
            ;
        }
        let product = match u512_checked_mul(lhs, rhs) {
            Some(p) => p,
            None => {
                return None;
            },
        };
        let quotient = match u512_checked_div(product, U512::from_u256(u256_from_u128(div))) {
            Some(q) => q,
            None => {
                return None;
            },
        };
        match U256::try_from_u512(quotient) {
            Ok(q) => Some(q),
            Err(_) => None,
        }
    }
}

// ---------------------------------------------------------------------------------------------
// FixedU256: an unsigned Q128.128 fixed point decimal
// ---------------------------------------------------------------------------------------------

/// The number of fraction bits of a `FixedU256`.
pub const FRAC_BITS: u32 = 128;

/// An unsigned fixed point decimal with 128 integer bits and 128 fraction bits.
/// A raw value `r` stands for the rational `r / 2^128`.
#[derive(Debug, Clone, Copy)]
pub struct FixedU256(U256);

impl PartialEq for FixedU256 {
    fn eq(&self, other: &Self) -> (r: bool) {
        u256_eq(self.0, other.0)
    }
}

impl vstd::std_specs::cmp::PartialEqSpecImpl for FixedU256 {
    open spec fn obeys_eq_spec() -> bool {
        true
    }

    open spec fn eq_spec(&self, other: &Self) -> bool {
        self.raw_value() == other.raw_value()
    }
}

/// `Some(x)` of a raw value when it fits 256 bits, otherwise `None`.
pub open spec fn fits_u256(x: nat) -> Option<nat> {
    if x < w256() {
        Some(x)
    } else {
        None
    }
}

/// The raw value of the product of two fixed point raw values, `None` on overflow.
pub open spec fn fixed_mul(a: nat, b: nat) -> Option<nat> {
    if a == 0 || b == 0 {
        Some(0)
    } else {
        fits_u256(a * b / w128())
    }
}

/// The raw value of the quotient of two fixed point raw values, `None` on overflow or division by zero.
pub open spec fn fixed_div(a: nat, b: nat) -> Option<nat> {
    if a == 0 {
        Some(0)
    } else if b == 0 {
        None
    } else {
        fits_u256(a * w128() / b)
    }
}

impl FixedU256 {
    /// The raw value, the numerator over 2^128.
    pub closed spec fn raw_value(self) -> nat {
        self.0.value()
    }

    /// Wraps a raw value.
    pub fn raw(x: U256) -> (r: Self)
        ensures
            r.raw_value() == x.value(),
    {
        Self(x)
    }

    /// The raw value.
    pub fn into_raw(self) -> (r: U256)
        ensures
            r.value() == self.raw_value(),
    {
        self.0
    }

    /// Zero.
    pub fn zero() -> (r: Self)
        ensures
            r.raw_value() == 0,
    {
        Self(U256::zero())
    }

    /// True when the value is zero.
    pub fn is_zero(self) -> (r: bool)
        ensures
            r == (self.raw_value() == 0),
    {
        self.0.is_zero()
    }

    /// The integer `x` as a fixed point decimal.
    pub fn from_u128(x: u128) -> (r: Self)
        ensures
            r.raw_value() == x * w128(),
    {
        let v = u256_shl(u256_from_u128(x), FRAC_BITS);
        proof {
            lemma_pow2_words();
            assert(x * w128() < w256()) by (nonlinear_arith)
                requires
                    x < w128(),
                    w256() == w128() * w128(),
            ;
            vstd::arithmetic::div_mod::lemma_small_mod((x * w128()) as nat, w256());
        }
        Self(v)
    }

    /// Numeric equality.
    pub fn equals(self, other: Self) -> (r: bool)
        ensures
            r == (self.raw_value() == other.raw_value()),
    {
        u256_eq(self.0, other.0)
    }

    /// Numeric order: `self < other`.
    pub fn lt(self, other: Self) -> (r: bool)
        ensures
            r == (self.raw_value() < other.raw_value()),
    {
        u256_lt(self.0, other.0)
    }

    /// Sum, `None` on overflow.
    pub fn checked_add(self, rhs: Self) -> (r: Option<Self>)
        ensures
            r is Some <==> self.raw_value() + rhs.raw_value() < w256(),
            r matches Some(s) ==> s.raw_value() == self.raw_value() + rhs.raw_value(),
    {
        match u256_checked_add(self.0, rhs.0) {
            Some(v) => Some(Self(v)),
            None => None,
        }
    }

    /// Difference, `None` when `rhs > self`.
    pub fn checked_sub(self, rhs: Self) -> (r: Option<Self>)
        ensures
            r is Some <==> rhs.raw_value() <= self.raw_value(),
            r matches Some(d) ==> d.raw_value() == self.raw_value() - rhs.raw_value(),
    {
        match u256_checked_sub(self.0, rhs.0) {
            Some(v) => Some(Self(v)),
            None => None,
        }
    }

    /// Product rounded down to the nearest 2^-128, `None` on overflow.
    pub fn checked_mul(self, rhs: Self) -> (r: Option<Self>)
        ensures
            r matches Some(p) ==> fixed_mul(self.raw_value(), rhs.raw_value()) == Some(p.raw_value()),
            r is None ==> fixed_mul(self.raw_value(), rhs.raw_value()) is None,
    {
        if self.0.is_zero() || rhs.0.is_zero() {
            return Some(Self(U256::zero()));
        }
        let lhs = U512::from_u256(self.0);
        let rhs_wide = U512::from_u256(rhs.0);
        proof {
            lemma_u256_bound(self.0);
            lemma_u256_bound(rhs.0);
            lemma_pow2_words();
            assert(self.raw_value() * rhs.raw_value() < w512()) by (nonlinear_arith)
                requires
                    self.raw_value() < w256(),
                    rhs.raw_value() < w256(),
                    w512() == w256() * w256(),
            ;
        }
        let product = match u512_checked_mul(lhs, rhs_wide) {
            Some(p) => p,
            None => {
                return None;
            },
        };
        let ans = u512_shr(product, FRAC_BITS);
        match U256::try_from_u512(ans) {
            Ok(v) => Some(Self(v)),
            Err(_) => None,
        }
    }

    /// Quotient rounded down to the nearest 2^-128, `None` on division by zero or overflow.
    pub fn checked_div(self, rhs: Self) -> (r: Option<Self>)
        ensures
            r matches Some(q) ==> fixed_div(self.raw_value(), rhs.raw_value()) == Some(q.raw_value()),
            r is None ==> fixed_div(self.raw_value(), rhs.raw_value()) is None,
    {
        if self.0.is_zero() {
            return Some(Self(U256::zero()));
        }
        if rhs.0.is_zero() {
            return None;
        }
        let lhs = U512::from_u256(self.0);
        let rhs_wide = U512::from_u256(rhs.0);
        let shifted = u512_shl(lhs, FRAC_BITS);
        proof {
            lemma_u256_bound(self.0);
            lemma_pow2_words();
            assert(self.raw_value() * w128() < w512()) by (nonlinear_arith)
                requires
                    self.raw_value() < w256(),
                    w128() < w256(),
                    w512() == w256() * w256(),
            ;
            vstd::arithmetic::div_mod::lemma_small_mod((self.raw_value() * w128()) as nat, w512());
        }
        let ans = match u512_checked_div(shifted, rhs_wide) {
            Some(q) => q,
            None => {
                return None;
            },
        };
        match U256::try_from_u512(ans) {
            Ok(v) => Some(Self(v)),
            Err(_) => None,
        }
    }

    /// The integer part.
    pub fn floor(self) -> (r: u128)
        ensures
            r == self.raw_value() / w128(),
    {
        let shifted = u256_shr(self.0, FRAC_BITS);
        proof {
            lemma_u256_bound(self.0);
            lemma_pow2_words();
            assert(self.raw_value() / w128() < w128()) by (nonlinear_arith)
                requires
                    self.raw_value() < w256(),
                    w256() == w128() * w128(),
                    w128() > 0,
            ;
        }
        match u256_try_into_u128(shifted) {
            Some(v) => v,
            None => 0,
        }
    }

    /// The distance between two values.
    pub fn abs_diff(self, other: Self) -> (r: Self)
        ensures
            r.raw_value() == if self.raw_value() >= other.raw_value() {
                self.raw_value() - other.raw_value()
            } else {
                other.raw_value() - self.raw_value()
            },
    {
        Self(u256_abs_diff(self.0, other.0))
    }
}

} // verus!
