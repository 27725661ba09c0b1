//! Exact decimal amounts.
//!
//! `Dec` holds the unpacked parts of a `rust_decimal::Decimal` (sign, scale and the three 32-bit
//! words of the 96-bit magnitude). Arithmetic, parsing and formatting are done by `rust_decimal`
//! itself; the library only moves the parts in and out.
use vstd::prelude::*;

verus! {

pub const WORD: u128 = 0x1_0000_0000;

pub const MAX_SCALE: u32 = 28;

/// A decimal number `(-1)^negative * magnitude / 10^scale`.
#[derive(Clone, Copy, Debug)]
pub struct Dec {
    pub negative: bool,
    pub scale: u32,
    pub hi: u32,
    pub mid: u32,
    pub lo: u32,
}

pub open spec fn pow10(n: nat) -> int
    decreases n,
{
    if n == 0 {
        1
    } else {
        10 * pow10((n - 1) as nat)
    }
}

impl Dec {
    /// The parts describe a value `rust_decimal` can hold.
    pub open spec fn wf(self) -> bool {
        self.scale <= MAX_SCALE
    }

    pub open spec fn magnitude(self) -> int {
        self.lo as int + self.mid as int * WORD as int + self.hi as int * (WORD as int * WORD as int)
    }

    /// The signed integer that the value is scaled from.
    pub open spec fn num(self) -> int {
        if self.negative {
            -self.magnitude()
        } else {
            self.magnitude()
        }
    }

    pub open spec fn is_zero_spec(self) -> bool {
        self.lo == 0 && self.mid == 0 && self.hi == 0
    }

    /// `Decimal::ZERO`.
    pub open spec fn zero_spec() -> Dec {
        Dec { negative: false, scale: 0, hi: 0, mid: 0, lo: 0 }
    }

    /// `Decimal::from(v)` for an `i64`.
    pub open spec fn from_i64_spec(v: i64) -> Dec {
        let m: int = if v < 0 {
            -(v as int)
        } else {
            v as int
        };
        Dec {
            negative: v < 0,
            scale: 0,
            hi: 0,
            mid: (m / WORD as int) as u32,
            lo: (m % WORD as int) as u32,
        }
    }

    pub fn zero() -> (r: Dec)
        ensures
            r == Dec::zero_spec(),
    {
        Dec { negative: false, scale: 0, hi: 0, mid: 0, lo: 0 }
    }

    /// `Decimal::from(v)` for an `i64`: the integer with scale 0.
    pub fn from_i64(v: i64) -> (r: Dec)
        ensures
            r == Dec::from_i64_spec(v),
            r.wf(),
            r.num() == v,
    {
        let m: u64 = if v < 0 {
            (-(v as i128)) as u64
        } else {
            v as u64
        };
        let r = Dec { negative: v < 0, scale: 0, hi: 0, mid: (m / 0x1_0000_0000) as u32, lo: (m % 0x1_0000_0000) as u32 };
        proof {
            let mi: int = if v < 0 { -(v as int) } else { v as int };
            assert(m as int == mi);
            assert(mi == (mi / WORD as int) * WORD as int + mi % WORD as int);
        }
        r
    }

    /// `Decimal::is_sign_negative`: the sign bit, also set on a negative zero.
    pub fn is_sign_negative(&self) -> (r: bool)
        ensures
            r == self.negative,
    {
        self.negative
    }

    /// `Decimal::is_zero`.
    pub fn is_zero(&self) -> (r: bool)
        ensures
            r == self.is_zero_spec(),
            r == (self.magnitude() == 0),
    {
        self.lo == 0 && self.mid == 0 && self.hi == 0
    }
}

/// The order of two decimal values: -1, 0 or 1 as `a` is below, equal to or above `b`.
pub open spec fn value_order(a: Dec, b: Dec) -> int {
    let l = a.num() * pow10(b.scale as nat);
    let r = b.num() * pow10(a.scale as nat);
    if l < r {
        -1
    } else if l == r {
        0
    } else {
        1
    }
}

/// Comparing with zero compares the sign of the scaled integer.
pub proof fn lemma_order_with_zero(a: Dec)
    ensures
        value_order(a, Dec::zero_spec()) == 1 <==> a.num() > 0,
        value_order(a, Dec::zero_spec()) >= 0 <==> a.num() >= 0,
        value_order(a, Dec::zero_spec()) == 0 <==> a.num() == 0,
{
    assert(pow10(0) == 1);
    assert(0 * pow10(a.scale as nat) == 0);
}

/// What `Decimal::from_str` gives for the characters, `None` for an error.
pub uninterp spec fn decimal_from_str(s: Seq<char>) -> Option<Dec>;

/// What `Decimal`'s `Display` writes.
pub uninterp spec fn decimal_to_string(d: Dec) -> Seq<char>;

/// What `Decimal::checked_add` gives.
pub uninterp spec fn decimal_checked_add(a: Dec, b: Dec) -> Option<Dec>;

/// What `Decimal::checked_sub` gives.
pub uninterp spec fn decimal_checked_sub(a: Dec, b: Dec) -> Option<Dec>;

/// What `Decimal::checked_mul` gives.
pub uninterp spec fn decimal_checked_mul(a: Dec, b: Dec) -> Option<Dec>;

/// What `Decimal::checked_div` gives.
pub uninterp spec fn decimal_checked_div(a: Dec, b: Dec) -> Option<Dec>;

/// What `Decimal::round_dp` gives (banker's rounding to `dp` places).
pub uninterp spec fn decimal_round_dp(d: Dec, dp: u32) -> Dec;

/// The parts with magnitude `m` split into words.
pub open spec fn with_magnitude(negative: bool, m: int, scale: u32) -> Dec {
    Dec {
        negative,
        scale,
        lo: (m % WORD as int) as u32,
        mid: ((m / WORD as int) % WORD as int) as u32,
        hi: (m / (WORD as int * WORD as int)) as u32,
    }
}

/// `Decimal::normalize`: trailing zeros of the fraction stripped, a zero made positive.
pub open spec fn normalize_spec(d: Dec) -> Dec
    decreases d.scale,
{
    if d.is_zero_spec() {
        Dec::zero_spec()
    } else if d.scale > 0 && d.magnitude() % 10 == 0 {
        normalize_spec(with_magnitude(d.negative, d.magnitude() / 10, (d.scale - 1) as u32))
    } else {
        d
    }
}

/// Parses a decimal with `Decimal::from_str`.
#[verifier::external_body]
pub(crate) fn parse_decimal(s: &str) -> (r: Option<Dec>)
    ensures
        r == decimal_from_str(s@),
        r matches Some(d) ==> d.wf(),
{
    match s.parse::<rust_decimal::Decimal>() {
        Ok(d) => {
            let u = d.unpack();
            Some(Dec { negative: u.negative, scale: u.scale, hi: u.hi, mid: u.mid, lo: u.lo })
        },
        Err(_) => None,
    }
}

/// Formats a decimal with `Decimal`'s `Display`.
#[verifier::external_body]
pub(crate) fn decimal_string(d: Dec) -> (r: String)
    requires
        d.wf(),
    ensures
        r@ == decimal_to_string(d),
{
    let mut x = rust_decimal::Decimal::from_parts(d.lo, d.mid, d.hi, d.negative, d.scale);
    x.set_sign_negative(d.negative);
    x.to_string()
}

/// `Decimal::checked_add`.
#[verifier::external_body]
pub(crate) fn checked_add(a: Dec, b: Dec) -> (r: Option<Dec>)
    requires
        a.wf(),
        b.wf(),
    ensures
        r == decimal_checked_add(a, b),
        r matches Some(d) ==> d.wf(),
{
    let mut x = rust_decimal::Decimal::from_parts(a.lo, a.mid, a.hi, a.negative, a.scale);
    x.set_sign_negative(a.negative);
    let mut y = rust_decimal::Decimal::from_parts(b.lo, b.mid, b.hi, b.negative, b.scale);
    y.set_sign_negative(b.negative);
    match x.checked_add(y) {
        Some(d) => {
            let u = d.unpack();
            Some(Dec { negative: u.negative, scale: u.scale, hi: u.hi, mid: u.mid, lo: u.lo })
        },
        None => None,
    }
}

/// `Decimal::checked_sub`.
#[verifier::external_body]
pub(crate) fn checked_sub(a: Dec, b: Dec) -> (r: Option<Dec>)
    requires
        a.wf(),
        b.wf(),
    ensures
        r == decimal_checked_sub(a, b),
        r matches Some(d) ==> d.wf(),
{
    let mut x = rust_decimal::Decimal::from_parts(a.lo, a.mid, a.hi, a.negative, a.scale);
    x.set_sign_negative(a.negative);
    let mut y = rust_decimal::Decimal::from_parts(b.lo, b.mid, b.hi, b.negative, b.scale);
    y.set_sign_negative(b.negative);
    match x.checked_sub(y) {
        Some(d) => {
            let u = d.unpack();
            Some(Dec { negative: u.negative, scale: u.scale, hi: u.hi, mid: u.mid, lo: u.lo })
        },
        None => None,
    }
}

/// `Decimal::checked_mul`.
#[verifier::external_body]
pub(crate) fn checked_mul(a: Dec, b: Dec) -> (r: Option<Dec>)
    requires
        a.wf(),
        b.wf(),
    ensures
        r == decimal_checked_mul(a, b),
        r matches Some(d) ==> d.wf(),
{
    let mut x = rust_decimal::Decimal::from_parts(a.lo, a.mid, a.hi, a.negative, a.scale);
    x.set_sign_negative(a.negative);
    let mut y = rust_decimal::Decimal::from_parts(b.lo, b.mid, b.hi, b.negative, b.scale);
    y.set_sign_negative(b.negative);
    match x.checked_mul(y) {
        Some(d) => {
            let u = d.unpack();
            Some(Dec { negative: u.negative, scale: u.scale, hi: u.hi, mid: u.mid, lo: u.lo })
        },
        None => None,
    }
}

/// `Decimal::checked_div`; `None` also for a zero divisor.
#[verifier::external_body]
pub(crate) fn checked_div(a: Dec, b: Dec) -> (r: Option<Dec>)
    requires
        a.wf(),
        b.wf(),
    ensures
        r == decimal_checked_div(a, b),
        r matches Some(d) ==> d.wf(),
        b.is_zero_spec() ==> r is None,
{
    let mut x = rust_decimal::Decimal::from_parts(a.lo, a.mid, a.hi, a.negative, a.scale);
    x.set_sign_negative(a.negative);
    let mut y = rust_decimal::Decimal::from_parts(b.lo, b.mid, b.hi, b.negative, b.scale);
    y.set_sign_negative(b.negative);
    match x.checked_div(y) {
        Some(d) => {
            let u = d.unpack();
            Some(Dec { negative: u.negative, scale: u.scale, hi: u.hi, mid: u.mid, lo: u.lo })
        },
        None => None,
    }
}

/// Compares two values with `Decimal`'s `<` and `==`, which compare numerically.
#[verifier::external_body]
pub(crate) fn compare(a: Dec, b: Dec) -> (r: i8)
    requires
        a.wf(),
        b.wf(),
    ensures
        r as int == value_order(a, b),
{
    let mut x = rust_decimal::Decimal::from_parts(a.lo, a.mid, a.hi, a.negative, a.scale);
    x.set_sign_negative(a.negative);
    let mut y = rust_decimal::Decimal::from_parts(b.lo, b.mid, b.hi, b.negative, b.scale);
    y.set_sign_negative(b.negative);
    if x < y { -1 } else if x == y { 0 } else { 1 }
}

/// `Decimal::normalize`.
#[verifier::external_body]
pub(crate) fn normalize(d: Dec) -> (r: Dec)
    requires
        d.wf(),
    ensures
        r == normalize_spec(d),
        r.wf(),
{
    let mut x = rust_decimal::Decimal::from_parts(d.lo, d.mid, d.hi, d.negative, d.scale);
    x.set_sign_negative(d.negative);
    let u = x.normalize().unpack();
    Dec { negative: u.negative, scale: u.scale, hi: u.hi, mid: u.mid, lo: u.lo }
}

/// `Decimal::round_dp`.
#[verifier::external_body]
pub(crate) fn round_dp(d: Dec, dp: u32) -> (r: Dec)
    requires
        d.wf(),
    ensures
        r == decimal_round_dp(d, dp),
        r.wf(),
{
    let mut x = rust_decimal::Decimal::from_parts(d.lo, d.mid, d.hi, d.negative, d.scale);
    x.set_sign_negative(d.negative);
    let u = x.round_dp(dp).unpack();
    Dec { negative: u.negative, scale: u.scale, hi: u.hi, mid: u.mid, lo: u.lo }
}

/// Numeric `a > b`.
pub fn greater(a: Dec, b: Dec) -> (r: bool)
    requires
        a.wf(),
        b.wf(),
    ensures
        r == (value_order(a, b) == 1),
{
    compare(a, b) == 1
}

/// Numeric `a >= b`.
pub fn greater_or_equal(a: Dec, b: Dec) -> (r: bool)
    requires
        a.wf(),
        b.wf(),
    ensures
        r == (value_order(a, b) >= 0),
{
    compare(a, b) >= 0
}

/// `Decimal::max`: `other` when `self < other`, else `self` (so the first of equal values).
pub fn max(a: Dec, b: Dec) -> (r: Dec)
    requires
        a.wf(),
        b.wf(),
    ensures
        r == (if value_order(a, b) == -1 { b } else { a }),
{
    if compare(a, b) == -1 {
        b
    } else {
        a
    }
}

/// `Decimal::min`: `other` when `other < self`, else `self`.
pub fn min(a: Dec, b: Dec) -> (r: Dec)
    requires
        a.wf(),
        b.wf(),
    ensures
        r == (if value_order(a, b) == 1 { b } else { a }),
{
    if compare(a, b) == 1 {
        b
    } else {
        a
    }
}

/// `Decimal::normalize` followed by `to_string`.
pub fn normalized_string(d: Dec) -> (r: String)
    requires
        d.wf(),
    ensures
        r@ == decimal_to_string(normalize_spec(d)),
{
    decimal_string(normalize(d))
}

impl Dec {
    /// `Decimal::from_str`: `None` for text that is not a decimal.
    pub fn parse(s: &str) -> (r: Option<Dec>)
        ensures
            r == decimal_from_str(s@),
            r matches Some(d) ==> d.wf(),
    {
        parse_decimal(s)
    }

    /// The decimal's `Display` text.
    pub fn to_text(&self) -> (r: String)
        requires
            self.wf(),
        ensures
            r@ == decimal_to_string(*self),
    {
        decimal_string(*self)
    }

    /// Whether the parts describe a value `rust_decimal` can hold.
    pub fn is_wf(&self) -> (r: bool)
        ensures
            r == self.wf(),
    {
        self.scale <= MAX_SCALE
    }

    /// `==` of `Decimal`: the same number, whatever the scale.
    pub fn same_value(&self, other: &Dec) -> (r: bool)
        requires
            self.wf(),
            other.wf(),
        ensures
            r == (value_order(*self, *other) == 0),
    {
        compare(*self, *other) == 0
    }
}

} // verus!
