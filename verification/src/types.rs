//! Identifier and monetary types.
//!
//! `ClientId` and `TransactionId` are opaque wrappers around the raw
//! integers that identify a client and a transaction. `Amount` is a
//! fixed-point monetary value with exactly four fractional digits, held
//! as a scaled integer: the value is `units / 10_000`.
//!
//! At the input boundary an amount arrives as a `rust_decimal::Decimal`.
//! Its mantissa and scale are read through trusted accessors, and the
//! rounding to four fractional digits (half away from zero) is performed
//! and proved here, on plain integers.

use vstd::arithmetic::div_mod::lemma_div_is_ordered;
use vstd::arithmetic::div_mod::lemma_div_nonincreasing;
use vstd::arithmetic::mul::lemma_mul_upper_bound;
use vstd::prelude::*;

use crate::numfmt::dec_digits;
use crate::numfmt::digit_char;
use crate::numfmt::u128_to_dec_string;

verus! {

/// Identifies a client; wraps an unsigned 16-bit integer.
#[derive(Clone, Copy, Debug, PartialEq, Eq, Hash, PartialOrd, Ord, Structural)]
pub struct ClientId(pub u16);

/// Identifies a transaction; wraps an unsigned 32-bit integer.
/// A transaction identity is globally unique across clients.
#[derive(Clone, Copy, Debug, PartialEq, Eq, Hash, PartialOrd, Ord, Structural)]
pub struct TransactionId(pub u32);

impl View for ClientId {
    type V = u16;

    open spec fn view(&self) -> u16 {
        self.0
    }
}

impl View for TransactionId {
    type V = u32;

    open spec fn view(&self) -> u32 {
        self.0
    }
}

impl ClientId {
    /// Returns the raw client number.
    pub fn as_inner(&self) -> (r: u16)
        ensures
            r == self@,
    {
        self.0
    }
}

impl From<u16> for ClientId {
    fn from(id: u16) -> (r: Self) {
        ClientId(id)
    }
}

impl vstd::std_specs::convert::FromSpecImpl<u16> for ClientId {
    open spec fn obeys_from_spec() -> bool {
        true
    }

    open spec fn from_spec(id: u16) -> Self {
        ClientId(id)
    }
}

impl TransactionId {
    /// Returns the raw transaction number.
    pub fn as_inner(&self) -> (r: u32)
        ensures
            r == self@,
    {
        self.0
    }
}

impl From<u32> for TransactionId {
    fn from(id: u32) -> (r: Self) {
        TransactionId(id)
    }
}

impl vstd::std_specs::convert::FromSpecImpl<u32> for TransactionId {
    open spec fn obeys_from_spec() -> bool {
        true
    }

    open spec fn from_spec(id: u32) -> Self {
        TransactionId(id)
    }
}

/// The largest magnitude, in ten-thousandths, that an `Amount` may hold.
/// It equals the largest mantissa of a `rust_decimal::Decimal` (2^96 - 1),
/// so every `Amount` is exactly representable as a decimal with scale 4.
pub const AMOUNT_UNITS_MAX: i128 = 79_228_162_514_264_337_593_543_950_335;

/// Ten to the `n`.
pub open spec fn pow10(n: nat) -> nat
    decreases n,
{
    if n == 0 {
        1
    } else {
        10 * pow10((n - 1) as nat)
    }
}

pub proof fn lemma_pow10_pos(n: nat)
    ensures
        pow10(n) >= 1,
    decreases n,
{
    if n > 0 {
        lemma_pow10_pos((n - 1) as nat);
    }
}

pub proof fn lemma_pow10_le(a: nat, b: nat)
    requires
        a <= b,
    ensures
        pow10(a) <= pow10(b),
    decreases b,
{
    if a < b {
        lemma_pow10_le(a, (b - 1) as nat);
        lemma_pow10_pos((b - 1) as nat);
    }
}

pub proof fn lemma_pow10_28()
    ensures
        pow10(4) == 10_000,
        pow10(28) == 10_000_000_000_000_000_000_000_000_000,
{
    assert(pow10(0) == 1);
    assert(pow10(1) == 10);
    assert(pow10(2) == 100);
    assert(pow10(3) == 1000);
    assert(pow10(4) == 10000);
    assert(pow10(5) == 100000);
    assert(pow10(6) == 1000000);
    assert(pow10(7) == 10000000);
    assert(pow10(8) == 100000000);
    assert(pow10(9) == 1000000000);
    assert(pow10(10) == 10000000000);
    assert(pow10(11) == 100000000000);
    assert(pow10(12) == 1000000000000);
    assert(pow10(13) == 10000000000000);
    assert(pow10(14) == 100000000000000);
    assert(pow10(15) == 1000000000000000);
    assert(pow10(16) == 10000000000000000);
    assert(pow10(17) == 100000000000000000);
    assert(pow10(18) == 1000000000000000000);
    assert(pow10(19) == 10000000000000000000);
    assert(pow10(20) == 100000000000000000000);
    assert(pow10(21) == 1000000000000000000000);
    assert(pow10(22) == 10000000000000000000000);
    assert(pow10(23) == 100000000000000000000000);
    assert(pow10(24) == 1000000000000000000000000);
    assert(pow10(25) == 10000000000000000000000000);
    assert(pow10(26) == 100000000000000000000000000);
    assert(pow10(27) == 1000000000000000000000000000);
    assert(pow10(28) == 10000000000000000000000000000);
}

/// Ten to the `n`, executable.
fn pow10_u128(n: u32) -> (r: u128)
    requires
        n <= 28,
    ensures
        r as nat == pow10(n as nat),
    decreases n,
{
    if n == 0 {
        1
    } else {
        let p = pow10_u128(n - 1);
        proof {
            lemma_pow10_le((n - 1) as nat, 27);
            lemma_pow10_le(27, 28);
            lemma_pow10_28();
        }
        10 * p
    }
}

/// Rounds `a / 10^s` to four fractional digits, half away from zero,
/// returning the result in ten-thousandths. `a` is a magnitude.
pub open spec fn round_to_units_abs(a: nat, s: nat) -> nat {
    if s <= 4 {
        a * pow10((4 - s) as nat)
    } else {
        let d = pow10((s - 4) as nat);
        if 2 * (a % d) >= d {
            a / d + 1
        } else {
            a / d
        }
    }
}

/// Rounds the decimal `m * 10^-s` to four fractional digits, half away
/// from zero, returning the result in ten-thousandths.
pub open spec fn round_to_units(m: int, s: nat) -> int {
    if m < 0 {
        -(round_to_units_abs((-m) as nat, s) as int)
    } else {
        round_to_units_abs(m as nat, s) as int
    }
}

/// A monetary amount: the value `self@ / 10_000`, with exactly four
/// fractional digits. It may be negative only at the input boundary;
/// event validation rejects negative amounts before any balance moves.
#[derive(Clone, Copy, Debug, PartialEq, Eq, Structural)]
pub struct Amount {
    units: i128,
}

impl View for Amount {
    type V = int;

    /// The amount in ten-thousandths.
    closed spec fn view(&self) -> int {
        self.units as int
    }
}

/// The decimal rendering of an amount of `units` ten-thousandths with
/// exactly four fractional digits, as printed by the display formatter.
pub open spec fn amount_display(units: int) -> Seq<char> {
    let a = if units < 0 {
        (-units) as nat
    } else {
        units as nat
    };
    let f = a % 10000;
    let sign: Seq<char> = if units < 0 {
        seq!['-']
    } else {
        Seq::empty()
    };
    sign + dec_digits(a / 10000) + seq!['.'] + seq![
        digit_char(f / 1000),
        digit_char(f / 100 % 10),
        digit_char(f / 10 % 10),
        digit_char(f % 10),
    ]
}

impl Amount {
    /// Every amount stays within the range a decimal with scale 4 can hold.
    #[verifier::type_invariant]
    pub open spec fn type_inv(self) -> bool {
        -AMOUNT_UNITS_MAX <= self@ <= AMOUNT_UNITS_MAX
    }

    /// The zero amount.
    pub fn zero() -> (r: Self)
        ensures
            r@ == 0,
    {
        Amount { units: 0 }
    }

    /// Builds an amount from minor units (hundredths, e.g. cents).
    pub fn from_minor(value: u32) -> (r: Self)
        ensures
            r@ == value * 100,
    {
        Amount { units: value as i128 * 100 }
    }

    /// Returns the amount in minor units (hundredths), rounding any
    /// sub-cent part toward zero. Returns `None` if the amount is
    /// negative or too large to fit an unsigned 32-bit integer.
    pub fn in_minor(&self) -> (r: Option<u32>)
        ensures
            r == if 0 <= self@ && self@ / 100 <= u32::MAX {
                Some((self@ / 100) as u32)
            } else {
                None::<u32>
            },
    {
        if self.units < 0 {
            return None;
        }
        let q = self.units / 100;
        if q > u32::MAX as i128 {
            None
        } else {
            Some(q as u32)
        }
    }

    /// True when the amount is below zero.
    pub fn is_negative(&self) -> (r: bool)
        ensures
            r == (self@ < 0),
    {
        self.units < 0
    }

    /// True when this amount is at most `other`.
    pub fn le(&self, other: &Amount) -> (r: bool)
        ensures
            r == (self@ <= other@),
    {
        self.units <= other.units
    }

    /// True when adding `other` to this amount stays representable.
    pub fn can_add(&self, other: &Amount) -> (r: bool)
        ensures
            r == (-AMOUNT_UNITS_MAX <= self@ + other@ <= AMOUNT_UNITS_MAX),
    {
        proof {
            use_type_invariant(&*self);
            use_type_invariant(&*other);
        }
        let sum = self.units + other.units;
        -AMOUNT_UNITS_MAX <= sum && sum <= AMOUNT_UNITS_MAX
    }

    /// Adds `other` to this amount in place.
    pub fn add_assign(&mut self, other: Amount)
        requires
            -AMOUNT_UNITS_MAX <= old(self)@ + other@ <= AMOUNT_UNITS_MAX,
        ensures
            final(self)@ == old(self)@ + other@,
    {
        proof {
            use_type_invariant(&*self);
            use_type_invariant(&other);
        }
        self.units = self.units + other.units;
    }

    /// Subtracts `other` from this amount in place, only if the result
    /// stays representable and does not go below zero. Returns `None`,
    /// leaving the amount unchanged, if it would.
    pub fn try_subtract(&mut self, other: Amount) -> (r: Option<()>)
        ensures
            if 0 <= old(self)@ - other@ <= AMOUNT_UNITS_MAX {
                r == Some(()) && final(self)@ == old(self)@ - other@
            } else {
                r == None::<()> && *final(self) == *old(self)
            },
    {
        proof {
            use_type_invariant(&*self);
            use_type_invariant(&other);
        }
        let diff = self.units - other.units;
        if diff < 0 || diff > AMOUNT_UNITS_MAX {
            None
        } else {
            self.units = diff;
            Some(())
        }
    }

    /// Builds the amount closest to the decimal `m * 10^-s`, rounding to
    /// four fractional digits half away from zero. Returns `None` when
    /// the rounded value is out of range (possible only for `s <= 4`
    /// when the magnitude itself exceeds the representable maximum).
    pub fn from_parts(m: i128, s: u32) -> (r: Option<Amount>)
        requires
            -AMOUNT_UNITS_MAX <= m <= AMOUNT_UNITS_MAX,
            s <= 28,
        ensures
            -AMOUNT_UNITS_MAX <= round_to_units(m as int, s as nat) <= AMOUNT_UNITS_MAX ==> (
            r matches Some(a) && a@ == round_to_units(m as int, s as nat)),
            !(-AMOUNT_UNITS_MAX <= round_to_units(m as int, s as nat) <= AMOUNT_UNITS_MAX)
                ==> r is None,
    {
        let a: u128 = if m < 0 {
            (-m) as u128
        } else {
            m as u128
        };
        let au: u128 = if s <= 4 {
            let factor = pow10_u128(4 - s);
            proof {
                lemma_pow10_le((4 - s) as nat, 4);
                lemma_pow10_le(4, 28);
                lemma_pow10_28();
                lemma_mul_upper_bound(
                    a as int,
                    AMOUNT_UNITS_MAX as int,
                    factor as int,
                    10000,
                );
            }
            a * factor
        } else {
            let d = pow10_u128(s - 4);
            proof {
                lemma_pow10_pos((s - 4) as nat);
                lemma_pow10_le((s - 4) as nat, 28);
                lemma_pow10_28();
                lemma_div_nonincreasing(a as int, d as int);
            }
            let q = a / d;
            let rem = a % d;
            if 2 * rem >= d {
                q + 1
            } else {
                q
            }
        };
        if au > AMOUNT_UNITS_MAX as u128 {
            proof {
                assert(round_to_units(m as int, s as nat) > AMOUNT_UNITS_MAX
                    || round_to_units(m as int, s as nat) < -AMOUNT_UNITS_MAX);
            }
            None
        } else if m < 0 {
            Some(Amount { units: -(au as i128) })
        } else {
            Some(Amount { units: au as i128 })
        }
    }

    /// Renders the amount with exactly four fractional digits.
    pub fn to_display_string(&self) -> (r: String)
        ensures
            r@ == amount_display(self@),
    {
        proof {
            use_type_invariant(&*self);
            reveal_strlit("-");
            reveal_strlit(".");
        }
        let a: u128 = if self.units < 0 {
            (-self.units) as u128
        } else {
            self.units as u128
        };
        let mut r = if self.units < 0 {
            String::from_str("-")
        } else {
            String::new()
        };
        let whole = u128_to_dec_string(a / 10000);
        r.append(whole.as_str());
        r.append(".");
        let frac = a % 10000;
        proof {
            lemma_div_is_ordered(frac as int, 9999, 1000);
        }
        r.append(crate::numfmt::digit_str(frac / 1000));
        r.append(crate::numfmt::digit_str(frac / 100 % 10));
        r.append(crate::numfmt::digit_str(frac / 10 % 10));
        r.append(crate::numfmt::digit_str(frac % 10));
        proof {
            assert(r@ =~= amount_display(self@));
        }
        r
    }
}

impl Default for Amount {
    /// The zero amount.
    fn default() -> (r: Self)
        ensures
            r@ == 0,
    {
        Amount { units: 0 }
    }
}

#[verifier::external_type_specification]
#[verifier::external_body]
pub struct ExDecimal(rust_decimal::Decimal);

/// The signed coefficient of a decimal: the value is
/// `mantissa_of(d) * 10^-scale_of(d)`. A function of the decimal alone.
pub uninterp spec fn mantissa_of(d: rust_decimal::Decimal) -> i128;

/// The number of fractional digits of a decimal. A function of the
/// decimal alone.
pub uninterp spec fn scale_of(d: rust_decimal::Decimal) -> u32;

/// Relies on `rust_decimal::Decimal::mantissa`: the signed coefficient of
/// the decimal, whose magnitude is at most 2^96 - 1.
#[verifier::external_body]
fn decimal_mantissa(d: &rust_decimal::Decimal) -> (r: i128)
    ensures
        r == mantissa_of(*d),
        -AMOUNT_UNITS_MAX <= r <= AMOUNT_UNITS_MAX,
{
    d.mantissa()
}

/// Relies on `rust_decimal::Decimal::scale`: the number of fractional
/// digits of the decimal, at most 28.
#[verifier::external_body]
fn decimal_scale(d: &rust_decimal::Decimal) -> (r: u32)
    ensures
        r == scale_of(*d),
        r <= 28,
{
    d.scale()
}

impl Amount {
    /// Builds an amount from a decimal, rounding to four fractional
    /// digits half away from zero. Returns `None` when the rounded value
    /// is out of the representable range (possible only for scales of at
    /// most 4, when the magnitude itself exceeds the maximum).
    pub fn from_decimal(d: &rust_decimal::Decimal) -> (r: Option<Amount>)
        ensures
            -AMOUNT_UNITS_MAX <= round_to_units(
                mantissa_of(*d) as int,
                scale_of(*d) as nat,
            ) <= AMOUNT_UNITS_MAX ==> (r matches Some(a) && a@ == round_to_units(
                mantissa_of(*d) as int,
                scale_of(*d) as nat,
            )),
            !(-AMOUNT_UNITS_MAX <= round_to_units(
                mantissa_of(*d) as int,
                scale_of(*d) as nat,
            ) <= AMOUNT_UNITS_MAX) ==> r is None,
    {
        let m = decimal_mantissa(d);
        let s = decimal_scale(d);
        Amount::from_parts(m, s)
    }

    /// Returns the amount as a decimal with scale 4, exactly.
    ///
    /// Relies on `rust_decimal::Decimal::from_i128_with_scale`, which
    /// accepts every coefficient of magnitude at most 2^96 - 1; the type
    /// invariant keeps the stored units within that range.
    #[verifier::external_body]
    pub fn as_decimal(&self) -> rust_decimal::Decimal {
        rust_decimal::Decimal::from_i128_with_scale(self.units, 4)
    }
}

} // verus!
