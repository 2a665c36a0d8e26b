//! Monetary amounts: decimal numbers `mantissa / 10^scale`.
//!
//! An [`Amount`] holds the two integers that make up a `rust_decimal::Decimal`
//! and hands them to that crate for every addition, subtraction, comparison
//! and rounding. Its view, [`AmountView`], is the pair as mathematical
//! integers; contracts are written over the view.

use vstd::prelude::*;
use rust_decimal::Decimal;

verus! {

/// The largest magnitude a mantissa can have: `2^96 - 1`.
pub const MAX_MANTISSA: i128 = 0xFFFF_FFFF_FFFF_FFFF_FFFF_FFFF;

/// The largest number of fractional digits.
pub const MAX_SCALE: u32 = 28;

/// Below this magnitude, `2^64`, a mantissa is short.
pub const SHORT_MANTISSA: i128 = 0x1_0000_0000_0000_0000;

/// As many digits apart as the scales of two short numbers can be.
pub const SHORT_SCALES: u32 = 19;

/// Below this magnitude, `10^14`, a mantissa is modest.
pub const MODEST_MANTISSA: i128 = 100_000_000_000_000;

/// Up to this magnitude, `10^19`, a mantissa of at most four fractional
/// digits is added and subtracted in full.
pub const FULL_MANTISSA: i128 = 10_000_000_000_000_000_000;

/// `10^n`.
pub open spec fn pow10(n: nat) -> nat
    decreases n,
{
    if n == 0 {
        1
    } else {
        10 * pow10((n - 1) as nat)
    }
}

/// `n / unit` rounded to the nearest integer, a tie going to the even
/// neighbour. Meant for `n >= 0` and `unit > 0`.
pub open spec fn round_half_even(n: int, unit: int) -> int {
    let q = n / unit;
    let r = n % unit;
    if 2 * r > unit || (2 * r == unit && q % 2 == 1) {
        q + 1
    } else {
        q
    }
}

/// What `Decimal::checked_add` returns for the decimals `am / 10^asc` and
/// `bm / 10^bsc`, as mantissa and scale; `None` where it reports overflow.
/// The library rounds where full precision does not fit, by rules that are
/// not written out here.
pub uninterp spec fn decimal_sum(am: int, asc: int, bm: int, bsc: int) -> Option<(int, int)>;

/// What `Decimal::checked_sub` returns for the decimals `am / 10^asc` and
/// `bm / 10^bsc`, as mantissa and scale; `None` where it reports overflow.
/// The library rounds where full precision does not fit, by rules that are
/// not written out here.
pub uninterp spec fn decimal_difference(am: int, asc: int, bm: int, bsc: int) -> Option<(int, int)>;

/// The mathematical content of an [`Amount`]: the number `mantissa / 10^scale`.
pub struct AmountView {
    pub mantissa: int,
    pub scale: int,
}

impl AmountView {
    /// The values a decimal can hold: a mantissa of at most 96 bits and at
    /// most 28 fractional digits.
    pub open spec fn in_range(self) -> bool {
        &&& -MAX_MANTISSA <= self.mantissa <= MAX_MANTISSA
        &&& 0 <= self.scale <= MAX_SCALE
    }

    /// The number as a count of units of `10^-28`, in which every amount in
    /// range is a whole number. Two amounts denote the same number exactly
    /// when their values are equal.
    pub open spec fn value(self) -> int {
        self.mantissa * pow10((MAX_SCALE - self.scale) as nat)
    }

    /// The mantissa that the number has at `scale` fractional digits, for a
    /// scale that is no shorter than its own.
    pub open spec fn mantissa_at(self, scale: int) -> int {
        self.mantissa * pow10((scale - self.scale) as nat)
    }

    /// The longer of the two scales.
    pub open spec fn longer_scale(self, rhs: AmountView) -> int {
        if self.scale >= rhs.scale {
            self.scale
        } else {
            rhs.scale
        }
    }

    /// The sum at full precision: at the longer of the two scales.
    pub open spec fn full_sum(self, rhs: AmountView) -> AmountView {
        let scale = self.longer_scale(rhs);
        AmountView { mantissa: self.mantissa_at(scale) + rhs.mantissa_at(scale), scale }
    }

    /// The difference at full precision: at the longer of the two scales.
    pub open spec fn full_difference(self, rhs: AmountView) -> AmountView {
        let scale = self.longer_scale(rhs);
        AmountView { mantissa: self.mantissa_at(scale) - rhs.mantissa_at(scale), scale }
    }

    /// Whether the decimal library adds and subtracts the two numbers on its
    /// short path, on which it keeps full precision: neither is zero, both
    /// mantissas are below `2^64` in magnitude, and the scales are at most 19
    /// digits apart.
    pub open spec fn short_with(self, rhs: AmountView) -> bool {
        &&& self.mantissa != 0 && -SHORT_MANTISSA < self.mantissa < SHORT_MANTISSA
        &&& rhs.mantissa != 0 && -SHORT_MANTISSA < rhs.mantissa < SHORT_MANTISSA
        &&& -SHORT_SCALES <= self.scale - rhs.scale <= SHORT_SCALES
    }

    /// At most four fractional digits, and a mantissa below `limit` in
    /// magnitude.
    pub open spec fn within(self, limit: int) -> bool {
        &&& -limit < self.mantissa < limit
        &&& 0 <= self.scale <= 4
    }

    /// At most four fractional digits, and a mantissa below `10^14` in
    /// magnitude. The sum and the difference of two modest numbers are known
    /// in full, and so are those of such a result and a modest number.
    pub open spec fn modest(self) -> bool {
        self.within(MODEST_MANTISSA as int)
    }

    /// Whether the sum of the two numbers is known in full: one of them is
    /// zero, or they are short and their full sum is in range.
    pub open spec fn adds_in_full(self, rhs: AmountView) -> bool {
        self.mantissa == 0 || rhs.mantissa == 0 || (self.short_with(rhs) && self.full_sum(
            rhs,
        ).in_range())
    }

    /// Whether the difference of the two numbers is known in full: one of
    /// them is zero, or they are short and their full difference is in range.
    pub open spec fn subtracts_in_full(self, rhs: AmountView) -> bool {
        self.mantissa == 0 || rhs.mantissa == 0 || (self.short_with(rhs)
            && self.full_difference(rhs).in_range())
    }

    /// The sum as the decimal library computes it, `None` on overflow. Zero
    /// leaves the other number as it stands. Two short numbers give their sum
    /// at full precision, if that is in range. Of any other sum only the name
    /// is known.
    pub open spec fn plus(self, rhs: AmountView) -> Option<AmountView> {
        if self.mantissa == 0 {
            Some(rhs)
        } else if rhs.mantissa == 0 {
            Some(self)
        } else if self.short_with(rhs) && self.full_sum(rhs).in_range() {
            Some(self.full_sum(rhs))
        } else {
            match decimal_sum(self.mantissa, self.scale, rhs.mantissa, rhs.scale) {
                Some((m, s)) => Some(AmountView { mantissa: m, scale: s }),
                None => None,
            }
        }
    }

    /// The difference as the decimal library computes it, `None` on overflow.
    /// Zero less a number is that number negated, and a number less zero
    /// stays as it stands. Two short numbers give their difference at full
    /// precision, if that is in range. Of any other difference only the name
    /// is known.
    pub open spec fn minus(self, rhs: AmountView) -> Option<AmountView> {
        if self.mantissa == 0 {
            Some(AmountView { mantissa: -rhs.mantissa, scale: rhs.scale })
        } else if rhs.mantissa == 0 {
            Some(self)
        } else if self.short_with(rhs) && self.full_difference(rhs).in_range() {
            Some(self.full_difference(rhs))
        } else {
            match decimal_difference(self.mantissa, self.scale, rhs.mantissa, rhs.scale) {
                Some((m, s)) => Some(AmountView { mantissa: m, scale: s }),
                None => None,
            }
        }
    }

    /// The number rounded to at most `dp` fractional digits, ties to even.
    /// A number that already has no more than `dp` digits is left as it is.
    pub open spec fn rounded(self, dp: int) -> AmountView {
        if self.scale <= dp {
            self
        } else {
            let unit = pow10((self.scale - dp) as nat) as int;
            if self.mantissa >= 0 {
                AmountView { mantissa: round_half_even(self.mantissa, unit), scale: dp }
            } else {
                AmountView { mantissa: -round_half_even(-self.mantissa, unit), scale: dp }
            }
        }
    }
}

/// `10^(a + b)` is `10^a * 10^b`.
pub proof fn lemma_pow10_adds(a: nat, b: nat)
    ensures
        pow10(a + b) == pow10(a) * pow10(b),
    decreases a,
{
    if a > 0 {
        lemma_pow10_adds((a - 1) as nat, b);
        assert(pow10(a + b) == 10 * pow10((a - 1) as nat + b));
        assert(10 * (pow10((a - 1) as nat) * pow10(b)) == (10 * pow10((a - 1) as nat)) * pow10(b))
            by (nonlinear_arith);
    } else {
        assert(pow10(a + b) == pow10(b));
        assert(1 * pow10(b) == pow10(b));
    }
}

/// A number keeps its value when its mantissa is taken at a longer scale.
pub proof fn lemma_value_at_longer_scale(a: AmountView, scale: int)
    requires
        0 <= a.scale <= scale <= MAX_SCALE,
    ensures
        a.mantissa_at(scale) * pow10((MAX_SCALE - scale) as nat) == a.value(),
{
    let up = pow10((scale - a.scale) as nat);
    let rest = pow10((MAX_SCALE - scale) as nat);
    lemma_pow10_adds((scale - a.scale) as nat, (MAX_SCALE - scale) as nat);
    assert((scale - a.scale) as nat + (MAX_SCALE - scale) as nat == (MAX_SCALE - a.scale) as nat);
    assert((a.mantissa * up) * rest == a.mantissa * (up * rest)) by (nonlinear_arith);
}

/// Where the sum of two numbers is known in full, it is there, and its value
/// is the sum of their values.
pub proof fn lemma_sum_in_full(a: AmountView, b: AmountView)
    requires
        a.in_range(),
        b.in_range(),
        a.adds_in_full(b),
    ensures
        a.plus(b) is Some,
        a.plus(b)->0.in_range(),
        a.plus(b)->0.value() == a.value() + b.value(),
{
    if a.mantissa == 0 {
        assert(a.value() == 0) by (nonlinear_arith)
            requires
                a.value() == 0 * pow10((MAX_SCALE - a.scale) as nat),
        ;
    } else if b.mantissa == 0 {
        assert(b.value() == 0) by (nonlinear_arith)
            requires
                b.value() == 0 * pow10((MAX_SCALE - b.scale) as nat),
        ;
    } else {
        let scale = a.longer_scale(b);
        let rest = pow10((MAX_SCALE - scale) as nat);
        lemma_value_at_longer_scale(a, scale);
        lemma_value_at_longer_scale(b, scale);
        assert((a.mantissa_at(scale) + b.mantissa_at(scale)) * rest == a.mantissa_at(scale) * rest
            + b.mantissa_at(scale) * rest) by (nonlinear_arith);
    }
}

/// Where the difference of two numbers is known in full, it is there, and
/// its value is the difference of their values.
pub proof fn lemma_difference_in_full(a: AmountView, b: AmountView)
    requires
        a.in_range(),
        b.in_range(),
        a.subtracts_in_full(b),
    ensures
        a.minus(b) is Some,
        a.minus(b)->0.in_range(),
        a.minus(b)->0.value() == a.value() - b.value(),
{
    if a.mantissa == 0 {
        let rest = pow10((MAX_SCALE - b.scale) as nat);
        assert((-b.mantissa) * rest == -(b.mantissa * rest)) by (nonlinear_arith);
        assert(a.value() == 0) by (nonlinear_arith)
            requires
                a.value() == 0 * pow10((MAX_SCALE - a.scale) as nat),
        ;
    } else if b.mantissa == 0 {
        assert(b.value() == 0) by (nonlinear_arith)
            requires
                b.value() == 0 * pow10((MAX_SCALE - b.scale) as nat),
        ;
    } else {
        let scale = a.longer_scale(b);
        let rest = pow10((MAX_SCALE - scale) as nat);
        lemma_value_at_longer_scale(a, scale);
        lemma_value_at_longer_scale(b, scale);
        assert((a.mantissa_at(scale) - b.mantissa_at(scale)) * rest == a.mantissa_at(scale) * rest
            - b.mantissa_at(scale) * rest) by (nonlinear_arith);
    }
}

/// Numbers of at most four fractional digits and mantissas of up to `10^19`
/// in magnitude are added and subtracted in full, and the result has at most
/// four fractional digits again, and a mantissa below ten thousand times the
/// sum of their limits.
pub proof fn lemma_four_digits_in_full(a: AmountView, b: AmountView, a_limit: int, b_limit: int)
    requires
        a.within(a_limit),
        b.within(b_limit),
        a_limit <= FULL_MANTISSA,
        b_limit <= FULL_MANTISSA,
    ensures
        a.in_range(),
        b.in_range(),
        a.adds_in_full(b),
        a.subtracts_in_full(b),
        a.plus(b) is Some && a.plus(b)->0.within((a_limit + b_limit) * 10_000),
        a.minus(b) is Some && a.minus(b)->0.within((a_limit + b_limit) * 10_000),
{
    reveal_with_fuel(pow10, 6);
    let scale = a.longer_scale(b);
    let up_a = pow10((scale - a.scale) as nat);
    let up_b = pow10((scale - b.scale) as nat);
    assert(1 <= up_a <= 10_000);
    assert(1 <= up_b <= 10_000);
    assert(-a_limit * 10_000 < a.mantissa * up_a < a_limit * 10_000) by (nonlinear_arith)
        requires
            -a_limit < a.mantissa < a_limit,
            1 <= up_a <= 10_000,
    ;
    assert(-b_limit * 10_000 < b.mantissa * up_b < b_limit * 10_000) by (nonlinear_arith)
        requires
            -b_limit < b.mantissa < b_limit,
            1 <= up_b <= 10_000,
    ;
}

/// A decimal amount of money.
#[derive(Clone, Copy, Debug)]
pub struct Amount {
    mantissa: i128,
    scale: u32,
}

impl View for Amount {
    type V = AmountView;

    closed spec fn view(&self) -> AmountView {
        AmountView { mantissa: self.mantissa as int, scale: self.scale as int }
    }
}

impl Amount {
    /// Every amount is one that a decimal can hold.
    #[verifier::type_invariant]
    closed spec fn representable(self) -> bool {
        self@.in_range()
    }

    /// The amount `mantissa / 10^scale`, or `None` where the mantissa needs
    /// more than 96 bits or the scale is above 28.
    pub fn new(mantissa: i128, scale: u32) -> (r: Option<Amount>)
        ensures
            r is Some <==> (AmountView { mantissa: mantissa as int, scale: scale as int }).in_range(),
            r matches Some(a) ==> a@ == (AmountView { mantissa: mantissa as int, scale: scale as int }),
    {
        if -MAX_MANTISSA <= mantissa && mantissa <= MAX_MANTISSA && scale <= MAX_SCALE {
            Some(Amount { mantissa, scale })
        } else {
            None
        }
    }

    /// Zero, with no fractional digits.
    pub fn zero() -> (r: Amount)
        ensures
            r@ == (AmountView { mantissa: 0, scale: 0 }),
    {
        Amount { mantissa: 0, scale: 0 }
    }

    /// The mantissa, which is in range.
    pub fn mantissa(&self) -> (r: i128)
        ensures
            r == self@.mantissa,
            self@.in_range(),
    {
        proof {
            use_type_invariant(self);
        }
        self.mantissa
    }

    /// The number of fractional digits, which is in range.
    pub fn scale(&self) -> (r: u32)
        ensures
            r == self@.scale,
            self@.in_range(),
    {
        proof {
            use_type_invariant(self);
        }
        self.scale
    }

    /// `self + rhs`, or `None` where the sum is out of range.
    pub fn checked_add(self, rhs: Amount) -> (r: Option<Amount>)
        ensures
            option_view(r) == self@.plus(rhs@),
    {
        proof {
            use_type_invariant(self);
            use_type_invariant(rhs);
        }
        decimal_checked_add(self, rhs)
    }

    /// `self - rhs`, or `None` where the difference is out of range.
    pub fn checked_sub(self, rhs: Amount) -> (r: Option<Amount>)
        ensures
            option_view(r) == self@.minus(rhs@),
    {
        proof {
            use_type_invariant(self);
            use_type_invariant(rhs);
        }
        decimal_checked_sub(self, rhs)
    }

    /// Whether `self` is the greater number.
    pub fn gt(self, rhs: Amount) -> (r: bool)
        ensures
            r == (self@.value() > rhs@.value()),
    {
        proof {
            use_type_invariant(self);
            use_type_invariant(rhs);
        }
        decimal_gt(self, rhs)
    }

    /// The amount rounded to at most `dp` fractional digits, ties to even.
    pub fn round_dp(self, dp: u32) -> (r: Amount)
        ensures
            r@ == self@.rounded(dp as int),
    {
        proof {
            use_type_invariant(self);
        }
        decimal_round_dp(self, dp)
    }
}

/// Two amounts are equal where they denote the same number, whatever their
/// scales: `1.50` equals `1.5`.
impl PartialEq for Amount {
    fn eq(&self, other: &Amount) -> (r: bool) {
        !self.gt(*other) && !other.gt(*self)
    }
}

impl vstd::std_specs::cmp::PartialEqSpecImpl for Amount {
    open spec fn obeys_eq_spec() -> bool {
        true
    }

    open spec fn eq_spec(&self, other: &Amount) -> bool {
        self@.value() == other@.value()
    }
}

/// A whole number as an amount without fractional digits.
impl From<i32> for Amount {
    fn from(units: i32) -> (r: Amount) {
        let r = Amount { mantissa: units as i128, scale: 0 };
        proof {
            let target = AmountView { mantissa: units as int, scale: 0 };
            let chosen = choose|a: Amount| a@ == target;
            assert(r@ == target);
            assert(chosen@ == r@);
        }
        r
    }
}

impl vstd::std_specs::convert::FromSpecImpl<i32> for Amount {
    open spec fn obeys_from_spec() -> bool {
        true
    }

    open spec fn from_spec(units: i32) -> Amount {
        choose|a: Amount| a@ == (AmountView { mantissa: units as int, scale: 0 })
    }
}

/// There is an amount for every whole number of 32 bits, so `Amount::from`
/// returns the amount it is meant to.
pub proof fn lemma_from_whole_number(units: i32)
    ensures
        <Amount as vstd::std_specs::convert::FromSpec<i32>>::from_spec(units)@ == (AmountView {
            mantissa: units as int,
            scale: 0,
        }),
{
    let witness = Amount { mantissa: units as i128, scale: 0 };
    assert(witness@ == (AmountView { mantissa: units as int, scale: 0 }));
}

/// The view of an amount that may be absent.
pub open spec fn option_view(a: Option<Amount>) -> Option<AmountView> {
    match a {
        Some(x) => Some(x@),
        None => None,
    }
}

/// Calls `Decimal::checked_add`. Trusted, of the library's addition: it
/// returns the other operand as it stands where one is zero; on its short
/// path, taken by non-zero operands below `2^64` with scales at most 19
/// digits apart, it returns the sum at the longer scale if that is below
/// `2^96`; any other result is the one that [`decimal_sum`] names. Like every
/// decimal, the result is in range.
#[verifier::external_body]
fn decimal_checked_add(a: Amount, b: Amount) -> (r: Option<Amount>)
    requires
        a@.in_range(),
        b@.in_range(),
    ensures
        option_view(r) == (if a@.mantissa == 0 {
            Some(b@)
        } else if b@.mantissa == 0 {
            Some(a@)
        } else if a@.short_with(b@) && a@.full_sum(b@).in_range() {
            Some(a@.full_sum(b@))
        } else {
            match decimal_sum(a@.mantissa, a@.scale, b@.mantissa, b@.scale) {
                Some((m, s)) => Some(AmountView { mantissa: m, scale: s }),
                None => None,
            }
        }),
        r matches Some(sum) ==> sum@.in_range(),
{
    let x = Decimal::from_i128_with_scale(a.mantissa, a.scale);
    let y = Decimal::from_i128_with_scale(b.mantissa, b.scale);
    match x.checked_add(y) {
        Some(d) => Some(Amount { mantissa: d.mantissa(), scale: d.scale() }),
        None => None,
    }
}

/// Calls `Decimal::checked_sub`. Trusted, of the library's subtraction: zero
/// less a number is that number negated, at its scale, and a number less
/// zero is returned as it stands; on its short path, taken by non-zero
/// operands below `2^64` with scales at most 19 digits apart, it returns the
/// difference at the longer scale if that is below `2^96`; any other result
/// is the one that [`decimal_difference`] names. Like every decimal, the
/// result is in range.
#[verifier::external_body]
fn decimal_checked_sub(a: Amount, b: Amount) -> (r: Option<Amount>)
    requires
        a@.in_range(),
        b@.in_range(),
    ensures
        option_view(r) == (if a@.mantissa == 0 {
            Some(AmountView { mantissa: -b@.mantissa, scale: b@.scale })
        } else if b@.mantissa == 0 {
            Some(a@)
        } else if a@.short_with(b@) && a@.full_difference(b@).in_range() {
            Some(a@.full_difference(b@))
        } else {
            match decimal_difference(a@.mantissa, a@.scale, b@.mantissa, b@.scale) {
                Some((m, s)) => Some(AmountView { mantissa: m, scale: s }),
                None => None,
            }
        }),
        r matches Some(difference) ==> difference@.in_range(),
{
    let x = Decimal::from_i128_with_scale(a.mantissa, a.scale);
    let y = Decimal::from_i128_with_scale(b.mantissa, b.scale);
    match x.checked_sub(y) {
        Some(d) => Some(Amount { mantissa: d.mantissa(), scale: d.scale() }),
        None => None,
    }
}

/// Calls `Decimal`'s `>`. Trusted: the decimals are ordered as the numbers
/// they denote.
#[verifier::external_body]
fn decimal_gt(a: Amount, b: Amount) -> (r: bool)
    requires
        a@.in_range(),
        b@.in_range(),
    ensures
        r == (a@.value() > b@.value()),
{
    let x = Decimal::from_i128_with_scale(a.mantissa, a.scale);
    let y = Decimal::from_i128_with_scale(b.mantissa, b.scale);
    x > y
}

/// Calls `Decimal::round_dp`. Trusted: a decimal with more than `dp`
/// fractional digits is rounded to `dp` digits, a tie going to the even
/// neighbour; any other is returned as it is. Like every decimal, the result
/// is in range.
#[verifier::external_body]
fn decimal_round_dp(a: Amount, dp: u32) -> (r: Amount)
    requires
        a@.in_range(),
    ensures
        r@ == a@.rounded(dp as int),
        r@.in_range(),
{
    let d = Decimal::from_i128_with_scale(a.mantissa, a.scale).round_dp(dp);
    Amount { mantissa: d.mantissa(), scale: d.scale() }
}

} // verus!
