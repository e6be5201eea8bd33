//! Quantities, kept exactly: shares of a whole, fractions and rates per second.

use vstd::prelude::*;

use crate::clock::Duration;
use crate::text::{decimal, decimal_string};

verus! {

pub const NANOS_PER_SECOND: u128 = 1_000_000_000;

/// A quantity on which no rounding has taken place.
#[derive(Debug, Clone, Copy, PartialEq, Eq, Structural)]
pub enum Quantity {
    /// Nothing was measured.
    Zero,
    /// `part` out of `total`.
    Share { part: u64, total: u64 },
    /// `numerator` divided by `denominator`.
    Fraction { numerator: u128, denominator: u128 },
    /// `count` in the time `elapsed`, as a rate per second.
    PerSecond { count: u128, elapsed: Duration },
}

impl Quantity {
    /// Nothing is divided by zero.
    pub open spec fn well_formed(self) -> bool {
        match self {
            Quantity::Zero => true,
            Quantity::Share { part, total } => total > 0,
            Quantity::Fraction { numerator, denominator } => denominator > 0,
            Quantity::PerSecond { count, elapsed } => elapsed.nanos > 0,
        }
    }

    /// The quantity is `numerator` divided by `denominator`.
    pub open spec fn numerator(self) -> nat {
        match self {
            Quantity::Zero => 0,
            Quantity::Share { part, total } => part as nat,
            Quantity::Fraction { numerator, denominator } => numerator as nat,
            Quantity::PerSecond { count, elapsed } => (count * NANOS_PER_SECOND) as nat,
        }
    }

    pub open spec fn denominator(self) -> nat {
        match self {
            Quantity::Zero => 1,
            Quantity::Share { part, total } => total as nat,
            Quantity::Fraction { numerator, denominator } => denominator as nat,
            Quantity::PerSecond { count, elapsed } => elapsed.nanos as nat,
        }
    }

    /// The exact value of the quantity.
    pub open spec fn value(self) -> real {
        self.numerator() as real / self.denominator() as real
    }
}

pub(crate) proof fn lemma_zero_value()
    ensures
        Quantity::Zero.value() == 0real,
{
    assert(0real / 1real == 0real) by (nonlinear_arith);
}

/// The share that `part` is of `total`, zero where there is nothing to divide
/// by.
pub fn ratio(part: u64, total: u64) -> (result: Quantity)
    ensures
        result == spec_ratio(part, total),
        result.well_formed(),
        total == 0 ==> result == Quantity::Zero,
        total > 0 ==> result.value() * total as real == part as real,
{
    proof {
        law_ratios_are_quotients(part, total);
    }
    if total == 0 {
        Quantity::Zero
    } else {
        Quantity::Share { part, total }
    }
}

pub open spec fn spec_ratio(part: u64, total: u64) -> Quantity {
    if total == 0 {
        Quantity::Zero
    } else {
        Quantity::Share { part, total }
    }
}

/// What one of unit number `unit` is worth in bytes per second.
pub open spec fn unit_size(unit: nat) -> nat {
    if unit == 0 {
        1
    } else if unit == 1 {
        0x400
    } else if unit == 2 {
        0x10_0000
    } else if unit == 3 {
        0x4000_0000
    } else {
        0x100_0000_0000
    }
}

pub open spec fn unit_name(unit: nat) -> Seq<char> {
    if unit == 0 {
        "B/s"@
    } else if unit == 1 {
        "KiB/s"@
    } else if unit == 2 {
        "MiB/s"@
    } else if unit == 3 {
        "GiB/s"@
    } else {
        "TiB/s"@
    }
}

/// The largest unit of which the quantity holds at least one, or bytes where it
/// holds less than one of every larger unit.
pub open spec fn best_unit(quantity: Quantity) -> nat {
    let numerator = quantity.numerator();
    let denominator = quantity.denominator();
    if numerator >= unit_size(4) * denominator {
        4
    } else if numerator >= unit_size(3) * denominator {
        3
    } else if numerator >= unit_size(2) * denominator {
        2
    } else if numerator >= unit_size(1) * denominator {
        1
    } else {
        0
    }
}

/// The whole number next to `numerator / denominator`; the even one of two
/// that are equally near.
pub open spec fn nearest(numerator: nat, denominator: nat) -> nat {
    let below = numerator / denominator;
    let rest = numerator % denominator;
    if 2 * rest < denominator || (2 * rest == denominator && below % 2 == 0) {
        below
    } else {
        below + 1
    }
}

/// A number of tenths, written with one decimal place.
pub open spec fn one_decimal(tenths: nat) -> Seq<char> {
    crate::text::decimal(tenths / 10) + "."@ + crate::text::decimal(tenths % 10)
}

/// A byte rate in its best unit, rounded to one decimal place.
pub open spec fn byte_rate(quantity: Quantity) -> Seq<char> {
    let unit = best_unit(quantity);
    let tenths = nearest(
        10 * quantity.numerator(),
        unit_size(unit) * quantity.denominator(),
    );
    one_decimal(tenths) + " "@ + unit_name(unit)
}

/// Computes `nearest`.
fn round_to_nearest(numerator: u128, denominator: u128) -> (result: u128)
    requires
        0 < denominator,
        numerator < u128::MAX,
    ensures
        result == nearest(numerator as nat, denominator as nat),
{
    let below: u128 = numerator / denominator;
    let rest: u128 = numerator % denominator;
    assert(rest < denominator);
    assert(below <= numerator) by (nonlinear_arith)
        requires
            below == numerator / denominator,
            0 < denominator,
    ;
    if rest < denominator - rest || (rest == denominator - rest && below % 2 == 0) {
        below
    } else {
        below + 1
    }
}

/// Writes a byte rate for people to read, such as `1.0 MiB/s`.
///
/// A rate must be small enough for its tenths to be counted in 128 bits; the
/// counters of a single pool always are.
pub fn bytes_per_second(value: Quantity) -> (result: String)
    requires
        value.well_formed(),
        10 * value.numerator() < u128::MAX,
    ensures
        result@ == byte_rate(value),
{
    let (numerator, denominator): (u128, u128) = match value {
        Quantity::Zero => (0, 1),
        Quantity::Share { part, total } => (part as u128, total as u128),
        Quantity::Fraction { numerator, denominator } => (numerator, denominator),
        Quantity::PerSecond { count, elapsed } => (count * NANOS_PER_SECOND, elapsed.nanos),
    };
    let whole: u128 = numerator / denominator;
    proof {
        lemma_whole_units(numerator as nat, denominator as nat);
    }
    let (size, name): (u128, &'static str) = if whole >= 0x100_0000_0000 {
        (0x100_0000_0000, "TiB/s")
    } else if whole >= 0x4000_0000 {
        (0x4000_0000, "GiB/s")
    } else if whole >= 0x10_0000 {
        (0x10_0000, "MiB/s")
    } else if whole >= 0x400 {
        (0x400, "KiB/s")
    } else {
        (1, "B/s")
    };
    assert(size == unit_size(best_unit(value)));
    assert(name@ == unit_name(best_unit(value)));
    assert(size == 1 || size * denominator <= numerator);
    let tenths: u128 = round_to_nearest(numerator * 10, size * denominator);
    let mut result: String = decimal_string(tenths / 10);
    result.append(".");
    result.append(decimal_string(tenths % 10).as_str());
    result.append(" ");
    result.append(name);
    result
}

/// The unit of a byte rate fits: there is at least one of it, unless it is the
/// smallest, and less than one of the next, unless it is the largest.
pub proof fn law_best_unit_fits(quantity: Quantity)
    ensures
        best_unit(quantity) <= 4,
        best_unit(quantity) > 0 ==> quantity.numerator() >= unit_size(best_unit(quantity))
            * quantity.denominator(),
        best_unit(quantity) < 4 ==> quantity.numerator() < unit_size(best_unit(quantity) + 1)
            * quantity.denominator(),
        unit_size(best_unit(quantity) + 1) <= 1024 * unit_size(best_unit(quantity)),
{
}

/// Equal quotients round to the same whole number.
pub proof fn law_nearest_depends_on_the_quotient(
    numerator: nat,
    denominator: nat,
    other_numerator: nat,
    other_denominator: nat,
)
    requires
        denominator > 0,
        other_denominator > 0,
        numerator * other_denominator == other_numerator * denominator,
    ensures
        nearest(numerator, denominator) == nearest(other_numerator, other_denominator),
{
    let below = (numerator / denominator) as int;
    let rest = (numerator % denominator) as int;
    let p = numerator as int;
    let q = denominator as int;
    let r = other_numerator as int;
    let s = other_denominator as int;
    let other_rest = r - below * s;
    assert(p == below * q + rest && 0 <= rest < q) by (nonlinear_arith)
        requires
            q > 0,
            below == p / q,
            rest == p % q,
    ;
    assert(rest * s == other_rest * q) by (nonlinear_arith)
        requires
            p == below * q + rest,
            other_rest == r - below * s,
            p * s == r * q,
    ;
    assert(0 <= other_rest < s) by (nonlinear_arith)
        requires
            rest * s == other_rest * q,
            0 <= rest < q,
            s > 0,
            q > 0,
    ;
    assert(r / s == below && r % s == other_rest) by {
        vstd::arithmetic::div_mod::lemma_fundamental_div_mod_converse(r, s, below, other_rest);
    }
    assert((2 * rest < q) == (2 * other_rest < s) && (2 * rest == q) == (2 * other_rest == s))
        by (nonlinear_arith)
        requires
            rest * s == other_rest * q,
            s > 0,
            q > 0,
    ;
}

/// The number that is written in front of the unit, in tenths.
pub open spec fn shown_tenths(quantity: Quantity) -> nat {
    nearest(
        10 * quantity.numerator(),
        unit_size(best_unit(quantity)) * quantity.denominator(),
    )
}

/// A byte rate that is 1024 times another is written with the same number and
/// the next larger unit, as long as there is one and the smaller rate is at
/// least one byte per second.
pub proof fn law_next_unit_shows_the_same_number(small: Quantity, large: Quantity)
    requires
        small.well_formed(),
        large.well_formed(),
        large.numerator() * small.denominator() == 1024 * small.numerator() * large.denominator(),
        small.denominator() <= small.numerator(),
        small.numerator() < unit_size(4) * small.denominator(),
    ensures
        best_unit(large) == best_unit(small) + 1,
        shown_tenths(large) == shown_tenths(small),
        byte_rate(small) == one_decimal(shown_tenths(small)) + " "@ + unit_name(best_unit(small)),
        byte_rate(large) == one_decimal(shown_tenths(small)) + " "@ + unit_name(
            best_unit(small) + 1,
        ),
{
    let a = small.numerator() as int;
    let b = small.denominator() as int;
    let c = large.numerator() as int;
    let d = large.denominator() as int;
    assert(c * b == 1024 * (a * d)) by (nonlinear_arith)
        requires
            c * b == 1024 * a * d,
    ;
    lemma_scaled_comparison(a, b, c, d, 1);
    lemma_scaled_comparison(a, b, c, d, 0x400);
    lemma_scaled_comparison(a, b, c, d, 0x10_0000);
    lemma_scaled_comparison(a, b, c, d, 0x4000_0000);
    lemma_scaled_comparison(a, b, c, d, 0x100_0000_0000);
    let unit = best_unit(small);
    assert(best_unit(large) == unit + 1);
    let size = unit_size(unit) as int;
    assert(unit_size(unit + 1) == 1024 * size);
    assert((10 * c) * (size * b) == (10 * a) * (1024 * size * d)) by (nonlinear_arith)
        requires
            c * b == 1024 * (a * d),
    ;
    assert(size * b > 0 && 1024 * size * d > 0) by (nonlinear_arith)
        requires
            size > 0,
            b > 0,
            d > 0,
    ;
    law_nearest_depends_on_the_quotient(
        10 * large.numerator(),
        unit_size(unit + 1) * large.denominator(),
        10 * small.numerator(),
        unit_size(unit) * small.denominator(),
    );
}

proof fn lemma_scaled_comparison(a: int, b: int, c: int, d: int, size: int)
    requires
        b > 0,
        d > 0,
        c * b == 1024 * (a * d),
    ensures
        (c >= 1024 * size * d) == (a >= size * b),
{
    if a >= size * b {
        assert(a * d >= size * b * d) by (nonlinear_arith)
            requires
                a >= size * b,
                d > 0,
        ;
        assert(c >= 1024 * size * d) by (nonlinear_arith)
            requires
                c * b == 1024 * (a * d),
                a * d >= size * b * d,
                b > 0,
        ;
    } else {
        assert(a * d < size * b * d) by (nonlinear_arith)
            requires
                a < size * b,
                d > 0,
        ;
        assert(c < 1024 * size * d) by (nonlinear_arith)
            requires
                c * b == 1024 * (a * d),
                a * d < size * b * d,
                b > 0,
        ;
    }
}

/// Rounding to the nearest whole number moves a quotient by at most one half.
pub proof fn law_rounding_error_is_at_most_half(numerator: nat, denominator: nat)
    requires
        denominator > 0,
    ensures
        2 * nearest(numerator, denominator) * denominator <= 2 * numerator + denominator,
        2 * numerator <= 2 * nearest(numerator, denominator) * denominator + denominator,
{
    let below = numerator / denominator;
    let rest = numerator % denominator;
    assert(numerator == below * denominator + rest && 0 <= rest < denominator)
        by (nonlinear_arith)
        requires
            denominator > 0,
            below == numerator / denominator,
            rest == numerator % denominator,
    ;
    assert(2 * below * denominator == 2 * (below * denominator)) by (nonlinear_arith);
    assert(2 * (below + 1) * denominator == 2 * (below * denominator) + 2 * denominator)
        by (nonlinear_arith);
}

/// Comparing the whole part of a quotient with a unit is comparing the
/// quotient with it.
proof fn lemma_whole_units(numerator: nat, denominator: nat)
    requires
        denominator > 0,
    ensures
        forall|unit: nat|
            (numerator / denominator >= #[trigger] unit_size(unit)) == (numerator >= unit_size(unit)
                * denominator),
{
    assert forall|unit: nat|
        (numerator / denominator >= #[trigger] unit_size(unit)) == (numerator >= unit_size(unit)
            * denominator) by {
        let size = unit_size(unit);
        assert((numerator / denominator >= size) == (numerator >= size * denominator))
            by (nonlinear_arith)
            requires
                denominator > 0,
        ;
    }
}

/// Every quantity is the quotient that it stands for: its value times what it is
/// divided by is what is divided. Rates are per second, and a second has a
/// thousand million nanoseconds.
pub proof fn law_values_are_quotients(
    part: u64,
    total: u64,
    numerator: u128,
    denominator: u128,
    count: u128,
    elapsed: Duration,
)
    requires
        total > 0,
        denominator > 0,
        elapsed.nanos > 0,
    ensures
        Quantity::Zero.value() == 0real,
        (Quantity::Share { part, total }).value() * total as real == part as real,
        (Quantity::Fraction { numerator, denominator }).value() * denominator as real
            == numerator as real,
        (Quantity::PerSecond { count, elapsed }).value() * elapsed.nanos as real == (count
            * 1_000_000_000) as real,
{
    lemma_zero_value();
    lemma_quotient(Quantity::Share { part, total });
    lemma_quotient(Quantity::Fraction { numerator, denominator });
    lemma_quotient(Quantity::PerSecond { count, elapsed });
}

pub(crate) proof fn lemma_quotient(quantity: Quantity)
    requires
        quantity.well_formed(),
    ensures
        quantity.value() * quantity.denominator() as real == quantity.numerator() as real,
{
    let n = quantity.numerator() as real;
    let d = quantity.denominator() as real;
    assert((n / d) * d == n) by (nonlinear_arith)
        requires
            d > 0real,
    ;
}

/// A ratio times the total is the part, and there is none of nothing.
pub proof fn law_ratios_are_quotients(part: u64, total: u64)
    ensures
        spec_ratio(part, total).value() * total as real == if total == 0 {
            0real
        } else {
            part as real
        },
        total == 0 ==> spec_ratio(part, total) == Quantity::Zero,
{
    lemma_quotient(spec_ratio(part, total));
    assert(spec_ratio(part, total).value() * 0real == 0real) by (nonlinear_arith);
}

/// Each unit is 1024 of the one before it, and has its own name.
pub proof fn law_units_grow_by_1024(unit: nat)
    ensures
        unit_size(0) == 1,
        unit < 4 ==> unit_size(unit + 1) == 1024 * unit_size(unit),
        unit_name(0) == "B/s"@,
        unit_name(1) == "KiB/s"@,
        unit_name(2) == "MiB/s"@,
        unit_name(3) == "GiB/s"@,
        unit_name(4) == "TiB/s"@,
{
}

/// Of two whole numbers that are equally near the even one is taken.
pub proof fn law_ties_go_to_the_even_number(whole: nat, denominator: nat)
    requires
        denominator > 0,
    ensures
        nearest((2 * whole + 1) * denominator, 2 * denominator) % 2 == 0,
        nearest(whole * denominator, denominator) == whole,
{
    let d = denominator as int;
    let w = whole as int;
    assert((2 * w + 1) * d == w * (2 * d) + d) by (nonlinear_arith);
    vstd::arithmetic::div_mod::lemma_fundamental_div_mod_converse((2 * w + 1) * d, 2 * d, w, d);
    vstd::arithmetic::div_mod::lemma_fundamental_div_mod_converse(w * d, d, w, 0);
}

/// Quantities that can be divided out are those that are not divided by zero.
pub proof fn law_well_formed_means_divisible(
    part: u64,
    total: u64,
    numerator: u128,
    denominator: u128,
    count: u128,
    elapsed: Duration,
)
    ensures
        Quantity::Zero.well_formed(),
        (Quantity::Share { part, total }).well_formed() <==> total != 0,
        (Quantity::Fraction { numerator, denominator }).well_formed() <==> denominator != 0,
        (Quantity::PerSecond { count, elapsed }).well_formed() <==> elapsed.nanos != 0,
{
}

/// A byte rate is written as whole units, a point, one digit for the tenths and
/// the unit. What is written differs from the rate by at most half a tenth of the
/// unit, and the unit is the largest of which there is at least one.
pub proof fn law_byte_rates_are_written_in_tenths(quantity: Quantity)
    requires
        quantity.well_formed(),
    ensures
        ({
            let tenths = shown_tenths(quantity);
            let unit = best_unit(quantity);
            let one = unit_size(unit) * quantity.denominator();
            &&& byte_rate(quantity) == decimal(tenths / 10) + "."@ + decimal(tenths % 10) + " "@
                + unit_name(unit)
            &&& decimal(tenths % 10).len() == 1
            &&& 2 * tenths * one <= 20 * quantity.numerator() + one
            &&& 20 * quantity.numerator() <= 2 * tenths * one + one
            &&& unit <= 4
            &&& unit > 0 ==> quantity.numerator() >= one
            &&& unit < 4 ==> quantity.numerator() < 1024 * one
        }),
{
    let tenths = shown_tenths(quantity);
    let unit = best_unit(quantity);
    let size = unit_size(unit);
    let d = quantity.denominator();
    let one = size * d;
    assert(one > 0) by (nonlinear_arith)
        requires
            one == size * d,
            size > 0,
            d > 0,
    ;
    law_rounding_error_is_at_most_half(10 * quantity.numerator(), one);
    law_best_unit_fits(quantity);
    law_units_grow_by_1024(unit);
    crate::text::law_decimals_are_shortest(tenths % 10);
    assert((1024 * size) * d == 1024 * one) by (nonlinear_arith)
        requires
            one == size * d,
    ;
}

} // verus!
