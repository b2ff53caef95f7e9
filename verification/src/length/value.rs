use super::Unit;
use crate::conversion::{convert_model, Conversion, Quantity};
use crate::decimal::{render, two_places};
use crate::fixed::{
    divide_rounded, lemma_round_div_nearest, representable, round_div, saturate, saturated,
    TOLERANCE,
};
use std::convert::Infallible;
use vstd::prelude::*;

verus! {

/// The metres of `v` millionths of `unit`, before narrowing to 64 bits: a
/// kilometre is 1000 metres, a centimetre 1/100, an inch 0.0254 and a foot
/// 0.3048.
pub open spec fn meters_of(unit: Unit, v: int) -> int {
    match unit {
        Unit::Meters => v,
        Unit::Kilometers => v * 1000,
        Unit::Centimeters => round_div(v, 100),
        Unit::Inches => round_div(v * 254, 10_000),
        Unit::Feet => round_div(v * 3048, 10_000),
    }
}

/// The amount in `target` of `m` millionths of a metre, before narrowing to
/// 64 bits.
pub open spec fn of_meters(target: Unit, m: int) -> int {
    match target {
        Unit::Meters => m,
        Unit::Kilometers => round_div(m, 1000),
        Unit::Centimeters => m * 100,
        Unit::Inches => round_div(m * 10_000, 254),
        Unit::Feet => round_div(m * 10_000, 3048),
    }
}

/// What conversion to metres owes for a length that holds `q`.
pub open spec fn to_meters_model(q: Quantity<Unit>) -> Result<Quantity<Unit>, Infallible> {
    Ok(Quantity { value: saturate(meters_of(q.unit, q.value)), unit: Unit::Meters })
}

/// What conversion from metres owes for the unit `target` and a length that
/// holds `q`, whose amount is read as metres.
pub open spec fn from_meters_model(q: Quantity<Unit>, target: Unit) -> Result<
    Quantity<Unit>,
    Infallible,
> {
    Ok(Quantity { value: saturate(of_meters(target, q.value)), unit: target })
}

/// A length: an amount in millionths of a unit.
#[derive(Copy, Clone, Debug)]
pub struct Length {
    pub(crate) value: i64,
    pub(crate) unit: Unit,
}

impl View for Length {
    type V = Quantity<Unit>;

    closed spec fn view(&self) -> Quantity<Unit> {
        Quantity { value: self.value as int, unit: self.unit }
    }
}

impl Length {
    /// Builds the length of `value` millionths of `unit`. Every amount is a
    /// length: this never fails.
    pub fn new(value: i64, unit: Unit) -> (r: Result<Length, Infallible>)
        ensures
            r matches Ok(length) && length@ == (Quantity { value: value as int, unit }),
    {
        Ok(Length { value, unit })
    }

    /// The length as shown to the user: the amount with two decimal places,
    /// a space and the unit's symbol.
    pub fn to_string(&self) -> (text: String)
        ensures
            text@ == two_places(self@.value) + seq![' '] + self@.unit.symbol_spec(),
    {
        let mut text = render(self.value);
        proof {
            reveal_strlit(" ");
        }
        text.append(" ");
        text.append(self.unit.symbol());
        proof {
            assert(text@ =~= two_places(self@.value) + seq![' '] + self@.unit.symbol_spec());
        }
        text
    }

    /// The amount, in millionths of the length's unit.
    pub fn value(&self) -> (v: i64)
        ensures
            v == self@.value,
    {
        self.value
    }
}

impl Conversion for Length {
    type Unit = Unit;

    type Error = Infallible;

    open spec fn to_canonical_model(q: Quantity<Unit>) -> Result<Quantity<Unit>, Infallible> {
        to_meters_model(q)
    }

    open spec fn from_canonical_model(q: Quantity<Unit>, target: Unit) -> Result<
        Quantity<Unit>,
        Infallible,
    > {
        from_meters_model(q, target)
    }

    fn to_canonical(self) -> (r: Result<Self, Infallible>) {
        let v: i128 = self.value as i128;
        let meters: i128 = match self.unit {
            Unit::Meters => v,
            Unit::Kilometers => v * 1000,
            Unit::Centimeters => divide_rounded(v, 100),
            Unit::Inches => divide_rounded(v * 254, 10_000),
            Unit::Feet => divide_rounded(v * 3048, 10_000),
        };
        Length::new(saturated(meters), Unit::Meters)
    }

    fn from_canonical(canon: Self, target: Unit) -> (r: Result<Self, Infallible>) {
        let m: i128 = canon.value as i128;
        let amount: i128 = match target {
            Unit::Meters => m,
            Unit::Kilometers => divide_rounded(m, 1000),
            Unit::Centimeters => m * 100,
            Unit::Inches => divide_rounded(m * 10_000, 254),
            Unit::Feet => divide_rounded(m * 10_000, 3048),
        };
        Length::new(saturated(amount), target)
    }
}

/// Round trip: a length whose metres are representable, converted to metres
/// and back to its own unit, comes back in that unit less than 0.01 away
/// from where it started.
pub proof fn lemma_round_trip(q: Quantity<Unit>)
    requires
        representable(q.value),
        representable(meters_of(q.unit, q.value)),
    ensures
        convert_model::<Length>(q, q.unit) matches Ok(back) && back.unit == q.unit
            && -TOLERANCE < back.value - q.value < TOLERANCE,
{
    let v = q.value;
    let m = meters_of(q.unit, v);
    match q.unit {
        Unit::Meters => {},
        Unit::Kilometers => {
            lemma_round_div_nearest(m, 1000);
        },
        Unit::Centimeters => {
            lemma_round_div_nearest(v, 100);
        },
        Unit::Inches => {
            lemma_round_div_nearest(v * 254, 10_000);
            lemma_round_div_nearest(m * 10_000, 254);
        },
        Unit::Feet => {
            lemma_round_div_nearest(v * 3048, 10_000);
            lemma_round_div_nearest(m * 10_000, 3048);
        },
    }
}

} // verus!
