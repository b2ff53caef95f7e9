use super::{TemperatureError, Unit};
use crate::conversion::{convert_model, holds, Conversion, Quantity};
use crate::decimal::{render, two_places};
use crate::fixed::{
    divide_rounded, lemma_round_div_nearest, representable, round_div, saturate, saturated,
    TOLERANCE,
};
use vstd::prelude::*;

verus! {

/// 273.15: the kelvins at zero degrees Celsius, in millionths.
pub const CELSIUS_ZERO: i64 = 273_150_000;

/// 32: the degrees Fahrenheit at zero degrees Celsius, in millionths.
pub const FAHRENHEIT_ZERO: i64 = 32_000_000;

/// Whether an amount is allowed in a unit: kelvins are never negative.
pub open spec fn valid(q: Quantity<Unit>) -> bool {
    q.unit == Unit::Kelvin ==> q.value >= 0
}

/// What the constructor owes: the quantity itself where it is valid.
pub open spec fn validated(value: int, unit: Unit) -> Result<Quantity<Unit>, TemperatureError> {
    if unit == Unit::Kelvin && value < 0 {
        Err(TemperatureError::BelowAbsoluteZero)
    } else {
        Ok(Quantity { value, unit })
    }
}

/// What conversion to kelvins owes for a temperature that holds `q`.
pub open spec fn to_kelvin_model(q: Quantity<Unit>) -> Result<Quantity<Unit>, TemperatureError> {
    validated(saturate(kelvin_of(q.unit, q.value)), Unit::Kelvin)
}

/// What conversion from kelvins owes for the unit `target` and a temperature
/// that holds `q`, whose amount is read as kelvins.
pub open spec fn from_kelvin_model(q: Quantity<Unit>, target: Unit) -> Result<
    Quantity<Unit>,
    TemperatureError,
> {
    validated(saturate(of_kelvin(target, q.value)), target)
}

/// The kelvins of `v` millionths of `unit`, before narrowing to 64 bits:
/// `v + 273.15` for Celsius, `(v - 32) * 5/9 + 273.15` for Fahrenheit.
pub open spec fn kelvin_of(unit: Unit, v: int) -> int {
    match unit {
        Unit::Celsius => v + CELSIUS_ZERO,
        Unit::Fahrenheit => round_div((v - FAHRENHEIT_ZERO) * 5, 9) + CELSIUS_ZERO,
        Unit::Kelvin => v,
    }
}

/// The amount in `target` of `k` millionths of a kelvin, before narrowing to
/// 64 bits: `k - 273.15` for Celsius, `(k - 273.15) * 9/5 + 32` for Fahrenheit.
pub open spec fn of_kelvin(target: Unit, k: int) -> int {
    match target {
        Unit::Celsius => k - CELSIUS_ZERO,
        Unit::Fahrenheit => round_div((k - CELSIUS_ZERO) * 9, 5) + FAHRENHEIT_ZERO,
        Unit::Kelvin => k,
    }
}

/// A temperature: an amount in millionths of a unit. A value of this type in
/// kelvins is never below zero.
#[derive(Copy, Clone, Debug)]
pub struct Temperature {
    pub(crate) value: i64,
    pub(crate) unit: Unit,
}

impl Temperature {
    #[verifier::type_invariant]
    spec fn well_formed(self) -> bool {
        self.unit == Unit::Kelvin ==> self.value >= 0
    }

    /// Builds the temperature of `value` millionths of `unit`, unless that is
    /// below absolute zero.
    pub fn new(value: i64, unit: Unit) -> (r: Result<Temperature, TemperatureError>)
        ensures
            holds(r, validated(value as int, unit)),
    {
        if unit == Unit::Kelvin && value < 0 {
            Err(TemperatureError::BelowAbsoluteZero)
        } else {
            Ok(Temperature { value, unit })
        }
    }

    /// The temperature as shown to the user: the amount with two decimal
    /// places, a space and the unit's symbol.
    pub fn to_string(&self) -> (text: String)
        ensures
            text@ == two_places(self@.value) + seq![' '] + self@.unit.symbol_spec(),
    {
        let mut text = render(self.value);
        proof {
            reveal_strlit(" ");
        }
        text.append(" ");
        text.append(self.unit.symbol());
        proof {
            assert(text@ =~= two_places(self@.value) + seq![' '] + self@.unit.symbol_spec());
        }
        text
    }

    /// The amount, in millionths of the temperature's unit.
    pub fn value(&self) -> (v: i64)
        ensures
            v == self@.value,
            valid(self@),
    {
        proof {
            use_type_invariant(self);
        }
        self.value
    }
}

impl View for Temperature {
    type V = Quantity<Unit>;

    closed spec fn view(&self) -> Quantity<Unit> {
        Quantity { value: self.value as int, unit: self.unit }
    }
}

impl Unit {
    /// Expresses `tmp` in kelvins.
    pub fn to_kelvin(tmp: Temperature) -> (r: Result<Temperature, TemperatureError>)
        ensures
            holds(r, to_kelvin_model(tmp@)),
    {
        let v: i128 = tmp.value as i128;
        let kelvins: i128 = match tmp.unit {
            Unit::Celsius => v + CELSIUS_ZERO as i128,
            Unit::Fahrenheit => divide_rounded((v - FAHRENHEIT_ZERO as i128) * 5, 9)
                + CELSIUS_ZERO as i128,
            Unit::Kelvin => v,
        };
        Temperature::new(saturated(kelvins), Unit::Kelvin)
    }

    /// Expresses `tmp`, read as an amount of kelvins, in `target`.
    pub fn from_kelvin(tmp: Temperature, target: Unit) -> (r: Result<Temperature, TemperatureError>)
        ensures
            holds(r, from_kelvin_model(tmp@, target)),
    {
        let k: i128 = tmp.value as i128;
        let amount: i128 = match target {
            Unit::Celsius => k - CELSIUS_ZERO as i128,
            Unit::Fahrenheit => divide_rounded((k - CELSIUS_ZERO as i128) * 9, 5)
                + FAHRENHEIT_ZERO as i128,
            Unit::Kelvin => k,
        };
        Temperature::new(saturated(amount), target)
    }
}

impl Conversion for Temperature {
    type Unit = Unit;

    type Error = TemperatureError;

    open spec fn to_canonical_model(q: Quantity<Unit>) -> Result<Quantity<Unit>, TemperatureError> {
        to_kelvin_model(q)
    }

    open spec fn from_canonical_model(q: Quantity<Unit>, target: Unit) -> Result<
        Quantity<Unit>,
        TemperatureError,
    > {
        from_kelvin_model(q, target)
    }

    fn to_canonical(self) -> (r: Result<Self, TemperatureError>) {
        Unit::to_kelvin(self)
    }

    fn from_canonical(canon: Self, target: Unit) -> (r: Result<Self, TemperatureError>) {
        Unit::from_kelvin(canon, target)
    }
}

/// Round trip: a temperature whose kelvins are representable and not below
/// zero, converted to kelvins and back to its own unit, comes back in that
/// unit less than 0.01 away from where it started.
pub proof fn lemma_round_trip(q: Quantity<Unit>)
    requires
        representable(q.value),
        0 <= kelvin_of(q.unit, q.value) <= i64::MAX,
    ensures
        convert_model::<Temperature>(q, q.unit) matches Ok(back) && back.unit == q.unit
            && -TOLERANCE < back.value - q.value < TOLERANCE,
{
    if q.unit == Unit::Fahrenheit {
        let k = kelvin_of(q.unit, q.value);
        lemma_round_div_nearest((q.value - FAHRENHEIT_ZERO) * 5, 9);
        lemma_round_div_nearest((k - CELSIUS_ZERO) * 9, 5);
    }
}

} // verus!
