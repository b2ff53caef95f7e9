//! The dialogue of one conversion: the unit to convert from, the unit to
//! convert to, the amount, then the result. Each entry of the user moves the
//! dialogue on by one step; whoever runs it shows the prompts and reads the
//! entries.
use crate::conversion::{convert, convert_model, Conversion, Quantity};
use crate::length::{Length, Unit as LengthUnit};
use crate::prompt::{
    format_length_choice, format_temperature_choice, length_choice_spec, length_unit_spec,
    length_value_spec, read_length_unit, read_length_value, read_temperature_unit,
    read_temperature_value, temperature_choice_spec, temperature_unit_spec, temperature_value_spec,
    Reading, Selection,
};
use crate::temperature::{Temperature, Unit as TemperatureUnit};
use vstd::prelude::*;

verus! {

/// A kind of quantity that the dialogue can ask for: how its prompts read an
/// entry, and how the choice of a unit is confirmed.
pub trait Dialogue: Conversion + Copy {
    /// What `entry` chooses at the prompt for a unit.
    spec fn unit_spec(entry: Seq<char>) -> Selection<Self::Unit>;

    /// What `entry` gives at the prompt for an amount in `unit`.
    spec fn value_spec(entry: Seq<char>, unit: Self::Unit) -> Reading<
        Quantity<Self::Unit>,
        Self::Error,
    >;

    /// The line that confirms the choice of `unit`.
    spec fn choice_spec(unit: Self::Unit) -> Seq<char>;

    /// Reads the answer at the prompt for a unit.
    fn read_unit(entry: &str) -> (r: Selection<Self::Unit>)
        ensures
            r == Self::unit_spec(entry@),
    ;

    /// Reads the answer at the prompt for an amount in `unit`.
    fn read_value(entry: &str, unit: Self::Unit) -> (r: Reading<Self, Self::Error>)
        ensures
            r@ == Self::value_spec(entry@, unit),
    ;

    /// Writes the line that confirms the choice of `unit`.
    fn format_choice(unit: Self::Unit) -> (text: String)
        ensures
            text@ == Self::choice_spec(unit),
    ;
}

impl Dialogue for Temperature {
    open spec fn unit_spec(entry: Seq<char>) -> Selection<TemperatureUnit> {
        temperature_unit_spec(entry)
    }

    open spec fn value_spec(entry: Seq<char>, unit: TemperatureUnit) -> Reading<
        Quantity<TemperatureUnit>,
        Self::Error,
    > {
        temperature_value_spec(entry, unit)
    }

    open spec fn choice_spec(unit: TemperatureUnit) -> Seq<char> {
        temperature_choice_spec(unit)
    }

    fn read_unit(entry: &str) -> (r: Selection<TemperatureUnit>) {
        read_temperature_unit(entry)
    }

    fn read_value(entry: &str, unit: TemperatureUnit) -> (r: Reading<Self, Self::Error>) {
        read_temperature_value(entry, unit)
    }

    fn format_choice(unit: TemperatureUnit) -> (text: String) {
        format_temperature_choice(unit)
    }
}

impl Dialogue for Length {
    open spec fn unit_spec(entry: Seq<char>) -> Selection<LengthUnit> {
        length_unit_spec(entry)
    }

    open spec fn value_spec(entry: Seq<char>, unit: LengthUnit) -> Reading<
        Quantity<LengthUnit>,
        Self::Error,
    > {
        length_value_spec(entry, unit)
    }

    open spec fn choice_spec(unit: LengthUnit) -> Seq<char> {
        length_choice_spec(unit)
    }

    fn read_unit(entry: &str) -> (r: Selection<LengthUnit>) {
        read_length_unit(entry)
    }

    fn read_value(entry: &str, unit: LengthUnit) -> (r: Reading<Self, Self::Error>) {
        read_length_value(entry, unit)
    }

    fn format_choice(unit: LengthUnit) -> (text: String) {
        format_length_choice(unit)
    }
}

/// Which entry the dialogue waits for.
#[derive(Copy, Clone, Debug, PartialEq, Eq)]
pub enum Stage<U> {
    /// The unit to convert from.
    Source,
    /// The unit to convert to.
    Target { source: U },
    /// The amount, in the unit to convert from.
    Value { source: U, target: U },
}

/// What to tell the user before the next prompt.
#[derive(Copy, Clone, Debug, PartialEq, Eq)]
pub enum Notice<U, E> {
    /// This unit was chosen.
    Chose(U),
    /// The entry was none of the units on offer.
    Unrecognised,
    /// The entry was no amount.
    Malformed,
    /// The amount was refused.
    Rejected(E),
}

/// How a dialogue ends.
#[derive(Copy, Clone, Debug, PartialEq, Eq)]
pub enum Ending<T, E> {
    /// The user quit at a prompt for a unit: a farewell is due.
    Farewell,
    /// The user quit at the prompt for the amount.
    Cancelled,
    /// The conversion was refused.
    Failed(E),
    /// `value` equals `result`.
    Converted { value: T, result: T },
}

/// The step that follows an entry.
#[derive(Copy, Clone, Debug, PartialEq, Eq)]
pub enum Progress<U, T, E> {
    /// Give the notice, then prompt for what `stage` waits for.
    Ask { stage: Stage<U>, notice: Notice<U, E> },
    /// The dialogue is over.
    End(Ending<T, E>),
}

impl<U, T: View, E> View for Progress<U, T, E> {
    type V = Progress<U, T::V, E>;

    open spec fn view(&self) -> Progress<U, T::V, E> {
        match *self {
            Progress::Ask { stage, notice } => Progress::Ask { stage, notice },
            Progress::End(Ending::Farewell) => Progress::End(Ending::Farewell),
            Progress::End(Ending::Cancelled) => Progress::End(Ending::Cancelled),
            Progress::End(Ending::Failed(e)) => Progress::End(Ending::Failed(e)),
            Progress::End(Ending::Converted { value, result }) => Progress::End(
                Ending::Converted { value: value@, result: result@ },
            ),
        }
    }
}

/// The step that follows `entry` at `stage`. At a prompt for a unit, a unit
/// chosen moves on to the next prompt, a request to quit ends with a
/// farewell, and anything else asks again. At the prompt for the amount, an
/// amount accepted is converted and ends the dialogue, a request to quit
/// ends it, and anything else asks again.
pub open spec fn advance_spec<T: Dialogue>(stage: Stage<T::Unit>, entry: Seq<char>) -> Progress<
    T::Unit,
    Quantity<T::Unit>,
    T::Error,
> {
    match stage {
        Stage::Source => match T::unit_spec(entry) {
            Selection::Chosen(unit) => Progress::Ask {
                stage: Stage::Target { source: unit },
                notice: Notice::Chose(unit),
            },
            Selection::Quit => Progress::End(Ending::Farewell),
            Selection::Unrecognised => Progress::Ask { stage, notice: Notice::Unrecognised },
        },
        Stage::Target { source } => match T::unit_spec(entry) {
            Selection::Chosen(unit) => Progress::Ask {
                stage: Stage::Value { source, target: unit },
                notice: Notice::Chose(unit),
            },
            Selection::Quit => Progress::End(Ending::Farewell),
            Selection::Unrecognised => Progress::Ask { stage, notice: Notice::Unrecognised },
        },
        Stage::Value { source, target } => match T::value_spec(entry, source) {
            Reading::Accepted(value) => match convert_model::<T>(value, target) {
                Ok(result) => Progress::End(Ending::Converted { value, result }),
                Err(e) => Progress::End(Ending::Failed(e)),
            },
            Reading::Quit => Progress::End(Ending::Cancelled),
            Reading::Malformed => Progress::Ask { stage, notice: Notice::Malformed },
            Reading::Rejected(e) => Progress::Ask { stage, notice: Notice::Rejected(e) },
        },
    }
}

/// Moves the dialogue on by the user's `entry` at `stage`.
pub fn advance<T: Dialogue>(stage: Stage<T::Unit>, entry: &str) -> (r: Progress<
    T::Unit,
    T,
    T::Error,
>) where T::Unit: Copy
    ensures
        r@ == advance_spec::<T>(stage, entry@),
{
    match stage {
        Stage::Source => match T::read_unit(entry) {
            Selection::Chosen(unit) => Progress::Ask {
                stage: Stage::Target { source: unit },
                notice: Notice::Chose(unit),
            },
            Selection::Quit => Progress::End(Ending::Farewell),
            Selection::Unrecognised => Progress::Ask { stage, notice: Notice::Unrecognised },
        },
        Stage::Target { source } => match T::read_unit(entry) {
            Selection::Chosen(unit) => Progress::Ask {
                stage: Stage::Value { source, target: unit },
                notice: Notice::Chose(unit),
            },
            Selection::Quit => Progress::End(Ending::Farewell),
            Selection::Unrecognised => Progress::Ask { stage, notice: Notice::Unrecognised },
        },
        Stage::Value { source, target } => match T::read_value(entry, source) {
            Reading::Accepted(value) => match convert(value, target) {
                Ok(result) => Progress::End(Ending::Converted { value, result }),
                Err(e) => Progress::End(Ending::Failed(e)),
            },
            Reading::Quit => Progress::End(Ending::Cancelled),
            Reading::Malformed => Progress::Ask { stage, notice: Notice::Malformed },
            Reading::Rejected(e) => Progress::Ask { stage, notice: Notice::Rejected(e) },
        },
    }
}

} // verus!
