use vstd::prelude::*;

verus! {

/// The units a temperature can be given in.
#[derive(Copy, Clone, Debug, PartialEq, Eq, Structural)]
pub enum Unit {
    Fahrenheit,
    Celsius,
    Kelvin,
}

impl Unit {
    /// The unit's name, as a sequence of characters.
    pub open spec fn name_spec(self) -> Seq<char> {
        match self {
            Unit::Fahrenheit => "Fahrenheit"@,
            Unit::Celsius => "Celsius"@,
            Unit::Kelvin => "Kelvin"@,
        }
    }

    /// The unit's symbol, as a sequence of characters.
    pub open spec fn symbol_spec(self) -> Seq<char> {
        match self {
            Unit::Fahrenheit => "°F"@,
            Unit::Celsius => "°C"@,
            Unit::Kelvin => "°K"@,
        }
    }

    /// The unit's name.
    pub fn name(&self) -> (text: &'static str)
        ensures
            text@ == self.name_spec(),
    {
        match self {
            Unit::Fahrenheit => "Fahrenheit",
            Unit::Celsius => "Celsius",
            Unit::Kelvin => "Kelvin",
        }
    }

    /// The symbol that follows an amount of this unit.
    pub fn symbol(&self) -> (text: &'static str)
        ensures
            text@ == self.symbol_spec(),
    {
        match self {
            Unit::Fahrenheit => "°F",
            Unit::Celsius => "°C",
            Unit::Kelvin => "°K",
        }
    }
}

} // verus!
