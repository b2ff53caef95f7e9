use vstd::prelude::*;

verus! {

/// The units a length can be given in.
#[derive(Copy, Clone, Debug, PartialEq, Eq, Structural)]
pub enum Unit {
    Meters,
    Kilometers,
    Centimeters,
    Inches,
    Feet,
}

impl Unit {
    /// The unit's name, as a sequence of characters.
    pub open spec fn name_spec(self) -> Seq<char> {
        match self {
            Unit::Meters => "Meters"@,
            Unit::Kilometers => "Kilometers"@,
            Unit::Centimeters => "Centimeters"@,
            Unit::Inches => "Inches"@,
            Unit::Feet => "Feet"@,
        }
    }

    /// The unit's symbol, as a sequence of characters.
    pub open spec fn symbol_spec(self) -> Seq<char> {
        match self {
            Unit::Meters => "m"@,
            Unit::Kilometers => "km"@,
            Unit::Centimeters => "cm"@,
            Unit::Inches => "in"@,
            Unit::Feet => "ft"@,
        }
    }

    /// The unit's name.
    pub fn name(&self) -> (text: &'static str)
        ensures
            text@ == self.name_spec(),
    {
        match self {
            Unit::Meters => "Meters",
            Unit::Kilometers => "Kilometers",
            Unit::Centimeters => "Centimeters",
            Unit::Inches => "Inches",
            Unit::Feet => "Feet",
        }
    }

    /// The symbol that follows an amount of this unit.
    pub fn symbol(&self) -> (text: &'static str)
        ensures
            text@ == self.symbol_spec(),
    {
        match self {
            Unit::Meters => "m",
            Unit::Kilometers => "km",
            Unit::Centimeters => "cm",
            Unit::Inches => "in",
            Unit::Feet => "ft",
        }
    }
}

} // verus!
