use vstd::prelude::*;

verus! {

/// Why a temperature is refused.
#[derive(Copy, Clone, Debug, PartialEq, Eq, Structural)]
pub enum TemperatureError {
    /// The amount is in kelvins and below zero.
    BelowAbsoluteZero,
}

impl TemperatureError {
    /// The explanation shown to the user, as a sequence of characters.
    pub open spec fn message_spec(self) -> Seq<char> {
        match self {
            TemperatureError::BelowAbsoluteZero =>
                "Error: Temperature cannot be lower than absolute zero (0 °K).\nPlease, try again with another one ^^"@,
        }
    }

    /// The error as shown to the user: a line break, then the explanation.
    pub fn to_string(&self) -> (text: String)
        ensures
            text@ == seq!['\n'] + self.message_spec(),
    {
        proof {
            reveal_strlit("\n");
        }
        let mut text = String::from_str("\n");
        text.append(self.message());
        assert(text@ =~= seq!['\n'] + self.message_spec());
        text
    }

    /// The explanation shown to the user.
    pub fn message(&self) -> (text: &'static str)
        ensures
            text@ == self.message_spec(),
    {
        match self {
            TemperatureError::BelowAbsoluteZero =>
                "Error: Temperature cannot be lower than absolute zero (0 °K).\nPlease, try again with another one ^^",
        }
    }
}

} // verus!
