//! What the user's entries at the prompts mean. An entry is a line as typed,
//! without the white space around it: see [`trim`].
use crate::conversion::{Conversion, Quantity};
use crate::decimal::{denoted, parse};
use crate::length::{Length, Unit as LengthUnit};
use crate::temperature::{validated, Temperature, TemperatureError, Unit as TemperatureUnit};
use std::convert::Infallible;
use vstd::prelude::*;

verus! {

/// The answer at the main menu.
#[derive(Copy, Clone, Debug, PartialEq, Eq, Structural)]
pub enum MenuChoice {
    Temperature,
    Length,
    Quit,
    Unrecognised,
}

/// The answer at a prompt for a unit.
#[derive(Copy, Clone, Debug, PartialEq, Eq)]
pub enum Selection<U> {
    Chosen(U),
    Quit,
    Unrecognised,
}

/// The answer at a prompt for an amount.
#[derive(Copy, Clone, Debug, PartialEq, Eq)]
pub enum Reading<T, E> {
    /// The entry denotes an amount that the kind of quantity allows.
    Accepted(T),
    Quit,
    /// The entry denotes no amount.
    Malformed,
    /// The entry denotes an amount that the kind of quantity refuses.
    Rejected(E),
}

impl<T: View, E> View for Reading<T, E> {
    type V = Reading<T::V, E>;

    open spec fn view(&self) -> Reading<T::V, E> {
        match *self {
            Reading::Accepted(t) => Reading::Accepted(t@),
            Reading::Quit => Reading::Quit,
            Reading::Malformed => Reading::Malformed,
            Reading::Rejected(e) => Reading::Rejected(e),
        }
    }
}

/// Whether `c` is white space: one of the 25 characters that Unicode gives
/// the property White_Space. They are the tab, the line feed, the vertical
/// tab, the form feed, the carriage return, the space, the next-line
/// character, the no-break space, the Ogham space mark, the spaces from the
/// en quad to the hair space, the line and the paragraph separator, the
/// narrow no-break space, the medium mathematical space and the ideographic
/// space.
pub open spec fn white_space(c: char) -> bool {
    let n = c as int;
    ||| 0x09 <= n <= 0x0d
    ||| n == 0x20
    ||| n == 0x85
    ||| n == 0xa0
    ||| n == 0x1680
    ||| 0x2000 <= n <= 0x200a
    ||| n == 0x2028
    ||| n == 0x2029
    ||| n == 0x202f
    ||| n == 0x205f
    ||| n == 0x3000
}

/// Whether `c` is white space.
pub fn is_white_space(c: char) -> (r: bool)
    ensures
        r == white_space(c),
{
    let n = c as u32;
    (0x09 <= n && n <= 0x0d) || n == 0x20 || n == 0x85 || n == 0xa0 || n == 0x1680 || (0x2000 <= n
        && n <= 0x200a) || n == 0x2028 || n == 0x2029 || n == 0x202f || n == 0x205f || n == 0x3000
}

/// `s` without the white space it begins with.
pub open spec fn without_leading(s: Seq<char>) -> Seq<char>
    decreases s.len(),
{
    if s.len() > 0 && white_space(s[0]) {
        without_leading(s.drop_first())
    } else {
        s
    }
}

/// `s` without the white space it ends with.
pub open spec fn without_trailing(s: Seq<char>) -> Seq<char>
    decreases s.len(),
{
    if s.len() > 0 && white_space(s.last()) {
        without_trailing(s.drop_last())
    } else {
        s
    }
}

/// `line` without the white space around it.
pub open spec fn trimmed(line: Seq<char>) -> Seq<char> {
    without_trailing(without_leading(line))
}

/// The entry that a line holds: the line without the white space at its
/// start and at its end, the line's terminator included.
pub fn trim(line: &str) -> (entry: &str)
    ensures
        entry@ == trimmed(line@),
{
    let n = line.unicode_len();
    let mut start: usize = 0;
    assert(line@.subrange(0, n as int) =~= line@);
    while start < n && is_white_space(line.get_char(start))
        invariant
            start <= n,
            n == line@.len(),
            without_leading(line@) == without_leading(line@.subrange(start as int, n as int)),
        decreases n - start,
    {
        proof {
            let rest = line@.subrange(start as int, n as int);
            assert(rest[0] == line@[start as int]);
            assert(rest.drop_first() =~= line@.subrange(start as int + 1, n as int));
        }
        start += 1;
    }
    let ghost kept = line@.subrange(start as int, n as int);
    assert(without_leading(line@) == kept) by {
        if start < n {
            assert(kept[0] == line@[start as int]);
        }
    }
    let mut end: usize = n;
    assert(kept.subrange(0, kept.len() as int) =~= kept);
    while end > start && is_white_space(line.get_char(end - 1))
        invariant
            start <= end <= n,
            n == line@.len(),
            kept == line@.subrange(start as int, n as int),
            without_trailing(kept) == without_trailing(line@.subrange(start as int, end as int)),
        decreases end,
    {
        proof {
            let rest = line@.subrange(start as int, end as int);
            assert(rest.last() == line@[end as int - 1]);
            assert(rest.drop_last() =~= line@.subrange(start as int, end as int - 1));
        }
        end -= 1;
    }
    proof {
        let rest = line@.subrange(start as int, end as int);
        if end > start {
            assert(rest.last() == line@[end as int - 1]);
        }
        assert(without_trailing(kept) == rest);
    }
    line.substring_char(start, end)
}

/// Whether `entry` asks to quit: `q`, in either case.
pub open spec fn is_quit_spec(entry: Seq<char>) -> bool {
    entry == seq!['q'] || entry == seq!['Q']
}

/// What `entry` chooses at the main menu.
pub open spec fn menu_choice_spec(entry: Seq<char>) -> MenuChoice {
    if entry == seq!['1'] {
        MenuChoice::Temperature
    } else if entry == seq!['2'] {
        MenuChoice::Length
    } else if is_quit_spec(entry) {
        MenuChoice::Quit
    } else {
        MenuChoice::Unrecognised
    }
}

/// What `entry` chooses at the prompt for a unit of temperature.
pub open spec fn temperature_unit_spec(entry: Seq<char>) -> Selection<TemperatureUnit> {
    if entry == seq!['1'] {
        Selection::Chosen(TemperatureUnit::Fahrenheit)
    } else if entry == seq!['2'] {
        Selection::Chosen(TemperatureUnit::Celsius)
    } else if entry == seq!['3'] {
        Selection::Chosen(TemperatureUnit::Kelvin)
    } else if is_quit_spec(entry) {
        Selection::Quit
    } else {
        Selection::Unrecognised
    }
}

/// What `entry` chooses at the prompt for a unit of length.
pub open spec fn length_unit_spec(entry: Seq<char>) -> Selection<LengthUnit> {
    if entry == seq!['1'] {
        Selection::Chosen(LengthUnit::Meters)
    } else if entry == seq!['2'] {
        Selection::Chosen(LengthUnit::Kilometers)
    } else if entry == seq!['3'] {
        Selection::Chosen(LengthUnit::Centimeters)
    } else if entry == seq!['4'] {
        Selection::Chosen(LengthUnit::Inches)
    } else if entry == seq!['5'] {
        Selection::Chosen(LengthUnit::Feet)
    } else if is_quit_spec(entry) {
        Selection::Quit
    } else {
        Selection::Unrecognised
    }
}

/// What `entry` gives at the prompt for a temperature in `unit`.
pub open spec fn temperature_value_spec(entry: Seq<char>, unit: TemperatureUnit) -> Reading<
    Quantity<TemperatureUnit>,
    TemperatureError,
> {
    if is_quit_spec(entry) {
        Reading::Quit
    } else {
        match denoted(entry) {
            None => Reading::Malformed,
            Some(value) => match validated(value, unit) {
                Ok(q) => Reading::Accepted(q),
                Err(e) => Reading::Rejected(e),
            },
        }
    }
}

/// What `entry` gives at the prompt for a length in `unit`.
pub open spec fn length_value_spec(entry: Seq<char>, unit: LengthUnit) -> Reading<
    Quantity<LengthUnit>,
    Infallible,
> {
    if is_quit_spec(entry) {
        Reading::Quit
    } else {
        match denoted(entry) {
            None => Reading::Malformed,
            Some(value) => Reading::Accepted(Quantity { value, unit }),
        }
    }
}

/// The character that `entry` consists of, if it is a single one.
fn single_char(entry: &str) -> (r: Option<char>)
    ensures
        match r {
            Some(c) => entry@ == seq![c],
            None => entry@.len() != 1,
        },
{
    if entry.unicode_len() == 1 {
        let c = entry.get_char(0);
        assert(entry@ =~= seq![c]);
        Some(c)
    } else {
        None
    }
}

/// Whether `entry` asks to quit.
pub fn is_quit(entry: &str) -> (r: bool)
    ensures
        r == is_quit_spec(entry@),
{
    match single_char(entry) {
        Some(c) => {
            assert(seq![c][0] == c);
            c == 'q' || c == 'Q'
        },
        None => false,
    }
}

/// Reads the answer at the main menu: `1` for temperatures, `2` for lengths,
/// `q` or `Q` to quit.
pub fn menu_choice(entry: &str) -> (r: MenuChoice)
    ensures
        r == menu_choice_spec(entry@),
{
    match single_char(entry) {
        Some(c) => {
            assert(seq![c][0] == c);
            if c == '1' {
                MenuChoice::Temperature
            } else if c == '2' {
                MenuChoice::Length
            } else if c == 'q' || c == 'Q' {
                MenuChoice::Quit
            } else {
                MenuChoice::Unrecognised
            }
        },
        None => MenuChoice::Unrecognised,
    }
}

/// Reads the answer at the prompt for a unit of temperature: `1` for
/// Fahrenheit, `2` for Celsius, `3` for Kelvin, `q` or `Q` to quit.
pub fn read_temperature_unit(entry: &str) -> (r: Selection<TemperatureUnit>)
    ensures
        r == temperature_unit_spec(entry@),
{
    match single_char(entry) {
        Some(c) => {
            assert(seq![c][0] == c);
            if c == '1' {
                Selection::Chosen(TemperatureUnit::Fahrenheit)
            } else if c == '2' {
                Selection::Chosen(TemperatureUnit::Celsius)
            } else if c == '3' {
                Selection::Chosen(TemperatureUnit::Kelvin)
            } else if c == 'q' || c == 'Q' {
                Selection::Quit
            } else {
                Selection::Unrecognised
            }
        },
        None => Selection::Unrecognised,
    }
}

/// Reads the answer at the prompt for a unit of length: `1` for metres, `2`
/// for kilometres, `3` for centimetres, `4` for inches, `5` for feet, `q` or
/// `Q` to quit.
pub fn read_length_unit(entry: &str) -> (r: Selection<LengthUnit>)
    ensures
        r == length_unit_spec(entry@),
{
    match single_char(entry) {
        Some(c) => {
            assert(seq![c][0] == c);
            if c == '1' {
                Selection::Chosen(LengthUnit::Meters)
            } else if c == '2' {
                Selection::Chosen(LengthUnit::Kilometers)
            } else if c == '3' {
                Selection::Chosen(LengthUnit::Centimeters)
            } else if c == '4' {
                Selection::Chosen(LengthUnit::Inches)
            } else if c == '5' {
                Selection::Chosen(LengthUnit::Feet)
            } else if c == 'q' || c == 'Q' {
                Selection::Quit
            } else {
                Selection::Unrecognised
            }
        },
        None => Selection::Unrecognised,
    }
}

/// Reads the answer at the prompt for a temperature in `unit`.
pub fn read_temperature_value(entry: &str, unit: TemperatureUnit) -> (r: Reading<
    Temperature,
    TemperatureError,
>)
    ensures
        r@ == temperature_value_spec(entry@, unit),
{
    if is_quit(entry) {
        return Reading::Quit;
    }
    match parse(entry) {
        None => Reading::Malformed,
        Some(value) => match Temperature::new(value, unit) {
            Ok(temperature) => Reading::Accepted(temperature),
            Err(e) => Reading::Rejected(e),
        },
    }
}

/// Reads the answer at the prompt for a length in `unit`.
pub fn read_length_value(entry: &str, unit: LengthUnit) -> (r: Reading<Length, Infallible>)
    ensures
        r@ == length_value_spec(entry@, unit),
{
    if is_quit(entry) {
        return Reading::Quit;
    }
    match parse(entry) {
        None => Reading::Malformed,
        Some(value) => match Length::new(value, unit) {
            Ok(length) => Reading::Accepted(length),
            Err(e) => Reading::Rejected(e),
        },
    }
}

/// The line that confirms the choice of a unit of temperature.
pub open spec fn temperature_choice_spec(unit: TemperatureUnit) -> Seq<char> {
    "You chose "@ + unit.name_spec() + seq![' '] + unit.symbol_spec()
}

/// The line that confirms the choice of a unit of length.
pub open spec fn length_choice_spec(unit: LengthUnit) -> Seq<char> {
    "You chose "@ + unit.name_spec() + seq![' '] + unit.symbol_spec()
}

/// Writes the line that confirms the choice of a unit of temperature.
pub fn format_temperature_choice(unit: TemperatureUnit) -> (text: String)
    ensures
        text@ == temperature_choice_spec(unit),
{
    let mut text = String::from_str("You chose ");
    text.append(unit.name());
    proof {
        reveal_strlit(" ");
    }
    text.append(" ");
    text.append(unit.symbol());
    assert(text@ =~= temperature_choice_spec(unit));
    text
}

/// Writes the line that confirms the choice of a unit of length.
pub fn format_length_choice(unit: LengthUnit) -> (text: String)
    ensures
        text@ == length_choice_spec(unit),
{
    let mut text = String::from_str("You chose ");
    text.append(unit.name());
    proof {
        reveal_strlit(" ");
    }
    text.append(" ");
    text.append(unit.symbol());
    assert(text@ =~= length_choice_spec(unit));
    text
}

} // verus!
