use unit_helper::decimal::{parse, render};
use unit_helper::length::{Length, Unit as LengthUnit};
use unit_helper::temperature::{Temperature, TemperatureError, Unit as TemperatureUnit};

#[test]
fn temperature_is_shown_with_two_places_and_symbol() {
    let temp = Temperature::new(13_000_000, TemperatureUnit::Celsius).unwrap();
    assert_eq!(temp.to_string(), "13.00 °C");
    let kelvin = Temperature::new(286_150_000, TemperatureUnit::Kelvin).unwrap();
    assert_eq!(kelvin.to_string(), "286.15 °K");
    let cold = Temperature::new(-40_000_000, TemperatureUnit::Fahrenheit).unwrap();
    assert_eq!(cold.to_string(), "-40.00 °F");
}

#[test]
fn length_is_shown_with_two_places_and_symbol() {
    let shown = [
        (LengthUnit::Meters, "1300.00 m"),
        (LengthUnit::Kilometers, "1300.00 km"),
        (LengthUnit::Centimeters, "1300.00 cm"),
        (LengthUnit::Inches, "1300.00 in"),
        (LengthUnit::Feet, "1300.00 ft"),
    ];
    for (unit, text) in shown {
        assert_eq!(Length::new(1_300_000_000, unit).unwrap().to_string(), text);
    }
}

#[test]
fn render_rounds_to_the_nearest_hundredth() {
    assert_eq!(render(0), "0.00");
    assert_eq!(render(4_999), "0.00");
    assert_eq!(render(5_000), "0.01");
    assert_eq!(render(14_999), "0.01");
    assert_eq!(render(15_000), "0.02");
    assert_eq!(render(994_999), "0.99");
    assert_eq!(render(995_000), "1.00");
    assert_eq!(render(262_594_444), "262.59");
    assert_eq!(render(1_609_344), "1.61");
    assert_eq!(render(9_995_000), "10.00");
    assert_eq!(render(100_050_000), "100.05");
}

#[test]
fn render_keeps_the_sign_of_amounts_below_zero() {
    assert_eq!(render(-13_000_000), "-13.00");
    assert_eq!(render(-5_000), "-0.01");
    assert_eq!(render(-4_999), "-0.00");
    assert_eq!(render(-1), "-0.00");
    assert_eq!(render(-273_150_000), "-273.15");
}

#[test]
fn render_reaches_the_bounds() {
    assert_eq!(render(i64::MAX), "9223372036854.78");
    assert_eq!(render(i64::MIN), "-9223372036854.78");
}

#[test]
fn render_agrees_with_float_formatting() {
    for value in [0i64, 13_000_000, 286_150_000, 1_300_000_000, 39_370_079, -459_670_000] {
        assert_eq!(render(value), format!("{:.2}", value as f64 / 1_000_000.0));
    }
}

#[test]
fn parse_reads_plain_decimals() {
    assert_eq!(parse("13"), Some(13_000_000));
    assert_eq!(parse("13.0"), Some(13_000_000));
    assert_eq!(parse("286.15"), Some(286_150_000));
    assert_eq!(parse("0"), Some(0));
    assert_eq!(parse("0.000001"), Some(1));
    assert_eq!(parse("007.50"), Some(7_500_000));
    assert_eq!(parse("1.3"), Some(1_300_000));
    assert_eq!(parse("262.594"), Some(262_594_000));
}

#[test]
fn parse_reads_signs_and_bare_points() {
    assert_eq!(parse("-1"), Some(-1_000_000));
    assert_eq!(parse("+1"), Some(1_000_000));
    assert_eq!(parse("-273.15"), Some(-273_150_000));
    assert_eq!(parse("5."), Some(5_000_000));
    assert_eq!(parse(".5"), Some(500_000));
    assert_eq!(parse("-.25"), Some(-250_000));
    assert_eq!(parse("-0"), Some(0));
}

#[test]
fn parse_rounds_on_the_seventh_place() {
    assert_eq!(parse("0.0000004"), Some(0));
    assert_eq!(parse("0.0000005"), Some(1));
    assert_eq!(parse("0.00000049999"), Some(0));
    assert_eq!(parse("1.9999995"), Some(2_000_000));
    assert_eq!(parse("-1.9999995"), Some(-2_000_000));
    assert_eq!(parse("0.1234564999"), Some(123_456));
    assert_eq!(parse("0.12345650"), Some(123_457));
}

#[test]
fn parse_refuses_what_is_no_decimal() {
    for text in [
        "", " ", "+", "-", ".", "-.", "abc", "1,5", "1.2.3", "--1", "+-1", "1-", "1 ", " 1", "1.5x",
        "x1.5", "q", "Q", "٣", "1°", "½", "1_000", "0x10", "1f", "1.5e３",
    ] {
        assert_eq!(parse(text), None, "{:?}", text);
    }
}

#[test]
fn parse_reads_exponents() {
    assert_eq!(parse("1e3"), Some(1_000_000_000));
    assert_eq!(parse("1E3"), Some(1_000_000_000));
    assert_eq!(parse("1e+3"), Some(1_000_000_000));
    assert_eq!(parse("1e0003"), Some(1_000_000_000));
    assert_eq!(parse("1.5e2"), Some(150_000_000));
    assert_eq!(parse("-1.5E2"), Some(-150_000_000));
    assert_eq!(parse("+2.5e0"), Some(2_500_000));
    assert_eq!(parse("2.5e-0"), Some(2_500_000));
    assert_eq!(parse(".5e1"), Some(5_000_000));
    assert_eq!(parse("5.e1"), Some(50_000_000));
    assert_eq!(parse("1e-3"), Some(1_000));
    assert_eq!(parse("1e-6"), Some(1));
    assert_eq!(parse("27315e-2"), Some(273_150_000));
    assert_eq!(parse("0.0000000000001e13"), Some(1_000_000));
    assert_eq!(parse("123.456e1"), Some(1_234_560_000));
    assert_eq!(parse("123.456e-1"), Some(12_345_600));
    assert_eq!(parse("123.456e3"), Some(123_456_000_000));
    assert_eq!(parse("123.456e5"), Some(12_345_600_000_000));
}

#[test]
fn parse_rounds_what_an_exponent_moves_below_a_millionth() {
    assert_eq!(parse("1e-7"), Some(0));
    assert_eq!(parse("4.9e-7"), Some(0));
    assert_eq!(parse("5e-7"), Some(1));
    assert_eq!(parse("-5e-7"), Some(-1));
    assert_eq!(parse("5e-8"), Some(0));
    assert_eq!(parse("9e-8"), Some(0));
    assert_eq!(parse("123456789e-9"), Some(123_457));
    assert_eq!(parse("123456489e-9"), Some(123_456));
    assert_eq!(parse("1e-99999999999999999999999999999999"), Some(0));
    assert_eq!(parse("-987.654e-18446744073709551630"), Some(0));
}

#[test]
fn parse_knows_the_bounds_with_exponents() {
    assert_eq!(parse("1e12"), Some(1_000_000_000_000_000_000));
    assert_eq!(parse("9e12"), Some(9_000_000_000_000_000_000));
    assert_eq!(parse("1e13"), None);
    assert_eq!(parse("9.223372036854775807e12"), Some(i64::MAX));
    assert_eq!(parse("9.223372036854775808e12"), None);
    assert_eq!(parse("-9.223372036854775808e12"), Some(i64::MIN));
    assert_eq!(parse("-9.223372036854775809e12"), None);
    assert_eq!(parse("9223372036854775807e-6"), Some(i64::MAX));
    assert_eq!(parse("92233720368547758074e-7"), Some(i64::MAX));
    assert_eq!(parse("92233720368547758075e-7"), None);
    assert_eq!(parse("1e99999999999999999999999999999999"), None);
    assert_eq!(parse("0.0001e18446744073709551630"), None);
    assert_eq!(parse("0e99999999999999999999999999999999"), Some(0));
    assert_eq!(parse("-0.000e18446744073709551630"), Some(0));
    assert_eq!(parse("0000000000000000000000000000000000000001e3"), Some(1_000_000_000));
    assert_eq!(parse("1000000000000000000000000000000e-30"), Some(1_000_000));
    assert_eq!(parse("0.000000000000000000000000000001e30"), Some(1_000_000));
}

#[test]
fn parse_refuses_an_exponent_that_is_not_whole() {
    for text in [
        "1e", "1E", "1e+", "1e-", "e3", "E3", ".e3", "-e3", "+.e1", "1e3.5", "1e 3", "1ee3", "1e3e3",
        "1e+-3", "1e3 ", "1e3x", "1.e", "e", "1e٣",
    ] {
        assert_eq!(parse(text), None, "{:?}", text);
    }
}

#[test]
fn parse_refuses_the_words_for_infinity_and_for_no_number() {
    for text in ["inf", "-inf", "+inf", "infinity", "Infinity", "INF", "nan", "NaN", "-nan"] {
        assert!(text.parse::<f64>().is_ok(), "{:?}", text);
        assert_eq!(parse(text), None, "{:?}", text);
    }
}

#[test]
fn parse_takes_a_numeral_where_float_parsing_does() {
    for text in [
        "", "1", "1.", ".1", ".", "+", "-", "+1", "-1", "1e3", "1E3", "1e+3", "1e-3", "1e", "e3",
        ".e3", "1.e3", ".5e1", "1e3.5", "1 ", " 1", "1_0", "0x10", "1e+", "--1", "1.2.3", "1ee3",
        "007", "-.5E-2", "+5.E+2", "1e0003", "abc", "1f", "٣", "1e٣",
    ] {
        assert_eq!(parse(text).is_some(), text.parse::<f64>().is_ok(), "{:?}", text);
    }
}

#[test]
fn parse_knows_the_bounds() {
    assert_eq!(parse("9223372036854.775807"), Some(i64::MAX));
    assert_eq!(parse("9223372036854.775808"), None);
    assert_eq!(parse("-9223372036854.775808"), Some(i64::MIN));
    assert_eq!(parse("-9223372036854.775809"), None);
    assert_eq!(parse("9223372036854.7758074"), Some(i64::MAX));
    assert_eq!(parse("9223372036854.7758075"), None);
    assert_eq!(parse("9223372036855"), None);
    assert_eq!(parse("99999999999999999999999999999999999999999999999999"), None);
    assert_eq!(parse("00000000000000000000000000000000000000000000000001"), Some(1_000_000));
}

#[test]
fn parse_agrees_with_float_parsing() {
    for text in [
        "13.0", "286.15", "262.594", "1.3", "1300.0", "-40", "0.5", "98.6", "1e3", "1.3E3", "2.5e-4",
        "-27315e-2", "5e-7", "1e12",
    ] {
        let float: f64 = text.parse().unwrap();
        assert_eq!(parse(text), Some((float * 1_000_000.0).round() as i64));
    }
}

#[test]
fn names_and_symbols_of_temperature_units() {
    assert_eq!(TemperatureUnit::Fahrenheit.name(), "Fahrenheit");
    assert_eq!(TemperatureUnit::Celsius.name(), "Celsius");
    assert_eq!(TemperatureUnit::Kelvin.name(), "Kelvin");
    assert_eq!(TemperatureUnit::Fahrenheit.symbol(), "°F");
    assert_eq!(TemperatureUnit::Celsius.symbol(), "°C");
    assert_eq!(TemperatureUnit::Kelvin.symbol(), "°K");
}

#[test]
fn names_and_symbols_of_length_units() {
    assert_eq!(LengthUnit::Meters.name(), "Meters");
    assert_eq!(LengthUnit::Kilometers.name(), "Kilometers");
    assert_eq!(LengthUnit::Centimeters.name(), "Centimeters");
    assert_eq!(LengthUnit::Inches.name(), "Inches");
    assert_eq!(LengthUnit::Feet.name(), "Feet");
    assert_eq!(LengthUnit::Meters.symbol(), "m");
    assert_eq!(LengthUnit::Kilometers.symbol(), "km");
    assert_eq!(LengthUnit::Centimeters.symbol(), "cm");
    assert_eq!(LengthUnit::Inches.symbol(), "in");
    assert_eq!(LengthUnit::Feet.symbol(), "ft");
}

#[test]
fn units_are_equal_to_themselves_only() {
    assert!(TemperatureUnit::Kelvin == TemperatureUnit::Kelvin);
    assert!(TemperatureUnit::Kelvin != TemperatureUnit::Celsius);
    assert!(LengthUnit::Meters == LengthUnit::Meters);
    assert!(LengthUnit::Inches != LengthUnit::Feet);
}

#[test]
fn error_is_shown_after_a_line_break() {
    assert_eq!(
        TemperatureError::BelowAbsoluteZero.to_string(),
        "\nError: Temperature cannot be lower than absolute zero (0 °K).\nPlease, try again with another one ^^"
    );
    assert_eq!(
        TemperatureError::BelowAbsoluteZero.to_string(),
        format!("\n{}", TemperatureError::BelowAbsoluteZero.message())
    );
}

#[test]
fn message_of_the_error() {
    assert_eq!(
        TemperatureError::BelowAbsoluteZero.message(),
        "Error: Temperature cannot be lower than absolute zero (0 °K).\nPlease, try again with another one ^^"
    );
}
