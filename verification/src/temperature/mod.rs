//! Temperatures in degrees Fahrenheit, degrees Celsius and kelvins.
mod error;
mod unit;
mod value;

pub use error::TemperatureError;
pub use unit::Unit;
pub use value::{
    from_kelvin_model, kelvin_of, lemma_round_trip, of_kelvin, to_kelvin_model, valid, validated, Temperature,
    CELSIUS_ZERO, FAHRENHEIT_ZERO,
};
