//! Lengths in metres, kilometres, centimetres, inches and feet.
mod unit;
mod value;

pub use unit::Unit;
pub use value::{from_meters_model, lemma_round_trip, meters_of, of_meters, to_meters_model, Length};
