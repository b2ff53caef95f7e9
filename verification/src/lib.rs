//! Conversion of temperatures and lengths between units, through one canonical
//! unit per kind of quantity (Kelvin, metres).
//!
//! Amounts are exact decimals with six fractional digits, held as a signed
//! 64-bit count of millionths of the unit; see [`fixed`].
pub mod conversion;
pub mod decimal;
pub mod fixed;
pub mod flow;
pub mod length;
pub mod prompt;
pub mod temperature;
