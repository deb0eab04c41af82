//! Core of a protein-source comparison tool.
//!
//! Users enter nutritional and price data for food items; the library
//! normalizes each entry into an immutable record with derived metrics
//! (leanness, protein per dollar, leanness per dollar), accumulates the
//! records in a collection, and renders ordered display lines under a
//! chosen ranking policy.
//!
//! All quantities are exact fixed-point numbers: an amount is an `i64`
//! counting hundredths of a unit (grams, kilocalories, dollars or
//! servings), and every derived metric is an exact rational number, so
//! rankings are free of floating-point error by construction.

pub mod collection;
pub mod eng;
pub mod ratio;
pub mod sort;
pub mod text;
