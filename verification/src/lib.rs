//! Verified core of a whisky-listing crawler: text tokenization, typed-value
//! parsers (partial dates, currency-tagged prices, percentages), column lookup
//! in flattened label/value sequences, and the pure transition functions of the
//! three-stage sitemap traversal.

pub mod data;
pub mod text;
pub mod util;
pub mod whiskyauction;
pub mod whiskyauctioneer;
pub mod whiskybase;

pub use data::Currency;
