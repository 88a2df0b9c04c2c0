pub mod casing;
pub mod conversion;
pub mod detection;
pub mod filter;
pub mod output;
pub mod statistics;
pub mod safety;
