//! Turns raw benchmark measurements into the data that a weight-file
//! generator renders: batches are grouped by pallet and benchmark name,
//! a linear model is fitted to each batch through an external regression
//! routine, and the fitted coefficients are filtered and marked for use
//! in the generated weight formulas.

pub mod data;
pub mod fits;
pub mod grouping;
pub mod text;

pub use data::{get_benchmark_data, BenchmarkData, Component, ComponentSlope, WriteError};
pub use fits::LinearFit;
pub use grouping::{map_results, BenchmarkMap, PalletMap};
pub use text::{join_strings, underscore, weight_file_name};
