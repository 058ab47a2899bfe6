//! Matrix buffers that stage feature data for a gradient-boosting engine, and
//! the rules that decide what is handed to the engine.
//!
//! A matrix owns a flat buffer of `nrow * ncol` elements and lays them out
//! row-major or column-major. Rows (or columns) of the contiguous axis can be
//! borrowed as slices, and contiguous ranges of them as views, without a copy.
//! Beside the matrices stand the shapes of datasets and predictions in the
//! engine's integers, the texts of parameters, and the reading of the buffers
//! that the engine fills.

pub mod booster;
pub mod dataset;
pub mod error;
pub mod mat;
pub mod parameters;
pub mod utils;

pub use error::Error;
pub use mat::MatBuf;
pub use parameters::Parameters;
