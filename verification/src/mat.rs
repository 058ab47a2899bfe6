//! Matrices: the layouts, the mathematical model, the owned buffer and its views.

pub mod borrowed;
pub mod grid;
pub mod layout;
pub mod model;
pub mod owned;
pub mod range;

pub use borrowed::{AsMat, Mat};
pub use layout::{ColMajor, MatLayout, MatLayouts, RowMajor};
pub use model::MatView;
pub use owned::MatBuf;
pub use range::Endpoint;
