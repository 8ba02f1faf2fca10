pub mod active;
pub mod common;
pub mod last_layer;
pub mod layer;
pub mod util;
