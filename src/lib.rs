pub mod config;
pub mod laws;
pub mod settings;
pub mod surface;
pub mod wpaperd;
