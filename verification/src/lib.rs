pub mod codec;
pub mod types;
pub mod responses;
pub mod vdcp;
pub mod serial;
pub mod adam;
pub mod config;
