//! The replay: the last seconds of an output, kept ready to be saved.
pub mod live;
pub mod start;
pub mod service;
pub mod client;
pub mod process;
pub mod socket;
pub mod export;
pub mod packet;
pub mod crop;
pub mod worker;
pub mod native;
