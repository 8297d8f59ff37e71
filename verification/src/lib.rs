//! Boltsnap: screenshots, recordings, a shelf of recent captures and instant replay.
use vstd::prelude::*;

pub mod cli;
pub mod config;
pub mod doctor;
pub mod document;
pub mod editor;
pub mod json;
pub mod linux;
pub mod order;
pub mod paths;
pub mod picture;
pub mod pixels;
pub mod protocol;
pub mod record;
pub mod selector;
pub mod text;
pub mod toml_text;
pub mod windows;

verus! {

} // verus!
