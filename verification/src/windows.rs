//! What is done on Windows.
use vstd::prelude::*;

pub mod audio;
pub mod autostart;
pub mod capture;
pub mod clipboard;
pub mod hotkey;
pub mod ipc;
pub mod paths;
pub mod recording;
pub mod select_skia;
pub mod shelf;
pub mod tray;

verus! {

/// The codec of a recording.
pub fn default_record_codec() -> (r: String)
    ensures
        r@ == "h264"@,
{
    "h264".to_owned()
}

} // verus!
