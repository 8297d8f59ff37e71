//! What is done on Linux.
pub mod capture;
pub mod xcursor;
pub mod gsr;
pub mod recording_codec;
pub mod clipboard;
pub mod portal;
pub mod tray;
pub mod replay;
pub mod image_transfer;
pub mod cursor_recording;
pub mod cursor_track;
pub mod hypr;
pub mod ipc;
pub mod shelf;
pub mod select_skia;
pub mod gsr_cursor;
