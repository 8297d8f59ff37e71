//! Parts of the shelf.
pub mod font;
pub mod limits;
pub mod thumbnail;
