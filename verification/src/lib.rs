//! Core logic for remapping a vendor keyboard's input: decodes raw HID
//! reports into canonical key events, tracks modifier state, and resolves key
//! presses against a hot-reloadable rule table.

pub mod bytes;
pub mod actions;
pub mod context;
pub mod decoder;
pub mod executor;
pub mod loader;
pub mod mapper;
pub mod table;
pub mod keys;

use vstd::prelude::*;

verus! {

#[derive(Debug, Clone, Copy, PartialEq, Eq, Hash, Structural)]
pub struct HidKey {
    pub usage_page: u16,
    pub usage: u16,
}

} // verus!

