//! Verified core of a small desktop toolkit: text clean-up for OCR output,
//! pixel-buffer preprocessing, screen-region geometry, and the decision logic
//! of the colour-picker / text-extractor overlay and the keyboard-driven
//! window manager.
use vstd::prelude::*;

pub mod chars;
pub mod text;
pub mod reading;
pub mod image;
pub mod tray;
pub mod screen;
pub mod overlay;
pub mod window_manager;

verus! {

} // verus!
