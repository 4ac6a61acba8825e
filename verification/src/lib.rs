//! The decisions of a one-dimensional range control, verified.
//!
//! A slider maps a value in a range to a position between 0 and 1 and back,
//! on a linear or a logarithmic scale, and passes every edit through one
//! pipeline of clamping, stepping and rounding. This crate holds every choice
//! made on that way, over binary64 numbers given by their bits. The rounding
//! arithmetic itself is named in a request and left to the caller.
//!
//! Beside the slider stand the pages of the demo that shows it, the texts for
//! files dropped on it, and the images that it paints.

pub mod anchor;
pub mod files;
pub mod float;
pub mod image;
pub mod interaction;
pub mod mapping;
pub mod outcome;
pub mod radix;
pub mod slider;
