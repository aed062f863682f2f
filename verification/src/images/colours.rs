//! The palette of the generated images.
use vstd::prelude::*;

verus! {

pub const PURPLE_COLOUR: &'static str = "#37003c";
pub const GREEN_COLOUR: &'static str = "#00ff87";
pub const PITCH_GREEN_COLOUR: &'static str = "#00a650";
pub const WHITE_COLOUR: &'static str = "#ffffff";
pub const OFF_WHITE_COLOUR: &'static str = "#f5f5f5";
pub const GREY_COLOUR: &'static str = "#808080";

/// The font family the images are drawn in.
pub const FPL_FONT_NAME: &'static str = "Premier Sans";

} // verus!
