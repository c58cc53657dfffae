//! The colours of the interface.

use vstd::prelude::*;

verus! {

/// The Catppuccin Frappe palette. Each colour is written as `0xRRGGBB`.
pub struct CatppuccinFrappe;

impl CatppuccinFrappe {
    pub const BASE: u32 = 0x303446;

    pub const TEXT: u32 = 0xc6d0f5;

    pub const SUBTEXT1: u32 = 0xb5bfe2;

    pub const SUBTEXT0: u32 = 0xa5adcb;

    pub const SURFACE2: u32 = 0x576086;

    pub const SURFACE0: u32 = 0x363a4f;

    pub const LAVENDER: u32 = 0xbabbf1;

    pub const BLUE: u32 = 0x8caaee;

    pub const SAPPHIRE: u32 = 0x85c1dc;

    pub const TEAL: u32 = 0x81c8be;

    pub const GREEN: u32 = 0xa6d189;

    pub const YELLOW: u32 = 0xe5c890;

    pub const PEACH: u32 = 0xef9f76;

    pub const RED: u32 = 0xe78284;

    pub const MAUVE: u32 = 0xca9ee6;

    pub const PINK: u32 = 0xf4b8e4;

    pub const SELECTED: u32 = 0x8caaee;

    pub const SELECTED_BG: u32 = 0x414868;

    pub const BORDER: u32 = 0x576086;

    pub const COMPLETED: u32 = 0xa6d189;

    pub const INCOMPLETE: u32 = 0xc6d0f5;

    pub const PARENT_INDICATOR: u32 = 0xbabbf1;

    pub const CREATION_TIME: u32 = 0xa5adcb;

    pub const ERROR: u32 = 0xe78284;

    /// The red, green and blue parts of a colour written as `0xRRGGBB`.
    pub fn channels(colour: u32) -> (parts: (u8, u8, u8))
        ensures
            parts.0 == (colour / 0x10000) % 0x100,
            parts.1 == (colour / 0x100) % 0x100,
            parts.2 == colour % 0x100,
    {
        (
            ((colour / 0x10000) % 0x100) as u8,
            ((colour / 0x100) % 0x100) as u8,
            (colour % 0x100) as u8,
        )
    }
}

} // verus!
