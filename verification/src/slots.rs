//! Slot indices of the well-known theme colours.
use vstd::prelude::*;

verus! {

pub const BACKGROUND: usize = 0;
pub const FOREGROUND: usize = 1;
pub const MUTED: usize = 2;
pub const MUTED_FOREGROUND: usize = 3;
pub const BORDER: usize = 4;
pub const INPUT_BORDER: usize = 5;
pub const RING: usize = 6;
pub const PRIMARY: usize = 7;
pub const PRIMARY_FOREGROUND: usize = 8;
pub const SECONDARY: usize = 9;
pub const SECONDARY_FOREGROUND: usize = 10;
pub const ACCENT: usize = 11;
pub const ACCENT_FOREGROUND: usize = 12;
pub const DESTRUCTIVE: usize = 13;
pub const DESTRUCTIVE_FOREGROUND: usize = 14;
pub const SUCCESS: usize = 15;
pub const SUCCESS_FOREGROUND: usize = 16;
pub const WARNING: usize = 17;
pub const WARNING_FOREGROUND: usize = 18;
pub const INFO: usize = 19;
pub const INFO_FOREGROUND: usize = 20;
pub const CARD: usize = 21;
pub const CARD_FOREGROUND: usize = 22;
pub const POPOVER: usize = 23;
pub const POPOVER_FOREGROUND: usize = 24;
pub const OVERLAY: usize = 25;

} // verus!
