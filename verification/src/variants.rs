//! Style variants of the simple display widgets and what each one selects.
use vstd::prelude::*;
use crate::theme::{color, color_of, user_view, Color, ThemeState};
use crate::slots;

verus! {

/// Visual variant for an alert.
#[derive(Clone, Copy, Debug, PartialEq, Eq, Structural)]
pub enum AlertVariant {
    Default,
    Destructive,
    Success,
    Warning,
    Info,
}

impl Default for AlertVariant {
    fn default() -> (v: AlertVariant)
        ensures
            v == AlertVariant::Default,
    {
        AlertVariant::Default
    }
}

/// Theme colour of `slot` in `theme`.
pub open spec fn themed(theme: &ThemeState, slot: int) -> Color {
    color_of(theme.profile as int, user_view(theme.user_colors), slot)
}

impl AlertVariant {
    /// Border colour of an alert of this variant.
    pub fn border_color(self, theme: &ThemeState) -> (c: Color)
        ensures
            c == themed(theme, match self {
                AlertVariant::Default => slots::BORDER as int,
                AlertVariant::Destructive => slots::DESTRUCTIVE as int,
                AlertVariant::Success => slots::SUCCESS as int,
                AlertVariant::Warning => slots::WARNING as int,
                AlertVariant::Info => slots::INFO as int,
            }),
    {
        match self {
            AlertVariant::Default => color(theme, slots::BORDER),
            AlertVariant::Destructive => color(theme, slots::DESTRUCTIVE),
            AlertVariant::Success => color(theme, slots::SUCCESS),
            AlertVariant::Warning => color(theme, slots::WARNING),
            AlertVariant::Info => color(theme, slots::INFO),
        }
    }

    /// Background colour: the theme background, or a fixed pale tint.
    pub fn bg_color(self, theme: &ThemeState) -> (c: Color)
        ensures
            c == match self {
                AlertVariant::Default => themed(theme, slots::BACKGROUND as int),
                AlertVariant::Destructive => Color { r: 254, g: 242, b: 242, a: 255 },
                AlertVariant::Success => Color { r: 240, g: 253, b: 244, a: 255 },
                AlertVariant::Warning => Color { r: 254, g: 252, b: 232, a: 255 },
                AlertVariant::Info => Color { r: 239, g: 246, b: 255, a: 255 },
            },
    {
        match self {
            AlertVariant::Default => color(theme, slots::BACKGROUND),
            AlertVariant::Destructive => Color::new(254, 242, 242, 255),
            AlertVariant::Success => Color::new(240, 253, 244, 255),
            AlertVariant::Warning => Color::new(254, 252, 232, 255),
            AlertVariant::Info => Color::new(239, 246, 255, 255),
        }
    }

    /// Text colour: a theme colour, or a fixed strong tint.
    pub fn fg_color(self, theme: &ThemeState) -> (c: Color)
        ensures
            c == match self {
                AlertVariant::Default => themed(theme, slots::FOREGROUND as int),
                AlertVariant::Destructive => themed(theme, slots::DESTRUCTIVE as int),
                AlertVariant::Success => Color { r: 22, g: 163, b: 74, a: 255 },
                AlertVariant::Warning => Color { r: 161, g: 98, b: 7, a: 255 },
                AlertVariant::Info => Color { r: 37, g: 99, b: 235, a: 255 },
            },
    {
        match self {
            AlertVariant::Default => color(theme, slots::FOREGROUND),
            AlertVariant::Destructive => color(theme, slots::DESTRUCTIVE),
            AlertVariant::Success => Color::new(22, 163, 74, 255),
            AlertVariant::Warning => Color::new(161, 98, 7, 255),
            AlertVariant::Info => Color::new(37, 99, 235, 255),
        }
    }
}

/// Visual style variant for a badge.
#[derive(Clone, Copy, Debug, PartialEq, Eq, Structural)]
pub enum BadgeVariant {
    Default,
    Secondary,
    Destructive,
    Outline,
    Success,
    Warning,
    Info,
}

impl Default for BadgeVariant {
    fn default() -> (v: BadgeVariant)
        ensures
            v == BadgeVariant::Default,
    {
        BadgeVariant::Default
    }
}

impl BadgeVariant {
    /// Fill colour; the outline badge is transparent.
    pub fn bg_color(self, theme: &ThemeState) -> (c: Color)
        ensures
            c == match self {
                BadgeVariant::Default => themed(theme, slots::PRIMARY as int),
                BadgeVariant::Secondary => themed(theme, slots::SECONDARY as int),
                BadgeVariant::Destructive => themed(theme, slots::DESTRUCTIVE as int),
                BadgeVariant::Outline => Color { r: 0, g: 0, b: 0, a: 0 },
                BadgeVariant::Success => themed(theme, slots::SUCCESS as int),
                BadgeVariant::Warning => themed(theme, slots::WARNING as int),
                BadgeVariant::Info => themed(theme, slots::INFO as int),
            },
    {
        match self {
            BadgeVariant::Default => color(theme, slots::PRIMARY),
            BadgeVariant::Secondary => color(theme, slots::SECONDARY),
            BadgeVariant::Destructive => color(theme, slots::DESTRUCTIVE),
            BadgeVariant::Outline => Color::new(0, 0, 0, 0),
            BadgeVariant::Success => color(theme, slots::SUCCESS),
            BadgeVariant::Warning => color(theme, slots::WARNING),
            BadgeVariant::Info => color(theme, slots::INFO),
        }
    }

    /// Text colour: the foreground that goes with the fill.
    pub fn fg_color(self, theme: &ThemeState) -> (c: Color)
        ensures
            c == themed(theme, match self {
                BadgeVariant::Default => slots::PRIMARY_FOREGROUND as int,
                BadgeVariant::Secondary => slots::SECONDARY_FOREGROUND as int,
                BadgeVariant::Destructive => slots::DESTRUCTIVE_FOREGROUND as int,
                BadgeVariant::Outline => slots::FOREGROUND as int,
                BadgeVariant::Success => slots::SUCCESS_FOREGROUND as int,
                BadgeVariant::Warning => slots::WARNING_FOREGROUND as int,
                BadgeVariant::Info => slots::INFO_FOREGROUND as int,
            }),
    {
        match self {
            BadgeVariant::Default => color(theme, slots::PRIMARY_FOREGROUND),
            BadgeVariant::Secondary => color(theme, slots::SECONDARY_FOREGROUND),
            BadgeVariant::Destructive => color(theme, slots::DESTRUCTIVE_FOREGROUND),
            BadgeVariant::Outline => color(theme, slots::FOREGROUND),
            BadgeVariant::Success => color(theme, slots::SUCCESS_FOREGROUND),
            BadgeVariant::Warning => color(theme, slots::WARNING_FOREGROUND),
            BadgeVariant::Info => color(theme, slots::INFO_FOREGROUND),
        }
    }
}

/// Avatar size presets.
#[derive(Clone, Copy, Debug, PartialEq, Eq, Structural)]
pub enum AvatarSize {
    Small,
    Medium,
    Large,
}

impl Default for AvatarSize {
    fn default() -> (v: AvatarSize)
        ensures
            v == AvatarSize::Medium,
    {
        AvatarSize::Medium
    }
}

/// Popover placement relative to the trigger.
#[derive(Clone, Copy, Debug, PartialEq, Eq, Structural)]
pub enum PopoverSide {
    Bottom,
    Top,
    Left,
    Right,
}

impl Default for PopoverSide {
    fn default() -> (v: PopoverSide)
        ensures
            v == PopoverSide::Bottom,
    {
        PopoverSide::Bottom
    }
}

/// Direction of the resizable handle.
#[derive(Clone, Copy, Debug, PartialEq, Eq, Structural)]
pub enum ResizeDirection {
    Right,
    Bottom,
    Left,
}

impl Default for ResizeDirection {
    fn default() -> (v: ResizeDirection)
        ensures
            v == ResizeDirection::Right,
    {
        ResizeDirection::Right
    }
}

impl ResizeDirection {
    /// Whether dragging the handle changes the panel's width (rather than its height).
    pub fn is_horizontal(self) -> (h: bool)
        ensures
            h == (self == ResizeDirection::Right || self == ResizeDirection::Left),
    {
        match self {
            ResizeDirection::Right | ResizeDirection::Left => true,
            ResizeDirection::Bottom => false,
        }
    }
}

} // verus!
