//! Theme profiles and the colour palette that widgets read from.
use vstd::prelude::*;

verus! {

/// An RGBA colour with 8-bit channels.
#[derive(Clone, Copy, Debug, PartialEq, Eq, Structural)]
pub struct Color {
    pub r: u8,
    pub g: u8,
    pub b: u8,
    pub a: u8,
}

impl Color {
    pub fn new(r: u8, g: u8, b: u8, a: u8) -> (c: Color)
        ensures
            c == (Color { r, g, b, a }),
    {
        Color { r, g, b, a }
    }

    /// Opaque black, the colour of last resort.
    pub fn black() -> (c: Color)
        ensures
            c == (Color { r: 0, g: 0, b: 0, a: 255 }),
    {
        Color { r: 0, g: 0, b: 0, a: 255 }
    }
}

/// Number of well-known colour slots.
pub const SLOT_COUNT: usize = 26;

/// The built-in light palette, by slot (see [`crate::slots`]).
pub open spec fn default_palette() -> Seq<Color> {
    seq![
        Color { r: 255, g: 255, b: 255, a: 255 },
        Color { r: 9, g: 9, b: 11, a: 255 },
        Color { r: 244, g: 244, b: 245, a: 255 },
        Color { r: 113, g: 113, b: 122, a: 255 },
        Color { r: 228, g: 228, b: 231, a: 255 },
        Color { r: 228, g: 228, b: 231, a: 255 },
        Color { r: 9, g: 9, b: 11, a: 255 },
        Color { r: 9, g: 9, b: 11, a: 255 },
        Color { r: 250, g: 250, b: 250, a: 255 },
        Color { r: 244, g: 244, b: 245, a: 255 },
        Color { r: 9, g: 9, b: 11, a: 255 },
        Color { r: 244, g: 244, b: 245, a: 255 },
        Color { r: 9, g: 9, b: 11, a: 255 },
        Color { r: 239, g: 68, b: 68, a: 255 },
        Color { r: 250, g: 250, b: 250, a: 255 },
        Color { r: 34, g: 197, b: 94, a: 255 },
        Color { r: 250, g: 250, b: 250, a: 255 },
        Color { r: 234, g: 179, b: 8, a: 255 },
        Color { r: 66, g: 32, b: 6, a: 255 },
        Color { r: 59, g: 130, b: 246, a: 255 },
        Color { r: 250, g: 250, b: 250, a: 255 },
        Color { r: 255, g: 255, b: 255, a: 255 },
        Color { r: 9, g: 9, b: 11, a: 255 },
        Color { r: 255, g: 255, b: 255, a: 255 },
        Color { r: 9, g: 9, b: 11, a: 255 },
        Color { r: 0, g: 0, b: 0, a: 128 },
    ]
}

/// The built-in palette as a vector, one colour per slot.
pub fn default_colors() -> (colors: Vec<Color>)
    ensures
        colors@ == default_palette(),
{
    let v = vec![
        Color::new(255, 255, 255, 255),
        Color::new(9, 9, 11, 255),
        Color::new(244, 244, 245, 255),
        Color::new(113, 113, 122, 255),
        Color::new(228, 228, 231, 255),
        Color::new(228, 228, 231, 255),
        Color::new(9, 9, 11, 255),
        Color::new(9, 9, 11, 255),
        Color::new(250, 250, 250, 255),
        Color::new(244, 244, 245, 255),
        Color::new(9, 9, 11, 255),
        Color::new(244, 244, 245, 255),
        Color::new(9, 9, 11, 255),
        Color::new(239, 68, 68, 255),
        Color::new(250, 250, 250, 255),
        Color::new(34, 197, 94, 255),
        Color::new(250, 250, 250, 255),
        Color::new(234, 179, 8, 255),
        Color::new(66, 32, 6, 255),
        Color::new(59, 130, 246, 255),
        Color::new(250, 250, 250, 255),
        Color::new(255, 255, 255, 255),
        Color::new(9, 9, 11, 255),
        Color::new(255, 255, 255, 255),
        Color::new(9, 9, 11, 255),
        Color::new(0, 0, 0, 128),
    ];
    assert(v@ =~= default_palette());
    v
}

/// The active profile and the user palettes registered for each profile.
pub struct ThemeState {
    pub profile: usize,
    pub user_colors: Option<Vec<Vec<Color>>>,
}

impl ThemeState {
    /// Profile 0 and no user palette.
    pub fn new() -> (t: ThemeState)
        ensures
            t.profile == 0,
            t.user_colors is None,
    {
        ThemeState { profile: 0, user_colors: None }
    }
}

/// Sets the active profile by index.
pub fn set_profile(theme: &mut ThemeState, id: usize)
    ensures
        final(theme).profile == id,
        final(theme).user_colors == old(theme).user_colors,
{
    theme.profile = id;
}

/// Returns the active profile index.
pub fn current_profile(theme: &ThemeState) -> (id: usize)
    ensures
        id == theme.profile,
{
    theme.profile
}

/// Registers user palettes, one per profile. Only the first registration
/// takes effect; later ones are ignored.
pub fn register_colors(theme: &mut ThemeState, profiles: Vec<Vec<Color>>)
    ensures
        final(theme).profile == old(theme).profile,
        old(theme).user_colors is None ==> final(theme).user_colors == Some(profiles),
        old(theme).user_colors is Some ==> final(theme).user_colors == old(theme).user_colors,
{
    if theme.user_colors.is_none() {
        theme.user_colors = Some(profiles);
    }
}

/// What [`color`] returns: the user palette of the active profile when it
/// has the slot, else the built-in colour of the slot, else opaque black.
pub open spec fn color_of(profile: int, user: Option<Seq<Seq<Color>>>, slot: int) -> Color {
    if user is Some && 0 <= profile < user->0.len() && 0 <= slot < user->0[profile].len() {
        user->0[profile][slot]
    } else if 0 <= slot < default_palette().len() {
        default_palette()[slot]
    } else {
        Color { r: 0, g: 0, b: 0, a: 255 }
    }
}

pub open spec fn user_view(user: Option<Vec<Vec<Color>>>) -> Option<Seq<Seq<Color>>> {
    match user {
        Some(p) => Some(p@.map_values(|v: Vec<Color>| v@)),
        None => None,
    }
}

/// Looks up a colour by slot in the active profile.
pub fn color(theme: &ThemeState, slot: usize) -> (c: Color)
    ensures
        c == color_of(theme.profile as int, user_view(theme.user_colors), slot as int),
{
    match &theme.user_colors {
        Some(profiles) => {
            if theme.profile < profiles.len() && slot < profiles[theme.profile].len() {
                return profiles[theme.profile][slot];
            }
        },
        None => {},
    }
    let defaults = default_colors();
    if slot < defaults.len() {
        defaults[slot]
    } else {
        Color::black()
    }
}

} // verus!
