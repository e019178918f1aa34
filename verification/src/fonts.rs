//! Font attributes and font loading errors.
use vstd::prelude::*;
use vstd::std_specs::convert::FromSpecImpl;
use vstd::multiset::Multiset;

verus! {

#[verifier::external_type_specification]
#[verifier::external_body]
pub struct ExIoError(std::io::Error);

/// Errors raised while loading fonts.
pub enum FontError {
    FailedToLoadFont(std::io::Error),
}

impl From<std::io::Error> for FontError {
    fn from(err: std::io::Error) -> (e: FontError)
        ensures
            e == FontError::FailedToLoadFont(err),
    {
        FontError::FailedToLoadFont(err)
    }
}

impl FromSpecImpl<std::io::Error> for FontError {
    open spec fn obeys_from_spec() -> bool {
        true
    }

    open spec fn from_spec(v: std::io::Error) -> FontError {
        FontError::FailedToLoadFont(v)
    }
}

/// Font weight (boldness).
#[derive(Clone, Copy, Debug, PartialEq, Eq, Hash, Structural)]
pub enum FontWeight {
    /// 100
    Thin,
    /// 200
    ExtraLight,
    /// 300
    Light,
    /// 400
    Normal,
    /// 500
    Medium,
    /// 600
    SemiBold,
    /// 700
    Bold,
    /// 800
    ExtraBold,
    /// 900
    Black,
}

impl FontWeight {
    /// The CSS / OpenType numeric weight.
    pub open spec fn numeric(self) -> u16 {
        match self {
            FontWeight::Thin => 100,
            FontWeight::ExtraLight => 200,
            FontWeight::Light => 300,
            FontWeight::Normal => 400,
            FontWeight::Medium => 500,
            FontWeight::SemiBold => 600,
            FontWeight::Bold => 700,
            FontWeight::ExtraBold => 800,
            FontWeight::Black => 900,
        }
    }

    /// The numeric weight handed to the text shaper.
    pub fn value(self) -> (w: u16)
        ensures
            w == self.numeric(),
    {
        match self {
            FontWeight::Thin => 100,
            FontWeight::ExtraLight => 200,
            FontWeight::Light => 300,
            FontWeight::Normal => 400,
            FontWeight::Medium => 500,
            FontWeight::SemiBold => 600,
            FontWeight::Bold => 700,
            FontWeight::ExtraBold => 800,
            FontWeight::Black => 900,
        }
    }
}

/// Font style (posture).
#[derive(Clone, Copy, Debug, PartialEq, Eq, Hash, Structural)]
pub enum FontStyle {
    /// Upright glyphs.
    Normal,
    /// True italic glyphs designed by the type designer.
    Italic,
    /// Mechanically slanted upright glyphs.
    Oblique,
}

/// Font stretch (width).
#[derive(Clone, Copy, Debug, PartialEq, Eq, Hash, Structural)]
pub enum FontStretch {
    /// 50% width.
    UltraCondensed,
    /// 62.5% width.
    ExtraCondensed,
    /// 75% width.
    Condensed,
    /// 87.5% width.
    SemiCondensed,
    /// 100% width (default).
    Normal,
    /// 112.5% width.
    SemiExpanded,
    /// 125% width.
    Expanded,
    /// 150% width.
    ExtraExpanded,
    /// 200% width.
    UltraExpanded,
}


#[verifier::external_type_specification]
#[verifier::external_body]
pub struct ExFontSystem(cosmic_text::FontSystem);

/// The first family name of each face in the font database of `fs`.
pub uninterp spec fn font_faces(fs: cosmic_text::FontSystem) -> Multiset<Seq<char>>;

/// The locale that `fs` was made with.
pub uninterp spec fn font_locale(fs: cosmic_text::FontSystem) -> Seq<char>;

/// The first family name of each face that `fontdb` reads from the font
/// data `bytes` (a font file or a font collection), in the order of the
/// faces in the data.
pub uninterp spec fn parsed_families(bytes: Seq<u8>) -> Seq<Seq<char>>;

/// A font system with an empty font database and locale `locale`.
///
/// Trusted: `cosmic_text::FontSystem::new_with_locale_and_db` with a new
/// `fontdb::Database`. Claims that the database has no face (a new
/// `Database` has none, and the font system keeps the one it is given) and
/// that the font system keeps `locale` as it is.
#[verifier::external_body]
fn font_system_with_locale(locale: String) -> (fs: cosmic_text::FontSystem)
    ensures
        font_faces(fs) =~= Multiset::empty(),
        font_locale(fs) == locale@,
{
    cosmic_text::FontSystem::new_with_locale_and_db(locale, cosmic_text::fontdb::Database::default())
}

/// Adds the faces found in `bytes` to the font database and returns the
/// first family name of each face added, in order.
///
/// Trusted: `fontdb::Database::load_font_source` on a copy of the bytes,
/// then `fontdb::Database::face` on each id it returns, keeping the face's
/// first family name. Claims that it adds one face for each face that it
/// reads from the data and gives that face's first family name, the one
/// `parsed_families` names (fontdb reads no face without a family name),
/// and that the locale is left alone.
#[verifier::external_body]
fn load_binary_faces(fs: &mut cosmic_text::FontSystem, bytes: &[u8]) -> (families: Vec<Option<String>>)
    ensures
        families@.len() == parsed_families(bytes@).len(),
        forall|i: int| 0 <= i < families@.len() ==>
            (#[trigger] families@[i] matches Some(f) && f@ == parsed_families(bytes@)[i]),
        font_faces(*final(fs)) == font_faces(*old(fs)).add(parsed_families(bytes@).to_multiset()),
        font_locale(*final(fs)) == font_locale(*old(fs)),
{
    let db = fs.db_mut();
    let ids = db.load_font_source(cosmic_text::fontdb::Source::Binary(std::sync::Arc::new(bytes.to_vec())));
    ids.iter().map(|id| db.face(*id).and_then(|f| f.families.first().map(|n| n.0.clone()))).collect()
}

/// Loads fonts into a `cosmic_text` font system.
pub struct FontManager {
    font_system: cosmic_text::FontSystem,
}

impl FontManager {
    /// The font system that the manager holds.
    pub closed spec fn system(&self) -> cosmic_text::FontSystem {
        self.font_system
    }

    /// The first family name of each face loaded so far.
    pub open spec fn faces(&self) -> Multiset<Seq<char>> {
        font_faces(self.system())
    }

    /// The locale used for font fallback.
    pub open spec fn locale(&self) -> Seq<char> {
        font_locale(self.system())
    }

    /// A manager with an empty font database and no locale.
    pub fn new() -> (m: FontManager)
        ensures
            m.faces() =~= Multiset::empty(),
            m.locale() =~= Seq::<char>::empty(),
    {
        FontManager { font_system: font_system_with_locale(String::new()) }
    }

    /// A manager with an empty font database and BCP 47 locale `locale`.
    pub fn new_with_locale(locale: &str) -> (m: FontManager)
        ensures
            m.faces() =~= Multiset::empty(),
            m.locale() == locale@,
    {
        FontManager { font_system: font_system_with_locale(String::from_str(locale)) }
    }

    /// Loads the fonts in `bytes` and returns the family name of the first
    /// face loaded; `None` when no face could be read from them.
    pub fn load_from_bytes(&mut self, bytes: &[u8]) -> (family: Option<String>)
        ensures
            final(self).faces() == old(self).faces().add(parsed_families(bytes@).to_multiset()),
            final(self).locale() == old(self).locale(),
            parsed_families(bytes@).len() == 0 ==> family is None,
            parsed_families(bytes@).len() > 0 ==> (family matches Some(f) && f@ == parsed_families(bytes@)[0]),
    {
        let mut families = load_binary_faces(&mut self.font_system, bytes);
        if families.len() == 0 {
            return None;
        }
        assert(families@[0] matches Some(f) && f@ == parsed_families(bytes@)[0]);
        families.swap_remove(0)
    }

    /// The font system, for shaping text and loading fonts from disk.
    pub fn font_system_mut(&mut self) -> (fs: &mut cosmic_text::FontSystem)
        ensures
            *fs == old(self).system(),
            final(self).system() == *final(fs),
    {
        &mut self.font_system
    }
}

} // verus!
