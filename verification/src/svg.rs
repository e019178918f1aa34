//! SVG documents, parsed once and rasterised on demand.
use vstd::prelude::*;
use vstd::utf8::valid_utf8;

verus! {

#[verifier::external_type_specification]
#[verifier::external_body]
pub struct ExSvgTree(usvg::Tree);

#[verifier::external_type_specification]
#[verifier::external_body]
pub struct ExSvgError(usvg::Error);

/// Whether `usvg` parses `bytes` into a document (with default options).
pub uninterp spec fn svg_parses(bytes: Seq<u8>) -> bool;

/// Whether `bytes` start like gzip-compressed data.
pub open spec fn gzip_magic(bytes: Seq<u8>) -> bool {
    bytes.len() >= 2 && bytes[0] == 0x1f && bytes[1] == 0x8b
}

/// Parses an SVG document.
///
/// Trusted: `usvg::Tree::from_data` with default options. Claims that it
/// succeeds exactly when `svg_parses(bytes)`, a function of the bytes, and
/// that data which is neither gzip-compressed nor UTF-8 is refused, as the
/// source shows (it decodes the text before parsing it).
#[verifier::external_body]
fn parse_svg(bytes: &[u8]) -> (r: Result<usvg::Tree, usvg::Error>)
    ensures
        r is Ok == svg_parses(bytes@),
        !gzip_magic(bytes@) && !valid_utf8(bytes@) ==> r is Err,
{
    usvg::Tree::from_data(bytes, &usvg::Options::default())
}

/// A parsed SVG document.
pub struct SvgData {
    tree: usvg::Tree,
}

impl SvgData {
    /// The parsed document that this value holds.
    pub closed spec fn document(&self) -> usvg::Tree {
        self.tree
    }

    /// Parses an SVG document from its bytes; the parser's error when they
    /// are not one.
    pub fn from_bytes(bytes: &[u8]) -> (r: Result<SvgData, usvg::Error>)
        ensures
            r is Ok == svg_parses(bytes@),
            !gzip_magic(bytes@) && !valid_utf8(bytes@) ==> r is Err,
    {
        match parse_svg(bytes) {
            Ok(tree) => Ok(SvgData { tree }),
            Err(e) => Err(e),
        }
    }

    /// The parsed document, for rasterising.
    pub fn tree(&self) -> (t: &usvg::Tree)
        ensures
            *t == self.document(),
    {
        &self.tree
    }
}

} // verus!
