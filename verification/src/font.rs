//! Font programs, as Typst decodes them.

use vstd::prelude::*;

verus! {

/// Whether the bytes are a font program that Typst can decode, taking the
/// first face where the bytes hold a collection.
pub uninterp spec fn is_font_program(data: Seq<u8>) -> bool;

/// Tries to decode a font program.
///
/// Wraps `typst::text::Font::new` at face index 0 and tells whether it
/// returned a font.
#[verifier::external_body]
pub(crate) fn decodes_as_font(data: &Vec<u8>) -> (decodes: bool)
    ensures
        decodes == is_font_program(data@),
{
    typst::text::Font::new(typst::foundations::Bytes::new(data.clone()), 0).is_some()
}

} // verus!
