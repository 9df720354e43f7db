//! The glyphs that glyph substitution works on, and the features that select its lookups.

use vstd::prelude::*;

use crate::tag;

verus! {

/// Where a glyph comes from.
#[derive(Clone, Copy, Debug, PartialEq, Eq)]
pub enum GlyphOrigin {
    /// The glyph stands for a character of the text.
    Char(char),
    /// The glyph was given by its index.
    Direct,
}

/// A selector that asks for a variant of the glyph of the character before it.
#[derive(Clone, Copy, Debug, PartialEq, Eq)]
pub enum VariationSelector {
    VS01,
    VS02,
    VS03,
    VS15,
    VS16,
}

/// What a shaper keeps with each glyph.
pub trait GlyphData: Sized {
    /// The data of the glyph that two glyphs with `data1` and `data2` are merged into.
    spec fn spec_merge(data1: Self, data2: Self) -> Self;

    /// Merges the data of two glyphs that a substitution merges into one.
    fn merge(data1: Self, data2: Self) -> (r: Self)
        ensures
            r == Self::spec_merge(data1, data2),
    ;
}

impl GlyphData for () {
    open spec fn spec_merge(data1: (), data2: ()) -> () {
        ()
    }

    fn merge(data1: (), data2: ()) -> (r: ()) {
        ()
    }
}

/// A glyph on its way through shaping, with data `T` of the shaper.
#[derive(Clone, Debug, PartialEq, Eq)]
pub struct RawGlyph<T> {
    /// The characters that the glyph stands for.
    pub unicodes: Vec<char>,
    /// The index of the glyph in the font.
    pub glyph_index: u16,
    /// The place of the glyph among the components of a ligature.
    pub liga_component_pos: u16,
    /// Where the glyph comes from.
    pub glyph_origin: GlyphOrigin,
    /// Whether the glyph is to be drawn as a small capital.
    pub small_caps: bool,
    /// Whether the glyph is one of several that a substitution put in the
    /// place of one, other than the first.
    pub multi_subst_dup: bool,
    /// Whether the glyph is a vertical alternate.
    pub is_vert_alt: bool,
    /// Whether the glyph is to be emboldened.
    pub fake_bold: bool,
    /// Whether the glyph is to be slanted.
    pub fake_italic: bool,
    /// The variation selector that followed the character.
    pub variation: Option<VariationSelector>,
    /// The data of the shaper.
    pub extra_data: T,
}

/// A feature, or group of features, whose lookups are applied together.
#[derive(Clone, Copy, Debug, PartialEq, Eq, Structural)]
pub enum GsubFeatureMask {
    CALT,
    CCMP,
    FINA,
    INIT,
    ISOL,
    LIGA,
    LOCL,
    MEDI,
    MSET,
    RCLT,
    RLIG,
}

impl GsubFeatureMask {
    /// The tag of the feature.
    pub open spec fn spec_tag(self) -> u32 {
        match self {
            GsubFeatureMask::CALT => tag::CALT,
            GsubFeatureMask::CCMP => tag::CCMP,
            GsubFeatureMask::FINA => tag::FINA,
            GsubFeatureMask::INIT => tag::INIT,
            GsubFeatureMask::ISOL => tag::ISOL,
            GsubFeatureMask::LIGA => tag::LIGA,
            GsubFeatureMask::LOCL => tag::LOCL,
            GsubFeatureMask::MEDI => tag::MEDI,
            GsubFeatureMask::MSET => tag::MSET,
            GsubFeatureMask::RCLT => tag::RCLT,
            GsubFeatureMask::RLIG => tag::RLIG,
        }
    }

    /// The tag of the feature.
    pub fn tag(self) -> (t: u32)
        ensures
            t == self.spec_tag(),
    {
        match self {
            GsubFeatureMask::CALT => tag::CALT,
            GsubFeatureMask::CCMP => tag::CCMP,
            GsubFeatureMask::FINA => tag::FINA,
            GsubFeatureMask::INIT => tag::INIT,
            GsubFeatureMask::ISOL => tag::ISOL,
            GsubFeatureMask::LIGA => tag::LIGA,
            GsubFeatureMask::LOCL => tag::LOCL,
            GsubFeatureMask::MEDI => tag::MEDI,
            GsubFeatureMask::MSET => tag::MSET,
            GsubFeatureMask::RCLT => tag::RCLT,
            GsubFeatureMask::RLIG => tag::RLIG,
        }
    }
}

/// A copy of `chars`.
pub fn copy_chars(chars: &Vec<char>) -> (copy: Vec<char>)
    ensures
        copy@ == chars@,
{
    let mut copy: Vec<char> = Vec::new();
    let mut i: usize = 0;
    while i < chars.len()
        invariant
            i <= chars@.len(),
            copy@ == chars@.take(i as int),
        decreases chars@.len() - i,
    {
        copy.push(chars[i]);
        i = i + 1;
        assert(copy@ =~= chars@.take(i as int));
    }
    assert(chars@.take(i as int) =~= chars@);
    copy
}

} // verus!

