//! The parts of a Compact Font Format font that the CharString scanner reads.

use vstd::prelude::*;
use vstd::std_specs::convert::FromSpecImpl;

use crate::cff::charstring::{Operand, TryNumFrom};
use crate::error::ParseError;

pub mod charstring;

verus! {

/// The number of a glyph within a font.
pub type GlyphId = u16;

/// Errors of the CharString scanner.
#[derive(Clone, Copy, Debug, PartialEq, Eq, Structural)]
pub enum CFFError {
    /// The binary data could not be read.
    ParseError(ParseError),
    /// A reserved operator, or one that the font's format does not have.
    InvalidOperator,
    /// A two-byte operator other than the flex operators.
    UnsupportedOperator,
    /// A CFF CharString that ended without `endchar`.
    MissingEndChar,
    /// Bytes follow the `endchar` operator.
    DataAfterEndChar,
    /// Subroutine calls are nested too deeply.
    NestingLimitReached,
    /// A number was pushed onto a full arguments stack.
    ArgumentsStackLimitReached,
    /// An operator found the wrong number of values on the arguments stack.
    InvalidArgumentsStackLength,
    /// The bounding box of an outline is too large.
    BboxOverflow,
    /// A path was drawn before any move.
    MissingMoveTo,
    /// `vsindex` occurred twice, or after a `blend`.
    DuplicateVsIndex,
    /// A subroutine operand that names no subroutine.
    InvalidSubroutineIndex,
    /// A local subroutine was called in a font that has none.
    NoLocalSubroutines,
    /// A `seac` operand that names no glyph.
    InvalidSeacCode,
}

impl From<ParseError> for CFFError {
    fn from(error: ParseError) -> (r: CFFError) {
        CFFError::ParseError(error)
    }
}

impl FromSpecImpl<ParseError> for CFFError {
    open spec fn obeys_from_spec() -> bool {
        true
    }

    open spec fn from_spec(error: ParseError) -> CFFError {
        CFFError::ParseError(error)
    }
}

impl CFFError {
    /// A description of the error.
    pub open spec fn spec_message(&self) -> Seq<char> {
        match self {
            CFFError::ParseError(ParseError::BadEof) => "parse error: end of data reached unexpectedly"@,
            CFFError::ParseError(ParseError::BadValue) => "parse error: invalid value"@,
            CFFError::ParseError(ParseError::BadVersion) => "parse error: unexpected data version"@,
            CFFError::ParseError(ParseError::BadOffset) => "parse error: invalid data offset"@,
            CFFError::ParseError(ParseError::BadIndex) => "parse error: invalid data index"@,
            CFFError::ParseError(ParseError::LimitExceeded) => "parse error: limit exceeded"@,
            CFFError::ParseError(ParseError::MissingValue) => "parse error: an expected data value was missing"@,
            CFFError::InvalidOperator => "an invalid operator occurred"@,
            CFFError::UnsupportedOperator => "an unsupported operator occurred"@,
            CFFError::MissingEndChar => "the 'endchar' operator is missing"@,
            CFFError::DataAfterEndChar => "unused data left after 'endchar' operator"@,
            CFFError::NestingLimitReached => "subroutines nesting limit reached"@,
            CFFError::ArgumentsStackLimitReached => "arguments stack limit reached"@,
            CFFError::InvalidArgumentsStackLength => "an invalid amount of items are in an arguments stack"@,
            CFFError::BboxOverflow => "outline's bounding box is too large"@,
            CFFError::MissingMoveTo => "missing moveto operator"@,
            CFFError::DuplicateVsIndex => "duplicate vsindex operator"@,
            CFFError::InvalidSubroutineIndex => "an invalid subroutine index"@,
            CFFError::NoLocalSubroutines => "no local subroutines"@,
            CFFError::InvalidSeacCode => "invalid seac code"@,
        }
    }

    /// A description of the error.
    pub fn message(&self) -> (s: &'static str)
        ensures
            s@ == self.spec_message(),
    {
        match self {
            CFFError::ParseError(ParseError::BadEof) => "parse error: end of data reached unexpectedly",
            CFFError::ParseError(ParseError::BadValue) => "parse error: invalid value",
            CFFError::ParseError(ParseError::BadVersion) => "parse error: unexpected data version",
            CFFError::ParseError(ParseError::BadOffset) => "parse error: invalid data offset",
            CFFError::ParseError(ParseError::BadIndex) => "parse error: invalid data index",
            CFFError::ParseError(ParseError::LimitExceeded) => "parse error: limit exceeded",
            CFFError::ParseError(ParseError::MissingValue) => "parse error: an expected data value was missing",
            CFFError::InvalidOperator => "an invalid operator occurred",
            CFFError::UnsupportedOperator => "an unsupported operator occurred",
            CFFError::MissingEndChar => "the 'endchar' operator is missing",
            CFFError::DataAfterEndChar => "unused data left after 'endchar' operator",
            CFFError::NestingLimitReached => "subroutines nesting limit reached",
            CFFError::ArgumentsStackLimitReached => "arguments stack limit reached",
            CFFError::InvalidArgumentsStackLength => "an invalid amount of items are in an arguments stack",
            CFFError::BboxOverflow => "outline's bounding box is too large",
            CFFError::MissingMoveTo => "missing moveto operator",
            CFFError::DuplicateVsIndex => "duplicate vsindex operator",
            CFFError::InvalidSubroutineIndex => "an invalid subroutine index",
            CFFError::NoLocalSubroutines => "no local subroutines",
            CFFError::InvalidSeacCode => "invalid seac code",
        }
    }
}

/// An INDEX: an ordered list of byte strings, such as CharStrings or subroutines.
pub struct ObjectIndex {
    objects: Vec<Vec<u8>>,
}

impl View for ObjectIndex {
    type V = Seq<Seq<u8>>;

    closed spec fn view(&self) -> Seq<Seq<u8>> {
        Seq::new(self.objects@.len(), |i: int| self.objects@[i]@)
    }
}

impl ObjectIndex {
    /// An INDEX of the given byte strings.
    pub fn new(objects: Vec<Vec<u8>>) -> (index: Self)
        ensures
            index@.len() == objects@.len(),
            forall|i: int| 0 <= i < objects@.len() ==> #[trigger] index@[i] == objects@[i]@,
    {
        ObjectIndex { objects }
    }

    /// The number of byte strings.
    pub fn len(&self) -> (n: usize)
        ensures
            n == self@.len(),
    {
        self.objects.len()
    }

    /// The byte string at `index`, if there is one.
    pub fn read_object(&self, index: usize) -> (r: Option<&[u8]>)
        ensures
            match r {
                Some(object) => index < self@.len() && object@ == self@[index as int],
                None => index >= self@.len(),
            },
    {
        if index < self.objects.len() {
            Some(self.objects[index].as_slice())
        } else {
            None
        }
    }
}

/// The mapping from glyphs to the font dictionaries of a CID-keyed font.
pub struct FDSelect {
    /// The font dictionary of each glyph, by glyph id.
    pub font_dicts: Vec<u8>,
}

impl FDSelect {
    /// The font dictionary that `glyph_id` belongs to.
    pub open spec fn spec_font_dict_index(&self, glyph_id: GlyphId) -> Option<u8> {
        if glyph_id < self.font_dicts@.len() {
            Some(self.font_dicts@[glyph_id as int])
        } else {
            None
        }
    }

    /// The font dictionary that `glyph_id` belongs to.
    pub fn font_dict_index(&self, glyph_id: GlyphId) -> (r: Option<u8>)
        ensures
            r == self.spec_font_dict_index(glyph_id),
    {
        if (glyph_id as usize) < self.font_dicts.len() {
            Some(self.font_dicts[glyph_id as usize])
        } else {
            None
        }
    }
}

/// What is particular to a CID-keyed CFF font.
pub struct CIDData {
    /// Selects the font dictionary of a glyph.
    pub fd_select: FDSelect,
    /// The local subroutines of each font dictionary.
    pub local_subr_indices: Vec<Option<ObjectIndex>>,
}

/// What is particular to a CFF font that is not CID-keyed.
pub struct Type1Data {
    /// The local subroutines of the font.
    pub local_subr_index: Option<ObjectIndex>,
}

/// The two kinds of CFF font.
pub enum CFFVariant {
    CID(CIDData),
    Type1(Type1Data),
}

/// A font of a CFF table.
pub struct Font {
    /// The glyph that each code of the standard encoding stands for in this
    /// font, by code; codes beyond the end stand for no glyph.
    pub seac_glyphs: Vec<Option<GlyphId>>,
    /// What depends on the kind of font.
    pub data: CFFVariant,
}

/// A font of a CFF2 table.
pub struct Cff2Font {
    /// The local subroutines of the font.
    pub local_subr_index: Option<ObjectIndex>,
}

/// A font of either table.
#[derive(Clone, Copy)]
pub enum CFFFont<'a> {
    CFF(&'a Font),
    CFF2(&'a Cff2Font),
}

impl Font {
    /// The glyph that the standard encoding's `code` stands for.
    pub open spec fn spec_seac_glyph(&self, code: Operand) -> Option<GlyphId> {
        match u8::spec_try_num_from(code) {
            Some(code) => if code < self.seac_glyphs@.len() {
                self.seac_glyphs@[code as int]
            } else {
                None
            },
            None => None,
        }
    }

    /// The glyph that an operand of `seac` stands for.
    pub fn seac_code_to_glyph_id(&self, n: Operand) -> (r: Option<GlyphId>)
        ensures
            r == self.spec_seac_glyph(n),
    {
        match u8::try_num_from(n) {
            Some(code) => {
                if (code as usize) < self.seac_glyphs.len() {
                    self.seac_glyphs[code as usize]
                } else {
                    None
                }
            },
            None => None,
        }
    }
}

/// The local subroutines that the glyph `glyph_id` of `font` may call.
pub open spec fn spec_local_subrs(font: CFFFont<'_>, glyph_id: GlyphId) -> Option<ObjectIndex> {
    match font {
        CFFFont::CFF(font) => match font.data {
            CFFVariant::Type1(type1) => type1.local_subr_index,
            CFFVariant::CID(cid) => match cid.fd_select.spec_font_dict_index(glyph_id) {
                Some(dict) => if dict < cid.local_subr_indices@.len() {
                    cid.local_subr_indices@[dict as int]
                } else {
                    None
                },
                None => None,
            },
        },
        CFFFont::CFF2(font) => font.local_subr_index,
    }
}

} // verus!
