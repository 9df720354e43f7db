//! Implementation of font shaping for Arabic scripts.
//!
//! Shaping an Arabic run alternates between lookups of the font's glyph
//! substitution table and steps that need nothing but the glyphs. What is
//! done when is decided by [`gsub_apply_arabic`]; the joining states of the
//! letters are computed by [`compute_joining_states`].

use vstd::prelude::*;

use crate::error::{ParseError, ShapingError};
use crate::gsub::{copy_chars, GlyphData, GlyphOrigin, GsubFeatureMask, RawGlyph};
use crate::tag;

verus! {

/// How a character joins its neighbours in cursive scripts.
#[derive(Clone, Copy, Debug, PartialEq, Eq, Structural)]
pub enum JoiningType {
    DualJoining,
    JoinCausing,
    LeftJoining,
    NonJoining,
    RightJoining,
    Transparent,
}

/// The joining type that Unicode gives the character `c`.
pub uninterp spec fn spec_joining_type(c: char) -> JoiningType;

/// Calls `unicode_joining_type::get_joining_type`, which looks the joining
/// type of `c` up in the tables of the Unicode character database. A joining
/// type that a later version may add is taken as non-joining.
#[verifier::external_body]
fn joining_type_of(c: char) -> (joining_type: JoiningType)
    ensures
        joining_type == spec_joining_type(c),
{
    match unicode_joining_type::get_joining_type(c) {
        unicode_joining_type::JoiningType::DualJoining => JoiningType::DualJoining,
        unicode_joining_type::JoiningType::JoinCausing => JoiningType::JoinCausing,
        unicode_joining_type::JoiningType::LeftJoining => JoiningType::LeftJoining,
        unicode_joining_type::JoiningType::NonJoining => JoiningType::NonJoining,
        unicode_joining_type::JoiningType::RightJoining => JoiningType::RightJoining,
        unicode_joining_type::JoiningType::Transparent => JoiningType::Transparent,
        _ => JoiningType::NonJoining,
    }
}

/// What the Arabic shaper keeps with each glyph.
#[derive(Clone, Copy, Debug, PartialEq, Eq, Structural)]
pub struct ArabicData {
    /// How the glyph joins its neighbours.
    pub joining_type: JoiningType,
    /// The feature that gives the form of the glyph: one of `isol`, `init`,
    /// `medi` and `fina`.
    pub feature_tag: u32,
}

impl GlyphData for ArabicData {
    open spec fn spec_merge(data1: ArabicData, data2: ArabicData) -> ArabicData {
        data1
    }

    fn merge(data1: ArabicData, _data2: ArabicData) -> (r: ArabicData) {
        data1
    }
}

/// Arabic glyphs are represented as `RawGlyph` structs with `ArabicData` for its `extra_data`.
pub type ArabicGlyph = RawGlyph<ArabicData>;

/// Whether joining passes over the glyph `g`.
pub open spec fn spec_is_transparent(g: ArabicGlyph) -> bool {
    g.extra_data.joining_type == JoiningType::Transparent || g.multi_subst_dup
}

/// Whether the glyph `g` joins the glyph that follows it.
pub open spec fn spec_is_left_joining(g: ArabicGlyph) -> bool {
    g.extra_data.joining_type == JoiningType::LeftJoining || g.extra_data.joining_type
        == JoiningType::DualJoining || g.extra_data.joining_type == JoiningType::JoinCausing
}

/// Whether the glyph `g` joins the glyph that precedes it.
pub open spec fn spec_is_right_joining(g: ArabicGlyph) -> bool {
    g.extra_data.joining_type == JoiningType::RightJoining || g.extra_data.joining_type
        == JoiningType::DualJoining || g.extra_data.joining_type == JoiningType::JoinCausing
}

/// The Arabic glyph of `raw_glyph` with the joining type `joining_type`: the
/// same glyph, in its isolated form.
pub open spec fn spec_arabic_glyph(raw_glyph: RawGlyph<()>, joining_type: JoiningType) -> ArabicGlyph {
    RawGlyph {
        unicodes: raw_glyph.unicodes,
        glyph_index: raw_glyph.glyph_index,
        liga_component_pos: raw_glyph.liga_component_pos,
        glyph_origin: raw_glyph.glyph_origin,
        small_caps: raw_glyph.small_caps,
        multi_subst_dup: raw_glyph.multi_subst_dup,
        is_vert_alt: raw_glyph.is_vert_alt,
        fake_bold: raw_glyph.fake_bold,
        fake_italic: raw_glyph.fake_italic,
        variation: raw_glyph.variation,
        extra_data: ArabicData { joining_type, feature_tag: tag::ISOL },
    }
}

/// The joining type of a glyph that comes from `origin`: that of its
/// character, and non-joining where it has none.
pub open spec fn spec_origin_joining_type(origin: GlyphOrigin) -> JoiningType {
    match origin {
        GlyphOrigin::Char(c) => spec_joining_type(c),
        GlyphOrigin::Direct => JoiningType::NonJoining,
    }
}

/// The glyph `arabic_glyph` without the data of the Arabic shaper.
pub open spec fn spec_raw_glyph(arabic_glyph: ArabicGlyph) -> RawGlyph<()> {
    RawGlyph {
        unicodes: arabic_glyph.unicodes,
        glyph_index: arabic_glyph.glyph_index,
        liga_component_pos: arabic_glyph.liga_component_pos,
        glyph_origin: arabic_glyph.glyph_origin,
        small_caps: arabic_glyph.small_caps,
        multi_subst_dup: arabic_glyph.multi_subst_dup,
        is_vert_alt: arabic_glyph.is_vert_alt,
        fake_bold: arabic_glyph.fake_bold,
        fake_italic: arabic_glyph.fake_italic,
        variation: arabic_glyph.variation,
        extra_data: (),
    }
}

/// Two glyphs hold the same, but for the copies of their characters.
pub open spec fn same_glyph<T>(a: RawGlyph<T>, b: RawGlyph<T>) -> bool {
    &&& a.unicodes@ == b.unicodes@
    &&& a.glyph_index == b.glyph_index
    &&& a.liga_component_pos == b.liga_component_pos
    &&& a.glyph_origin == b.glyph_origin
    &&& a.small_caps == b.small_caps
    &&& a.multi_subst_dup == b.multi_subst_dup
    &&& a.is_vert_alt == b.is_vert_alt
    &&& a.fake_bold == b.fake_bold
    &&& a.fake_italic == b.fake_italic
    &&& a.variation == b.variation
    &&& a.extra_data == b.extra_data
}

impl RawGlyph<ArabicData> {
    /// The Arabic glyph of `raw_glyph` with the joining type `joining_type`,
    /// in its isolated form.
    pub fn with_joining_type(raw_glyph: &RawGlyph<()>, joining_type: JoiningType) -> (r:
        ArabicGlyph)
        ensures
            same_glyph(r, spec_arabic_glyph(*raw_glyph, joining_type)),
    {
        ArabicGlyph {
            unicodes: copy_chars(&raw_glyph.unicodes),
            glyph_index: raw_glyph.glyph_index,
            liga_component_pos: raw_glyph.liga_component_pos,
            glyph_origin: raw_glyph.glyph_origin,
            small_caps: raw_glyph.small_caps,
            multi_subst_dup: raw_glyph.multi_subst_dup,
            is_vert_alt: raw_glyph.is_vert_alt,
            fake_bold: raw_glyph.fake_bold,
            fake_italic: raw_glyph.fake_italic,
            variation: raw_glyph.variation,
            extra_data: ArabicData {
                joining_type,
                // Every glyph starts in the isolated form, which computing the joining
                // states of the letters then changes.
                feature_tag: tag::ISOL,
            },
        }
    }

    /// The Arabic glyph of `raw_glyph`, in its isolated form. Its joining
    /// type is that of its character.
    pub fn from_raw(raw_glyph: &RawGlyph<()>) -> (r: ArabicGlyph)
        ensures
            same_glyph(
                r,
                spec_arabic_glyph(*raw_glyph, spec_origin_joining_type(raw_glyph.glyph_origin)),
            ),
    {
        // Since there's no `Char` to work out the `ArabicGlyph`s joining type when the glyph's
        // `glyph_origin` is `GlyphOrigin::Direct`, we fallback to `JoiningType::NonJoining` as
        // the safest approach
        let joining_type = match raw_glyph.glyph_origin {
            GlyphOrigin::Char(c) => joining_type_of(c),
            GlyphOrigin::Direct => JoiningType::NonJoining,
        };
        Self::with_joining_type(raw_glyph, joining_type)
    }

    /// The glyph without the data of the Arabic shaper.
    pub fn to_raw(&self) -> (r: RawGlyph<()>)
        ensures
            same_glyph(r, spec_raw_glyph(*self)),
    {
        RawGlyph {
            unicodes: copy_chars(&self.unicodes),
            glyph_index: self.glyph_index,
            liga_component_pos: self.liga_component_pos,
            glyph_origin: self.glyph_origin,
            small_caps: self.small_caps,
            multi_subst_dup: self.multi_subst_dup,
            is_vert_alt: self.is_vert_alt,
            fake_bold: self.fake_bold,
            fake_italic: self.fake_italic,
            variation: self.variation,
            extra_data: (),
        }
    }

    /// Whether joining passes over the glyph.
    pub fn is_transparent(&self) -> (b: bool)
        ensures
            b == spec_is_transparent(*self),
    {
        self.extra_data.joining_type == JoiningType::Transparent || self.multi_subst_dup
    }

    /// Whether the glyph joins the glyph that follows it.
    pub fn is_left_joining(&self) -> (b: bool)
        ensures
            b == spec_is_left_joining(*self),
    {
        self.extra_data.joining_type == JoiningType::LeftJoining || self.extra_data.joining_type
            == JoiningType::DualJoining || self.extra_data.joining_type
            == JoiningType::JoinCausing
    }

    /// Whether the glyph joins the glyph that precedes it.
    pub fn is_right_joining(&self) -> (b: bool)
        ensures
            b == spec_is_right_joining(*self),
    {
        self.extra_data.joining_type == JoiningType::RightJoining || self.extra_data.joining_type
            == JoiningType::DualJoining || self.extra_data.joining_type
            == JoiningType::JoinCausing
    }

    /// The feature that gives the form of the glyph.
    pub fn feature_tag(&self) -> (t: u32)
        ensures
            t == self.extra_data.feature_tag,
    {
        self.extra_data.feature_tag
    }

    /// Gives the glyph the form of the feature `feature_tag`.
    pub fn set_feature_tag(&mut self, feature_tag: u32)
        ensures
            *final(self) == with_tag(*old(self), feature_tag),
    {
        self.extra_data.feature_tag = feature_tag
    }
}

/// The glyph `g` in the form of the feature `feature_tag`.
pub open spec fn with_tag(g: ArabicGlyph, feature_tag: u32) -> ArabicGlyph {
    RawGlyph {
        extra_data: ArabicData { joining_type: g.extra_data.joining_type, feature_tag },
        ..g
    }
}

/// The index of the last glyph before the `i`th that joining does not pass
/// over, and -1 where there is none.
pub open spec fn prev_base(glyphs: Seq<ArabicGlyph>, i: int) -> int
    decreases i,
{
    if i <= 0 {
        -1
    } else if !spec_is_transparent(glyphs[i - 1]) {
        i - 1
    } else {
        prev_base(glyphs, i - 1)
    }
}

/// The index of the first glyph from the `i`th on that joining does not
/// pass over, and -1 where there is none.
pub open spec fn first_base(glyphs: Seq<ArabicGlyph>, i: int) -> int
    decreases glyphs.len() - i,
{
    if i < 0 || i >= glyphs.len() {
        -1
    } else if !spec_is_transparent(glyphs[i]) {
        i
    } else {
        first_base(glyphs, i + 1)
    }
}

/// Whether the `i`th glyph is joined to the last glyph before it that
/// joining does not pass over.
pub open spec fn joins_previous(glyphs: Seq<ArabicGlyph>, i: int) -> bool {
    let p = prev_base(glyphs, i);
    p >= 0 && spec_is_left_joining(glyphs[p]) && spec_is_right_joining(glyphs[i])
}

/// Whether the `i`th glyph is joined to the first glyph behind it that
/// joining does not pass over.
pub open spec fn joins_next(glyphs: Seq<ArabicGlyph>, i: int) -> bool {
    let n = first_base(glyphs, i + 1);
    n >= 0 && spec_is_left_joining(glyphs[i]) && spec_is_right_joining(glyphs[n])
}

/// The form of the `i`th glyph once it is joined to what precedes it: the
/// final form if it is joined, and the form it has if it is not.
pub open spec fn tag_after_previous(glyphs: Seq<ArabicGlyph>, i: int) -> u32 {
    if joins_previous(glyphs, i) {
        tag::FINA
    } else {
        glyphs[i].extra_data.feature_tag
    }
}

/// The form `feature_tag` once the glyph is joined to what follows it: an
/// isolated form becomes initial, a final form becomes medial.
pub open spec fn tag_joined_to_next(feature_tag: u32) -> u32 {
    if feature_tag == tag::ISOL {
        tag::INIT
    } else if feature_tag == tag::FINA {
        tag::MEDI
    } else {
        feature_tag
    }
}

/// The form that the joining states of `glyphs` give the `i`th of them.
///
/// A glyph that joining passes over keeps its form. Of the others, one that
/// is joined to its neighbour on neither side keeps its form, one that is
/// joined to the glyph before it takes the final form, one that is joined to
/// the glyph behind it takes the initial form, and one that is joined on
/// both sides takes the medial form.
pub open spec fn joined_tag(glyphs: Seq<ArabicGlyph>, i: int) -> u32 {
    if spec_is_transparent(glyphs[i]) {
        glyphs[i].extra_data.feature_tag
    } else if joins_next(glyphs, i) {
        tag_joined_to_next(tag_after_previous(glyphs, i))
    } else {
        tag_after_previous(glyphs, i)
    }
}

/// Every glyph of a run is left in one of the four forms, and takes the
/// medial or the final form only where the last glyph before it that joining
/// does not pass over joins what follows it.
///
/// This holds of a run whose glyphs all start in the isolated form.
pub proof fn lemma_joined_tags(glyphs: Seq<ArabicGlyph>, i: int)
    requires
        0 <= i < glyphs.len(),
        forall|j: int| 0 <= j < glyphs.len() ==> (#[trigger] glyphs[j]).extra_data.feature_tag
            == tag::ISOL,
    ensures
        joined_tag(glyphs, i) == tag::ISOL || joined_tag(glyphs, i) == tag::INIT || joined_tag(
            glyphs,
            i,
        ) == tag::MEDI || joined_tag(glyphs, i) == tag::FINA,
        joined_tag(glyphs, i) == tag::MEDI || joined_tag(glyphs, i) == tag::FINA ==> {
            &&& !spec_is_transparent(glyphs[i])
            &&& 0 <= prev_base(glyphs, i) < i
            &&& !spec_is_transparent(glyphs[prev_base(glyphs, i)])
            &&& spec_is_left_joining(glyphs[prev_base(glyphs, i)])
            &&& spec_is_right_joining(glyphs[i])
        },
{
    lemma_prev_base(glyphs, i);
}

/// The last glyph before the `i`th that joining does not pass over stands
/// before the `i`th, and joining does not pass over it.
pub proof fn lemma_prev_base(glyphs: Seq<ArabicGlyph>, i: int)
    requires
        0 <= i <= glyphs.len(),
    ensures
        -1 <= prev_base(glyphs, i) < i,
        prev_base(glyphs, i) >= 0 ==> !spec_is_transparent(glyphs[prev_base(glyphs, i)]),
        forall|k: int| prev_base(glyphs, i) < k < i ==> spec_is_transparent(#[trigger] glyphs[k]),
    decreases i,
{
    if i > 0 && spec_is_transparent(glyphs[i - 1]) {
        lemma_prev_base(glyphs, i - 1);
    }
}

/// Two runs agree in all but the forms of their glyphs.
pub open spec fn same_but_tags(a: Seq<ArabicGlyph>, b: Seq<ArabicGlyph>) -> bool {
    &&& a.len() == b.len()
    &&& forall|j: int|
        0 <= j < a.len() ==> #[trigger] a[j] == with_tag(b[j], a[j].extra_data.feature_tag)
}

/// The first base from `i` on is the first base from `j` on, where joining
/// passes over all glyphs from `i` to `j`.
proof fn lemma_first_base_skips(glyphs: Seq<ArabicGlyph>, i: int, j: int)
    requires
        0 <= i <= j <= glyphs.len(),
        forall|k: int| i <= k < j ==> spec_is_transparent(#[trigger] glyphs[k]),
    ensures
        first_base(glyphs, i) == first_base(glyphs, j),
    decreases j - i,
{
    if i < j {
        lemma_first_base_skips(glyphs, i + 1, j);
    }
}

/// Joins the glyph at `i` to the glyph at `previous_i` before it: the
/// glyph takes the final form, and the one before it turns from isolated to
/// initial or from final to medial.
fn join_glyphs(arabic_glyphs: &mut Vec<ArabicGlyph>, previous_i: usize, i: usize)
    requires
        previous_i < i < old(arabic_glyphs)@.len(),
    ensures
        final(arabic_glyphs)@.len() == old(arabic_glyphs)@.len(),
        forall|j: int|
            0 <= j < old(arabic_glyphs)@.len() && j != i && j != previous_i
                ==> #[trigger] final(arabic_glyphs)@[j] == old(arabic_glyphs)@[j],
        final(arabic_glyphs)@[i as int] == with_tag(old(arabic_glyphs)@[i as int], tag::FINA),
        final(arabic_glyphs)@[previous_i as int] == with_tag(
            old(arabic_glyphs)@[previous_i as int],
            tag_joined_to_next(old(arabic_glyphs)@[previous_i as int].extra_data.feature_tag),
        ),
{
    arabic_glyphs[i].set_feature_tag(tag::FINA);

    let previous_tag = arabic_glyphs[previous_i].feature_tag();
    if previous_tag == tag::ISOL {
        arabic_glyphs[previous_i].set_feature_tag(tag::INIT);
    } else if previous_tag == tag::FINA {
        arabic_glyphs[previous_i].set_feature_tag(tag::MEDI);
    }
}

/// Computes the joining states of the letters of a run: gives each glyph the
/// form that its neighbours ask for.
///
/// The glyphs are walked in order. Glyphs that joining passes over are left
/// alone. Each other glyph that is joined to the last such glyph before it
/// takes the final form, and turns that glyph from isolated to initial or
/// from final to medial.
#[verifier::rlimit(50)]
pub fn compute_joining_states(arabic_glyphs: &mut Vec<ArabicGlyph>)
    ensures
        same_but_tags(final(arabic_glyphs)@, old(arabic_glyphs)@),
        forall|i: int|
            0 <= i < old(arabic_glyphs)@.len() ==> (#[trigger] final(arabic_glyphs)@[i])
                .extra_data.feature_tag == joined_tag(old(arabic_glyphs)@, i),
{
    let ghost orig = arabic_glyphs@;
    let len = arabic_glyphs.len();
    // The first glyph that joining does not pass over.
    let mut previous_i: usize = 0;
    while previous_i < len && arabic_glyphs[previous_i].is_transparent()
        invariant
            previous_i <= len,
            len == orig.len(),
            arabic_glyphs@ == orig,
            forall|k: int| 0 <= k < previous_i ==> spec_is_transparent(#[trigger] orig[k]),
        decreases len - previous_i,
    {
        previous_i = previous_i + 1;
    }
    if previous_i >= len {
        proof {
            assert forall|i: int| 0 <= i < orig.len() implies (#[trigger] orig[i]).extra_data.feature_tag
                == joined_tag(orig, i) by {}
            assert forall|j: int| 0 <= j < orig.len() implies #[trigger] orig[j] == with_tag(
                orig[j],
                orig[j].extra_data.feature_tag,
            ) by {}
        }
        return ;
    }
    proof {
        lemma_prev_base(orig, previous_i as int);
        assert forall|j: int| 0 <= j < orig.len() implies #[trigger] orig[j] == with_tag(
            orig[j],
            orig[j].extra_data.feature_tag,
        ) by {}
    }
    let mut i: usize = previous_i + 1;
    while i < len
        invariant
            previous_i < i <= len,
            len == orig.len(),
            orig == old(arabic_glyphs)@,
            same_but_tags(arabic_glyphs@, orig),
            !spec_is_transparent(orig[previous_i as int]),
            forall|k: int| previous_i < k < i ==> spec_is_transparent(#[trigger] orig[k]),
            forall|j: int|
                0 <= j < i && j != previous_i ==> (#[trigger] arabic_glyphs@[j]).extra_data.feature_tag
                    == joined_tag(orig, j),
            arabic_glyphs@[previous_i as int].extra_data.feature_tag == tag_after_previous(
                orig,
                previous_i as int,
            ),
            forall|j: int|
                i <= j < len ==> (#[trigger] arabic_glyphs@[j]).extra_data.feature_tag
                    == orig[j].extra_data.feature_tag,
        decreases len - i,
    {
        let ghost before = arabic_glyphs@;
        assert(arabic_glyphs@[i as int] == with_tag(
            orig[i as int],
            arabic_glyphs@[i as int].extra_data.feature_tag,
        ));
        assert(arabic_glyphs@[previous_i as int] == with_tag(
            orig[previous_i as int],
            arabic_glyphs@[previous_i as int].extra_data.feature_tag,
        ));
        if arabic_glyphs[i].is_transparent() {
            i = i + 1;
            continue ;
        }
        proof {
            lemma_prev_base(orig, i as int);
            lemma_first_base_skips(orig, previous_i + 1, i as int);
        }
        if arabic_glyphs[previous_i].is_left_joining() && arabic_glyphs[i].is_right_joining() {
            join_glyphs(arabic_glyphs, previous_i, i);
        }
        proof {
            assert forall|j: int| 0 <= j < len implies #[trigger] arabic_glyphs@[j] == with_tag(
                orig[j],
                arabic_glyphs@[j].extra_data.feature_tag,
            ) by {
                assert(before[j] == with_tag(orig[j], before[j].extra_data.feature_tag));
            }
        }
        previous_i = i;
        i = i + 1;
    }
    proof {
        lemma_first_base_skips(orig, previous_i + 1, len as int);
    }
}

/// Whether a lookup of the feature `feature_tag` applies to the glyph `g`:
/// a lookup of a feature that is global applies to every glyph, one of another
/// feature to the glyphs in the form of the feature.
pub fn lookup_applies(g: &ArabicGlyph, feature_tag: u32, is_global: bool) -> (b: bool)
    ensures
        b == (is_global || g.extra_data.feature_tag == feature_tag),
{
    is_global || g.feature_tag() == feature_tag
}

/// What shaping an Arabic run does next.
#[derive(Clone, Copy, Debug, PartialEq, Eq, Structural)]
pub enum ShapingAction {
    /// Find the script and the language system in the font's substitution
    /// table, and say whether both are there.
    FindScript,
    /// Turn the glyphs of the run into Arabic glyphs.
    Prepare,
    /// Apply the lookups of a feature to the whole run: to every glyph if
    /// `is_global`, and else to the glyphs in the form of the feature.
    ApplyLookups { feature_mask: GsubFeatureMask, is_global: bool },
    /// Compute the joining states of the letters.
    ComputeJoiningStates,
    /// Put the shaped glyphs in the place of the glyphs of the run. Shaping
    /// has succeeded.
    Commit,
    /// Leave the glyphs of the run as they are. Shaping has succeeded.
    Leave,
    /// Leave the glyphs of the run as they are. Shaping has failed.
    Fail(ShapingError),
}

/// How far shaping an Arabic run has come.
#[derive(Clone, Copy, Debug, PartialEq, Eq, Structural)]
pub enum ShapingStage {
    /// Nothing has been done.
    Start,
    /// The script and the language system are being looked for.
    FindingScript,
    /// The step with this number is being done.
    Step(u8),
    /// Shaping has come to its end.
    Finished,
}

/// The number of steps that follow after the script was found.
pub const SHAPING_STEPS: u8 = 14;

/// The step with the number `step`.
///
/// After the glyphs are prepared, composition and decomposition come first
/// and the joining states second. The features for the forms of the language
/// follow, and the typographic features come last.
pub open spec fn spec_shaping_step(step: u8) -> ShapingAction {
    if step == 0 {
        ShapingAction::Prepare
    } else if step == 1 {
        ShapingAction::ApplyLookups { feature_mask: GsubFeatureMask::CCMP, is_global: true }
    } else if step == 2 {
        ShapingAction::ComputeJoiningStates
    } else if step == 3 {
        ShapingAction::ApplyLookups { feature_mask: GsubFeatureMask::LOCL, is_global: true }
    } else if step == 4 {
        ShapingAction::ApplyLookups { feature_mask: GsubFeatureMask::ISOL, is_global: false }
    } else if step == 5 {
        ShapingAction::ApplyLookups { feature_mask: GsubFeatureMask::FINA, is_global: false }
    } else if step == 6 {
        ShapingAction::ApplyLookups { feature_mask: GsubFeatureMask::MEDI, is_global: false }
    } else if step == 7 {
        ShapingAction::ApplyLookups { feature_mask: GsubFeatureMask::INIT, is_global: false }
    } else if step == 8 {
        ShapingAction::ApplyLookups { feature_mask: GsubFeatureMask::RLIG, is_global: true }
    } else if step == 9 {
        ShapingAction::ApplyLookups { feature_mask: GsubFeatureMask::RCLT, is_global: true }
    } else if step == 10 {
        ShapingAction::ApplyLookups { feature_mask: GsubFeatureMask::CALT, is_global: true }
    } else if step == 11 {
        ShapingAction::ApplyLookups { feature_mask: GsubFeatureMask::LIGA, is_global: true }
    } else if step == 12 {
        ShapingAction::ApplyLookups { feature_mask: GsubFeatureMask::MSET, is_global: true }
    } else {
        ShapingAction::Commit
    }
}

/// The stage that follows the `stage` whose action had the outcome
/// `outcome`, and the action to take next.
///
/// An error ends shaping with the error. Where the script or the language
/// system is missing, which the outcome `Ok(false)` of `FindScript` says,
/// shaping ends and leaves the glyphs as they are. Else the steps follow
/// each other.
pub open spec fn spec_gsub_apply_arabic(
    stage: ShapingStage,
    outcome: Result<bool, ParseError>,
) -> (ShapingStage, ShapingAction) {
    match stage {
        ShapingStage::Start => (ShapingStage::FindingScript, ShapingAction::FindScript),
        ShapingStage::Finished => (ShapingStage::Finished, ShapingAction::Leave),
        _ => match outcome {
            Err(e) => (ShapingStage::Finished, ShapingAction::Fail(ShapingError::ParseError(e))),
            Ok(found) => match stage {
                ShapingStage::FindingScript => if found {
                    (ShapingStage::Step(0), spec_shaping_step(0))
                } else {
                    (ShapingStage::Finished, ShapingAction::Leave)
                },
                ShapingStage::Step(step) => if step + 1 < SHAPING_STEPS {
                    (ShapingStage::Step((step + 1) as u8), spec_shaping_step((step + 1) as u8))
                } else {
                    (ShapingStage::Finished, ShapingAction::Leave)
                },
                _ => (ShapingStage::Finished, ShapingAction::Leave),
            },
        },
    }
}

/// Decides what shaping an Arabic run does next.
///
/// `stage` is how far shaping has come, and `outcome` is the outcome of
/// the action that was taken last: whether the script and the language
/// system were found, or that the lookups were applied, or the error that
/// the substitution table gave. The caller takes the action that is
/// returned, and calls again with the stage that is returned, until the
/// action is `Commit`, `Leave` or `Fail`.
pub fn gsub_apply_arabic(stage: ShapingStage, outcome: Result<bool, ParseError>) -> (next: (
    ShapingStage,
    ShapingAction,
))
    ensures
        next == spec_gsub_apply_arabic(stage, outcome),
{
    match stage {
        ShapingStage::Start => (ShapingStage::FindingScript, ShapingAction::FindScript),
        ShapingStage::Finished => (ShapingStage::Finished, ShapingAction::Leave),
        ShapingStage::FindingScript => match outcome {
            Err(e) => (ShapingStage::Finished, ShapingAction::Fail(ShapingError::from(e))),
            Ok(false) => (ShapingStage::Finished, ShapingAction::Leave),
            Ok(true) => (ShapingStage::Step(0), shaping_step(0)),
        },
        ShapingStage::Step(step) => match outcome {
            Err(e) => (ShapingStage::Finished, ShapingAction::Fail(ShapingError::from(e))),
            Ok(_) => {
                if step < SHAPING_STEPS - 1 {
                    (ShapingStage::Step(step + 1), shaping_step(step + 1))
                } else {
                    (ShapingStage::Finished, ShapingAction::Leave)
                }
            },
        },
    }
}

/// The step with the number `step`.
fn shaping_step(step: u8) -> (action: ShapingAction)
    ensures
        action == spec_shaping_step(step),
{
    // 1. Compound character composition and decomposition
    // 2. Computing letter joining states
    // 3. Applying the stch feature is held off
    // 4. Applying the language-form substitution features from GSUB
    // 5. Applying the typographic-form substitution features from GSUB
    // 6. Mark reordering is not done, as results would then differ from other Arabic shapers
    if step == 0 {
        ShapingAction::Prepare
    } else if step == 1 {
        ShapingAction::ApplyLookups { feature_mask: GsubFeatureMask::CCMP, is_global: true }
    } else if step == 2 {
        ShapingAction::ComputeJoiningStates
    } else if step == 3 {
        ShapingAction::ApplyLookups { feature_mask: GsubFeatureMask::LOCL, is_global: true }
    } else if step == 4 {
        ShapingAction::ApplyLookups { feature_mask: GsubFeatureMask::ISOL, is_global: false }
    } else if step == 5 {
        ShapingAction::ApplyLookups { feature_mask: GsubFeatureMask::FINA, is_global: false }
    } else if step == 6 {
        ShapingAction::ApplyLookups { feature_mask: GsubFeatureMask::MEDI, is_global: false }
    } else if step == 7 {
        ShapingAction::ApplyLookups { feature_mask: GsubFeatureMask::INIT, is_global: false }
    } else if step == 8 {
        ShapingAction::ApplyLookups { feature_mask: GsubFeatureMask::RLIG, is_global: true }
    } else if step == 9 {
        ShapingAction::ApplyLookups { feature_mask: GsubFeatureMask::RCLT, is_global: true }
    } else if step == 10 {
        ShapingAction::ApplyLookups { feature_mask: GsubFeatureMask::CALT, is_global: true }
    } else if step == 11 {
        ShapingAction::ApplyLookups { feature_mask: GsubFeatureMask::LIGA, is_global: true }
    } else if step == 12 {
        ShapingAction::ApplyLookups { feature_mask: GsubFeatureMask::MSET, is_global: true }
    } else {
        ShapingAction::Commit
    }
}

/// Turns the glyphs of a run into Arabic glyphs, each in its isolated form.
pub fn arabic_glyphs_from(raw_glyphs: &Vec<RawGlyph<()>>) -> (arabic_glyphs: Vec<ArabicGlyph>)
    ensures
        arabic_glyphs@.len() == raw_glyphs@.len(),
        forall|i: int|
            0 <= i < raw_glyphs@.len() ==> same_glyph(
                #[trigger] arabic_glyphs@[i],
                spec_arabic_glyph(
                    raw_glyphs@[i],
                    spec_origin_joining_type(raw_glyphs@[i].glyph_origin),
                ),
            ),
{
    let mut arabic_glyphs: Vec<ArabicGlyph> = Vec::new();
    let mut i: usize = 0;
    while i < raw_glyphs.len()
        invariant
            i <= raw_glyphs@.len(),
            arabic_glyphs@.len() == i,
            forall|k: int|
                0 <= k < i ==> same_glyph(
                    #[trigger] arabic_glyphs@[k],
                    spec_arabic_glyph(
                        raw_glyphs@[k],
                        spec_origin_joining_type(raw_glyphs@[k].glyph_origin),
                    ),
                ),
        decreases raw_glyphs@.len() - i,
    {
        arabic_glyphs.push(ArabicGlyph::from_raw(&raw_glyphs[i]));
        i = i + 1;
    }
    arabic_glyphs
}

/// Turns the Arabic glyphs of a run back into glyphs without the data of
/// the shaper.
pub fn raw_glyphs_from(arabic_glyphs: &Vec<ArabicGlyph>) -> (raw_glyphs: Vec<RawGlyph<()>>)
    ensures
        raw_glyphs@.len() == arabic_glyphs@.len(),
        forall|i: int|
            0 <= i < arabic_glyphs@.len() ==> same_glyph(
                #[trigger] raw_glyphs@[i],
                spec_raw_glyph(arabic_glyphs@[i]),
            ),
{
    let mut raw_glyphs: Vec<RawGlyph<()>> = Vec::new();
    let mut i: usize = 0;
    while i < arabic_glyphs.len()
        invariant
            i <= arabic_glyphs@.len(),
            raw_glyphs@.len() == i,
            forall|k: int|
                0 <= k < i ==> same_glyph(
                    #[trigger] raw_glyphs@[k],
                    spec_raw_glyph(arabic_glyphs@[k]),
                ),
        decreases arabic_glyphs@.len() - i,
    {
        raw_glyphs.push(arabic_glyphs[i].to_raw());
        i = i + 1;
    }
    raw_glyphs
}

} // verus!
