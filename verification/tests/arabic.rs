use allsorts::error::{ParseError, ShapingError};
use allsorts::gsub::{GlyphData, GlyphOrigin, GsubFeatureMask, RawGlyph};
use allsorts::scripts::arabic::JoiningType::{
    DualJoining, JoinCausing, LeftJoining, NonJoining, RightJoining, Transparent,
};
use allsorts::scripts::arabic::{
    arabic_glyphs_from, compute_joining_states, gsub_apply_arabic, lookup_applies,
    raw_glyphs_from, ArabicData, ArabicGlyph, JoiningType, ShapingAction, ShapingStage,
};
use allsorts::tag;

fn raw(c: char) -> RawGlyph<()> {
    RawGlyph {
        unicodes: vec![c],
        glyph_index: c as u32 as u16,
        liga_component_pos: 0,
        glyph_origin: GlyphOrigin::Char(c),
        small_caps: false,
        multi_subst_dup: false,
        is_vert_alt: false,
        fake_bold: false,
        fake_italic: false,
        variation: None,
        extra_data: (),
    }
}

fn glyph(joining_type: JoiningType) -> ArabicGlyph {
    ArabicGlyph::with_joining_type(&raw('x'), joining_type)
}

fn tags(glyphs: &[ArabicGlyph]) -> Vec<u32> {
    glyphs.iter().map(|g| g.feature_tag()).collect()
}

fn joined(types: &[JoiningType]) -> Vec<u32> {
    let mut glyphs: Vec<ArabicGlyph> = types.iter().map(|t| glyph(*t)).collect();
    compute_joining_states(&mut glyphs);
    tags(&glyphs)
}

const BEH: char = '\u{0628}';
const ALEF: char = '\u{0627}';
const FATHATAN: char = '\u{064B}';
const TATWEEL: char = '\u{0640}';

#[test]
fn joining_types_come_from_unicode() {
    let joining_type = |c: char| ArabicGlyph::from_raw(&raw(c)).extra_data.joining_type;
    assert_eq!(joining_type(BEH), JoiningType::DualJoining);
    assert_eq!(joining_type(ALEF), JoiningType::RightJoining);
    assert_eq!(joining_type(FATHATAN), JoiningType::Transparent);
    assert_eq!(joining_type(TATWEEL), JoiningType::JoinCausing);
    assert_eq!(joining_type('a'), JoiningType::NonJoining);
    assert_eq!(joining_type('\u{10ACD}'), JoiningType::LeftJoining);
    // A glyph that stands for no character does not join.
    let mut direct = raw(BEH);
    direct.glyph_origin = GlyphOrigin::Direct;
    assert_eq!(ArabicGlyph::from_raw(&direct).extra_data.joining_type, JoiningType::NonJoining);
}

#[test]
fn arabic_glyphs_start_isolated_and_convert_back() {
    let mut run = vec![raw(BEH), raw(FATHATAN), raw(ALEF)];
    run[1].multi_subst_dup = true;
    run[2].liga_component_pos = 3;
    let arabic = arabic_glyphs_from(&run);
    assert_eq!(tags(&arabic), vec![tag::ISOL; 3]);
    assert_eq!(arabic[2].liga_component_pos, 3);
    assert_eq!(arabic[0].unicodes, vec![BEH]);
    assert_eq!(raw_glyphs_from(&arabic), run);
    assert_eq!(arabic[1].to_raw(), run[1]);
}

#[test]
fn three_dual_joining_letters() {
    let mut glyphs = arabic_glyphs_from(&[raw(BEH), raw(BEH), raw(BEH)].to_vec());
    compute_joining_states(&mut glyphs);
    assert_eq!(tags(&glyphs), vec![tag::INIT, tag::MEDI, tag::FINA]);
}

#[test]
fn leading_transparent_mark_changes_nothing() {
    let mut glyphs = arabic_glyphs_from(&[raw(FATHATAN), raw(BEH), raw(BEH), raw(BEH)].to_vec());
    compute_joining_states(&mut glyphs);
    assert_eq!(tags(&glyphs), vec![tag::ISOL, tag::INIT, tag::MEDI, tag::FINA]);
    // Marks between the letters are passed over too.
    let mut glyphs = arabic_glyphs_from(
        &[raw(BEH), raw(FATHATAN), raw(FATHATAN), raw(BEH), raw(FATHATAN), raw(BEH)].to_vec(),
    );
    compute_joining_states(&mut glyphs);
    assert_eq!(
        tags(&glyphs),
        vec![tag::INIT, tag::ISOL, tag::ISOL, tag::MEDI, tag::ISOL, tag::FINA]
    );
}

#[test]
fn joining_states() {
    let (isol, init, medi, fina) = (tag::ISOL, tag::INIT, tag::MEDI, tag::FINA);
    assert_eq!(joined(&[]), Vec::<u32>::new());
    assert_eq!(joined(&[DualJoining]), vec![isol]);
    assert_eq!(joined(&[Transparent, Transparent]), vec![isol, isol]);
    assert_eq!(joined(&[DualJoining, RightJoining]), vec![init, fina]);
    // A right-joining letter does not join what follows it.
    assert_eq!(joined(&[RightJoining, DualJoining]), vec![isol, isol]);
    assert_eq!(joined(&[DualJoining, RightJoining, DualJoining]), vec![init, fina, isol]);
    assert_eq!(joined(&[LeftJoining, DualJoining, NonJoining]), vec![init, fina, isol]);
    assert_eq!(joined(&[DualJoining, NonJoining, DualJoining]), vec![isol, isol, isol]);
    assert_eq!(joined(&[DualJoining, JoinCausing, DualJoining]), vec![init, medi, fina]);
    assert_eq!(joined(&[DualJoining, LeftJoining]), vec![isol, isol]);
    assert_eq!(
        joined(&[DualJoining, DualJoining, Transparent, RightJoining, DualJoining, DualJoining]),
        vec![init, medi, isol, fina, init, fina]
    );
}

#[test]
fn duplicates_of_a_substitution_are_passed_over() {
    let mut glyphs =
        vec![glyph(JoiningType::DualJoining), glyph(JoiningType::NonJoining), glyph(JoiningType::DualJoining)];
    glyphs[1].multi_subst_dup = true;
    assert!(glyphs[1].is_transparent());
    assert!(!glyphs[0].is_transparent());
    compute_joining_states(&mut glyphs);
    assert_eq!(tags(&glyphs), vec![tag::INIT, tag::ISOL, tag::FINA]);
}

#[test]
fn final_and_medial_forms_follow_a_left_joining_glyph() {
    let all = [DualJoining, JoinCausing, LeftJoining, NonJoining, RightJoining, Transparent];
    for &a in &all {
        for &b in &all {
            for &c in &all {
                for &d in &all {
                    let types = [a, b, c, d];
                    let mut glyphs: Vec<ArabicGlyph> = types.iter().map(|t| glyph(*t)).collect();
                    compute_joining_states(&mut glyphs);
                    for i in 0..4 {
                        let t = glyphs[i].feature_tag();
                        assert!([tag::ISOL, tag::INIT, tag::MEDI, tag::FINA].contains(&t));
                        if t == tag::MEDI || t == tag::FINA {
                            let previous =
                                (0..i).rev().find(|&j| !glyphs[j].is_transparent()).unwrap();
                            assert!(glyphs[previous].is_left_joining());
                            assert!(glyphs[i].is_right_joining());
                            assert!(!glyphs[i].is_transparent());
                        }
                        assert_eq!(glyphs[i].extra_data.joining_type, types[i]);
                    }
                }
            }
        }
    }
}

#[test]
fn feature_tags_can_be_set() {
    let mut g = glyph(JoiningType::DualJoining);
    assert_eq!(g.feature_tag(), tag::ISOL);
    g.set_feature_tag(tag::MEDI);
    assert_eq!(g.feature_tag(), tag::MEDI);
    assert_eq!(g.extra_data.joining_type, JoiningType::DualJoining);
    assert!(lookup_applies(&g, tag::MEDI, false));
    assert!(!lookup_applies(&g, tag::FINA, false));
    assert!(lookup_applies(&g, tag::FINA, true));
    let merged = ArabicData::merge(
        g.extra_data,
        ArabicData { joining_type: JoiningType::NonJoining, feature_tag: tag::ISOL },
    );
    assert_eq!(merged, g.extra_data);
}

#[test]
fn tags_are_four_characters() {
    assert_eq!(tag::ISOL, u32::from_be_bytes(*b"isol"));
    assert_eq!(tag::INIT, u32::from_be_bytes(*b"init"));
    assert_eq!(tag::MEDI, u32::from_be_bytes(*b"medi"));
    assert_eq!(tag::FINA, u32::from_be_bytes(*b"fina"));
    assert_eq!(tag::CCMP, u32::from_be_bytes(*b"ccmp"));
    assert_eq!(tag::LOCL, u32::from_be_bytes(*b"locl"));
    assert_eq!(tag::RLIG, u32::from_be_bytes(*b"rlig"));
    assert_eq!(tag::RCLT, u32::from_be_bytes(*b"rclt"));
    assert_eq!(tag::CALT, u32::from_be_bytes(*b"calt"));
    assert_eq!(tag::LIGA, u32::from_be_bytes(*b"liga"));
    assert_eq!(tag::MSET, u32::from_be_bytes(*b"mset"));
    assert_eq!(tag::from_bytes(b'i', b's', b'o', b'l'), tag::ISOL);
    assert_eq!(GsubFeatureMask::FINA.tag(), tag::FINA);
    assert_eq!(GsubFeatureMask::MSET.tag(), tag::MSET);
}

#[test]
fn shaping_takes_its_steps_in_order() {
    let mut actions = Vec::new();
    let (mut stage, mut action) = gsub_apply_arabic(ShapingStage::Start, Ok(true));
    loop {
        actions.push(action);
        if matches!(action, ShapingAction::Commit | ShapingAction::Leave | ShapingAction::Fail(_)) {
            break;
        }
        let next = gsub_apply_arabic(stage, Ok(true));
        stage = next.0;
        action = next.1;
    }
    let lookups = |feature_mask, is_global| ShapingAction::ApplyLookups { feature_mask, is_global };
    assert_eq!(
        actions,
        vec![
            ShapingAction::FindScript,
            ShapingAction::Prepare,
            lookups(GsubFeatureMask::CCMP, true),
            ShapingAction::ComputeJoiningStates,
            lookups(GsubFeatureMask::LOCL, true),
            lookups(GsubFeatureMask::ISOL, false),
            lookups(GsubFeatureMask::FINA, false),
            lookups(GsubFeatureMask::MEDI, false),
            lookups(GsubFeatureMask::INIT, false),
            lookups(GsubFeatureMask::RLIG, true),
            lookups(GsubFeatureMask::RCLT, true),
            lookups(GsubFeatureMask::CALT, true),
            lookups(GsubFeatureMask::LIGA, true),
            lookups(GsubFeatureMask::MSET, true),
            ShapingAction::Commit,
        ]
    );
    // Behind the last step there is nothing left to do.
    assert_eq!(gsub_apply_arabic(stage, Ok(true)), (ShapingStage::Finished, ShapingAction::Leave));
    assert_eq!(
        gsub_apply_arabic(ShapingStage::Finished, Ok(true)),
        (ShapingStage::Finished, ShapingAction::Leave)
    );
}

#[test]
fn shaping_ends_early() {
    // Without the script or the language system the glyphs are left alone.
    assert_eq!(
        gsub_apply_arabic(ShapingStage::FindingScript, Ok(false)),
        (ShapingStage::Finished, ShapingAction::Leave)
    );
    // An error of the substitution table ends shaping.
    let failed = ShapingAction::Fail(ShapingError::ParseError(ParseError::BadOffset));
    assert_eq!(
        gsub_apply_arabic(ShapingStage::FindingScript, Err(ParseError::BadOffset)),
        (ShapingStage::Finished, failed)
    );
    for step in 0..14 {
        assert_eq!(
            gsub_apply_arabic(ShapingStage::Step(step), Err(ParseError::BadOffset)),
            (ShapingStage::Finished, failed)
        );
    }
    assert_eq!(ShapingError::from(ParseError::BadEof), ShapingError::ParseError(ParseError::BadEof));
}
