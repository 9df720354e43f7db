use allsorts::binary::ReadScope;
use allsorts::cff::charstring::{
    calc_subroutine_bias, char_string_used_subrs, conv_subroutine_index,
    conv_subroutine_index_impl, parse_fixed, parse_int1, parse_int2, parse_int3, ArgumentsStack,
    IsEven, Operand, TryNumFrom, UsedSubrs, MAX_ARGUMENTS_STACK_LEN,
};
use allsorts::cff::{
    CFFError, CFFFont, CFFVariant, CIDData, Cff2Font, FDSelect, Font, ObjectIndex, Type1Data,
};
use allsorts::error::ParseError;

/// The bytes of the integer `n` as a CharString operand.
fn num(n: i32) -> Vec<u8> {
    if (-107..=107).contains(&n) {
        vec![(n + 139) as u8]
    } else if (108..=1131).contains(&n) {
        let v = n - 108;
        vec![(v / 256 + 247) as u8, (v % 256) as u8]
    } else if (-1131..=-108).contains(&n) {
        let v = -n - 108;
        vec![(v / 256 + 251) as u8, (v % 256) as u8]
    } else {
        vec![28, (n >> 8) as u8, n as u8]
    }
}

fn code(parts: &[&dyn AsRef<[u8]>]) -> Vec<u8> {
    parts.iter().flat_map(|part| part.as_ref().iter().copied()).collect()
}

fn index(objects: &[&dyn AsRef<[u8]>]) -> ObjectIndex {
    ObjectIndex::new(objects.iter().map(|object| object.as_ref().to_vec()).collect())
}

fn type1(local: Option<ObjectIndex>) -> Font {
    Font { seac_glyphs: Vec::new(), data: CFFVariant::Type1(Type1Data { local_subr_index: local }) }
}

fn sorted(set: &rustc_hash::FxHashSet<usize>) -> Vec<usize> {
    let mut v: Vec<usize> = set.iter().copied().collect();
    v.sort();
    v
}

fn used(result: Result<UsedSubrs, CFFError>) -> (Vec<usize>, Vec<usize>) {
    let used = result.unwrap();
    (sorted(&used.global_subr_used), sorted(&used.local_subr_used))
}

const ENDCHAR: u8 = 14;
const CALLSUBR: u8 = 10;
const CALLGSUBR: u8 = 29;
const RETURN: u8 = 11;
const HSTEM: u8 = 1;
const RMOVETO: u8 = 21;
const HINTMASK: u8 = 19;
const VSINDEX: u8 = 15;
const BLEND: u8 = 16;

#[test]
fn read_cff2() {
    // A CFF2 font whose glyph 1 calls one global subroutine, which blends.
    let font = Cff2Font { local_subr_index: None };
    let global_subr_index = index(&[
        &[RETURN],
        &code(&[&num(100), &num(30), &num(1), &[BLEND], &[22]]),
        &[RETURN],
    ]);
    let char_strings_index = index(&[&[0u8; 0], &code(&[&num(1 - 107), &[CALLGSUBR]])]);

    let glyph_id = 1;
    let char_string = char_strings_index.read_object(usize::from(glyph_id)).unwrap();

    let res = char_string_used_subrs(
        CFFFont::CFF2(&font),
        &char_strings_index,
        &global_subr_index,
        char_string,
        glyph_id,
    );
    assert!(res.is_ok());
    let (global, local) = used(res);
    assert_eq!(global, vec![1]);
    assert_eq!(local, Vec::<usize>::new());
}

#[test]
fn cff1_needs_endchar() {
    let font = type1(None);
    let empty = index(&[]);
    let run = |cs: &[u8]| {
        char_string_used_subrs(CFFFont::CFF(&font), &empty, &empty, cs, 0).map(|_| ())
    };
    assert_eq!(run(&[ENDCHAR]), Ok(()));
    assert_eq!(run(&code(&[&num(500), &[ENDCHAR]])), Ok(()));
    assert_eq!(run(&[]), Err(CFFError::MissingEndChar));
    assert_eq!(run(&code(&[&num(1), &num(2), &[RMOVETO]])), Err(CFFError::MissingEndChar));
    assert_eq!(run(&[RETURN, ENDCHAR]), Err(CFFError::MissingEndChar));
    assert_eq!(run(&[ENDCHAR, ENDCHAR]), Err(CFFError::DataAfterEndChar));
    assert_eq!(run(&[ENDCHAR, 0]), Err(CFFError::DataAfterEndChar));
}

#[test]
fn cff2_has_no_endchar_and_no_return() {
    let font = Cff2Font { local_subr_index: None };
    let empty = index(&[]);
    let run = |cs: &[u8]| {
        char_string_used_subrs(CFFFont::CFF2(&font), &empty, &empty, cs, 0).map(|_| ())
    };
    assert_eq!(run(&[]), Ok(()));
    assert_eq!(run(&code(&[&num(1), &num(2), &[RMOVETO]])), Ok(()));
    assert_eq!(run(&[ENDCHAR]), Err(CFFError::InvalidOperator));
    assert_eq!(run(&[RETURN]), Err(CFFError::InvalidOperator));
}

#[test]
fn vsindex_and_blend() {
    let cff2 = Cff2Font { local_subr_index: None };
    let cff1 = type1(None);
    let empty = index(&[]);
    let run2 = |cs: &[u8]| {
        char_string_used_subrs(CFFFont::CFF2(&cff2), &empty, &empty, cs, 0).map(|_| ())
    };
    let run1 = |cs: &[u8]| {
        char_string_used_subrs(CFFFont::CFF(&cff1), &empty, &empty, cs, 0).map(|_| ())
    };
    let blend = code(&[&num(10), &num(3), &num(1), &[BLEND]]);
    assert_eq!(run2(&code(&[&num(0), &[VSINDEX], &blend])), Ok(()));
    assert_eq!(run2(&blend), Ok(()));
    // `vsindex` must come once, and before any `blend`.
    assert_eq!(
        run2(&code(&[&num(0), &[VSINDEX], &num(1), &[VSINDEX]])),
        Err(CFFError::DuplicateVsIndex)
    );
    assert_eq!(run2(&code(&[&blend, &num(0), &[VSINDEX]])), Err(CFFError::DuplicateVsIndex));
    // `blend` takes its count from the top of the stack.
    assert_eq!(run2(&[BLEND]), Err(CFFError::InvalidArgumentsStackLength));
    assert_eq!(run2(&code(&[&num(2), &[BLEND]])), Err(CFFError::InvalidArgumentsStackLength));
    assert_eq!(run2(&code(&[&num(-1), &[BLEND]])), Err(CFFError::InvalidArgumentsStackLength));
    assert_eq!(run2(&code(&[&num(0), &[BLEND]])), Ok(()));
    // Both are operators of CFF2 alone.
    assert_eq!(run1(&code(&[&num(0), &[VSINDEX]])), Err(CFFError::InvalidOperator));
    assert_eq!(run1(&blend), Err(CFFError::InvalidOperator));
}

#[test]
fn blend_leaves_the_default_values() {
    // Of six values, `blend` with a count of two leaves the first two, so
    // that 48 values fit on the stack again.
    let cff2 = Cff2Font { local_subr_index: None };
    let empty = index(&[]);
    let mut cs = Vec::new();
    for i in 0..5 {
        cs.extend(num(i));
    }
    cs.extend(num(2));
    cs.push(BLEND);
    for i in 0..46 {
        cs.extend(num(i));
    }
    assert!(char_string_used_subrs(CFFFont::CFF2(&cff2), &empty, &empty, &cs, 0).is_ok());
    cs.extend(num(0));
    assert_eq!(
        char_string_used_subrs(CFFFont::CFF2(&cff2), &empty, &empty, &cs, 0).err(),
        Some(CFFError::ArgumentsStackLimitReached)
    );
}

#[test]
fn operators() {
    let font = type1(None);
    let empty = index(&[]);
    let run = |cs: &[u8]| {
        char_string_used_subrs(CFFFont::CFF(&font), &empty, &empty, cs, 0).map(|_| ())
    };
    for reserved in [0u8, 2, 9, 13, 17] {
        assert_eq!(run(&[reserved, ENDCHAR]), Err(CFFError::InvalidOperator));
    }
    for flex in [34u8, 35, 36, 37] {
        assert_eq!(run(&[12, flex, ENDCHAR]), Ok(()));
    }
    assert_eq!(run(&[12, 33, ENDCHAR]), Err(CFFError::UnsupportedOperator));
    assert_eq!(run(&[12, 38, ENDCHAR]), Err(CFFError::UnsupportedOperator));
    assert_eq!(run(&[12]), Err(CFFError::ParseError(ParseError::BadEof)));
    for path in [5u8, 6, 7, 8, 24, 25, 26, 27, 30, 31, 4, 21, 22, 1, 3, 18, 23] {
        assert_eq!(run(&code(&[&num(1), &num(2), &[path, ENDCHAR]])), Ok(()));
    }
    // Numbers that end early.
    assert_eq!(run(&[28, 0]), Err(CFFError::ParseError(ParseError::BadEof)));
    assert_eq!(run(&[247]), Err(CFFError::ParseError(ParseError::BadEof)));
    assert_eq!(run(&[254]), Err(CFFError::ParseError(ParseError::BadEof)));
    assert_eq!(run(&[255, 0, 0, 0]), Err(CFFError::ParseError(ParseError::BadEof)));
    assert_eq!(run(&[255, 0, 1, 0, 0, ENDCHAR]), Ok(()));
}

#[test]
fn arguments_stack_holds_48_values() {
    let font = type1(None);
    let empty = index(&[]);
    let mut cs = Vec::new();
    for _ in 0..48 {
        cs.extend(num(7));
    }
    cs.push(RMOVETO);
    cs.push(ENDCHAR);
    assert!(char_string_used_subrs(CFFFont::CFF(&font), &empty, &empty, &cs, 0).is_ok());
    cs.insert(0, 139);
    assert_eq!(
        char_string_used_subrs(CFFFont::CFF(&font), &empty, &empty, &cs, 0).err(),
        Some(CFFError::ArgumentsStackLimitReached)
    );
    assert_eq!(MAX_ARGUMENTS_STACK_LEN, 48);
}

#[test]
fn hint_mask_skips_one_bit_for_each_stem() {
    let font = type1(None);
    let empty = index(&[]);
    let run = |cs: &[u8]| {
        char_string_used_subrs(CFFFont::CFF(&font), &empty, &empty, cs, 0).map(|_| ())
    };
    // Two stems from `hstem` and seven from the mask itself: nine bits, two bytes.
    let mut cs = code(&[&num(1), &num(2), &num(3), &num(4), &[HSTEM]]);
    for i in 0..14 {
        cs.extend(num(i));
    }
    cs.push(HINTMASK);
    let stems = cs.clone();
    cs.extend_from_slice(&[0, 0, ENDCHAR]);
    assert_eq!(run(&cs), Ok(()));
    // The bytes of the mask are no operators: the first of them is reserved.
    let mut one_byte = stems.clone();
    one_byte.extend_from_slice(&[0]);
    assert_eq!(run(&one_byte), Err(CFFError::ParseError(ParseError::BadOffset)));
    // With a width before the stems the count stays the same.
    let mut with_width = num(500);
    with_width.extend_from_slice(&cs);
    assert_eq!(run(&with_width), Ok(()));
    // Eight stems need one byte.
    let mut cs = Vec::new();
    for i in 0..16 {
        cs.extend(num(i));
    }
    cs.extend_from_slice(&[HINTMASK, 0xFF, ENDCHAR]);
    assert_eq!(run(&cs), Ok(()));
}

#[test]
fn local_and_global_subroutines() {
    // Three local subroutines: the bias is 107.
    let local = index(&[
        &[RETURN],
        &code(&[&num(2 - 107), &[CALLSUBR]]),
        &code(&[&num(0 - 107), &[CALLGSUBR]]),
    ]);
    let global = index(&[&[ENDCHAR]]);
    let font = type1(Some(local));
    let char_strings = index(&[]);
    let cs = code(&[&num(1 - 107), &[CALLSUBR]]);
    let (g, l) = used(char_string_used_subrs(CFFFont::CFF(&font), &char_strings, &global, &cs, 0));
    assert_eq!(g, vec![0]);
    assert_eq!(l, vec![1, 2]);

    // After `endchar` in a subroutine nothing may follow the call.
    let cs = code(&[&num(1 - 107), &[CALLSUBR], &num(1)]);
    assert_eq!(
        char_string_used_subrs(CFFFont::CFF(&font), &char_strings, &global, &cs, 0).err(),
        Some(CFFError::DataAfterEndChar)
    );
    // A subroutine that returns lets the CharString go on.
    let cs = code(&[&num(0 - 107), &[CALLSUBR], &num(0 - 107), &[CALLSUBR, ENDCHAR]]);
    let (g, l) = used(char_string_used_subrs(CFFFont::CFF(&font), &char_strings, &global, &cs, 0));
    assert_eq!((g, l), (vec![], vec![0]));
}

#[test]
fn subroutine_errors() {
    let local = index(&[&[RETURN]]);
    let font = type1(Some(local));
    let no_local = type1(None);
    let empty = index(&[]);
    let run = |font: &Font, cs: &[u8]| {
        char_string_used_subrs(CFFFont::CFF(font), &empty, &empty, cs, 0).map(|_| ())
    };
    assert_eq!(run(&font, &[CALLSUBR]), Err(CFFError::InvalidArgumentsStackLength));
    assert_eq!(run(&font, &[CALLGSUBR]), Err(CFFError::InvalidArgumentsStackLength));
    assert_eq!(
        run(&no_local, &code(&[&num(-107), &[CALLSUBR]])),
        Err(CFFError::NoLocalSubroutines)
    );
    // The subroutine 1 is not there, and neither is the subroutine -1.
    assert_eq!(
        run(&font, &code(&[&num(-106), &[CALLSUBR]])),
        Err(CFFError::InvalidSubroutineIndex)
    );
    assert_eq!(
        run(&font, &code(&[&num(-108), &[CALLSUBR]])),
        Err(CFFError::InvalidSubroutineIndex)
    );
    assert_eq!(
        run(&font, &code(&[&num(-107), &[CALLGSUBR]])),
        Err(CFFError::InvalidSubroutineIndex)
    );
}

#[test]
fn nesting_limit() {
    // The subroutine 0 calls itself.
    let local = index(&[&code(&[&num(-107), &[CALLSUBR]])]);
    let font = type1(Some(local));
    let empty = index(&[]);
    assert_eq!(
        char_string_used_subrs(
            CFFFont::CFF(&font),
            &empty,
            &empty,
            &code(&[&num(-107), &[CALLSUBR]]),
            0
        )
        .err(),
        Some(CFFError::NestingLimitReached)
    );

    // Ten levels of calls are fine: the subroutine k calls the subroutine k + 1.
    let mut subrs: Vec<Vec<u8>> = Vec::new();
    for k in 0..10 {
        if k < 9 {
            subrs.push(code(&[&num(k + 1 - 107), &[CALLSUBR]]));
        } else {
            subrs.push(vec![ENDCHAR]);
        }
    }
    let font = type1(Some(ObjectIndex::new(subrs.clone())));
    let cs = code(&[&num(-107), &[CALLSUBR]]);
    let (_, l) = used(char_string_used_subrs(CFFFont::CFF(&font), &empty, &empty, &cs, 0));
    assert_eq!(l, (0..10).collect::<Vec<usize>>());

    // An eleventh level is one too many.
    subrs[9] = code(&[&num(10 - 107), &[CALLSUBR]]);
    subrs.push(vec![ENDCHAR]);
    let font = type1(Some(ObjectIndex::new(subrs)));
    assert_eq!(
        char_string_used_subrs(CFFFont::CFF(&font), &empty, &empty, &cs, 0).err(),
        Some(CFFError::NestingLimitReached)
    );
}

#[test]
fn cid_font_selects_local_subroutines_by_glyph() {
    let cid = CIDData {
        fd_select: FDSelect { font_dicts: vec![0, 1, 2, 7] },
        local_subr_indices: vec![
            Some(index(&[&[RETURN]])),
            None,
            Some(index(&[&[RETURN], &[ENDCHAR]])),
        ],
    };
    let font = Font { seac_glyphs: Vec::new(), data: CFFVariant::CID(cid) };
    let empty = index(&[]);
    let cs = code(&[&num(1 - 107), &[CALLSUBR]]);
    let run = |glyph_id: u16| {
        char_string_used_subrs(CFFFont::CFF(&font), &empty, &empty, &cs, glyph_id)
            .map(|used| sorted(&used.local_subr_used))
    };
    assert_eq!(run(2), Ok(vec![1]));
    // The font dictionary of glyph 0 has one subroutine only.
    assert_eq!(run(0), Err(CFFError::InvalidSubroutineIndex));
    // That of glyph 1 has none, and those of glyphs 3 and 4 do not exist.
    assert_eq!(run(1), Err(CFFError::NoLocalSubroutines));
    assert_eq!(run(3), Err(CFFError::NoLocalSubroutines));
    assert_eq!(run(4), Err(CFFError::NoLocalSubroutines));
}

#[test]
fn seac() {
    // The codes 65 and 66 stand for the glyphs 1 and 2.
    let mut seac_glyphs = vec![None; 256];
    seac_glyphs[65] = Some(1u16);
    seac_glyphs[66] = Some(2u16);
    seac_glyphs[67] = Some(9u16);
    let local = index(&[&[RETURN], &[RETURN]]);
    let font = Font {
        seac_glyphs,
        data: CFFVariant::Type1(Type1Data { local_subr_index: Some(local) }),
    };
    let empty = index(&[]);
    let char_strings = index(&[
        &[ENDCHAR],
        &code(&[&num(0 - 107), &[CALLSUBR, ENDCHAR]]),
        &code(&[&num(1 - 107), &[CALLSUBR, ENDCHAR]]),
    ]);
    let run = |cs: &[u8]| {
        char_string_used_subrs(CFFFont::CFF(&font), &char_strings, &empty, cs, 0)
            .map(|used| sorted(&used.local_subr_used))
    };
    // dx, dy, base and accent.
    let seac = code(&[&num(10), &num(20), &num(65), &num(66), &[ENDCHAR]]);
    assert_eq!(run(&seac), Ok(vec![0, 1]));
    // With the width before them.
    let seac_width = code(&[&num(600), &num(10), &num(20), &num(65), &num(66), &[ENDCHAR]]);
    assert_eq!(run(&seac_width), Ok(vec![0, 1]));
    // A code that stands for no glyph, and one whose glyph has no CharString.
    let bad = code(&[&num(10), &num(20), &num(65), &num(64), &[ENDCHAR]]);
    assert_eq!(run(&bad), Err(CFFError::InvalidSeacCode));
    let bad = code(&[&num(10), &num(20), &num(300), &num(66), &[ENDCHAR]]);
    assert_eq!(run(&bad), Err(CFFError::InvalidSeacCode));
    let bad = code(&[&num(10), &num(20), &num(67), &num(66), &[ENDCHAR]]);
    assert_eq!(run(&bad), Err(CFFError::InvalidSeacCode));
    let bad = code(&[&num(10), &num(20), &num(65), &num(67), &[ENDCHAR]]);
    assert_eq!(run(&bad), Err(CFFError::InvalidSeacCode));
    // Nothing may follow.
    let mut trailing = seac.clone();
    trailing.push(ENDCHAR);
    assert_eq!(run(&trailing), Err(CFFError::DataAfterEndChar));
    assert_eq!(font.seac_code_to_glyph_id(Operand::Int(65)), Some(1));
    assert_eq!(font.seac_code_to_glyph_id(Operand::Int(-1)), None);
}

#[test]
fn seac_that_refers_to_itself_reaches_the_nesting_limit() {
    let mut seac_glyphs = vec![None; 256];
    seac_glyphs[65] = Some(0u16);
    let font = Font { seac_glyphs, data: CFFVariant::Type1(Type1Data { local_subr_index: None }) };
    let empty = index(&[]);
    let seac = code(&[&num(0), &num(0), &num(65), &num(65), &[ENDCHAR]]);
    let char_strings = index(&[&seac]);
    assert_eq!(
        char_string_used_subrs(CFFFont::CFF(&font), &char_strings, &empty, &seac, 0).err(),
        Some(CFFError::NestingLimitReached)
    );
}

#[test]
fn used_subroutines_are_in_range_and_round_trip() {
    // 1240 subroutines have the bias 1131.
    let mut subrs: Vec<Vec<u8>> = vec![vec![RETURN]; 1240];
    subrs[1239] = vec![ENDCHAR];
    let global = ObjectIndex::new(subrs);
    assert_eq!(global.len(), 1240);
    let font = type1(None);
    let empty = index(&[]);
    let cs = code(&[&num(-1131), &[CALLGSUBR], &num(0), &[CALLGSUBR], &num(108), &[CALLGSUBR]]);
    let u = char_string_used_subrs(CFFFont::CFF(&font), &empty, &global, &cs, 0).unwrap();
    assert_eq!(sorted(&u.global_subr_used), vec![0, 1131, 1239]);
    let bias = calc_subroutine_bias(global.len());
    for &i in u.global_subr_used.iter() {
        assert!(i < global.len());
        let operand = Operand::Int((i as i32 - bias as i32) as i16);
        assert_eq!(conv_subroutine_index(operand, bias), Ok(i));
    }
}

#[test]
fn subroutine_bias() {
    assert_eq!(calc_subroutine_bias(0), 107);
    assert_eq!(calc_subroutine_bias(1239), 107);
    assert_eq!(calc_subroutine_bias(1240), 1131);
    assert_eq!(calc_subroutine_bias(33899), 1131);
    assert_eq!(calc_subroutine_bias(33900), 32768);
    assert_eq!(conv_subroutine_index(Operand::Int(-107), 107), Ok(0));
    assert_eq!(conv_subroutine_index(Operand::Int(5), 1131), Ok(1136));
    assert_eq!(conv_subroutine_index(Operand::Int(-108), 107), Err(CFFError::InvalidSubroutineIndex));
    assert_eq!(conv_subroutine_index_impl(Operand::Int(-32768), 32768), Some(0));
    assert_eq!(conv_subroutine_index_impl(Operand::Int(-32768), 32767), None);
    // A fixed-point operand counts by its integer part.
    assert_eq!(conv_subroutine_index_impl(Operand::Fixed(0x0002_8000), 107), Some(109));
    assert_eq!(conv_subroutine_index_impl(Operand::Fixed(-0x006B_0000), 107), Some(0));
}

#[test]
fn numbers() {
    assert_eq!(parse_int1(32), Ok(Operand::Int(-107)));
    assert_eq!(parse_int1(139), Ok(Operand::Int(0)));
    assert_eq!(parse_int1(246), Ok(Operand::Int(107)));

    let mut s = ReadScope::new(&[0, 255]).ctxt();
    assert_eq!(parse_int2(247, &mut s), Ok(Operand::Int(108)));
    assert_eq!(parse_int2(250, &mut s), Ok(Operand::Int(1131)));
    assert_eq!(parse_int2(250, &mut s), Err(CFFError::ParseError(ParseError::BadEof)));

    let mut s = ReadScope::new(&[0, 255]).ctxt();
    assert_eq!(parse_int3(251, &mut s), Ok(Operand::Int(-108)));
    assert_eq!(parse_int3(254, &mut s), Ok(Operand::Int(-1131)));
    assert_eq!(parse_int3(254, &mut s), Err(CFFError::ParseError(ParseError::BadEof)));

    let mut s = ReadScope::new(&[0x00, 0x01, 0x80, 0x00, 0xFF, 0xFF, 0x00, 0x00, 0x12]).ctxt();
    assert_eq!(parse_fixed(&mut s), Ok(Operand::Fixed(0x0001_8000)));
    assert_eq!(parse_fixed(&mut s), Ok(Operand::Fixed(-0x0001_0000)));
    assert_eq!(parse_fixed(&mut s), Err(CFFError::ParseError(ParseError::BadEof)));
    assert_eq!(s.offset(), 8);
}

/// The integer that the operand stands for when it is held as a single
/// precision number.
fn as_float(operand: Operand) -> i32 {
    let v: f32 = match operand {
        Operand::Int(n) => f32::from(n),
        Operand::Fixed(raw) => raw as f32 / 65536.0,
    };
    v as i32
}

#[test]
fn operands_truncate_like_single_precision_numbers() {
    let mut raws: Vec<i32> = vec![0, 1, -1, 0xFFFF, 0x1_0000, -0xFFFF, -0x1_0000, i32::MAX, i32::MIN];
    for shift in 16..31 {
        let base = 1i32 << shift;
        for near in [-130i32, -129, -128, -127, -65, -64, -63, -33, -32, -31, -2, -1, 0, 1, 2, 63, 64, 65] {
            raws.push(base.wrapping_add(near));
            raws.push((-base).wrapping_add(near));
            raws.push(base.wrapping_mul(3).wrapping_add(near));
        }
    }
    let mut x: u32 = 0x1234_5678;
    for _ in 0..20000 {
        x = x.wrapping_mul(1664525).wrapping_add(1013904223);
        raws.push(x as i32);
        raws.push((x as i32) | 0xFFFF);
        raws.push((x as i32) | 0xFFC0);
    }
    for raw in raws {
        assert_eq!(Operand::Fixed(raw).trunc(), as_float(Operand::Fixed(raw)), "raw {raw:#x}");
    }
    for n in [i16::MIN, -1, 0, 1, 107, i16::MAX] {
        assert_eq!(Operand::Int(n).trunc(), as_float(Operand::Int(n)));
    }
    assert_eq!(Operand::Fixed(i32::MAX).trunc(), 32768);
    assert_eq!(Operand::Fixed(0x7FFF_FFBF).trunc(), 32767);
    assert_eq!(Operand::Fixed(i32::MIN).trunc(), -32768);
}

#[test]
fn conversions_of_operands() {
    assert_eq!(u8::try_num_from(Operand::Int(255)), Some(255));
    assert_eq!(u8::try_num_from(Operand::Int(256)), None);
    assert_eq!(u8::try_num_from(Operand::Int(-1)), None);
    assert_eq!(u8::try_num_from(Operand::Fixed(0x0041_FFFF)), Some(65));
    assert_eq!(u16::try_num_from(Operand::Fixed(i32::MAX)), Some(32768));
    assert_eq!(u16::try_num_from(Operand::Int(-1)), None);
    assert_eq!(i16::try_num_from(Operand::Fixed(i32::MAX)), None);
    assert_eq!(i16::try_num_from(Operand::Fixed(i32::MIN)), Some(i16::MIN));
    assert_eq!(i32::try_num_from(Operand::Fixed(-0x0001_8000)), Some(-1));
    assert!(4usize.is_even());
    assert!(!4usize.is_odd());
    assert!(7usize.is_odd());
}

#[test]
fn arguments_stack() {
    let mut stack = ArgumentsStack::new(2);
    assert!(stack.is_empty());
    assert_eq!(stack.push(Operand::Int(1)), Ok(()));
    assert_eq!(stack.push(Operand::Fixed(2)), Ok(()));
    assert_eq!(stack.push(Operand::Int(3)), Err(CFFError::ArgumentsStackLimitReached));
    assert_eq!(stack.len(), 2);
    assert_eq!(stack.at(0), Operand::Int(1));
    assert_eq!(stack.pop(), Operand::Fixed(2));
    assert_eq!(stack.push(Operand::Int(4)), Ok(()));
    stack.pop_n(1);
    assert_eq!(stack.len(), 1);
    assert_eq!(stack.pop(), Operand::Int(1));
    assert_eq!(stack.push(Operand::Int(5)), Ok(()));
    stack.clear();
    assert!(stack.is_empty());
}

#[test]
fn error_messages() {
    assert_eq!(CFFError::MissingEndChar.message(), "the 'endchar' operator is missing");
    assert_eq!(
        CFFError::from(ParseError::BadEof).message(),
        "parse error: end of data reached unexpectedly"
    );
    assert_eq!(ParseError::BadIndex.message(), "invalid data index");
    let all = [
        CFFError::ParseError(ParseError::BadValue),
        CFFError::ParseError(ParseError::BadVersion),
        CFFError::ParseError(ParseError::BadOffset),
        CFFError::ParseError(ParseError::BadIndex),
        CFFError::ParseError(ParseError::LimitExceeded),
        CFFError::ParseError(ParseError::MissingValue),
        CFFError::InvalidOperator,
        CFFError::UnsupportedOperator,
        CFFError::DataAfterEndChar,
        CFFError::NestingLimitReached,
        CFFError::ArgumentsStackLimitReached,
        CFFError::InvalidArgumentsStackLength,
        CFFError::BboxOverflow,
        CFFError::MissingMoveTo,
        CFFError::DuplicateVsIndex,
        CFFError::InvalidSubroutineIndex,
        CFFError::NoLocalSubroutines,
        CFFError::InvalidSeacCode,
    ];
    for (i, a) in all.iter().enumerate() {
        for b in &all[i + 1..] {
            assert_ne!(a.message(), b.message());
        }
    }
}

#[test]
fn return_behind_an_accented_character_in_a_subroutine_ends_the_scan() {
    let mut seac_glyphs = vec![None; 256];
    seac_glyphs[65] = Some(0u16);
    let local = index(&[&code(&[&num(0), &num(0), &num(65), &num(65), &[ENDCHAR]])]);
    let font = Font {
        seac_glyphs,
        data: CFFVariant::Type1(Type1Data { local_subr_index: Some(local) }),
    };
    let char_strings = index(&[&[ENDCHAR]]);
    let empty = index(&[]);
    // The byte behind `return` is never looked at.
    let cs = code(&[&num(-107), &[CALLSUBR, RETURN, 0]]);
    let (g, l) = used(char_string_used_subrs(CFFFont::CFF(&font), &char_strings, &empty, &cs, 0));
    assert_eq!((g, l), (vec![], vec![0]));
    // Without the accented character the bytes behind the call are an error.
    let local = index(&[&[ENDCHAR]]);
    let font = type1(Some(local));
    assert_eq!(
        char_string_used_subrs(CFFFont::CFF(&font), &char_strings, &empty, &cs, 0).err(),
        Some(CFFError::DataAfterEndChar)
    );
}

#[test]
fn endchar_takes_a_single_argument_as_the_width() {
    let font = type1(None);
    let empty = index(&[]);
    let run = |cs: &[u8]| {
        char_string_used_subrs(CFFFont::CFF(&font), &empty, &empty, cs, 0).map(|_| ())
    };
    assert_eq!(run(&code(&[&num(500), &[ENDCHAR]])), Ok(()));
    // Two or three arguments are left on the stack.
    assert_eq!(run(&code(&[&num(1), &num(2), &[ENDCHAR]])), Ok(()));
    assert_eq!(run(&code(&[&num(1), &num(2), &num(3), &[ENDCHAR]])), Ok(()));
    // Four arguments are those of an accented character.
    assert_eq!(
        run(&code(&[&num(1), &num(2), &num(3), &num(4), &[ENDCHAR]])),
        Err(CFFError::InvalidSeacCode)
    );
    // So are five, unless the width has been met.
    assert_eq!(
        run(&code(&[&num(0), &num(1), &num(2), &num(3), &num(4), &[ENDCHAR]])),
        Err(CFFError::InvalidSeacCode)
    );
    assert_eq!(
        run(&code(&[
            &num(500),
            &num(1),
            &[22],
            &num(0),
            &num(1),
            &num(2),
            &num(3),
            &num(4),
            &[ENDCHAR]
        ])),
        Ok(())
    );
}
