//! A scanner for Type 2 and CFF2 CharStrings that finds the subroutines a glyph uses.
//!
//! A CharString is a program for a stack machine. The scanner runs it far
//! enough to follow every subroutine call: it keeps the arguments stack, the
//! number of stem hints and whether the width has been seen, and discards
//! hints and paths. What a scan amounts to is said by the spec function
//! [`scan`], which the executable scanner is proved to compute.

use core::hash::BuildHasherDefault;
use rustc_hash::{FxHashSet, FxHasher};
use vstd::prelude::*;

use crate::binary::{i16_be, i32_be, ReadCtxt, ReadScope};
use crate::cff::{spec_local_subrs, CFFError, CFFFont, CFFVariant, GlyphId, ObjectIndex};
use crate::error::ParseError;

pub mod argstack;
pub mod operator;

pub use argstack::{ArgumentsStack, Operand};

verus! {

/// The deepest nesting of subroutine calls.
pub const STACK_LIMIT: u8 = 10;

/// The number of operands that the arguments stack holds.
pub const MAX_ARGUMENTS_STACK_LEN: usize = 48;

/// The byte that starts a two-byte operator.
pub const TWO_BYTE_OPERATOR_MARK: u8 = 12;

/// `rustc_hash::FxHasher`, the hasher of the sets of used subroutines.
/// Nothing is said of it.
#[verifier::external_type_specification]
#[verifier::external_body]
pub struct ExFxHasher(FxHasher);

/// `core::hash::BuildHasherDefault`, which makes the hashers of the sets of
/// used subroutines. Nothing is said of it.
#[verifier::external_type_specification]
#[verifier::external_body]
#[verifier::reject_recursive_types(H)]
pub struct ExBuildHasherDefault<H>(BuildHasherDefault<H>);

/// The indices that a set of used subroutines holds.
pub uninterp spec fn subr_set(set: FxHashSet<usize>) -> Set<usize>;

/// Calls `FxHashSet::default`, which makes a set that holds nothing.
#[verifier::external_body]
fn subr_set_new() -> (set: FxHashSet<usize>)
    ensures
        subr_set(set) == Set::<usize>::empty(),
{
    FxHashSet::default()
}

/// Calls `HashSet::insert`: afterwards the set holds `index` besides all that
/// it held before.
#[verifier::external_body]
fn subr_set_insert(set: &mut FxHashSet<usize>, index: usize)
    ensures
        subr_set(*final(set)) == subr_set(*old(set)).insert(index),
{
    set.insert(index);
}

/// Tells even numbers from odd ones.
pub trait IsEven {
    /// Whether the number is even.
    spec fn spec_is_even(&self) -> bool;

    /// Whether the number is even.
    fn is_even(&self) -> (b: bool)
        ensures
            b == self.spec_is_even(),
    ;

    /// Whether the number is odd.
    fn is_odd(&self) -> (b: bool)
        ensures
            b == !self.spec_is_even(),
    ;
}

impl IsEven for usize {
    open spec fn spec_is_even(&self) -> bool {
        *self % 2 == 0
    }

    fn is_even(&self) -> (b: bool) {
        *self % 2 == 0
    }

    fn is_odd(&self) -> (b: bool) {
        !self.is_even()
    }
}

/// Conversion of an operand to an integer type, where the operand fits.
pub trait TryNumFrom<T>: Sized {
    /// The converted value, if `v` fits.
    spec fn spec_try_num_from(v: T) -> Option<Self>;

    /// Converts `v`, if it fits.
    fn try_num_from(v: T) -> (r: Option<Self>)
        ensures
            r == Self::spec_try_num_from(v),
    ;
}

impl TryNumFrom<Operand> for i32 {
    open spec fn spec_try_num_from(v: Operand) -> Option<Self> {
        Some(v.spec_trunc() as i32)
    }

    fn try_num_from(v: Operand) -> (r: Option<Self>) {
        Some(v.trunc())
    }
}

impl TryNumFrom<Operand> for u8 {
    open spec fn spec_try_num_from(v: Operand) -> Option<Self> {
        if 0 <= v.spec_trunc() <= u8::MAX {
            Some(v.spec_trunc() as u8)
        } else {
            None
        }
    }

    fn try_num_from(v: Operand) -> (r: Option<Self>) {
        let n = v.trunc();
        if 0 <= n && n <= 0xff {
            Some(n as u8)
        } else {
            None
        }
    }
}

impl TryNumFrom<Operand> for i16 {
    open spec fn spec_try_num_from(v: Operand) -> Option<Self> {
        if i16::MIN <= v.spec_trunc() <= i16::MAX {
            Some(v.spec_trunc() as i16)
        } else {
            None
        }
    }

    fn try_num_from(v: Operand) -> (r: Option<Self>) {
        let n = v.trunc();
        if -0x8000 <= n && n <= 0x7fff {
            Some(n as i16)
        } else {
            None
        }
    }
}

impl TryNumFrom<Operand> for u16 {
    open spec fn spec_try_num_from(v: Operand) -> Option<Self> {
        if 0 <= v.spec_trunc() <= u16::MAX {
            Some(v.spec_trunc() as u16)
        } else {
            None
        }
    }

    fn try_num_from(v: Operand) -> (r: Option<Self>) {
        let n = v.trunc();
        if 0 <= n && n <= 0xffff {
            Some(n as u16)
        } else {
            None
        }
    }
}

/// The number that a one-byte integer with the leading byte `op` stands for.
pub open spec fn spec_parse_int1(op: u8) -> Operand {
    Operand::Int((op - 139) as i16)
}

/// The number that a positive two-byte integer stands for.
pub open spec fn spec_parse_int2(op: u8, b1: u8) -> Operand {
    Operand::Int(((op - 247) * 256 + b1 + 108) as i16)
}

/// The number that a negative two-byte integer stands for.
pub open spec fn spec_parse_int3(op: u8, b1: u8) -> Operand {
    Operand::Int((-(op - 251) * 256 - b1 - 108) as i16)
}

/// The outcome `r` of reading `n` bytes after the operator and making `value` of them.
pub open spec fn number_outcome(
    before: &ReadCtxt<'_>,
    after: &ReadCtxt<'_>,
    r: Result<Operand, CFFError>,
    n: int,
    value: Operand,
) -> bool {
    match r {
        Ok(v) => before.has(n) && v == value && after.advanced(before, n),
        Err(e) => e == CFFError::ParseError(ParseError::BadEof) && !before.has(n)
            && after.unmoved(before),
    }
}

/// Decodes the one-byte integer with the leading byte `op`.
pub fn parse_int1(op: u8) -> (r: Result<Operand, CFFError>)
    ensures
        r == Ok::<Operand, CFFError>(spec_parse_int1(op)),
{
    let n = op as i16 - 139;
    Ok(Operand::Int(n))
}

/// Decodes the two-byte integer that the leading byte `op` starts; the
/// result lies between 108 and 1131.
pub fn parse_int2(op: u8, s: &mut ReadCtxt<'_>) -> (r: Result<Operand, CFFError>)
    requires
        247 <= op <= 250,
    ensures
        number_outcome(
            old(s),
            final(s),
            r,
            1,
            spec_parse_int2(op, old(s).bytes()[old(s).pos()]),
        ),
        r matches Ok(Operand::Int(n)) ==> 108 <= n <= 1131,
{
    let b1 = match s.read_u8() {
        Ok(b1) => b1,
        Err(e) => {
            return Err(CFFError::ParseError(e));
        },
    };
    let n = (op as i16 - 247) * 256 + b1 as i16 + 108;
    Ok(Operand::Int(n))
}

/// Decodes the two-byte integer that the leading byte `op` starts; the
/// result lies between -1131 and -108.
pub fn parse_int3(op: u8, s: &mut ReadCtxt<'_>) -> (r: Result<Operand, CFFError>)
    requires
        251 <= op <= 254,
    ensures
        number_outcome(
            old(s),
            final(s),
            r,
            1,
            spec_parse_int3(op, old(s).bytes()[old(s).pos()]),
        ),
        r matches Ok(Operand::Int(n)) ==> -1131 <= n <= -108,
{
    let b1 = match s.read_u8() {
        Ok(b1) => b1,
        Err(e) => {
            return Err(CFFError::ParseError(e));
        },
    };
    let n = -(op as i16 - 251) * 256 - b1 as i16 - 108;
    Ok(Operand::Int(n))
}

/// Decodes a 16.16 fixed-point number.
pub fn parse_fixed(s: &mut ReadCtxt<'_>) -> (r: Result<Operand, CFFError>)
    ensures
        number_outcome(
            old(s),
            final(s),
            r,
            4,
            Operand::Fixed(i32_be(old(s).bytes(), old(s).pos()) as i32),
        ),
{
    match s.read_i32be() {
        Ok(n) => Ok(Operand::Fixed(n)),
        Err(e) => Err(CFFError::ParseError(e)),
    }
}

/// The bias of an INDEX of `len` subroutines.
pub open spec fn spec_subroutine_bias(len: int) -> int {
    if len < 1240 {
        107
    } else if len < 33900 {
        1131
    } else {
        32768
    }
}

/// The number of the subroutine that the integer `operand` calls under `bias`.
pub open spec fn spec_unbiased_index(operand: int, bias: int) -> Option<usize> {
    if 0 <= operand + bias <= i32::MAX {
        Some((operand + bias) as usize)
    } else {
        None
    }
}

/// The number of the subroutine that the operand `index` calls under `bias`.
pub open spec fn spec_conv_subroutine_index(index: Operand, bias: u16) -> Option<usize> {
    spec_unbiased_index(index.spec_trunc(), bias as int)
}

/// The number of the subroutine that the operand `index` calls under `bias`.
pub fn conv_subroutine_index(index: Operand, bias: u16) -> (r: Result<usize, CFFError>)
    ensures
        r == match spec_conv_subroutine_index(index, bias) {
            Some(i) => Ok::<usize, CFFError>(i),
            None => Err::<usize, CFFError>(CFFError::InvalidSubroutineIndex),
        },
{
    match conv_subroutine_index_impl(index, bias) {
        Some(i) => Ok(i),
        None => Err(CFFError::InvalidSubroutineIndex),
    }
}

/// The number of the subroutine that the operand `index` calls under `bias`,
/// if it is not negative.
pub fn conv_subroutine_index_impl(index: Operand, bias: u16) -> (r: Option<usize>)
    ensures
        r == spec_conv_subroutine_index(index, bias),
{
    let index = match i32::try_num_from(index) {
        Some(index) => index,
        None => {
            return None;
        },
    };
    let bias = bias as i32;
    let index = match index.checked_add(bias) {
        Some(index) => index,
        None => {
            return None;
        },
    };
    if index >= 0 {
        Some(index as usize)
    } else {
        None
    }
}

/// The bias of an INDEX of `len` subroutines.
pub fn calc_subroutine_bias(len: usize) -> (bias: u16)
    ensures
        bias == spec_subroutine_bias(len as int),
{
    if len < 1240 {
        107
    } else if len < 33900 {
        1131
    } else {
        32768
    }
}

/// What a scan reads of the font and never changes.
pub struct ScanEnv {
    /// Whether the CharString belongs to a CFF2 font.
    pub cff2: bool,
    /// The CharStrings of all glyphs of the font.
    pub char_strings: Seq<Seq<u8>>,
    /// The global subroutines.
    pub global_subrs: Seq<Seq<u8>>,
    /// The local subroutines that the scanned glyph may call.
    pub local_subrs: Option<Seq<Seq<u8>>>,
    /// The glyph that each code of the standard encoding stands for.
    pub seac_glyphs: Seq<Option<GlyphId>>,
}

/// What a scan has found so far.
pub struct ScanState {
    /// The arguments stack, bottom first.
    pub stack: Seq<Operand>,
    /// Whether the glyph's width has been met.
    pub width_parsed: bool,
    /// The number of stem hints declared.
    pub stems_len: u32,
    /// Whether `endchar` has been met.
    pub has_endchar: bool,
    /// Whether an `endchar` that composes two glyphs has been met.
    pub has_seac: bool,
    /// Whether `vsindex` has been met.
    pub vsindex_set: bool,
    /// Whether `blend` has been met.
    pub blend_seen: bool,
    /// The global subroutines called.
    pub global_subr_used: Set<usize>,
    /// The local subroutines called.
    pub local_subr_used: Set<usize>,
    /// The operators met, in the order in which they were met.
    pub operators: Seq<u8>,
}

/// What a subroutine call recorded of the subroutine `index` in an INDEX of
/// `len` subroutines: the subroutine exists, and the operand that called it
/// leads back to it.
pub open spec fn recorded_index_ok(index: usize, len: nat) -> bool {
    let bias = spec_subroutine_bias(len as int);
    &&& index < len
    &&& -0x8000 <= index - bias <= 0x8000
    &&& spec_unbiased_index(index - bias, bias) == Some(index)
}

/// No `blend` stands among the first `i` of `operators`.
pub open spec fn no_blend_before(operators: Seq<u8>, i: int) -> bool {
    forall|j: int| 0 <= j < i && j < operators.len() ==> operators[j] != operator::BLEND
}

/// `operators[i]` is a `vsindex` that no `blend` precedes.
pub open spec fn vsindex_at(operators: Seq<u8>, i: int) -> bool {
    &&& 0 <= i < operators.len()
    &&& operators[i] == operator::VS_INDEX
    &&& no_blend_before(operators, i)
}

/// The flags `vsindex_set` and `blend_seen` agree with the `operators` met:
/// unless `blend_seen`, no `blend` was met; and if `vsindex_set`, a `vsindex`
/// was met before any `blend`.
pub open spec fn operators_ordered(operators: Seq<u8>, vsindex_set: bool, blend_seen: bool) -> bool {
    &&& !blend_seen ==> no_blend_before(operators, operators.len() as int)
    &&& vsindex_set ==> exists|i: int| #[trigger] vsindex_at(operators, i)
}

impl ScanState {
    /// The state in which the scan of a glyph starts.
    pub open spec fn initial() -> ScanState {
        ScanState {
            stack: Seq::empty(),
            width_parsed: false,
            stems_len: 0,
            has_endchar: false,
            has_seac: false,
            vsindex_set: false,
            blend_seen: false,
            global_subr_used: Set::empty(),
            local_subr_used: Set::empty(),
            operators: Seq::empty(),
        }
    }

    /// The state after the operator `op` has been met.
    pub open spec fn record(self, op: u8) -> ScanState {
        ScanState { operators: self.operators.push(op), ..self }
    }

    /// The state with `stack` as its arguments stack.
    pub open spec fn with_stack(self, stack: Seq<Operand>) -> ScanState {
        ScanState { stack, ..self }
    }

    /// The state after an operator that takes all arguments.
    pub open spec fn cleared(self) -> ScanState {
        self.with_stack(Seq::empty())
    }

    /// Every subroutine recorded exists in its INDEX, and the operand that
    /// called it leads back to it.
    pub open spec fn used_in_range(self, env: ScanEnv) -> bool {
        &&& forall|i: usize| #[trigger]
            self.global_subr_used.contains(i) ==> recorded_index_ok(i, env.global_subrs.len())
        &&& forall|i: usize| #[trigger]
            self.local_subr_used.contains(i) ==> env.local_subrs is Some && recorded_index_ok(
                i,
                env.local_subrs->0.len(),
            )
    }

    /// The flags for `vsindex` and `blend` agree with the operators met: if
    /// `vsindex` has been met, then one was met before any `blend`.
    pub open spec fn vsindex_ordered(self) -> bool {
        operators_ordered(self.operators, self.vsindex_set, self.blend_seen)
    }
}

/// The state after a stem hint operator: an odd number of arguments holds the
/// width, if that has not been met, and each pair of the others declares a stem.
pub open spec fn count_stems(st: ScanState) -> Result<ScanState, CFFError> {
    let width = st.stack.len() % 2 == 1 && !st.width_parsed;
    let len = if width {
        st.stack.len() - 1
    } else {
        st.stack.len() as int
    };
    let stems = st.stems_len + len / 2;
    if stems > u32::MAX {
        Err(CFFError::ParseError(ParseError::LimitExceeded))
    } else {
        Ok(
            ScanState {
                width_parsed: st.width_parsed || width,
                stems_len: stems as u32,
                stack: Seq::empty(),
                ..st
            },
        )
    }
}

/// The state after a move operator, which holds the width if it has
/// `with_width` arguments.
pub open spec fn move_to(st: ScanState, with_width: nat) -> ScanState {
    ScanState {
        width_parsed: st.width_parsed || st.stack.len() == with_width,
        stack: Seq::empty(),
        ..st
    }
}

/// The state after `blend`: the topmost argument says how many of the
/// bottommost ones stay.
pub open spec fn blend(st: ScanState) -> Result<ScanState, CFFError> {
    if st.stack.len() == 0 {
        Err(CFFError::InvalidArgumentsStackLength)
    } else {
        match u16::spec_try_num_from(st.stack.last()) {
            None => Err(CFFError::InvalidArgumentsStackLength),
            Some(n) => if n > st.stack.len() - 1 {
                Err(CFFError::InvalidArgumentsStackLength)
            } else {
                Ok(ScanState { stack: st.stack.take(n as int), blend_seen: true, ..st })
            },
        }
    }
}

/// The state after the number `n` was read, and the position `next` behind it.
pub open spec fn push_number(st: ScanState, n: Operand, next: int) -> Result<
    (ScanState, int),
    CFFError,
> {
    if st.stack.len() >= MAX_ARGUMENTS_STACK_LEN {
        Err(CFFError::ArgumentsStackLimitReached)
    } else {
        Ok((st.with_stack(st.stack.push(n)), next))
    }
}

/// Whether the byte `op` starts a number.
pub open spec fn is_number(op: u8) -> bool {
    op >= 32 || op == operator::SHORT_INT
}

/// Whether `op` is one of the operators that end a CharString or call another.
pub open spec fn is_control(op: u8) -> bool {
    ||| op == operator::CALL_LOCAL_SUBROUTINE
    ||| op == operator::CALL_GLOBAL_SUBROUTINE
    ||| op == operator::RETURN
    ||| op == operator::ENDCHAR
}

/// Whether `op` is a reserved byte.
pub open spec fn is_reserved(op: u8) -> bool {
    op == 0 || op == 2 || op == 9 || op == 13 || op == 17
}

/// Whether `op` is one of the stem hint operators.
pub open spec fn is_stem_hint(op: u8) -> bool {
    ||| op == operator::HORIZONTAL_STEM
    ||| op == operator::VERTICAL_STEM
    ||| op == operator::HORIZONTAL_STEM_HINT_MASK
    ||| op == operator::VERTICAL_STEM_HINT_MASK
}

/// Whether `op` is the second byte of one of the flex operators.
pub open spec fn is_flex(op: u8) -> bool {
    operator::HFLEX <= op <= operator::FLEX1
}

/// The state after the number that starts at `pos`, and the position behind it.
pub open spec fn step_number(st: ScanState, code: Seq<u8>, pos: int) -> Result<
    (ScanState, int),
    CFFError,
> {
    let op = code[pos];
    let eof = Err::<(ScanState, int), CFFError>(CFFError::ParseError(ParseError::BadEof));
    if op == operator::SHORT_INT {
        if pos + 3 > code.len() {
            eof
        } else {
            push_number(st, Operand::Int(i16_be(code, pos + 1) as i16), pos + 3)
        }
    } else if op <= 246 {
        push_number(st, spec_parse_int1(op), pos + 1)
    } else if op <= 254 {
        if pos + 2 > code.len() {
            eof
        } else if op <= 250 {
            push_number(st, spec_parse_int2(op, code[pos + 1]), pos + 2)
        } else {
            push_number(st, spec_parse_int3(op, code[pos + 1]), pos + 2)
        }
    } else {
        if pos + 5 > code.len() {
            eof
        } else {
            push_number(st, Operand::Fixed(i32_be(code, pos + 1) as i32), pos + 5)
        }
    }
}

/// The state after a two-byte operator at `pos`, and the position behind it:
/// only the flex operators are known.
pub open spec fn two_byte(st: ScanState, code: Seq<u8>, pos: int) -> Result<
    (ScanState, int),
    CFFError,
> {
    if pos + 2 > code.len() {
        Err(CFFError::ParseError(ParseError::BadEof))
    } else if is_flex(code[pos + 1]) {
        Ok((st.cleared(), pos + 2))
    } else {
        Err(CFFError::UnsupportedOperator)
    }
}

/// The state after `vsindex`, which only CFF2 has and which must come first
/// and once.
pub open spec fn vsindex(cff2: bool, st: ScanState) -> Result<ScanState, CFFError> {
    if !cff2 {
        Err(CFFError::InvalidOperator)
    } else if st.vsindex_set || st.blend_seen {
        Err(CFFError::DuplicateVsIndex)
    } else {
        Ok(ScanState { vsindex_set: true, stack: Seq::empty(), ..st })
    }
}

/// The state after a hint mask operator at `pos` and the position behind its
/// mask, which has one bit for each stem declared.
pub open spec fn hint_mask(st: ScanState, code: Seq<u8>, pos: int) -> Result<
    (ScanState, int),
    CFFError,
> {
    match count_stems(st) {
        Ok(st) => {
            let mask = (st.stems_len + 7) / 8;
            if pos + 1 + mask > code.len() {
                Err(CFFError::ParseError(ParseError::BadOffset))
            } else {
                Ok((st, pos + 1 + mask))
            }
        },
        Err(e) => Err(e),
    }
}

/// The outcome `r` of an operator that leaves the position at `next`.
pub open spec fn at(r: Result<ScanState, CFFError>, next: int) -> Result<
    (ScanState, int),
    CFFError,
> {
    match r {
        Ok(st) => Ok((st, next)),
        Err(e) => Err(e),
    }
}

/// The state after the operator at `pos`, which neither ends the CharString
/// nor calls another, and the position behind the operator and what belongs to it.
pub open spec fn step_operator(cff2: bool, st: ScanState, code: Seq<u8>, pos: int) -> Result<
    (ScanState, int),
    CFFError,
> {
    let op = code[pos];
    let st = st.record(op);
    if is_reserved(op) {
        Err(CFFError::InvalidOperator)
    } else if is_stem_hint(op) {
        at(count_stems(st), pos + 1)
    } else if op == operator::VERTICAL_MOVE_TO || op == operator::HORIZONTAL_MOVE_TO {
        Ok((move_to(st, 2), pos + 1))
    } else if op == operator::MOVE_TO {
        Ok((move_to(st, 3), pos + 1))
    } else if op == TWO_BYTE_OPERATOR_MARK {
        two_byte(st, code, pos)
    } else if op == operator::VS_INDEX {
        at(vsindex(cff2, st), pos + 1)
    } else if op == operator::BLEND {
        if !cff2 {
            Err(CFFError::InvalidOperator)
        } else {
            at(blend(st), pos + 1)
        }
    } else if op == operator::HINT_MASK || op == operator::COUNTER_MASK {
        hint_mask(st, code, pos)
    } else {
        Ok((st.cleared(), pos + 1))
    }
}

/// The state after the number or operator at `pos`, which is none of those
/// that end the CharString or call another, and the position behind it.
pub open spec fn step(cff2: bool, st: ScanState, code: Seq<u8>, pos: int) -> Result<
    (ScanState, int),
    CFFError,
> {
    if is_number(code[pos]) {
        step_number(st, code, pos)
    } else {
        step_operator(cff2, st, code, pos)
    }
}

/// The subroutine that the topmost argument calls, and the state in which its
/// scan starts. `local` tells a call of a local subroutine from one of a
/// global subroutine.
pub open spec fn enter_subr(env: ScanEnv, st: ScanState, local: bool, depth: int) -> Result<
    (Seq<u8>, ScanState),
    CFFError,
> {
    if st.stack.len() == 0 {
        Err(CFFError::InvalidArgumentsStackLength)
    } else if depth >= STACK_LIMIT {
        Err(CFFError::NestingLimitReached)
    } else if local && env.local_subrs is None {
        Err(CFFError::NoLocalSubroutines)
    } else {
        let subrs = if local {
            env.local_subrs->0
        } else {
            env.global_subrs
        };
        let bias = spec_subroutine_bias(subrs.len() as int) as u16;
        match spec_conv_subroutine_index(st.stack.last(), bias) {
            None => Err(CFFError::InvalidSubroutineIndex),
            Some(index) => if index >= subrs.len() {
                Err(CFFError::InvalidSubroutineIndex)
            } else if local {
                Ok(
                    (
                        subrs[index as int],
                        ScanState {
                            stack: st.stack.drop_last(),
                            local_subr_used: st.local_subr_used.insert(index),
                            ..st
                        },
                    ),
                )
            } else {
                Ok(
                    (
                        subrs[index as int],
                        ScanState {
                            stack: st.stack.drop_last(),
                            global_subr_used: st.global_subr_used.insert(index),
                            ..st
                        },
                    ),
                )
            },
        }
    }
}

/// The glyph that the operand `code` of an accented character stands for.
pub open spec fn seac_glyph(env: ScanEnv, code: Operand) -> Option<GlyphId> {
    match u8::spec_try_num_from(code) {
        Some(code) => if code < env.seac_glyphs.len() {
            env.seac_glyphs[code as int]
        } else {
            None
        },
        None => None,
    }
}

/// Whether `endchar` finds the arguments of an accented character on the stack.
pub open spec fn is_seac(st: ScanState) -> bool {
    st.stack.len() == 4 || (!st.width_parsed && st.stack.len() == 5)
}

/// The CharString of the base glyph and the accent glyph of the accented
/// character whose arguments lie on the stack, and the state in which the
/// scan of the base glyph starts.
pub open spec fn enter_seac(env: ScanEnv, st: ScanState, depth: int) -> Result<
    (Seq<u8>, GlyphId, ScanState),
    CFFError,
> {
    let len = st.stack.len() as int;
    match seac_glyph(env, st.stack[len - 1]) {
        None => Err(CFFError::InvalidSeacCode),
        Some(accent) => match seac_glyph(env, st.stack[len - 2]) {
            None => Err(CFFError::InvalidSeacCode),
            Some(base) => {
                let st = ScanState {
                    stack: Seq::empty(),
                    width_parsed: true,
                    has_seac: true,
                    ..st
                };
                if depth >= STACK_LIMIT {
                    Err(CFFError::NestingLimitReached)
                } else if base >= env.char_strings.len() {
                    Err(CFFError::InvalidSeacCode)
                } else {
                    Ok((env.char_strings[base as int], accent, st))
                }
            },
        },
    }
}

/// The state in which `endchar` leaves the scan when it composes no glyphs:
/// a single argument is the width, if that has not been met.
pub open spec fn plain_endchar(st: ScanState) -> ScanState {
    if st.stack.len() == 1 && !st.width_parsed {
        ScanState { stack: st.stack.drop_last(), width_parsed: true, ..st }
    } else {
        st
    }
}

/// The outcome of `endchar` once its arguments are dealt with. `more` says
/// whether bytes follow the operator, which is an error.
pub open spec fn finish_endchar(st: ScanState, more: bool) -> Result<ScanState, CFFError> {
    if more {
        Err(CFFError::DataAfterEndChar)
    } else {
        Ok(ScanState { has_endchar: true, ..st })
    }
}

/// The state after the call of a subroutine: the topmost argument selects
/// the subroutine, which is scanned one level deeper.
pub open spec fn call_subr(env: ScanEnv, st: ScanState, local: bool, depth: int) -> Result<
    ScanState,
    CFFError,
>
    decreases STACK_LIMIT - depth, 0int,
{
    match enter_subr(env, st, local, depth) {
        Err(e) => Err(e),
        Ok((subr, st)) => if depth < 0 || depth >= STACK_LIMIT {
            Err(CFFError::NestingLimitReached)
        } else {
            match scan(env, st, subr, 0, depth + 1) {
                Err(e) => Err(e),
                Ok((st, _)) => Ok(st),
            }
        },
    }
}

/// The state after `endchar` in a CharString of a CFF font. `more` says
/// whether bytes follow the operator, which is an error.
///
/// With the arguments of an accented character on the stack, the CharStrings
/// of the base glyph and of the accent glyph are scanned one level deeper.
pub open spec fn end_char(env: ScanEnv, st: ScanState, more: bool, depth: int) -> Result<
    ScanState,
    CFFError,
>
    decreases STACK_LIMIT - depth, 0int,
{
    if !is_seac(st) {
        finish_endchar(plain_endchar(st), more)
    } else {
        match enter_seac(env, st, depth) {
            Err(e) => Err(e),
            Ok((base, accent, st)) => if depth < 0 || depth >= STACK_LIMIT {
                Err(CFFError::NestingLimitReached)
            } else {
                match scan(env, st, base, 0, depth + 1) {
                    Err(e) => Err(e),
                    Ok((st, _)) => if accent >= env.char_strings.len() {
                        Err(CFFError::InvalidSeacCode)
                    } else {
                        match scan(env, st, env.char_strings[accent as int], 0, depth + 1) {
                            Err(e) => Err(e),
                            Ok((st, _)) => finish_endchar(st, more),
                        }
                    },
                }
            },
        }
    }
}

/// The outcome of scanning the CharString `code` from `pos` on, at the
/// nesting `depth`: the state and the position at which the scan of `code`
/// ended, or the error that stopped it.
///
/// The scan ends at the end of `code`, at `return`, at `endchar`, or behind a
/// call that met `endchar` and no accented character. Every step leaves the
/// position behind where it found it, and no CharString is scanned at a
/// nesting beyond the limit; the tests for both only show that the scan ends.
pub open spec fn scan(env: ScanEnv, st: ScanState, code: Seq<u8>, pos: int, depth: int) -> Result<
    (ScanState, int),
    CFFError,
>
    decreases STACK_LIMIT - depth, code.len() - pos,
{
    if pos < 0 || pos >= code.len() {
        Ok((st, pos))
    } else if depth < 0 || depth > STACK_LIMIT {
        Err(CFFError::NestingLimitReached)
    } else {
        let op = code[pos];
        let next = pos + 1;
        if op == operator::CALL_LOCAL_SUBROUTINE || op == operator::CALL_GLOBAL_SUBROUTINE {
            match call_subr(env, st.record(op), op == operator::CALL_LOCAL_SUBROUTINE, depth) {
                Err(e) => Err(e),
                Ok(st) => if st.has_endchar && !st.has_seac {
                    if next < code.len() {
                        Err(CFFError::DataAfterEndChar)
                    } else {
                        Ok((st, next))
                    }
                } else {
                    scan(env, st, code, next, depth)
                },
            }
        } else if op == operator::RETURN {
            if env.cff2 {
                Err(CFFError::InvalidOperator)
            } else {
                Ok((st.record(op), next))
            }
        } else if op == operator::ENDCHAR {
            if env.cff2 {
                Err(CFFError::InvalidOperator)
            } else {
                at(end_char(env, st.record(op), next < code.len(), depth), next)
            }
        } else {
            match step(env.cff2, st, code, pos) {
                Err(e) => Err(e),
                Ok((st, next)) => if next <= pos {
                    Err(CFFError::InvalidOperator)
                } else {
                    scan(env, st, code, next, depth)
                },
            }
        }
    }
}

/// The sets of global and of local subroutines that the CharString `code`
/// uses, or the error that stops its scan. A CharString of a CFF font must
/// meet `endchar`.
pub open spec fn spec_used_subrs(env: ScanEnv, code: Seq<u8>) -> Result<
    (Set<usize>, Set<usize>),
    CFFError,
> {
    match scan(env, ScanState::initial(), code, 0, 0) {
        Err(e) => Err(e),
        Ok((st, _)) => if !env.cff2 && !st.has_endchar {
            Err(CFFError::MissingEndChar)
        } else {
            Ok((st.global_subr_used, st.local_subr_used))
        },
    }
}

/// What a scan reads of `font` and of the INDEXes for the glyph `glyph_id`.
pub open spec fn scan_env(
    font: CFFFont<'_>,
    char_strings_index: &ObjectIndex,
    global_subr_index: &ObjectIndex,
    glyph_id: GlyphId,
) -> ScanEnv {
    ScanEnv {
        cff2: font is CFF2,
        char_strings: char_strings_index@,
        global_subrs: global_subr_index@,
        local_subrs: match spec_local_subrs(font, glyph_id) {
            Some(index) => Some(index@),
            None => None,
        },
        seac_glyphs: match font {
            CFFFont::CFF(font) => font.seac_glyphs@,
            CFFFont::CFF2(_) => Seq::empty(),
        },
    }
}

/// The subroutines that a CharString uses, by their numbers.
pub struct UsedSubrs {
    /// The global subroutines used.
    pub global_subr_used: FxHashSet<usize>,
    /// The local subroutines used.
    pub local_subr_used: FxHashSet<usize>,
}

/// What the scan of one glyph carries through all its CharStrings.
struct CharStringScannerContext<'a> {
    char_strings_index: &'a ObjectIndex,
    global_subr_index: &'a ObjectIndex,
    width_parsed: bool,
    stems_len: u32,
    has_endchar: bool,
    has_seac: bool,
    vsindex_set: bool,
    blend_seen: bool,
    glyph_id: GlyphId,
    local_subrs: Option<&'a ObjectIndex>,
    global_subr_used: FxHashSet<usize>,
    local_subr_used: FxHashSet<usize>,
    operators: Ghost<Seq<u8>>,
}

/// The INDEX that `index` refers to, if any.
spec fn referent(index: Option<&ObjectIndex>) -> Option<ObjectIndex> {
    match index {
        Some(index) => Some(*index),
        None => None,
    }
}

impl<'a> CharStringScannerContext<'a> {
    /// What the scan has found so far, with `stack` as the arguments stack.
    spec fn state(&self, stack: Seq<Operand>) -> ScanState {
        ScanState {
            stack,
            width_parsed: self.width_parsed,
            stems_len: self.stems_len,
            has_endchar: self.has_endchar,
            has_seac: self.has_seac,
            vsindex_set: self.vsindex_set,
            blend_seen: self.blend_seen,
            global_subr_used: subr_set(self.global_subr_used),
            local_subr_used: subr_set(self.local_subr_used),
            operators: self.operators@,
        }
    }

    /// What the scan reads of `font`.
    spec fn env(&self, font: CFFFont<'_>) -> ScanEnv {
        scan_env(font, self.char_strings_index, self.global_subr_index, self.glyph_id)
    }

    /// The local subroutines, once selected, are those of the glyph.
    spec fn wf(&self, font: CFFFont<'_>) -> bool {
        self.local_subrs is Some ==> referent(self.local_subrs) == spec_local_subrs(
            font,
            self.glyph_id,
        )
    }

    /// Both contexts scan the same glyph of the same font.
    spec fn same_setting(&self, other: &Self) -> bool {
        &&& self.char_strings_index == other.char_strings_index
        &&& self.global_subr_index == other.global_subr_index
        &&& self.glyph_id == other.glyph_id
    }

    /// Both contexts have met the same operators, and have selected the
    /// same local subroutines.
    spec fn same_operators(&self, other: &Self) -> bool {
        &&& self.operators@ == other.operators@
        &&& self.vsindex_set == other.vsindex_set
        &&& self.blend_seen == other.blend_seen
        &&& self.local_subrs == other.local_subrs
    }
}

/// What holds of a scan that starts in the state `st0` and ends in the state
/// `st`: the subroutines recorded stay in range, and a `vsindex` met stays
/// ahead of every `blend`.
pub open spec fn nested_laws(env: ScanEnv, st0: ScanState, st: ScanState) -> bool {
    &&& st0.used_in_range(env) ==> st.used_in_range(env)
    &&& st0.vsindex_ordered() ==> st.vsindex_ordered()
}

/// What holds of every scan of a CharString `code` that starts in the state
/// `st0` and ends in the state `st` at the position `stop`.
///
/// The subroutines recorded stay in range; a `vsindex` met stays ahead of
/// every `blend`; the scan ends at the end of `code` or, in a CFF font, at a
/// `return`; and where it met `endchar` and no accented character, it ends at
/// the end of `code`.
pub open spec fn scan_laws(
    env: ScanEnv,
    st0: ScanState,
    code: Seq<u8>,
    st: ScanState,
    stop: int,
) -> bool {
    &&& nested_laws(env, st0, st)
    &&& stop == code.len() || (!env.cff2 && 0 < stop < code.len() && code[stop - 1]
        == operator::RETURN)
    &&& !st0.has_endchar && st.has_endchar && !st.has_seac ==> stop == code.len()
}

/// What holds of every successful scan of the CharString `code` of a glyph.
///
/// Every subroutine found exists in its INDEX, and the operand that called
/// it leads back to it. A `vsindex` met was met before any `blend`. A
/// CharString of a CFF font has met `endchar`; its scan ended with the last
/// byte of `code`, unless an accented character was met and the scan ended
/// at a `return`.
pub open spec fn used_subrs_laws(env: ScanEnv, code: Seq<u8>) -> bool {
    match scan(env, ScanState::initial(), code, 0, 0) {
        Ok((st, stop)) => {
            &&& st.used_in_range(env)
            &&& st.vsindex_ordered()
            &&& !env.cff2 ==> st.has_endchar
            &&& stop == code.len() || (!env.cff2 && st.has_seac && 0 < stop < code.len()
                && code[stop - 1] == operator::RETURN)
        },
        Err(_) => false,
    }
}

/// The result `r` and the state `st1` are those of scanning `code` from the state `st0`.
spec fn scan_result(
    env: ScanEnv,
    st0: ScanState,
    code: Seq<u8>,
    depth: int,
    st1: ScanState,
    r: Result<(), CFFError>,
) -> bool {
    match scan(env, st0, code, 0, depth) {
        Ok((st, stop)) => r is Ok && st1 == st && scan_laws(env, st0, code, st, stop),
        Err(e) => r == Err::<(), CFFError>(e),
    }
}

/// A longer run of operators keeps what holds of its beginning.
proof fn lemma_push_keeps(ops: Seq<u8>, op: u8, i: int)
    requires
        0 <= i <= ops.len(),
    ensures
        no_blend_before(ops, i) ==> no_blend_before(ops.push(op), i),
        vsindex_at(ops, i) ==> vsindex_at(ops.push(op), i),
        i == ops.len() && op != operator::BLEND && no_blend_before(ops, i) ==> no_blend_before(
            ops.push(op),
            i + 1,
        ),
{
    let ops2 = ops.push(op);
    assert forall|j: int| 0 <= j < i implies ops2[j] == ops[j] by {}
    if i == ops.len() && op != operator::BLEND && no_blend_before(ops, i) {
        assert forall|j: int| 0 <= j < i + 1 && j < ops2.len() implies ops2[j]
            != operator::BLEND by {
            if j < i {
                assert(ops2[j] == ops[j]);
            }
        }
    }
}

/// Meeting an operator other than `blend` keeps a `vsindex` ahead of every `blend`.
proof fn lemma_record_ordered(ops: Seq<u8>, vsindex_set: bool, blend_seen: bool, op: u8)
    requires
        operators_ordered(ops, vsindex_set, blend_seen),
        op != operator::BLEND,
    ensures
        operators_ordered(ops.push(op), vsindex_set, blend_seen),
{
    if !blend_seen {
        lemma_push_keeps(ops, op, ops.len() as int);
    }
    if vsindex_set {
        let i = choose|i: int| #[trigger] vsindex_at(ops, i);
        lemma_push_keeps(ops, op, i);
        assert(vsindex_at(ops.push(op), i));
    }
}

/// Meeting the first `vsindex` before any `blend` puts it ahead of every `blend`.
proof fn lemma_vsindex_ordered(ops: Seq<u8>, vsindex_set: bool)
    requires
        operators_ordered(ops, vsindex_set, false),
    ensures
        operators_ordered(ops.push(operator::VS_INDEX), true, false),
{
    lemma_push_keeps(ops, operator::VS_INDEX, ops.len() as int);
    assert(vsindex_at(ops.push(operator::VS_INDEX), ops.len() as int));
}

/// Meeting `blend` leaves a `vsindex` that was met ahead of every `blend`.
proof fn lemma_blend_ordered(ops: Seq<u8>, vsindex_set: bool, blend_seen: bool)
    requires
        operators_ordered(ops, vsindex_set, blend_seen),
    ensures
        operators_ordered(ops.push(operator::BLEND), vsindex_set, true),
{
    if vsindex_set {
        let i = choose|i: int| #[trigger] vsindex_at(ops, i);
        lemma_push_keeps(ops, operator::BLEND, i);
        assert(vsindex_at(ops.push(operator::BLEND), i));
    }
}

/// The local subroutines that the glyph `glyph_id` of `font` may call.
fn resolve_local_subrs<'a>(font: CFFFont<'a>, glyph_id: GlyphId) -> (r: Option<&'a ObjectIndex>)
    ensures
        referent(r) == spec_local_subrs(font, glyph_id),
{
    match font {
        CFFFont::CFF(font) => match &font.data {
            CFFVariant::Type1(type1) => match &type1.local_subr_index {
                Some(index) => Some(index),
                None => None,
            },
            CFFVariant::CID(cid) => match cid.fd_select.font_dict_index(glyph_id) {
                Some(dict) => {
                    if (dict as usize) < cid.local_subr_indices.len() {
                        match &cid.local_subr_indices[dict as usize] {
                            Some(index) => Some(index),
                            None => None,
                        }
                    } else {
                        None
                    }
                },
                None => None,
            },
        },
        CFFFont::CFF2(font) => match &font.local_subr_index {
            Some(index) => Some(index),
            None => None,
        },
    }
}

/// Counts the stems that the arguments of a stem hint operator declare.
fn count_stems_of(ctx: &mut CharStringScannerContext<'_>, stack: &mut ArgumentsStack) -> (r:
    Result<(), CFFError>)
    ensures
        final(stack).capacity() == old(stack).capacity(),
        final(ctx).same_setting(old(ctx)),
        final(ctx).same_operators(old(ctx)),
        match count_stems(old(ctx).state(old(stack)@)) {
            Ok(st) => r is Ok && final(ctx).state(final(stack)@) == st,
            Err(e) => r == Err::<(), CFFError>(e),
        },
{
    let len = if stack.len().is_odd() && !ctx.width_parsed {
        ctx.width_parsed = true;
        stack.len() - 1
    } else {
        stack.len()
    };
    let stems = len / 2;
    if stems > (u32::MAX - ctx.stems_len) as usize {
        return Err(CFFError::ParseError(ParseError::LimitExceeded));
    }
    ctx.stems_len = ctx.stems_len + stems as u32;
    stack.clear();
    Ok(())
}

/// Deals with a move operator, which holds the width if it has `with_width` arguments.
fn scan_move(ctx: &mut CharStringScannerContext<'_>, stack: &mut ArgumentsStack, with_width: usize)
    ensures
        final(stack).capacity() == old(stack).capacity(),
        final(ctx).same_setting(old(ctx)),
        final(ctx).same_operators(old(ctx)),
        final(ctx).state(final(stack)@) == move_to(
            old(ctx).state(old(stack)@),
            with_width as nat,
        ),
{
    if stack.len() == with_width && !ctx.width_parsed {
        ctx.width_parsed = true;
    }
    stack.clear();
}

/// Deals with a two-byte operator, whose first byte has been read.
fn scan_two_byte(
    ctx: &mut CharStringScannerContext<'_>,
    s: &mut ReadCtxt<'_>,
    stack: &mut ArgumentsStack,
) -> (r: Result<(), CFFError>)
    requires
        1 <= old(s).pos() <= old(s).bytes().len(),
    ensures
        final(s).bytes() == old(s).bytes(),
        final(stack).capacity() == old(stack).capacity(),
        *final(ctx) == *old(ctx),
        match two_byte(old(ctx).state(old(stack)@), old(s).bytes(), old(s).pos() - 1) {
            Ok((st, next)) => r is Ok && final(ctx).state(final(stack)@) == st && final(s).pos()
                == next && old(s).pos() <= next <= old(s).bytes().len(),
            Err(e) => r == Err::<(), CFFError>(e),
        },
{
    let op2 = match s.read_u8() {
        Ok(op2) => op2,
        Err(e) => {
            return Err(CFFError::ParseError(e));
        },
    };
    if operator::HFLEX <= op2 && op2 <= operator::FLEX1 {
        stack.clear();
        Ok(())
    } else {
        Err(CFFError::UnsupportedOperator)
    }
}

/// Deals with `vsindex`.
fn scan_vsindex(ctx: &mut CharStringScannerContext<'_>, cff2: bool, stack: &mut ArgumentsStack) -> (r:
    Result<(), CFFError>)
    ensures
        final(stack).capacity() == old(stack).capacity(),
        final(ctx).same_setting(old(ctx)),
        final(ctx).local_subrs == old(ctx).local_subrs,
        final(ctx).operators@ == old(ctx).operators@,
        match vsindex(cff2, old(ctx).state(old(stack)@)) {
            Ok(st) => r is Ok && final(ctx).state(final(stack)@) == st,
            Err(e) => r == Err::<(), CFFError>(e),
        },
{
    if !cff2 {
        Err(CFFError::InvalidOperator)
    } else if ctx.vsindex_set || ctx.blend_seen {
        Err(CFFError::DuplicateVsIndex)
    } else {
        ctx.vsindex_set = true;
        stack.clear();
        Ok(())
    }
}

/// Deals with `blend` in a CFF2 CharString.
fn scan_blend(ctx: &mut CharStringScannerContext<'_>, stack: &mut ArgumentsStack) -> (r: Result<
    (),
    CFFError,
>)
    ensures
        final(stack).capacity() == old(stack).capacity(),
        final(ctx).same_setting(old(ctx)),
        final(ctx).local_subrs == old(ctx).local_subrs,
        final(ctx).operators@ == old(ctx).operators@,
        match blend(old(ctx).state(old(stack)@)) {
            Ok(st) => r is Ok && final(ctx).state(final(stack)@) == st,
            Err(e) => r == Err::<(), CFFError>(e),
        },
{
    if stack.len() == 0 {
        return Err(CFFError::InvalidArgumentsStackLength);
    }
    let n = match u16::try_num_from(stack.pop()) {
        Some(n) => n as usize,
        None => {
            return Err(CFFError::InvalidArgumentsStackLength);
        },
    };
    let to_pop = match stack.len().checked_sub(n) {
        Some(to_pop) => to_pop,
        None => {
            return Err(CFFError::InvalidArgumentsStackLength);
        },
    };
    stack.pop_n(to_pop);
    ctx.blend_seen = true;
    assert(stack@ == old(stack)@.take(n as int));
    Ok(())
}

/// Deals with a hint mask operator and skips its mask.
fn scan_hint_mask(
    ctx: &mut CharStringScannerContext<'_>,
    s: &mut ReadCtxt<'_>,
    stack: &mut ArgumentsStack,
) -> (r: Result<(), CFFError>)
    requires
        1 <= old(s).pos() <= old(s).bytes().len(),
    ensures
        final(s).bytes() == old(s).bytes(),
        final(stack).capacity() == old(stack).capacity(),
        final(ctx).same_setting(old(ctx)),
        final(ctx).same_operators(old(ctx)),
        match hint_mask(old(ctx).state(old(stack)@), old(s).bytes(), old(s).pos() - 1) {
            Ok((st, next)) => r is Ok && final(ctx).state(final(stack)@) == st && final(s).pos()
                == next && old(s).pos() <= next <= old(s).bytes().len(),
            Err(e) => r == Err::<(), CFFError>(e),
        },
{
    match count_stems_of(ctx, stack) {
        Ok(_) => {},
        Err(e) => {
            return Err(e);
        },
    }
    let mask = ctx.stems_len / 8 + if ctx.stems_len % 8 != 0 {
        1
    } else {
        0
    };
    match s.skip(mask as usize) {
        Ok(_) => Ok(()),
        Err(_) => Err(CFFError::ParseError(ParseError::BadOffset)),
    }
}

/// Reads the number that the byte `op` starts and puts it on the stack.
fn scan_number(s: &mut ReadCtxt<'_>, op: u8, stack: &mut ArgumentsStack) -> (r: Result<
    (),
    CFFError,
>)
    requires
        1 <= old(s).pos() <= old(s).bytes().len(),
        old(s).bytes()[old(s).pos() - 1] == op,
        is_number(op),
        old(stack).capacity() == MAX_ARGUMENTS_STACK_LEN,
    ensures
        final(s).bytes() == old(s).bytes(),
        final(stack).capacity() == old(stack).capacity(),
        forall|st: ScanState|
            st.stack == old(stack)@ ==> match #[trigger] step_number(
                st,
                old(s).bytes(),
                old(s).pos() - 1,
            ) {
                Ok((st1, next)) => r is Ok && st1 == st.with_stack(final(stack)@) && final(s).pos()
                    == next && old(s).pos() <= next <= old(s).bytes().len(),
                Err(e) => r == Err::<(), CFFError>(e),
            },
{
    let number = if op == operator::SHORT_INT {
        match s.read_i16be() {
            Ok(n) => Operand::Int(n),
            Err(e) => {
                return Err(CFFError::ParseError(e));
            },
        }
    } else if op <= 246 {
        match parse_int1(op) {
            Ok(n) => n,
            Err(e) => {
                return Err(e);
            },
        }
    } else if op <= 250 {
        match parse_int2(op, s) {
            Ok(n) => n,
            Err(e) => {
                return Err(e);
            },
        }
    } else if op <= 254 {
        match parse_int3(op, s) {
            Ok(n) => n,
            Err(e) => {
                return Err(e);
            },
        }
    } else {
        match parse_fixed(s) {
            Ok(n) => n,
            Err(e) => {
                return Err(e);
            },
        }
    };
    stack.push(number)
}

/// Deals with the operator `op`, which neither ends the CharString nor calls another.
fn scan_operator(
    ctx: &mut CharStringScannerContext<'_>,
    cff2: bool,
    s: &mut ReadCtxt<'_>,
    op: u8,
    stack: &mut ArgumentsStack,
) -> (r: Result<(), CFFError>)
    requires
        1 <= old(s).pos() <= old(s).bytes().len(),
        old(s).bytes()[old(s).pos() - 1] == op,
        !is_number(op),
        !is_control(op),
    ensures
        final(s).bytes() == old(s).bytes(),
        final(stack).capacity() == old(stack).capacity(),
        final(ctx).same_setting(old(ctx)),
        final(ctx).local_subrs == old(ctx).local_subrs,
        match step_operator(cff2, old(ctx).state(old(stack)@), old(s).bytes(), old(s).pos() - 1) {
            Ok((st, next)) => {
                &&& r is Ok
                &&& final(ctx).state(final(stack)@) == st
                &&& final(s).pos() == next
                &&& old(s).pos() <= next <= old(s).bytes().len()
                &&& old(ctx).state(old(stack)@).vsindex_ordered() ==> st.vsindex_ordered()
            },
            Err(e) => r == Err::<(), CFFError>(e),
        },
{
    let ghost st0 = ctx.state(stack@);
    ctx.operators = Ghost(ctx.operators@.push(op));
    proof {
        if st0.vsindex_ordered() {
            if op == operator::BLEND {
                lemma_blend_ordered(st0.operators, st0.vsindex_set, st0.blend_seen);
            } else {
                lemma_record_ordered(st0.operators, st0.vsindex_set, st0.blend_seen, op);
                if op == operator::VS_INDEX && !st0.blend_seen {
                    lemma_vsindex_ordered(st0.operators, st0.vsindex_set);
                }
            }
        }
    }
    if op == 0 || op == 2 || op == 9 || op == 13 || op == 17 {
        Err(CFFError::InvalidOperator)
    } else if op == operator::HORIZONTAL_STEM || op == operator::VERTICAL_STEM || op
        == operator::HORIZONTAL_STEM_HINT_MASK || op == operator::VERTICAL_STEM_HINT_MASK {
        count_stems_of(ctx, stack)
    } else if op == operator::VERTICAL_MOVE_TO || op == operator::HORIZONTAL_MOVE_TO {
        scan_move(ctx, stack, 2);
        Ok(())
    } else if op == operator::MOVE_TO {
        scan_move(ctx, stack, 3);
        Ok(())
    } else if op == TWO_BYTE_OPERATOR_MARK {
        scan_two_byte(ctx, s, stack)
    } else if op == operator::VS_INDEX {
        scan_vsindex(ctx, cff2, stack)
    } else if op == operator::BLEND {
        if !cff2 {
            Err(CFFError::InvalidOperator)
        } else {
            scan_blend(ctx, stack)
        }
    } else if op == operator::HINT_MASK || op == operator::COUNTER_MASK {
        scan_hint_mask(ctx, s, stack)
    } else {
        stack.clear();
        Ok(())
    }
}

impl Operand {
    /// The integer that an operand stands for is that of a 16-bit integer,
    /// or one beyond.
    pub proof fn lemma_trunc_bounds(self)
        ensures
            -0x8000 <= self.spec_trunc() <= 0x8000,
    {
    }
}

/// Selects the subroutine that the topmost argument calls, and records it.
fn enter_subroutine<'a>(
    ctx: &mut CharStringScannerContext<'a>,
    font: CFFFont<'a>,
    local: bool,
    depth: u8,
    stack: &mut ArgumentsStack,
) -> (r: Result<&'a [u8], CFFError>)
    requires
        old(ctx).wf(font),
    ensures
        final(ctx).wf(font),
        final(ctx).same_setting(old(ctx)),
        final(stack).capacity() == old(stack).capacity(),
        match enter_subr(
            old(ctx).env(font),
            old(ctx).state(old(stack)@),
            local,
            depth as int,
        ) {
            Ok((subr, st)) => {
                &&& r matches Ok(code)
                &&& code@ == subr
                &&& depth < STACK_LIMIT
                &&& final(ctx).state(final(stack)@) == st
                &&& old(ctx).state(old(stack)@).used_in_range(old(ctx).env(font))
                    ==> st.used_in_range(old(ctx).env(font))
                &&& st.vsindex_ordered() == old(ctx).state(old(stack)@).vsindex_ordered()
                &&& st.has_endchar == old(ctx).has_endchar
                &&& st.has_seac == old(ctx).has_seac
            },
            Err(e) => r matches Err(x) && x == e,
        },
{
    if stack.is_empty() {
        return Err(CFFError::InvalidArgumentsStackLength);
    }
    if depth >= STACK_LIMIT {
        return Err(CFFError::NestingLimitReached);
    }
    let subrs: &'a ObjectIndex = if local {
        // The local subroutines of a CID-keyed font depend on the glyph;
        // they are only looked up once a glyph calls one.
        if ctx.local_subrs.is_none() {
            ctx.local_subrs = resolve_local_subrs(font, ctx.glyph_id);
        }
        match ctx.local_subrs {
            Some(subrs) => subrs,
            None => {
                return Err(CFFError::NoLocalSubroutines);
            },
        }
    } else {
        ctx.global_subr_index
    };
    let bias = calc_subroutine_bias(subrs.len());
    let operand = stack.pop();
    let index = match conv_subroutine_index(operand, bias) {
        Ok(index) => index,
        Err(e) => {
            return Err(e);
        },
    };
    let char_string = match subrs.read_object(index) {
        Some(char_string) => char_string,
        None => {
            return Err(CFFError::InvalidSubroutineIndex);
        },
    };
    if local {
        subr_set_insert(&mut ctx.local_subr_used, index);
    } else {
        subr_set_insert(&mut ctx.global_subr_used, index);
    }
    proof {
        operand.lemma_trunc_bounds();
        assert(recorded_index_ok(index, subrs@.len()));
    }
    Ok(char_string)
}

/// Deals with the call of a subroutine: scans the subroutine that the
/// topmost argument selects.
fn call_subroutine<'a>(
    ctx: &mut CharStringScannerContext<'a>,
    font: CFFFont<'a>,
    local: bool,
    depth: u8,
    stack: &mut ArgumentsStack,
) -> (r: Result<(), CFFError>)
    requires
        old(ctx).wf(font),
        depth <= STACK_LIMIT,
        old(stack).capacity() == MAX_ARGUMENTS_STACK_LEN,
    ensures
        final(ctx).wf(font),
        final(ctx).same_setting(old(ctx)),
        final(stack).capacity() == old(stack).capacity(),
        match call_subr(old(ctx).env(font), old(ctx).state(old(stack)@), local, depth as int) {
            Ok(st) => {
                &&& r is Ok
                &&& final(ctx).state(final(stack)@) == st
                &&& nested_laws(old(ctx).env(font), old(ctx).state(old(stack)@), st)
            },
            Err(e) => r == Err::<(), CFFError>(e),
        },
    decreases STACK_LIMIT - depth, 0int,
{
    let char_string = match enter_subroutine(ctx, font, local, depth, stack) {
        Ok(char_string) => char_string,
        Err(e) => {
            return Err(e);
        },
    };
    scan_used_subrs(ctx, font, char_string, depth + 1, stack)
}

/// Deals with `endchar` in a CharString of the CFF font `cff`. `more` says
/// whether bytes follow the operator.
fn scan_endchar<'a>(
    ctx: &mut CharStringScannerContext<'a>,
    font: CFFFont<'a>,
    more: bool,
    depth: u8,
    stack: &mut ArgumentsStack,
) -> (r: Result<(), CFFError>)
    requires
        old(ctx).wf(font),
        font is CFF,
        depth <= STACK_LIMIT,
        old(stack).capacity() == MAX_ARGUMENTS_STACK_LEN,
    ensures
        final(ctx).wf(font),
        final(ctx).same_setting(old(ctx)),
        final(stack).capacity() == old(stack).capacity(),
        match end_char(old(ctx).env(font), old(ctx).state(old(stack)@), more, depth as int) {
            Ok(st) => {
                &&& r is Ok
                &&& !more
                &&& st.has_endchar
                &&& final(ctx).state(final(stack)@) == st
                &&& nested_laws(old(ctx).env(font), old(ctx).state(old(stack)@), st)
            },
            Err(e) => r == Err::<(), CFFError>(e),
        },
    decreases STACK_LIMIT - depth, 0int,
{
    let ghost env = ctx.env(font);
    let ghost st0 = ctx.state(stack@);
    if stack.len() == 4 || (!ctx.width_parsed && stack.len() == 5) {
        let cff = match font {
            CFFFont::CFF(cff) => cff,
            CFFFont::CFF2(_) => {
                return Err(CFFError::InvalidOperator);
            },
        };
        let accent_char = match cff.seac_code_to_glyph_id(stack.pop()) {
            Some(glyph) => glyph,
            None => {
                return Err(CFFError::InvalidSeacCode);
            },
        };
        let base_char = match cff.seac_code_to_glyph_id(stack.pop()) {
            Some(glyph) => glyph,
            None => {
                return Err(CFFError::InvalidSeacCode);
            },
        };
        let _dy = stack.pop();
        let _dx = stack.pop();
        if !ctx.width_parsed {
            if !stack.is_empty() {
                stack.pop();
            }
            ctx.width_parsed = true;
        }
        ctx.has_seac = true;
        assert(stack@ == Seq::<Operand>::empty());
        if depth >= STACK_LIMIT {
            return Err(CFFError::NestingLimitReached);
        }
        let char_strings: &'a ObjectIndex = ctx.char_strings_index;
        let base_char_string = match char_strings.read_object(base_char as usize) {
            Some(char_string) => char_string,
            None => {
                return Err(CFFError::InvalidSeacCode);
            },
        };
        match scan_used_subrs(ctx, font, base_char_string, depth + 1, stack) {
            Ok(_) => {},
            Err(e) => {
                return Err(e);
            },
        }
        let accent_char_string = match char_strings.read_object(accent_char as usize) {
            Some(char_string) => char_string,
            None => {
                return Err(CFFError::InvalidSeacCode);
            },
        };
        match scan_used_subrs(ctx, font, accent_char_string, depth + 1, stack) {
            Ok(_) => {},
            Err(e) => {
                return Err(e);
            },
        }
    } else if stack.len() == 1 && !ctx.width_parsed {
        stack.pop();
        ctx.width_parsed = true;
    }
    if more {
        return Err(CFFError::DataAfterEndChar);
    }
    ctx.has_endchar = true;
    Ok(())
}

/// Scans the CharString `char_string` at the nesting `depth`.
#[verifier::rlimit(60)]
fn scan_used_subrs<'a>(
    ctx: &mut CharStringScannerContext<'a>,
    font: CFFFont<'a>,
    char_string: &[u8],
    depth: u8,
    stack: &mut ArgumentsStack,
) -> (r: Result<(), CFFError>)
    requires
        old(ctx).wf(font),
        depth <= STACK_LIMIT,
        old(stack).capacity() == MAX_ARGUMENTS_STACK_LEN,
    ensures
        final(ctx).wf(font),
        final(ctx).same_setting(old(ctx)),
        final(stack).capacity() == old(stack).capacity(),
        scan_result(
            old(ctx).env(font),
            old(ctx).state(old(stack)@),
            char_string@,
            depth as int,
            final(ctx).state(final(stack)@),
            r,
        ),
    decreases STACK_LIMIT - depth, 1int,
{
    let cff2 = match font {
        CFFFont::CFF(_) => false,
        CFFFont::CFF2(_) => true,
    };
    let ghost env = ctx.env(font);
    let ghost st0 = ctx.state(stack@);
    let ghost code = char_string@;
    let mut s = ReadScope::new(char_string).ctxt();
    while s.bytes_available()
        invariant
            s.bytes() == code,
            code == char_string@,
            0 <= s.pos() <= code.len(),
            ctx.wf(font),
            ctx.same_setting(old(ctx)),
            env == old(ctx).env(font),
            cff2 == (font is CFF2),
            st0 == old(ctx).state(old(stack)@),
            stack.capacity() == MAX_ARGUMENTS_STACK_LEN,
            old(stack).capacity() == MAX_ARGUMENTS_STACK_LEN,
            depth <= STACK_LIMIT,
            scan(env, st0, code, 0, depth as int) == scan(
                env,
                ctx.state(stack@),
                code,
                s.pos(),
                depth as int,
            ),
            nested_laws(env, st0, ctx.state(stack@)),
            st0.has_endchar || !ctx.has_endchar || ctx.has_seac,
        decreases code.len() - s.pos(),
    {
        let ghost st = ctx.state(stack@);
        let ghost pos = s.pos();
        let op = match s.read_u8() {
            Ok(op) => op,
            Err(e) => {
                return Err(CFFError::ParseError(e));
            },
        };
        if op == operator::CALL_LOCAL_SUBROUTINE || op == operator::CALL_GLOBAL_SUBROUTINE {
            ctx.operators = Ghost(ctx.operators@.push(op));
            proof {
                if st.vsindex_ordered() {
                    lemma_record_ordered(st.operators, st.vsindex_set, st.blend_seen, op);
                }
            }
            match call_subroutine(ctx, font, op == operator::CALL_LOCAL_SUBROUTINE, depth, stack) {
                Ok(_) => {},
                Err(e) => {
                    return Err(e);
                },
            }
            if ctx.has_endchar && !ctx.has_seac {
                if s.bytes_available() {
                    return Err(CFFError::DataAfterEndChar);
                }
                return Ok(());
            }
        } else if op == operator::RETURN {
            if cff2 {
                return Err(CFFError::InvalidOperator);
            }
            ctx.operators = Ghost(ctx.operators@.push(op));
            proof {
                if st.vsindex_ordered() {
                    lemma_record_ordered(st.operators, st.vsindex_set, st.blend_seen, op);
                }
            }
            return Ok(());
        } else if op == operator::ENDCHAR {
            if cff2 {
                return Err(CFFError::InvalidOperator);
            }
            ctx.operators = Ghost(ctx.operators@.push(op));
            proof {
                if st.vsindex_ordered() {
                    lemma_record_ordered(st.operators, st.vsindex_set, st.blend_seen, op);
                }
            }
            let more = s.bytes_available();
            return scan_endchar(ctx, font, more, depth, stack);
        } else if op >= 32 || op == operator::SHORT_INT {
            match scan_number(&mut s, op, stack) {
                Ok(_) => {},
                Err(e) => {
                    return Err(e);
                },
            }
        } else {
            match scan_operator(ctx, cff2, &mut s, op, stack) {
                Ok(_) => {},
                Err(e) => {
                    return Err(e);
                },
            }
        }
    }
    Ok(())
}

/// Finds the subroutines that the CharString `char_string` of the glyph
/// `glyph_id` uses, directly or through other subroutines.
///
/// The result is that of [`spec_used_subrs`]. Where the scan succeeds, every
/// subroutine found exists in its INDEX; a CharString of a CFF font has met
/// `endchar`, and has ended with its last byte unless it met an accented
/// character and then `return`; and where `vsindex` was met, it was met
/// before any `blend`.
pub fn char_string_used_subrs<'a>(
    font: CFFFont<'a>,
    char_strings_index: &'a ObjectIndex,
    global_subr_index: &'a ObjectIndex,
    char_string: &'a [u8],
    glyph_id: GlyphId,
) -> (r: Result<UsedSubrs, CFFError>)
    ensures
        match spec_used_subrs(
            scan_env(font, char_strings_index, global_subr_index, glyph_id),
            char_string@,
        ) {
            Ok((global, local)) => r matches Ok(used) && subr_set(used.global_subr_used) == global
                && subr_set(used.local_subr_used) == local,
            Err(e) => r matches Err(x) && x == e,
        },
        r is Ok ==> used_subrs_laws(
            scan_env(font, char_strings_index, global_subr_index, glyph_id),
            char_string@,
        ),
{
    let local_subrs = match font {
        CFFFont::CFF(cff) => match &cff.data {
            // Selected once a CharString calls a local subroutine.
            CFFVariant::CID(_) => None,
            CFFVariant::Type1(_) => resolve_local_subrs(font, glyph_id),
        },
        CFFFont::CFF2(_) => resolve_local_subrs(font, glyph_id),
    };
    let mut ctx = CharStringScannerContext {
        char_strings_index,
        global_subr_index,
        width_parsed: false,
        stems_len: 0,
        has_endchar: false,
        has_seac: false,
        vsindex_set: false,
        blend_seen: false,
        glyph_id,
        local_subrs,
        global_subr_used: subr_set_new(),
        local_subr_used: subr_set_new(),
        operators: Ghost(Seq::empty()),
    };
    let mut stack = ArgumentsStack::new(MAX_ARGUMENTS_STACK_LEN);
    assert(ctx.state(stack@) == ScanState::initial());
    match scan_used_subrs(&mut ctx, font, char_string, 0, &mut stack) {
        Ok(_) => {},
        Err(e) => {
            return Err(e);
        },
    }
    let cff1 = match font {
        CFFFont::CFF(_) => true,
        CFFFont::CFF2(_) => false,
    };
    if cff1 && !ctx.has_endchar {
        return Err(CFFError::MissingEndChar);
    }
    Ok(UsedSubrs { global_subr_used: ctx.global_subr_used, local_subr_used: ctx.local_subr_used })
}


/// A number or an operator that neither ends the CharString nor calls
/// another leaves the subroutines recorded as they are, keeps a `vsindex`
/// that was met ahead of every `blend`, and ends within the CharString.
pub proof fn lemma_step_laws(env: ScanEnv, st: ScanState, code: Seq<u8>, pos: int)
    requires
        0 <= pos < code.len(),
        step(env.cff2, st, code, pos) is Ok,
    ensures
        ({
            let (st1, next) = step(env.cff2, st, code, pos)->Ok_0;
            &&& nested_laws(env, st, st1)
            &&& st1.has_endchar == st.has_endchar
            &&& st1.has_seac == st.has_seac
            &&& st1.global_subr_used == st.global_subr_used
            &&& st1.local_subr_used == st.local_subr_used
            &&& next <= code.len()
        }),
{
    let op = code[pos];
    if !is_number(op) && st.vsindex_ordered() {
        if op == operator::BLEND {
            lemma_blend_ordered(st.operators, st.vsindex_set, st.blend_seen);
        } else if op == operator::VS_INDEX {
            if !st.blend_seen {
                lemma_vsindex_ordered(st.operators, st.vsindex_set);
            }
        } else {
            lemma_record_ordered(st.operators, st.vsindex_set, st.blend_seen, op);
        }
    }
}

/// What holds of every successful scan of a CharString `code` from the
/// position `pos` on, whatever the font and the state in which it starts.
///
/// The subroutines recorded stay in range, and a `vsindex` met stays ahead of
/// every `blend`. What was met of `endchar` and of an accented character
/// stays met. The scan ends at the end of `code` or, in a CFF font, behind a
/// `return`; and where it met `endchar` and no accented character, it ends
/// at the end of `code`.
pub proof fn lemma_scan_laws(env: ScanEnv, st0: ScanState, code: Seq<u8>, pos: int, depth: int)
    requires
        0 <= pos <= code.len(),
        scan(env, st0, code, pos, depth) is Ok,
    ensures
        ({
            let (st, stop) = scan(env, st0, code, pos, depth)->Ok_0;
            &&& nested_laws(env, st0, st)
            &&& st0.has_endchar ==> st.has_endchar
            &&& st0.has_seac ==> st.has_seac
            &&& pos <= stop <= code.len()
            &&& stop == code.len() || (!env.cff2 && pos < stop && code[stop - 1]
                == operator::RETURN)
            &&& !st0.has_endchar && st.has_endchar && !st.has_seac ==> stop == code.len()
        }),
    decreases STACK_LIMIT - depth, code.len() - pos,
{
    reveal_with_fuel(scan, 2);
    reveal_with_fuel(call_subr, 2);
    reveal_with_fuel(end_char, 2);
    if pos < code.len() {
        let op = code[pos];
        let next = pos + 1;
        if op == operator::CALL_LOCAL_SUBROUTINE || op == operator::CALL_GLOBAL_SUBROUTINE {
            let local = op == operator::CALL_LOCAL_SUBROUTINE;
            let st_r = st0.record(op);
            if st0.vsindex_ordered() {
                lemma_record_ordered(st0.operators, st0.vsindex_set, st0.blend_seen, op);
            }
            let (subr, st_e) = enter_subr(env, st_r, local, depth)->Ok_0;
            st_r.stack.last().lemma_trunc_bounds();
            assert(nested_laws(env, st0, st_e));
            lemma_scan_laws(env, st_e, subr, 0, depth + 1);
            let st_c = scan(env, st_e, subr, 0, depth + 1)->Ok_0.0;
            if !(st_c.has_endchar && !st_c.has_seac) {
                lemma_scan_laws(env, st_c, code, next, depth);
            }
        } else if op == operator::RETURN {
            if st0.vsindex_ordered() {
                lemma_record_ordered(st0.operators, st0.vsindex_set, st0.blend_seen, op);
            }
        } else if op == operator::ENDCHAR {
            let st_r = st0.record(op);
            if st0.vsindex_ordered() {
                lemma_record_ordered(st0.operators, st0.vsindex_set, st0.blend_seen, op);
            }
            if is_seac(st_r) {
                let (base, accent, st_e) = enter_seac(env, st_r, depth)->Ok_0;
                assert(nested_laws(env, st0, st_e));
                lemma_scan_laws(env, st_e, base, 0, depth + 1);
                let st_b = scan(env, st_e, base, 0, depth + 1)->Ok_0.0;
                lemma_scan_laws(env, st_b, env.char_strings[accent as int], 0, depth + 1);
            }
        } else {
            lemma_step_laws(env, st0, code, pos);
            let (st1, after) = step(env.cff2, st0, code, pos)->Ok_0;
            lemma_scan_laws(env, st1, code, after, depth);
        }
    }
}

/// Every successful scan of the CharString of a glyph, of any font, has
/// what [`used_subrs_laws`] states.
///
/// A CharString of a CFF font that is accepted has met `endchar`, and its
/// scan ended with the last byte of `code`, unless an accented character was
/// met and the scan ended at a `return`. Where a CharString of a CFF2 font
/// met `vsindex`, it met one before any `blend`. Every subroutine found
/// exists in its INDEX, and the operand that called it leads back to it.
pub proof fn lemma_used_subrs_laws(env: ScanEnv, code: Seq<u8>)
    requires
        spec_used_subrs(env, code) is Ok,
    ensures
        used_subrs_laws(env, code),
{
    lemma_scan_laws(env, ScanState::initial(), code, 0, 0);
}

/// The state after the numbers and operators of `code` from `pos` up to
/// `end`, where none of them ends the CharString or calls another and the
/// last of them ends at `end`.
pub open spec fn steps(cff2: bool, st: ScanState, code: Seq<u8>, pos: int, end: int) -> Option<
    ScanState,
>
    decreases end - pos,
{
    if pos == end {
        Some(st)
    } else if pos < 0 || pos > end || pos >= code.len() || is_control(code[pos]) {
        None
    } else {
        match step(cff2, st, code, pos) {
            Ok((st, next)) => if next <= pos || next > end {
                None
            } else {
                steps(cff2, st, code, next, end)
            },
            Err(_) => None,
        }
    }
}

/// A scan goes through numbers and operators that neither end the
/// CharString nor call another one by one, and records no subroutine there.
pub proof fn lemma_steps_scan(
    env: ScanEnv,
    st: ScanState,
    code: Seq<u8>,
    pos: int,
    end: int,
    depth: int,
)
    requires
        0 <= depth <= STACK_LIMIT,
        steps(env.cff2, st, code, pos, end) is Some,
    ensures
        scan(env, st, code, pos, depth) == scan(
            env,
            steps(env.cff2, st, code, pos, end)->Some_0,
            code,
            end,
            depth,
        ),
        steps(env.cff2, st, code, pos, end)->Some_0.global_subr_used == st.global_subr_used,
        steps(env.cff2, st, code, pos, end)->Some_0.local_subr_used == st.local_subr_used,
        steps(env.cff2, st, code, pos, end)->Some_0.has_endchar == st.has_endchar,
    decreases end - pos,
{
    if pos != end {
        let (st1, next) = step(env.cff2, st, code, pos)->Ok_0;
        lemma_step_laws(env, st, code, pos);
        lemma_steps_scan(env, st1, code, next, end, depth);
    }
}

/// The number of the global subroutine that the topmost argument of `st`
/// calls in a font with the subroutines of `env`.
pub open spec fn called_global(env: ScanEnv, st: ScanState) -> Option<usize> {
    spec_conv_subroutine_index(
        st.stack.last(),
        spec_subroutine_bias(env.global_subrs.len() as int) as u16,
    )
}

/// A glyph of a CFF2 font that calls one global subroutine uses that
/// subroutine and no other.
///
/// The CharString `code` holds numbers and operators, none of which calls a
/// subroutine, and ends with the call of a global subroutine. The
/// subroutine holds numbers and operators such as `blend`, and calls no
/// other. Then the global subroutines used are the one that the topmost
/// argument before the call selects, and no local subroutine is used.
pub proof fn lemma_single_global_call(env: ScanEnv, code: Seq<u8>)
    requires
        env.cff2,
        code.len() > 0,
        code.last() == operator::CALL_GLOBAL_SUBROUTINE,
        steps(true, ScanState::initial(), code, 0, code.len() - 1) matches Some(st) && enter_subr(
            env,
            st.record(operator::CALL_GLOBAL_SUBROUTINE),
            false,
            0,
        ) matches Ok((subr, st1)) && steps(true, st1, subr, 0, subr.len() as int) is Some,
    ensures
        steps(true, ScanState::initial(), code, 0, code.len() - 1) matches Some(st)
            && called_global(env, st) matches Some(k) && k < env.global_subrs.len()
            && spec_used_subrs(env, code) == Ok::<(Set<usize>, Set<usize>), CFFError>(
            (set![k], Set::empty()),
        ),
{
    reveal_with_fuel(scan, 2);
    reveal_with_fuel(call_subr, 2);
    let call = code.len() - 1;
    let st = steps(true, ScanState::initial(), code, 0, call)->Some_0;
    let st_r = st.record(operator::CALL_GLOBAL_SUBROUTINE);
    let (subr, st1) = enter_subr(env, st_r, false, 0)->Ok_0;
    let st2 = steps(true, st1, subr, 0, subr.len() as int)->Some_0;
    lemma_steps_scan(env, ScanState::initial(), code, 0, call, 0);
    lemma_steps_scan(env, st1, subr, 0, subr.len() as int, 1);
    assert(scan(env, st2, subr, subr.len() as int, 1) == Ok::<(ScanState, int), CFFError>(
        (st2, subr.len() as int),
    ));
    assert(call_subr(env, st_r, false, 0) == Ok::<ScanState, CFFError>(st2));
    assert(!st2.has_endchar);
    assert(scan(env, st2, code, call + 1, 0) == Ok::<(ScanState, int), CFFError>(
        (st2, call + 1),
    ));
    assert(scan(env, st, code, call, 0) == Ok::<(ScanState, int), CFFError>((st2, call + 1)));
    assert(st2.global_subr_used == Set::<usize>::empty().insert(called_global(env, st)->Some_0));
    assert(st2.local_subr_used == Set::<usize>::empty());
}

} // verus!
