//! Tables and records that variable fonts share.
//!
//! The tuple variation store holds the deltas of the `gvar` and `cvar`
//! tables: a list of headers, each for a region of the variation space, and
//! for each header a packed list of point numbers and of deltas. The item
//! variation store holds rows of deltas for the values of other tables.

use core::marker::PhantomData;
use std::borrow::Cow;
use vstd::prelude::*;

use crate::binary::{
    get_i16_be, i16_be, i8_at, lemma_append_assoc, u16_be, F2Dot14, Fixed, ReadArray, ReadCtxt,
    ReadFrom, ReadScope,
};
use crate::error::ParseError;
use crate::tables::variable_fonts::gvar::{GvarTable, NumPoints};

pub mod avar;
pub mod gvar;

verus! {

/// Flag indicating that some or all tuple variation tables reference a shared
/// set of point numbers, which stand at the start of the serialized data.
pub const SHARED_POINT_NUMBERS: u16 = 0x8000;

/// Mask for the low bits to give the number of tuple variation tables.
pub const COUNT_MASK: u16 = 0x0FFF;

/// Flag of a control byte indicating that the point numbers of its run are
/// 16-bit values rather than bytes.
pub const POINTS_ARE_WORDS: u8 = 0x80;

/// Mask for the low 7 bits of a control byte to give the number of point
/// numbers in its run, minus one.
pub const POINT_RUN_COUNT_MASK: u8 = 0x7F;

/// Flag indicating that a tuple variation header includes an embedded peak
/// tuple record, immediately after the tuple index.
pub const EMBEDDED_PEAK_TUPLE: u16 = 0x8000;

/// Flag indicating that a tuple variation table applies to an intermediate
/// region, whose start and end tuples follow the peak tuple.
pub const INTERMEDIATE_REGION: u16 = 0x4000;

/// Flag indicating that the serialized data of a tuple variation table
/// starts with point numbers of its own.
pub const PRIVATE_POINT_NUMBERS: u16 = 0x2000;

/// Mask for the low 12 bits to give the index of a shared tuple record.
pub const TUPLE_INDEX_MASK: u16 = 0x0FFF;

/// Flag of a control byte indicating that its run holds no data and that all
/// deltas of the run are zero.
pub const DELTAS_ARE_ZERO: u8 = 0x80;

/// Flag of a control byte indicating that the deltas of its run are 16-bit
/// values rather than bytes.
pub const DELTAS_ARE_WORDS: u8 = 0x40;

/// Mask for the low 6 bits of a control byte to give the number of deltas in
/// its run, minus one.
pub const DELTA_RUN_COUNT_MASK: u8 = 0x3F;

/// The numbers of the points, or of the control values, that deltas are given for.
#[derive(Clone, Debug, PartialEq, Eq)]
pub enum PointNumbers {
    /// All of them; the count is that of the glyph's points with its four
    /// phantom points, or that of the control values.
    All(u32),
    /// The listed ones.
    Specific(Vec<u16>),
}

/// What a value of `PointNumbers` stands for.
pub enum PointSet {
    /// All points, of which there are so many.
    All(u32),
    /// The listed points.
    Specific(Seq<u16>),
}

impl PointSet {
    /// The point numbers, in order.
    pub open spec fn numbers(self) -> Seq<u32> {
        match self {
            PointSet::All(n) => Seq::new(n as nat, |i: int| i as u32),
            PointSet::Specific(numbers) => Seq::new(numbers.len(), |i: int| numbers[i] as u32),
        }
    }
}

impl View for PointNumbers {
    type V = PointSet;

    open spec fn view(&self) -> PointSet {
        match self {
            PointNumbers::All(n) => PointSet::All(*n),
            PointNumbers::Specific(numbers) => PointSet::Specific(numbers@),
        }
    }
}

impl PointNumbers {
    /// The number of point numbers.
    pub fn len(&self) -> (n: usize)
        ensures
            n == self@.numbers().len(),
    {
        match self {
            PointNumbers::All(n) => *n as usize,
            PointNumbers::Specific(numbers) => numbers.len(),
        }
    }

    /// The point number at `index`, which must be in range.
    pub fn get(&self, index: usize) -> (n: u32)
        requires
            index < self@.numbers().len(),
        ensures
            n == self@.numbers()[index as int],
    {
        match self {
            PointNumbers::All(_) => index as u32,
            PointNumbers::Specific(numbers) => numbers[index] as u32,
        }
    }

    /// The point numbers, in order.
    pub fn iter(&self) -> (numbers: Vec<u32>)
        ensures
            numbers@ == self@.numbers(),
    {
        let mut numbers: Vec<u32> = Vec::new();
        let len = self.len();
        let mut index: usize = 0;
        while index < len
            invariant
                index <= len,
                len == self@.numbers().len(),
                numbers@ == self@.numbers().take(index as int),
            decreases len - index,
        {
            numbers.push(self.get(index));
            index = index + 1;
            assert(numbers@ =~= self@.numbers().take(index as int));
        }
        assert(self@.numbers().take(len as int) =~= self@.numbers());
        numbers
    }
}

/// The count that `b` holds at `at`, and the position behind it.
///
/// A first byte below 128 is the count. Otherwise its low seven bits are the
/// high byte and the byte after it is the low byte of the count.
pub open spec fn spec_read_count(b: Seq<u8>, at: int) -> Result<(u16, int), ParseError> {
    if at < 0 || at + 1 > b.len() {
        Err(ParseError::BadEof)
    } else if b[at] < 128 {
        Ok((b[at] as u16, at + 1))
    } else if at + 2 > b.len() {
        Err(ParseError::BadEof)
    } else {
        Ok((((b[at] - 128) * 256 + b[at + 1]) as u16, at + 2))
    }
}

/// The outcome `r` and the cursor `after` are those of a parser that gives
/// `expected` for the bytes at the cursor `before`.
pub open spec fn parsed<T>(
    before: &ReadCtxt<'_>,
    after: &ReadCtxt<'_>,
    r: Result<T, ParseError>,
    expected: Result<(T, int), ParseError>,
) -> bool {
    &&& after.bytes() == before.bytes()
    &&& 0 <= before.pos() <= after.pos() <= after.bytes().len()
    &&& match expected {
        Ok((value, end)) => r == Ok::<T, ParseError>(value) && after.pos() == end,
        Err(e) => r == Err::<T, ParseError>(e),
    }
}

/// Reads the count of a list of packed point numbers.
///
/// A count of zero says that the deltas are for all points.
pub fn read_count(ctxt: &mut ReadCtxt<'_>) -> (r: Result<u16, ParseError>)
    ensures
        parsed(old(ctxt), final(ctxt), r, spec_read_count(old(ctxt).bytes(), old(ctxt).pos())),
{
    let count1 = ctxt.read_u8()? as u16;
    let count = if count1 < 128 {
        count1
    } else {
        let count2 = ctxt.read_u8()? as u16;
        assert(((count1 & 0x7F) << 8) | count2 == (count1 - 128) * 256 + count2) by (bit_vector)
            requires
                128 <= count1 < 256,
                count2 < 256,
        ;
        ((count1 & 0x7F) << 8) | count2
    };
    Ok(count)
}

/// The number of values in the run of packed point numbers with the control byte `control`.
pub open spec fn point_run_count(control: u8) -> int {
    control % 128 + 1
}

/// Whether the values in the run with the control byte `control` are 16-bit values.
pub open spec fn points_are_words(control: u8) -> bool {
    control >= 128
}

/// The `run` values that `b` holds at `at`, as 16-bit values or as bytes.
pub open spec fn spec_point_run(b: Seq<u8>, at: int, run: int, words: bool) -> Seq<u16> {
    Seq::new(
        run as nat,
        |i: int|
            if words {
                u16_be(b, at + 2 * i) as u16
            } else {
                b[at + i] as u16
            },
    )
}

/// The `count` values of the runs that `b` holds from `at` on, and the
/// position behind the last of these runs.
///
/// A run that holds more values than are left to read is a `BadValue`.
pub open spec fn spec_point_runs(b: Seq<u8>, at: int, count: int) -> Result<
    (Seq<u16>, int),
    ParseError,
>
    decreases b.len() - at,
{
    if count <= 0 {
        Ok((Seq::empty(), at))
    } else if at < 0 || at + 1 > b.len() {
        Err(ParseError::BadEof)
    } else if point_run_count(b[at]) > count {
        Err(ParseError::BadValue)
    } else {
        let run = point_run_count(b[at]);
        let words = points_are_words(b[at]);
        let end = at + 1 + if words {
            2 * run
        } else {
            run
        };
        if end > b.len() {
            Err(ParseError::BadEof)
        } else {
            match spec_point_runs(b, end, count - run) {
                Ok((rest, end)) => Ok((spec_point_run(b, at + 1, run, words) + rest, end)),
                Err(e) => Err(e),
            }
        }
    }
}

/// The sum of the first `n` of `deltas`.
pub open spec fn running_sum(deltas: Seq<u16>, n: int) -> int
    decreases n,
{
    if n <= 0 {
        0
    } else {
        running_sum(deltas, n - 1) + deltas[n - 1]
    }
}

/// The point numbers that the differences `deltas` stand for: each is the
/// sum of the differences up to its place.
pub open spec fn spec_point_numbers(deltas: Seq<u16>) -> Seq<u16> {
    Seq::new(deltas.len(), |i: int| running_sum(deltas, i + 1) as u16)
}

/// Whether one of the differences `deltas` behind the first is zero, so
/// that a point number would come twice.
pub open spec fn has_zero_difference(deltas: Seq<u16>) -> bool {
    exists|i: int| 1 <= i < deltas.len() && #[trigger] deltas[i] == 0
}

/// The point numbers that `b` holds at `at` in packed form, for a glyph of
/// `num_points` points, and the position behind them.
///
/// A count of zero stands for all points. Otherwise runs of differences
/// follow, as many differences as the count says. The point numbers are
/// distinct and increase: a difference of zero behind the first is a
/// `BadValue`, and so is a point number beyond 65535.
pub open spec fn spec_read_packed_point_numbers(b: Seq<u8>, at: int, num_points: u32) -> Result<
    (PointSet, int),
    ParseError,
> {
    match spec_read_count(b, at) {
        Err(e) => Err(e),
        Ok((count, at)) => if count == 0 {
            Ok((PointSet::All(num_points), at))
        } else {
            match spec_point_runs(b, at, count as int) {
                Err(e) => Err(e),
                Ok((deltas, end)) => if has_zero_difference(deltas) || running_sum(
                    deltas,
                    deltas.len() as int,
                ) > u16::MAX {
                    Err(ParseError::BadValue)
                } else {
                    Ok((PointSet::Specific(spec_point_numbers(deltas)), end))
                },
            }
        },
    }
}

/// The outcome `r` and the cursor `after` are those of a parser whose result
/// stands for `expected`, for the bytes at the cursor `before`.
pub open spec fn parsed_view<T: View>(
    before: &ReadCtxt<'_>,
    after: &ReadCtxt<'_>,
    r: Result<T, ParseError>,
    expected: Result<(T::V, int), ParseError>,
) -> bool {
    &&& after.bytes() == before.bytes()
    &&& 0 <= before.pos() <= after.pos() <= after.bytes().len()
    &&& match expected {
        Ok((value, end)) => r matches Ok(v) && v@ == value && after.pos() == end,
        Err(e) => r matches Err(x) && x == e,
    }
}

/// The masks of a control byte of packed point numbers give its run length
/// and tell bytes from 16-bit values.
proof fn lemma_point_control(control: u8)
    ensures
        (control & POINT_RUN_COUNT_MASK) + 1 == point_run_count(control),
        (control & POINTS_ARE_WORDS == POINTS_ARE_WORDS) == points_are_words(control),
{
    assert(control & 0x7F == control % 128) by (bit_vector);
    assert((control & 0x80 == 0x80) == (control >= 128)) by (bit_vector);
}

/// Reads the `count` values of the runs of packed point numbers.
fn read_point_runs(ctxt: &mut ReadCtxt<'_>, count: u16) -> (r: Result<Vec<u16>, ParseError>)
    ensures
        parsed_view(
            old(ctxt),
            final(ctxt),
            r,
            spec_point_runs(old(ctxt).bytes(), old(ctxt).pos(), count as int),
        ),
{
    let ghost b = ctxt.bytes();
    let ghost start = ctxt.pos();
    let mut deltas: Vec<u16> = Vec::new();
    let _ = ctxt.offset();
    while deltas.len() < count as usize
        invariant
            ctxt.bytes() == b,
            b == old(ctxt).bytes(),
            start == old(ctxt).pos(),
            0 <= start <= ctxt.pos() <= b.len(),
            deltas@.len() <= count,
            spec_point_runs(b, start, count as int) == match spec_point_runs(
                b,
                ctxt.pos(),
                count - deltas@.len(),
            ) {
                Ok((rest, end)) => Ok::<(Seq<u16>, int), ParseError>((deltas@ + rest, end)),
                Err(e) => Err::<(Seq<u16>, int), ParseError>(e),
            },
        decreases b.len() - ctxt.pos(),
    {
        let ghost at = ctxt.pos();
        let ghost before = deltas@;
        let control_byte = ctxt.read_u8()?;
        let point_run_count = (control_byte & POINT_RUN_COUNT_MASK) as usize + 1;
        proof {
            lemma_point_control(control_byte);
        }
        if point_run_count > count as usize - deltas.len() {
            return Err(ParseError::BadValue);
        }
        let words = (control_byte & POINTS_ARE_WORDS) == POINTS_ARE_WORDS;
        if words {
            // Points are words (2 bytes)
            let array = ctxt.read_array::<u16>(point_run_count)?;
            let mut i: usize = 0;
            while i < point_run_count
                invariant
                    i <= point_run_count,
                    array.spec_len() == point_run_count,
                    array.bytes() == b.subrange(at + 1, at + 1 + 2 * point_run_count),
                    at + 1 + 2 * point_run_count <= b.len(),
                    0 <= at,
                    deltas@ == before + spec_point_run(b, at + 1, i as int, true),
                decreases point_run_count - i,
            {
                deltas.push(array.get_item(i));
                i = i + 1;
                assert(deltas@ =~= before + spec_point_run(b, at + 1, i as int, true));
            }
        } else {
            // Points are single bytes
            let array = ctxt.read_array::<u8>(point_run_count)?;
            let mut i: usize = 0;
            while i < point_run_count
                invariant
                    i <= point_run_count,
                    array.spec_len() == point_run_count,
                    array.bytes() == b.subrange(at + 1, at + 1 + point_run_count),
                    at + 1 + point_run_count <= b.len(),
                    0 <= at,
                    deltas@ == before + spec_point_run(b, at + 1, i as int, false),
                decreases point_run_count - i,
            {
                deltas.push(array.get_item(i) as u16);
                i = i + 1;
                assert(deltas@ =~= before + spec_point_run(b, at + 1, i as int, false));
            }
        }
        proof {
            assert(deltas@.len() == before.len() + point_run_count);
            match spec_point_runs(b, ctxt.pos(), count - deltas@.len()) {
                Ok((rest, end)) => {
                    lemma_append_assoc(
                        before,
                        spec_point_run(b, at + 1, point_run_count as int, words),
                        rest,
                    );
                },
                Err(e) => {},
            }
        }
    }
    assert(deltas@ + Seq::<u16>::empty() =~= deltas@);
    Ok(deltas)
}

/// The sum of differences does not shrink as more of them are taken.
pub proof fn lemma_running_sum_monotonic(deltas: Seq<u16>, i: int, j: int)
    requires
        0 <= i <= j <= deltas.len(),
    ensures
        0 <= running_sum(deltas, i) <= running_sum(deltas, j),
    decreases j,
{
    if i < j {
        lemma_running_sum_monotonic(deltas, i, j - 1);
    } else if i > 0 {
        lemma_running_sum_monotonic(deltas, i - 1, j - 1);
    }
}

/// Read packed point numbers for a glyph with `num_points` points.
///
/// `num_points` is expected to already have the four "phantom points" added to it.
///
/// Point numbers that are given one by one are as many as their count says,
/// and each is greater than the one before it. Runs that hold more numbers
/// than the count, a number that comes twice and a number beyond 65535 are
/// a `BadValue`.
#[verifier::loop_isolation(false)]
pub fn read_packed_point_numbers(ctxt: &mut ReadCtxt<'_>, num_points: u32) -> (r: Result<
    PointNumbers,
    ParseError,
>)
    ensures
        parsed_view(
            old(ctxt),
            final(ctxt),
            r,
            spec_read_packed_point_numbers(old(ctxt).bytes(), old(ctxt).pos(), num_points),
        ),
        r matches Ok(PointNumbers::Specific(numbers)) ==> numbers@.len() == spec_read_count(
            old(ctxt).bytes(),
            old(ctxt).pos(),
        )->Ok_0.0 && forall|i: int, j: int|
            0 <= i < j < numbers@.len() ==> numbers@[i] < numbers@[j],
{
    let count = read_count(ctxt)?;
    let ghost after_count = ctxt.pos();
    // If the first byte is 0, then a second count byte is not used. This value has a special
    // meaning: the tuple variation data provides deltas for all glyph points (including the
    // "phantom" points), or for all CVTs.
    if count == 0 {
        return Ok(PointNumbers::All(num_points));
    }
    let deltas = read_point_runs(ctxt, count)?;
    proof {
        lemma_point_runs_end(old(ctxt).bytes(), after_count, count as int);
    }
    let mut point_numbers: Vec<u16> = Vec::new();
    let mut number: u16 = 0;
    let mut i: usize = 0;
    while i < deltas.len()
        invariant
            i <= deltas@.len(),
            number == running_sum(deltas@, i as int),
            point_numbers@ == spec_point_numbers(deltas@).take(i as int),
            forall|k: int| 1 <= k < i ==> #[trigger] deltas@[k] != 0,
        decreases deltas@.len() - i,
    {
        // Point numbers are distinct: only the first difference may be zero.
        if i > 0 && deltas[i] == 0 {
            assert(has_zero_difference(deltas@)) by {
                assert(deltas@[i as int] == 0);
            }
            return Err(ParseError::BadValue);
        }
        number = match number.checked_add(deltas[i]) {
            Some(number) => number,
            None => {
                proof {
                    assert(running_sum(deltas@, i + 1) == number + deltas@[i as int]);
                    lemma_running_sum_monotonic(deltas@, i + 1, deltas@.len() as int);
                }
                return Err(ParseError::BadValue);
            },
        };
        point_numbers.push(number);
        i = i + 1;
        assert(point_numbers@ =~= spec_point_numbers(deltas@).take(i as int));
    }
    assert(spec_point_numbers(deltas@).take(i as int) =~= spec_point_numbers(deltas@));
    proof {
        assert forall|i: int, j: int| 0 <= i < j < point_numbers@.len() implies point_numbers@[i]
            < point_numbers@[j] by {
            lemma_sums_increasing(deltas@, i, j);
        }
    }
    Ok(PointNumbers::Specific(point_numbers))
}

/// The sums of differences increase, where no difference behind the first
/// is zero and the sum of all is a 16-bit number.
pub proof fn lemma_sums_increasing(deltas: Seq<u16>, i: int, j: int)
    requires
        0 <= i < j < deltas.len(),
        running_sum(deltas, deltas.len() as int) <= u16::MAX,
        !has_zero_difference(deltas),
    ensures
        spec_point_numbers(deltas)[i] < spec_point_numbers(deltas)[j],
    decreases j - i,
{
    lemma_running_sum_monotonic(deltas, i + 1, deltas.len() as int);
    lemma_running_sum_monotonic(deltas, j + 1, deltas.len() as int);
    lemma_running_sum_monotonic(deltas, i + 1, j);
    assert(deltas[j] != 0);
    if i + 1 < j {
        lemma_sums_increasing(deltas, i, j - 1);
    }
}

/// Packed point numbers that are read without error, and that are not all
/// points, are as many as their count says, and are strictly increasing.
pub proof fn lemma_point_numbers_increasing(b: Seq<u8>, at: int, num_points: u32, i: int, j: int)
    requires
        0 <= at <= b.len(),
        spec_read_packed_point_numbers(b, at, num_points) matches Ok((PointSet::Specific(numbers), _))
            && 0 <= i < j < numbers.len(),
    ensures
        spec_read_packed_point_numbers(b, at, num_points) matches Ok((PointSet::Specific(numbers), _))
            && numbers.len() == spec_read_count(b, at)->Ok_0.0 && numbers[i] < numbers[j],
{
    let (count, next) = spec_read_count(b, at)->Ok_0;
    let (deltas, _) = spec_point_runs(b, next, count as int)->Ok_0;
    lemma_point_runs_end(b, next, count as int);
    lemma_sums_increasing(deltas, i, j);
}

/// The number of deltas in the run of packed deltas with the control byte `control`.
pub open spec fn delta_run_count(control: u8) -> int {
    control % 64 + 1
}

/// Whether the run with the control byte `control` holds no data and stands for zeros.
pub open spec fn deltas_are_zero(control: u8) -> bool {
    control >= 128
}

/// Whether the deltas in the run with the control byte `control` are 16-bit values.
pub open spec fn deltas_are_words(control: u8) -> bool {
    control % 128 >= 64
}

/// The number of bytes that follow the control byte `control` in its run.
pub open spec fn delta_run_size(control: u8) -> int {
    if deltas_are_zero(control) {
        0
    } else if deltas_are_words(control) {
        2 * delta_run_count(control)
    } else {
        delta_run_count(control)
    }
}

/// The deltas of the run with the control byte `control` whose data `b` holds at `at`.
pub open spec fn spec_delta_run(b: Seq<u8>, at: int, control: u8) -> Seq<i16> {
    Seq::new(
        delta_run_count(control) as nat,
        |i: int|
            if deltas_are_zero(control) {
                0i16
            } else if deltas_are_words(control) {
                i16_be(b, at + 2 * i) as i16
            } else {
                i8_at(b, at + i) as i16
            },
    )
}

/// The `count` deltas that `b` holds from `at` on in packed form, and the
/// position behind them.
///
/// A run that holds more deltas than are left to read is a `BadValue`.
pub open spec fn spec_packed_deltas(b: Seq<u8>, at: int, count: int) -> Result<
    (Seq<i16>, int),
    ParseError,
>
    decreases b.len() - at,
{
    if count <= 0 {
        Ok((Seq::empty(), at))
    } else if at < 0 || at + 1 > b.len() {
        Err(ParseError::BadEof)
    } else if delta_run_count(b[at]) > count {
        Err(ParseError::BadValue)
    } else if at + 1 + delta_run_size(b[at]) > b.len() {
        Err(ParseError::BadEof)
    } else {
        match spec_packed_deltas(
            b,
            at + 1 + delta_run_size(b[at]),
            count - delta_run_count(b[at]),
        ) {
            Ok((rest, end)) => Ok((spec_delta_run(b, at + 1, b[at]) + rest, end)),
            Err(e) => Err(e),
        }
    }
}

/// The masks of a control byte of packed deltas give its run length and
/// tell zeros, bytes and 16-bit values apart.
proof fn lemma_delta_control(control: u8)
    ensures
        (control & DELTA_RUN_COUNT_MASK) + 1 == delta_run_count(control),
        (control & DELTAS_ARE_ZERO == DELTAS_ARE_ZERO) == deltas_are_zero(control),
        (control & DELTAS_ARE_WORDS == DELTAS_ARE_WORDS) == deltas_are_words(control),
{
    assert(control & 0x3F == control % 64) by (bit_vector);
    assert((control & 0x80 == 0x80) == (control >= 128)) by (bit_vector);
    assert((control & 0x40 == 0x40) == (control % 128 >= 64)) by (bit_vector);
}

/// Reads the data of one run of packed deltas, whose control byte has been
/// read, and appends its deltas to `deltas`.
fn read_delta_run(ctxt: &mut ReadCtxt<'_>, control_byte: u8, deltas: &mut Vec<i16>) -> (r: Result<
    (),
    ParseError,
>)
    ensures
        final(ctxt).read_outcome(old(ctxt), r, delta_run_size(control_byte), ()),
        r is Ok ==> final(deltas)@ == old(deltas)@ + spec_delta_run(
            old(ctxt).bytes(),
            old(ctxt).pos(),
            control_byte,
        ),
{
    let ghost b = ctxt.bytes();
    let ghost at = ctxt.pos();
    let ghost before = deltas@;
    let count = (control_byte & DELTA_RUN_COUNT_MASK) as usize + 1;
    proof {
        lemma_delta_control(control_byte);
    }
    let _ = ctxt.offset();
    if (control_byte & DELTAS_ARE_ZERO) == DELTAS_ARE_ZERO {
        let mut i: usize = 0;
        while i < count
            invariant
                i <= count,
                deltas_are_zero(control_byte),
                count == delta_run_count(control_byte),
                deltas@ == before + spec_delta_run(b, at, control_byte).take(i as int),
            decreases count - i,
        {
            deltas.push(0);
            i = i + 1;
            assert(deltas@ =~= before + spec_delta_run(b, at, control_byte).take(i as int));
        }
    } else if (control_byte & DELTAS_ARE_WORDS) == DELTAS_ARE_WORDS {
        // Deltas are words (2 bytes)
        let array = ctxt.read_array::<i16>(count)?;
        let mut i: usize = 0;
        while i < count
            invariant
                i <= count,
                !deltas_are_zero(control_byte),
                deltas_are_words(control_byte),
                count == delta_run_count(control_byte),
                array.spec_len() == count,
                array.bytes() == b.subrange(at, at + 2 * count),
                0 <= at,
                at + 2 * count <= b.len(),
                deltas@ == before + spec_delta_run(b, at, control_byte).take(i as int),
            decreases count - i,
        {
            deltas.push(array.get_item(i));
            i = i + 1;
            assert(deltas@ =~= before + spec_delta_run(b, at, control_byte).take(i as int));
        }
    } else {
        // Deltas are single bytes
        let array = ctxt.read_array::<i8>(count)?;
        let mut i: usize = 0;
        while i < count
            invariant
                i <= count,
                !deltas_are_zero(control_byte),
                !deltas_are_words(control_byte),
                count == delta_run_count(control_byte),
                array.spec_len() == count,
                array.bytes() == b.subrange(at, at + count),
                0 <= at,
                at + count <= b.len(),
                deltas@ == before + spec_delta_run(b, at, control_byte).take(i as int),
            decreases count - i,
        {
            deltas.push(array.get_item(i) as i16);
            i = i + 1;
            assert(deltas@ =~= before + spec_delta_run(b, at, control_byte).take(i as int));
        }
    }
    assert(spec_delta_run(b, at, control_byte).take(count as int) =~= spec_delta_run(
        b,
        at,
        control_byte,
    ));
    Ok(())
}

/// Read `num_deltas` packed deltas.
pub fn read_packed_deltas(ctxt: &mut ReadCtxt<'_>, num_deltas: u32) -> (r: Result<
    Vec<i16>,
    ParseError,
>)
    ensures
        parsed_view(
            old(ctxt),
            final(ctxt),
            r,
            spec_packed_deltas(old(ctxt).bytes(), old(ctxt).pos(), num_deltas as int),
        ),
        r matches Ok(deltas) ==> deltas@.len() == num_deltas,
{
    let ghost b = ctxt.bytes();
    let ghost start = ctxt.pos();
    let mut deltas: Vec<i16> = Vec::new();
    let _ = ctxt.offset();
    while deltas.len() < num_deltas as usize
        invariant
            ctxt.bytes() == b,
            b == old(ctxt).bytes(),
            start == old(ctxt).pos(),
            0 <= start <= ctxt.pos() <= b.len(),
            deltas@.len() <= num_deltas,
            spec_packed_deltas(b, start, num_deltas as int) == match spec_packed_deltas(
                b,
                ctxt.pos(),
                num_deltas - deltas@.len(),
            ) {
                Ok((rest, end)) => Ok::<(Seq<i16>, int), ParseError>((deltas@ + rest, end)),
                Err(e) => Err::<(Seq<i16>, int), ParseError>(e),
            },
        decreases b.len() - ctxt.pos(),
    {
        let ghost at = ctxt.pos();
        let ghost before = deltas@;
        let control_byte = ctxt.read_u8()?;
        let count = (control_byte & DELTA_RUN_COUNT_MASK) as usize + 1;
        proof {
            lemma_delta_control(control_byte);
        }
        if count > num_deltas as usize - deltas.len() {
            return Err(ParseError::BadValue);
        }
        read_delta_run(ctxt, control_byte, &mut deltas)?;
        proof {
            match spec_packed_deltas(b, ctxt.pos(), num_deltas - deltas@.len()) {
                Ok((rest, end)) => {
                    lemma_append_assoc(before, spec_delta_run(b, at + 1, control_byte), rest);
                },
                Err(e) => {},
            }
        }
    }
    assert(deltas@ + Seq::<i16>::empty() =~= deltas@);
    Ok(deltas)
}

/// Packed deltas that are read without error are as many as were asked for,
/// and end within the data.
pub proof fn lemma_packed_deltas_exact(b: Seq<u8>, at: int, count: int)
    requires
        0 <= count,
        0 <= at <= b.len(),
        spec_packed_deltas(b, at, count) is Ok,
    ensures
        spec_packed_deltas(b, at, count)->Ok_0.0.len() == count,
        at <= spec_packed_deltas(b, at, count)->Ok_0.1 <= b.len(),
    decreases b.len() - at,
{
    if count > 0 {
        lemma_packed_deltas_exact(
            b,
            at + 1 + delta_run_size(b[at]),
            count - delta_run_count(b[at]),
        );
    }
}

/// The result of reading packed deltas depends on no byte but those that
/// were consumed: any data that holds the same bytes from `at` to the end of
/// what was read gives the same deltas.
pub proof fn lemma_packed_deltas_local(b1: Seq<u8>, b2: Seq<u8>, at: int, count: int)
    requires
        0 <= at <= b1.len(),
        spec_packed_deltas(b1, at, count) is Ok,
        spec_packed_deltas(b1, at, count)->Ok_0.1 <= b2.len(),
        forall|i: int|
            at <= i < spec_packed_deltas(b1, at, count)->Ok_0.1 ==> b1[i] == b2[i],
    ensures
        spec_packed_deltas(b2, at, count) == spec_packed_deltas(b1, at, count),
    decreases b1.len() - at,
{
    if count > 0 {
        let next = at + 1 + delta_run_size(b1[at]);
        let left = count - delta_run_count(b1[at]);
        lemma_packed_deltas_exact(b1, next, left);
        lemma_packed_deltas_local(b1, b2, next, left);
        assert(spec_delta_run(b1, at + 1, b1[at]) =~= spec_delta_run(b2, at + 1, b2[at]));
    }
}

/// Reading packed deltas needs every byte that it consumes: data that is cut
/// off before the end of what was read is not read without error.
pub proof fn lemma_packed_deltas_needed(b: Seq<u8>, at: int, count: int, cut: int)
    requires
        0 <= at <= cut,
        spec_packed_deltas(b, at, count) is Ok,
        cut < spec_packed_deltas(b, at, count)->Ok_0.1,
        cut <= b.len(),
    ensures
        spec_packed_deltas(b.take(cut), at, count) == Err::<(Seq<i16>, int), ParseError>(
            ParseError::BadEof,
        ),
    decreases b.len() - at,
{
    if count > 0 && at + 1 <= cut {
        let next = at + 1 + delta_run_size(b[at]);
        let left = count - delta_run_count(b[at]);
        if next <= cut {
            lemma_packed_deltas_needed(b, next, left, cut);
        }
    }
}

/// The runs of packed point numbers that are read without error hold as
/// many values as were asked for, and end within the data.
pub proof fn lemma_point_runs_end(b: Seq<u8>, at: int, count: int)
    requires
        0 <= count,
        0 <= at <= b.len(),
        spec_point_runs(b, at, count) is Ok,
    ensures
        at <= spec_point_runs(b, at, count)->Ok_0.1 <= b.len(),
        spec_point_runs(b, at, count)->Ok_0.0.len() == count,
    decreases b.len() - at,
{
    if count > 0 {
        let run = point_run_count(b[at]);
        let next = at + 1 + if points_are_words(b[at]) {
            2 * run
        } else {
            run
        };
        lemma_point_runs_end(b, next, count - run);
    }
}

/// The result of reading runs of packed point numbers depends on no byte but
/// those that were consumed.
pub proof fn lemma_point_runs_local(b1: Seq<u8>, b2: Seq<u8>, at: int, count: int)
    requires
        0 <= at <= b1.len(),
        spec_point_runs(b1, at, count) is Ok,
        spec_point_runs(b1, at, count)->Ok_0.1 <= b2.len(),
        forall|i: int| at <= i < spec_point_runs(b1, at, count)->Ok_0.1 ==> b1[i] == b2[i],
    ensures
        spec_point_runs(b2, at, count) == spec_point_runs(b1, at, count),
    decreases b1.len() - at,
{
    if count > 0 {
        let run = point_run_count(b1[at]);
        let words = points_are_words(b1[at]);
        let next = at + 1 + if words {
            2 * run
        } else {
            run
        };
        lemma_point_runs_end(b1, next, count - run);
        lemma_point_runs_local(b1, b2, next, count - run);
        assert(spec_point_run(b1, at + 1, run, words) =~= spec_point_run(b2, at + 1, run, words));
    }
}

/// Reading runs of packed point numbers needs every byte that it consumes.
pub proof fn lemma_point_runs_needed(b: Seq<u8>, at: int, count: int, cut: int)
    requires
        0 <= at <= cut,
        spec_point_runs(b, at, count) is Ok,
        cut < spec_point_runs(b, at, count)->Ok_0.1,
        cut <= b.len(),
    ensures
        spec_point_runs(b.take(cut), at, count) == Err::<(Seq<u16>, int), ParseError>(
            ParseError::BadEof,
        ),
    decreases b.len() - at,
{
    if count > 0 && at + 1 <= cut {
        let run = point_run_count(b[at]);
        let next = at + 1 + if points_are_words(b[at]) {
            2 * run
        } else {
            run
        };
        if next <= cut {
            lemma_point_runs_needed(b, next, count - run, cut);
        }
    }
}

/// The result of reading packed point numbers depends on no byte but those
/// that were consumed: any data that holds the same bytes from `at` to the
/// end of what was read gives the same point numbers.
pub proof fn lemma_packed_point_numbers_local(b1: Seq<u8>, b2: Seq<u8>, at: int, num_points: u32)
    requires
        0 <= at <= b1.len(),
        spec_read_packed_point_numbers(b1, at, num_points) is Ok,
        spec_read_packed_point_numbers(b1, at, num_points)->Ok_0.1 <= b2.len(),
        forall|i: int|
            at <= i < spec_read_packed_point_numbers(b1, at, num_points)->Ok_0.1 ==> b1[i]
                == b2[i],
    ensures
        spec_read_packed_point_numbers(b2, at, num_points) == spec_read_packed_point_numbers(
            b1,
            at,
            num_points,
        ),
{
    let (count, next) = spec_read_count(b1, at)->Ok_0;
    if count != 0 {
        lemma_point_runs_end(b1, next, count as int);
        lemma_point_runs_local(b1, b2, next, count as int);
    }
}

/// Reading packed point numbers needs every byte that it consumes: data that
/// is cut off before the end of what was read is not read without error.
pub proof fn lemma_packed_point_numbers_needed(b: Seq<u8>, at: int, num_points: u32, cut: int)
    requires
        0 <= at <= cut,
        spec_read_packed_point_numbers(b, at, num_points) is Ok,
        cut < spec_read_packed_point_numbers(b, at, num_points)->Ok_0.1,
        cut <= b.len(),
    ensures
        spec_read_packed_point_numbers(b.take(cut), at, num_points) == Err::<
            (PointSet, int),
            ParseError,
        >(ParseError::BadEof),
{
    let (count, next) = spec_read_count(b, at)->Ok_0;
    if next <= cut && count != 0 {
        lemma_point_runs_needed(b, next, count as int, cut);
    }
}

/// Coordinate array specifying a position within the font's variation space,
/// in normalized coordinates.
///
/// The number of elements must match the number of axes of the font.
#[derive(Debug, Clone, Copy)]
pub struct Tuple<'a>(pub ReadArray<'a, F2Dot14>);

/// Tuple in user coordinates.
///
/// Both kinds of tuple describe a position in the variation space; this one
/// holds 16.16 values on the user's scale.
#[derive(Debug)]
pub struct UserTuple<'a>(pub ReadArray<'a, Fixed>);

impl<'a> View for Tuple<'a> {
    type V = Seq<F2Dot14>;

    /// The coordinates, one for each axis.
    open spec fn view(&self) -> Seq<F2Dot14> {
        self.0@
    }
}

impl<'a> View for UserTuple<'a> {
    type V = Seq<Fixed>;

    /// The coordinates, one for each axis.
    open spec fn view(&self) -> Seq<Fixed> {
        self.0@
    }
}

impl<'a> UserTuple<'a> {
    /// The axis values in this user tuple, in order.
    pub fn iter(&self) -> (values: Vec<Fixed>)
        ensures
            values@ == self@,
    {
        self.0.to_vec()
    }

    /// Returns the number of values in this user tuple.
    ///
    /// Should be the same as the number of axes in the `fvar` table.
    pub fn len(&self) -> (n: usize)
        ensures
            n == self@.len(),
    {
        self.0.len()
    }
}

/// The tuple of `axis_count` coordinates that `b` holds at `at`.
pub open spec fn spec_tuple(b: Seq<u8>, at: int, axis_count: int) -> Seq<F2Dot14> {
    Seq::new(axis_count as nat, |i: int| F2Dot14(i16_be(b, at + 2 * i) as i16))
}

/// Marks a tuple variation store from a `gvar` table. Only the type is used.
#[derive(Debug)]
pub enum Gvar {
    Table,
}

/// Marks a tuple variation store from a `cvar` table. Only the type is used.
#[derive(Debug)]
pub enum Cvar {
    Table,
}

/// Whether the packed field `value` has all bits of `flag` set.
pub open spec fn has_flag(value: u16, flag: u16) -> bool {
    value & flag == flag
}

/// Tuple variation header.
#[derive(Debug)]
pub struct TupleVariationHeader<'a, T> {
    /// The size in bytes of the serialized data for this tuple variation table.
    variation_data_size: u16,
    /// A packed field. The high 4 bits are flags. The low 12 bits are an index into a
    /// shared tuple records array.
    tuple_flags_and_index: u16,
    /// Peak tuple record for this tuple variation table; optional, determined by flags in the
    /// tuple index value.
    peak_tuple: Option<Tuple<'a>>,
    /// The start and end tuples for the intermediate region.
    intermediate_region: Option<(Tuple<'a>, Tuple<'a>)>,
    /// The serialized data for this tuple variation.
    data: &'a [u8],
    variant: PhantomData<T>,
}

/// What a tuple variation header holds.
pub struct TupleVariationHeaderView {
    pub variation_data_size: u16,
    pub tuple_flags_and_index: u16,
    pub peak_tuple: Option<Seq<F2Dot14>>,
    pub intermediate_region: Option<(Seq<F2Dot14>, Seq<F2Dot14>)>,
    pub data: Seq<u8>,
}

impl<'a, T> View for TupleVariationHeader<'a, T> {
    type V = TupleVariationHeaderView;

    closed spec fn view(&self) -> TupleVariationHeaderView {
        TupleVariationHeaderView {
            variation_data_size: self.variation_data_size,
            tuple_flags_and_index: self.tuple_flags_and_index,
            peak_tuple: match self.peak_tuple {
                Some(tuple) => Some(tuple@),
                None => None,
            },
            intermediate_region: match self.intermediate_region {
                Some((start, end)) => Some((start@, end@)),
                None => None,
            },
            data: self.data@,
        }
    }
}

impl TupleVariationHeaderView {
    /// The number of bytes of a header with the packed field `flags`, for a
    /// font of `axis_count` axes.
    pub open spec fn spec_size(flags: u16, axis_count: int) -> int {
        4 + (if has_flag(flags, EMBEDDED_PEAK_TUPLE) {
            2 * axis_count
        } else {
            0
        }) + (if has_flag(flags, INTERMEDIATE_REGION) {
            4 * axis_count
        } else {
            0
        })
    }

    /// The header that `b` holds at `at`, for a font of `axis_count` axes,
    /// and the position behind it. The header has no serialized data yet.
    pub open spec fn spec_read(b: Seq<u8>, at: int, axis_count: int) -> Result<
        (TupleVariationHeaderView, int),
        ParseError,
    > {
        if at < 0 || at + 4 > b.len() || at + Self::spec_size(
            u16_be(b, at + 2) as u16,
            axis_count,
        ) > b.len() {
            Err(ParseError::BadEof)
        } else {
            let flags = u16_be(b, at + 2) as u16;
            let embedded = has_flag(flags, EMBEDDED_PEAK_TUPLE);
            let region = at + 4 + if embedded {
                2 * axis_count
            } else {
                0
            };
            Ok(
                (
                    TupleVariationHeaderView {
                        variation_data_size: u16_be(b, at) as u16,
                        tuple_flags_and_index: flags,
                        peak_tuple: if embedded {
                            Some(spec_tuple(b, at + 4, axis_count))
                        } else {
                            None
                        },
                        intermediate_region: if has_flag(flags, INTERMEDIATE_REGION) {
                            Some(
                                (
                                    spec_tuple(b, region, axis_count),
                                    spec_tuple(b, region + 2 * axis_count, axis_count),
                                ),
                            )
                        } else {
                            None
                        },
                        data: Seq::empty(),
                    },
                    at + Self::spec_size(flags, axis_count),
                ),
            )
        }
    }

    /// The index of the shared tuple that the header refers to, if it holds
    /// no peak tuple of its own.
    pub open spec fn spec_tuple_index(self) -> Option<u16> {
        if self.peak_tuple is None {
            Some(self.tuple_flags_and_index & TUPLE_INDEX_MASK)
        } else {
            None
        }
    }
}

/// Reads a tuple of `axis_count` coordinates.
fn read_tuple<'a>(ctxt: &mut ReadCtxt<'a>, axis_count: usize) -> (r: Result<Tuple<'a>, ParseError>)
    ensures
        match r {
            Ok(tuple) => old(ctxt).has(2 * axis_count) && tuple@ == spec_tuple(
                old(ctxt).bytes(),
                old(ctxt).pos(),
                axis_count as int,
            ) && final(ctxt).advanced(old(ctxt), 2 * axis_count),
            Err(e) => e == ParseError::BadEof && !old(ctxt).has(2 * axis_count)
                && final(ctxt).unmoved(old(ctxt)),
        },
{
    assert(axis_count * 2 == 2 * axis_count);
    let array = ctxt.read_array::<F2Dot14>(axis_count)?;
    let tuple = Tuple(array);
    assert(tuple@ =~= spec_tuple(old(ctxt).bytes(), old(ctxt).pos(), axis_count as int));
    Ok(tuple)
}

impl<'a, T> TupleVariationHeader<'a, T> {
    /// Reads a header of a font of `axis_count` axes. The serialized data
    /// of the header is filled in by the store that holds the header.
    pub fn read_dep(ctxt: &mut ReadCtxt<'a>, axis_count: usize) -> (r: Result<
        TupleVariationHeader<'a, T>,
        ParseError,
    >)
        ensures
            parsed_view(
                old(ctxt),
                final(ctxt),
                r,
                TupleVariationHeaderView::spec_read(
                    old(ctxt).bytes(),
                    old(ctxt).pos(),
                    axis_count as int,
                ),
            ),
    {
        let _ = ctxt.offset();
        // The size in bytes of the serialized data for this tuple variation table.
        let variation_data_size = ctxt.read_u16be()?;
        // A packed field. The high 4 bits are flags. The low 12 bits are an index into a
        // shared tuple records array.
        let tuple_flags_and_index = ctxt.read_u16be()?;
        // If this is absent then `tuple_flags_and_index` contains the index to one of the shared
        // tuple records to use instead.
        let peak_tuple = if (tuple_flags_and_index & EMBEDDED_PEAK_TUPLE) == EMBEDDED_PEAK_TUPLE {
            Some(read_tuple(ctxt, axis_count)?)
        } else {
            None
        };
        let intermediate_region = if (tuple_flags_and_index & INTERMEDIATE_REGION)
            == INTERMEDIATE_REGION {
            let start = read_tuple(ctxt, axis_count)?;
            let end = read_tuple(ctxt, axis_count)?;
            Some((start, end))
        } else {
            None
        };
        let data: &'static [u8] = &[];
        assert(data@ =~= Seq::<u8>::empty());
        Ok(
            TupleVariationHeader {
                variation_data_size,
                tuple_flags_and_index,
                peak_tuple,
                intermediate_region,
                data,
                variant: PhantomData,
            },
        )
    }

    /// Read the point numbers for this tuple.
    ///
    /// This method will return either the embedded private point numbers or the shared numbers
    /// if private points are not present.
    fn read_point_numbers<'b>(
        &self,
        ctxt: &mut ReadCtxt<'_>,
        num_points: u32,
        shared_point_numbers: Option<SharedPointNumbers<'b>>,
    ) -> (r: Result<Cow<'b, PointNumbers>, ParseError>)
        ensures
            final(ctxt).bytes() == old(ctxt).bytes(),
            0 <= old(ctxt).pos() <= final(ctxt).pos() <= final(ctxt).bytes().len(),
            match spec_point_numbers_of(
                self@.tuple_flags_and_index,
                old(ctxt).bytes(),
                old(ctxt).pos(),
                num_points,
                shared_view(shared_point_numbers),
            ) {
                Ok((points, end)) => r matches Ok(p) && p@ == points && final(ctxt).pos() == end,
                Err(e) => r matches Err(x) && x == e,
            },
    {
        let _ = ctxt.offset();
        // Read private point numbers if the flag indicates they are present
        if (self.tuple_flags_and_index & PRIVATE_POINT_NUMBERS) == PRIVATE_POINT_NUMBERS {
            let private_point_numbers = read_packed_point_numbers(ctxt, num_points)?;
            return Ok(Cow::Owned(private_point_numbers));
        }
        // If there are private point numbers then we need to read that many points
        // otherwise we need to read as many points are specified by the shared points.
        //
        // Either private or shared point numbers should be present. If both are missing that's
        // invalid.
        match shared_point_numbers {
            Some(shared) => Ok(Cow::Borrowed(shared.0)),
            None => Err(ParseError::MissingValue),
        }
    }
}

/// A collection of point numbers that are shared between variations.
#[derive(Clone, Copy)]
pub struct SharedPointNumbers<'a>(pub &'a PointNumbers);

/// The point numbers that shared point numbers stand for, if there are any.
pub open spec fn shared_view(shared: Option<SharedPointNumbers<'_>>) -> Option<PointSet> {
    match shared {
        Some(shared) => Some(shared.0@),
        None => None,
    }
}

/// The point numbers of a tuple variation with the packed field `flags`,
/// whose serialized data `b` holds at `at`, and the position behind them.
///
/// Private point numbers at the start of the data go before the `shared`
/// ones. Where there are neither, the result is `MissingValue`.
pub open spec fn spec_point_numbers_of(
    flags: u16,
    b: Seq<u8>,
    at: int,
    num_points: u32,
    shared: Option<PointSet>,
) -> Result<(PointSet, int), ParseError> {
    if has_flag(flags, PRIVATE_POINT_NUMBERS) {
        spec_read_packed_point_numbers(b, at, num_points)
    } else {
        match shared {
            Some(points) => Ok((points, at)),
            None => Err(ParseError::MissingValue),
        }
    }
}

/// Tuple Variation Store Header.
pub struct TupleVariationStore<'a, T> {
    /// The number of points in the glyph this store is for
    num_points: u32,
    /// A packed field. The high 4 bits are flags, and the low 12 bits are the number
    /// of tuple variation tables. The count can be any number between 1 and 4095.
    tuple_variation_flags_and_count: u16,
    /// Offset from the start of the table containing the tuple store to the serialized data.
    data_offset: u16,
    /// The serialized data block begins with shared "point" number data, followed by the variation
    /// data for the tuple variation tables.
    ///
    /// The shared point number data is optional: it is present if the corresponding flag is set in
    /// the `tuple_variation_flags_and_count` field of the header.
    shared_point_numbers: Option<PointNumbers>,
    /// Array of tuple variation headers.
    tuple_variation_headers: Vec<TupleVariationHeader<'a, T>>,
}

/// What a tuple variation store holds.
pub struct TupleVariationStoreView {
    pub num_points: u32,
    pub tuple_variation_flags_and_count: u16,
    pub data_offset: u16,
    pub shared_point_numbers: Option<PointSet>,
    pub tuple_variation_headers: Seq<TupleVariationHeaderView>,
}

impl<'a, T> View for TupleVariationStore<'a, T> {
    type V = TupleVariationStoreView;

    closed spec fn view(&self) -> TupleVariationStoreView {
        TupleVariationStoreView {
            num_points: self.num_points,
            tuple_variation_flags_and_count: self.tuple_variation_flags_and_count,
            data_offset: self.data_offset,
            shared_point_numbers: match self.shared_point_numbers {
                Some(points) => Some(points@),
                None => None,
            },
            tuple_variation_headers: Seq::new(
                self.tuple_variation_headers@.len(),
                |i: int| self.tuple_variation_headers@[i]@,
            ),
        }
    }
}

/// The headers from the `i`th to the `n`th that `b` holds from `at` on, and
/// the position behind them.
pub open spec fn spec_read_headers(b: Seq<u8>, at: int, i: int, n: int, axis_count: int) -> Result<
    (Seq<TupleVariationHeaderView>, int),
    ParseError,
>
    decreases n - i,
{
    if i >= n {
        Ok((Seq::empty(), at))
    } else {
        match TupleVariationHeaderView::spec_read(b, at, axis_count) {
            Err(e) => Err(e),
            Ok((header, next)) => match spec_read_headers(b, next, i + 1, n, axis_count) {
                Ok((rest, end)) => Ok((seq![header] + rest, end)),
                Err(e) => Err(e),
            },
        }
    }
}

/// The `headers` from the `i`th on, each with its serialized data: the data
/// of the headers follow each other in `d` from `at` on.
pub open spec fn spec_attach_data(
    headers: Seq<TupleVariationHeaderView>,
    i: int,
    d: Seq<u8>,
    at: int,
) -> Result<Seq<TupleVariationHeaderView>, ParseError>
    decreases headers.len() - i,
{
    if i < 0 || i >= headers.len() {
        Ok(Seq::empty())
    } else {
        let end = at + headers[i].variation_data_size;
        if at < 0 || end > d.len() {
            Err(ParseError::BadEof)
        } else {
            match spec_attach_data(headers, i + 1, d, end) {
                Ok(rest) => Ok(
                    seq![TupleVariationHeaderView { data: d.subrange(at, end), ..headers[i] }]
                        + rest,
                ),
                Err(e) => Err(e),
            }
        }
    }
}

/// The shared point numbers at the start of the serialized data `d` of a
/// store with the packed field `flags`, if the store has any, and the position
/// behind them.
pub open spec fn spec_shared_point_numbers(flags: u16, d: Seq<u8>, num_points: u32) -> Result<
    (Option<PointSet>, int),
    ParseError,
> {
    if has_flag(flags, SHARED_POINT_NUMBERS) {
        match spec_read_packed_point_numbers(d, 0, num_points) {
            Ok((points, next)) => Ok((Some(points), next)),
            Err(e) => Err(e),
        }
    } else {
        Ok((None, 0))
    }
}

impl TupleVariationStoreView {
    /// The serialized data of the store that `b` holds at `at`: what
    /// follows `data_offset` bytes behind `at`.
    pub open spec fn spec_data(b: Seq<u8>, at: int, data_offset: u16) -> Seq<u8> {
        if at + data_offset <= b.len() {
            b.subrange(at + data_offset, b.len() as int)
        } else {
            Seq::empty()
        }
    }

    /// The store that `b` holds at `at`, for a font of `axis_count` axes and
    /// a glyph of `num_points` points, and the position behind its headers.
    ///
    /// The low 12 bits of the first field give the number of headers, of
    /// which a store has at least one: a count of zero is a `BadValue`. The
    /// serialized data starts with the shared point numbers, if the
    /// store has any, and goes on with the data of each header in turn.
    pub open spec fn spec_read(b: Seq<u8>, at: int, axis_count: u16, num_points: u32) -> Result<
        (TupleVariationStoreView, int),
        ParseError,
    > {
        if at < 0 || at + 4 > b.len() {
            Err(ParseError::BadEof)
        } else {
            let flags = u16_be(b, at) as u16;
            let data_offset = u16_be(b, at + 2) as u16;
            let d = Self::spec_data(b, at, data_offset);
            if flags & COUNT_MASK == 0 {
                Err(ParseError::BadValue)
            } else {
                match spec_read_headers(
                    b,
                    at + 4,
                    0,
                    (flags & COUNT_MASK) as int,
                    axis_count as int,
                ) {
                    Err(e) => Err(e),
                    Ok((headers, end)) => match spec_shared_point_numbers(flags, d, num_points) {
                        Err(e) => Err(e),
                        Ok((shared, next)) => match spec_attach_data(headers, 0, d, next) {
                            Err(e) => Err(e),
                            Ok(headers) => Ok(
                                (
                                    TupleVariationStoreView {
                                        num_points,
                                        tuple_variation_flags_and_count: flags,
                                        data_offset,
                                        shared_point_numbers: shared,
                                        tuple_variation_headers: headers,
                                    },
                                    end,
                                ),
                            ),
                        },
                    },
                }
            }
        }
    }
}

/// The views of the headers `headers`.
spec fn header_views<T>(headers: Seq<TupleVariationHeader<'_, T>>) -> Seq<
    TupleVariationHeaderView,
> {
    Seq::new(headers.len(), |i: int| headers[i]@)
}

impl<'data, T> TupleVariationStore<'data, T> {
    /// The tuple variation headers.
    pub fn headers(&self) -> (headers: &[TupleVariationHeader<'data, T>])
        ensures
            headers@.len() == self@.tuple_variation_headers.len(),
            forall|i: int|
                0 <= i < headers@.len() ==> (#[trigger] headers@[i])@
                    == self@.tuple_variation_headers[i],
    {
        self.tuple_variation_headers.as_slice()
    }

    /// Get the shared point numbers for this variation store if present.
    pub fn shared_point_numbers(&self) -> (shared: Option<SharedPointNumbers<'_>>)
        ensures
            shared_view(shared) == self@.shared_point_numbers,
    {
        match &self.shared_point_numbers {
            Some(points) => Some(SharedPointNumbers(points)),
            None => None,
        }
    }

    /// Reads the `n` headers of a store.
    fn read_headers(ctxt: &mut ReadCtxt<'data>, n: usize, axis_count: usize) -> (r: Result<
        Vec<TupleVariationHeader<'data, T>>,
        ParseError,
    >)
        ensures
            final(ctxt).bytes() == old(ctxt).bytes(),
            0 <= old(ctxt).pos() <= final(ctxt).pos() <= final(ctxt).bytes().len(),
            match spec_read_headers(
                old(ctxt).bytes(),
                old(ctxt).pos(),
                0,
                n as int,
                axis_count as int,
            ) {
                Ok((headers, end)) => r matches Ok(v) && header_views(v@) == headers
                    && final(ctxt).pos() == end,
                Err(e) => r matches Err(x) && x == e,
            },
    {
        let ghost b = ctxt.bytes();
        let ghost start = ctxt.pos();
        let mut headers: Vec<TupleVariationHeader<'data, T>> = Vec::new();
        let _ = ctxt.offset();
        let mut i: usize = 0;
        while i < n
            invariant
                i <= n,
                ctxt.bytes() == b,
                b == old(ctxt).bytes(),
                start == old(ctxt).pos(),
                0 <= start <= ctxt.pos() <= b.len(),
                headers@.len() == i,
                spec_read_headers(b, start, 0, n as int, axis_count as int)
                    == match spec_read_headers(b, ctxt.pos(), i as int, n as int, axis_count as int) {
                    Ok((rest, end)) => Ok::<(Seq<TupleVariationHeaderView>, int), ParseError>(
                        (header_views(headers@) + rest, end),
                    ),
                    Err(e) => Err::<(Seq<TupleVariationHeaderView>, int), ParseError>(e),
                },
            decreases n - i,
        {
            let ghost before = header_views(headers@);
            let header = TupleVariationHeader::<'data, T>::read_dep(ctxt, axis_count)?;
            proof {
                match spec_read_headers(b, ctxt.pos(), i + 1, n as int, axis_count as int) {
                    Ok((rest, end)) => {
                        lemma_append_assoc(before, seq![header@], rest);
                    },
                    Err(e) => {},
                }
            }
            headers.push(header);
            i = i + 1;
            assert(header_views(headers@) =~= before + seq![header@]);
        }
        assert(header_views(headers@) + Seq::<TupleVariationHeaderView>::empty() =~= header_views(
            headers@,
        ));
        Ok(headers)
    }

    /// Gives each of `headers` its serialized data, which follow each other at `ctxt`.
    fn attach_data(
        ctxt: &mut ReadCtxt<'data>,
        headers: Vec<TupleVariationHeader<'data, T>>,
    ) -> (r: Result<Vec<TupleVariationHeader<'data, T>>, ParseError>)
        ensures
            match spec_attach_data(header_views(headers@), 0, old(ctxt).bytes(), old(ctxt).pos()) {
                Ok(with_data) => r matches Ok(v) && header_views(v@) == with_data,
                Err(e) => r matches Err(x) && x == e,
            },
    {
        let ghost d = ctxt.bytes();
        let ghost start = ctxt.pos();
        let ghost views = header_views(headers@);
        let mut out: Vec<TupleVariationHeader<'data, T>> = Vec::new();
        let _ = ctxt.offset();
        let mut i: usize = 0;
        while i < headers.len()
            invariant
                i <= headers@.len(),
                ctxt.bytes() == d,
                d == old(ctxt).bytes(),
                start == old(ctxt).pos(),
                0 <= ctxt.pos() <= d.len(),
                views == header_views(headers@),
                out@.len() == i,
                spec_attach_data(views, 0, d, start) == match spec_attach_data(
                    views,
                    i as int,
                    d,
                    ctxt.pos(),
                ) {
                    Ok(rest) => Ok::<Seq<TupleVariationHeaderView>, ParseError>(
                        header_views(out@) + rest,
                    ),
                    Err(e) => Err::<Seq<TupleVariationHeaderView>, ParseError>(e),
                },
            decreases headers@.len() - i,
        {
            let ghost before = header_views(out@);
            let ghost at = ctxt.pos();
            let header = &headers[i];
            assert(views[i as int] == header@);
            let data = ctxt.read_slice(header.variation_data_size as usize)?;
            let with_data = TupleVariationHeader {
                variation_data_size: header.variation_data_size,
                tuple_flags_and_index: header.tuple_flags_and_index,
                peak_tuple: header.peak_tuple,
                intermediate_region: header.intermediate_region,
                data,
                variant: PhantomData,
            };
            proof {
                assert(with_data@ == TupleVariationHeaderView {
                    data: d.subrange(at, at + views[i as int].variation_data_size),
                    ..views[i as int]
                });
                match spec_attach_data(views, i + 1, d, ctxt.pos()) {
                    Ok(rest) => {
                        lemma_append_assoc(before, seq![with_data@], rest);
                    },
                    Err(e) => {},
                }
            }
            out.push(with_data);
            i = i + 1;
            assert(header_views(out@) =~= before + seq![with_data@]);
        }
        assert(header_views(out@) + Seq::<TupleVariationHeaderView>::empty() =~= header_views(
            out@,
        ));
        Ok(out)
    }

    /// Reads the store of a glyph of `num_points` points, in a font of
    /// `axis_count` axes. The cursor ends behind the headers.
    pub fn read_dep(ctxt: &mut ReadCtxt<'data>, args: (u16, u32)) -> (r: Result<
        TupleVariationStore<'data, T>,
        ParseError,
    >)
        ensures
            parsed_view(
                old(ctxt),
                final(ctxt),
                r,
                TupleVariationStoreView::spec_read(
                    old(ctxt).bytes(),
                    old(ctxt).pos(),
                    args.0,
                    args.1,
                ),
            ),
    {
        let (axis_count, num_points) = args;
        let axis_count = axis_count as usize;
        let ghost b = ctxt.bytes();
        let ghost at = ctxt.pos();

        let scope = ctxt.scope();
        let tuple_variation_flags_and_count = ctxt.read_u16be()?;
        let tuple_variation_count = (tuple_variation_flags_and_count & COUNT_MASK) as usize;
        let data_offset = ctxt.read_u16be()?;
        // A store holds between 1 and 4095 headers
        if tuple_variation_count == 0 {
            return Err(ParseError::BadValue);
        }
        // Now read the TupleVariationHeaders
        let tuple_variation_headers = Self::read_headers(
            ctxt,
            tuple_variation_count,
            axis_count,
        )?;

        // Read the serialized data for each tuple variation header
        let mut data_ctxt = scope.offset(data_offset as usize).ctxt();
        assert(data_ctxt.bytes() =~= TupleVariationStoreView::spec_data(b, at, data_offset));

        // Read shared point numbers if the flag indicates they are present
        let shared_point_numbers = if (tuple_variation_flags_and_count & SHARED_POINT_NUMBERS)
            == SHARED_POINT_NUMBERS {
            Some(read_packed_point_numbers(&mut data_ctxt, num_points)?)
        } else {
            None
        };

        // Populate the data slices on the headers
        let tuple_variation_headers = Self::attach_data(&mut data_ctxt, tuple_variation_headers)?;

        let store = TupleVariationStore {
            num_points,
            tuple_variation_flags_and_count,
            data_offset,
            shared_point_numbers,
            tuple_variation_headers,
        };
        assert(store@.tuple_variation_headers =~= header_views(store.tuple_variation_headers@));
        Ok(store)
    }
}

/// Glyph variation data.
///
/// (x, y) deltas for numbered points.
pub struct GvarVariationData<'a> {
    point_numbers: Cow<'a, PointNumbers>,
    x_coord_deltas: Vec<i16>,
    y_coord_deltas: Vec<i16>,
}

/// CVT variation data.
///
/// deltas for numbered CVTs.
pub struct CvarVariationData<'a> {
    point_numbers: Cow<'a, PointNumbers>,
    deltas: Vec<i16>,
}

/// What glyph variation data holds.
pub struct GvarVariationDataView {
    pub point_numbers: PointSet,
    pub x_coord_deltas: Seq<i16>,
    pub y_coord_deltas: Seq<i16>,
}

/// What CVT variation data holds.
pub struct CvarVariationDataView {
    pub point_numbers: PointSet,
    pub deltas: Seq<i16>,
}

impl<'a> View for GvarVariationData<'a> {
    type V = GvarVariationDataView;

    closed spec fn view(&self) -> GvarVariationDataView {
        GvarVariationDataView {
            point_numbers: self.point_numbers@,
            x_coord_deltas: self.x_coord_deltas@,
            y_coord_deltas: self.y_coord_deltas@,
        }
    }
}

impl<'a> View for CvarVariationData<'a> {
    type V = CvarVariationDataView;

    closed spec fn view(&self) -> CvarVariationDataView {
        CvarVariationDataView { point_numbers: self.point_numbers@, deltas: self.deltas@ }
    }
}

/// The smallest of three numbers.
pub open spec fn min3(a: int, b: int, c: int) -> int {
    if a <= b && a <= c {
        a
    } else if b <= c {
        b
    } else {
        c
    }
}

impl GvarVariationDataView {
    /// The point numbers, each with its deltas: as many as there are point
    /// numbers with both deltas.
    pub open spec fn spec_iter(self) -> Seq<(u32, (i16, i16))> {
        Seq::new(
            min3(
                self.point_numbers.numbers().len() as int,
                self.x_coord_deltas.len() as int,
                self.y_coord_deltas.len() as int,
            ) as nat,
            |i: int|
                (self.point_numbers.numbers()[i], (self.x_coord_deltas[i], self.y_coord_deltas[i])),
        )
    }

    /// The variation data of the glyph of `num_points` points that the header
    /// `header` holds, with `shared` as the shared point numbers of its store.
    ///
    /// The point numbers are followed by one list of packed deltas, of which
    /// the first half are the deltas in x and the second half are the deltas
    /// in y.
    pub open spec fn spec_read(
        header: TupleVariationHeaderView,
        num_points: u32,
        shared: Option<PointSet>,
    ) -> Result<GvarVariationDataView, ParseError> {
        match spec_point_numbers_of(
            header.tuple_flags_and_index,
            header.data,
            0,
            num_points,
            shared,
        ) {
            Err(e) => Err(e),
            Ok((points, at)) => {
                let m = points.numbers().len() as int;
                if m > u32::MAX {
                    Err(ParseError::BadValue)
                } else if 2 * m > u32::MAX {
                    Err(ParseError::LimitExceeded)
                } else {
                    match spec_packed_deltas(header.data, at, 2 * m) {
                        Err(e) => Err(e),
                        Ok((deltas, _)) => Ok(
                            GvarVariationDataView {
                                point_numbers: points,
                                x_coord_deltas: deltas.subrange(0, m),
                                y_coord_deltas: deltas.subrange(m, 2 * m),
                            },
                        ),
                    }
                }
            },
        }
    }
}

impl CvarVariationDataView {
    /// The variation data of the `num_cvts` control values that the header
    /// `header` holds, with `shared` as the shared point numbers of its store.
    ///
    /// A header of `cvar` must hold its peak tuple: one without is a
    /// `MissingValue`.
    pub open spec fn spec_read(
        header: TupleVariationHeaderView,
        num_cvts: u32,
        shared: Option<PointSet>,
    ) -> Result<CvarVariationDataView, ParseError> {
        if header.peak_tuple is None {
            Err(ParseError::MissingValue)
        } else {
            Self::spec_read_deltas(header, num_cvts, shared)
        }
    }

    /// The variation data that the header `header` holds, whether or not it
    /// has the peak tuple that a header of `cvar` must have.
    pub open spec fn spec_read_deltas(
        header: TupleVariationHeaderView,
        num_cvts: u32,
        shared: Option<PointSet>,
    ) -> Result<CvarVariationDataView, ParseError> {
        match spec_point_numbers_of(
            header.tuple_flags_and_index,
            header.data,
            0,
            num_cvts,
            shared,
        ) {
            Err(e) => Err(e),
            Ok((points, at)) => {
                let m = points.numbers().len() as int;
                if m > u32::MAX {
                    Err(ParseError::BadValue)
                } else {
                    match spec_packed_deltas(header.data, at, m) {
                        Err(e) => Err(e),
                        Ok((deltas, _)) => Ok(
                            CvarVariationDataView { point_numbers: points, deltas },
                        ),
                    }
                }
            },
        }
    }
}

/// The number of point numbers that `points` holds.
fn point_count(points: &Cow<'_, PointNumbers>) -> (n: usize)
    ensures
        n == points@.numbers().len(),
{
    match points {
        Cow::Borrowed(points) => points.len(),
        Cow::Owned(points) => points.len(),
    }
}

/// The point number of `points` at `index`.
fn point_at(points: &Cow<'_, PointNumbers>, index: usize) -> (n: u32)
    requires
        index < points@.numbers().len(),
    ensures
        n == points@.numbers()[index as int],
{
    match points {
        Cow::Borrowed(points) => points.get(index),
        Cow::Owned(points) => points.get(index),
    }
}

impl GvarVariationData<'_> {
    /// The point numbers with their (x, y) deltas.
    pub fn iter(&self) -> (items: Vec<(u32, (i16, i16))>)
        ensures
            items@ == self@.spec_iter(),
    {
        let mut len = point_count(&self.point_numbers);
        if self.x_coord_deltas.len() < len {
            len = self.x_coord_deltas.len();
        }
        if self.y_coord_deltas.len() < len {
            len = self.y_coord_deltas.len();
        }
        let mut items: Vec<(u32, (i16, i16))> = Vec::new();
        let mut i: usize = 0;
        while i < len
            invariant
                i <= len,
                len == self@.spec_iter().len(),
                items@ == self@.spec_iter().take(i as int),
            decreases len - i,
        {
            items.push(
                (point_at(&self.point_numbers, i), (self.x_coord_deltas[i], self.y_coord_deltas[i])),
            );
            i = i + 1;
            assert(items@ =~= self@.spec_iter().take(i as int));
        }
        assert(self@.spec_iter().take(len as int) =~= self@.spec_iter());
        items
    }

    /// Returns the number of point numbers.
    pub fn len(&self) -> (n: usize)
        ensures
            n == self@.point_numbers.numbers().len(),
    {
        point_count(&self.point_numbers)
    }
}

impl TupleVariationStore<'_, Gvar> {
    /// Retrieve the variation data for the variation tuple at the given index.
    pub fn variation_data(&self, index: u16) -> (r: Result<GvarVariationData<'_>, ParseError>)
        ensures
            match (if index < self@.tuple_variation_headers.len() {
                GvarVariationDataView::spec_read(
                    self@.tuple_variation_headers[index as int],
                    self@.num_points,
                    self@.shared_point_numbers,
                )
            } else {
                Err(ParseError::BadIndex)
            }) {
                Ok(data) => r matches Ok(d) && d@ == data,
                Err(e) => r matches Err(x) && x == e,
            },
    {
        if (index as usize) >= self.tuple_variation_headers.len() {
            return Err(ParseError::BadIndex);
        }
        let header = &self.tuple_variation_headers[index as usize];
        header.variation_data(NumPoints::from_raw(self.num_points), self.shared_point_numbers())
    }
}

impl<'data> TupleVariationHeader<'data, Gvar> {
    /// Read the variation data for `gvar`.
    ///
    /// `num_points` is the number of points in the glyph this variation relates to.
    pub fn variation_data<'a>(
        &'a self,
        num_points: NumPoints,
        shared_point_numbers: Option<SharedPointNumbers<'a>>,
    ) -> (r: Result<GvarVariationData<'a>, ParseError>)
        ensures
            match GvarVariationDataView::spec_read(
                self@,
                num_points.spec_get(),
                shared_view(shared_point_numbers),
            ) {
                Ok(data) => r matches Ok(d) && d@ == data,
                Err(e) => r matches Err(x) && x == e,
            },
    {
        let mut ctxt = ReadScope::new(self.data).ctxt();

        let point_numbers = self.read_point_numbers(
            &mut ctxt,
            num_points.get(),
            shared_point_numbers,
        )?;
        let len = point_count(&point_numbers);
        if len > u32::MAX as usize {
            return Err(ParseError::BadValue);
        }
        let num_deltas = len as u32;
        let total = match num_deltas.checked_mul(2) {
            Some(total) => total,
            None => {
                return Err(ParseError::LimitExceeded);
            },
        };

        // The deltas are stored X, followed by Y but the delta runs can span the boundary of the
        // two so they need to be read as a single span of packed deltas and then split.
        let mut x_coord_deltas = read_packed_deltas(&mut ctxt, total)?;
        let y_coord_deltas = x_coord_deltas.split_off(len);

        Ok(GvarVariationData { point_numbers, x_coord_deltas, y_coord_deltas })
    }

    /// Returns the index of the shared tuple that this header relates to.
    ///
    /// The tuple index is an index into the shared tuples of the `gvar` table.
    ///
    /// The value returned from this method will be `None` if the header has an embedded
    /// peak tuple.
    pub fn tuple_index(&self) -> (index: Option<u16>)
        ensures
            index == self@.spec_tuple_index(),
    {
        if self.peak_tuple.is_none() {
            Some(self.tuple_flags_and_index & TUPLE_INDEX_MASK)
        } else {
            None
        }
    }

    /// Returns the peak tuple for this tuple variation record.
    ///
    /// If the record contains an embedded peak tuple then that is returned, otherwise the
    /// referenced shared peak tuple is returned.
    pub fn peak_tuple<'a>(&'a self, gvar: &'a GvarTable<'data>) -> (r: Result<
        Tuple<'data>,
        ParseError,
    >)
        ensures
            match (match self@.peak_tuple {
                Some(tuple) => Ok(tuple),
                None => gvar.spec_shared_tuple(self@.tuple_flags_and_index & TUPLE_INDEX_MASK),
            }) {
                Ok(tuple) => r matches Ok(t) && t@ == tuple,
                Err(e) => r matches Err(x) && x == e,
            },
    {
        match self.peak_tuple {
            Some(tuple) => Ok(tuple),
            None => {
                let shared_index = self.tuple_flags_and_index & TUPLE_INDEX_MASK;
                gvar.shared_tuple(shared_index)
            },
        }
    }

    /// Returns the intermediate region of the tuple variation space that this variation applies to.
    ///
    /// If an intermediate region is not specified (the region is implied by the peak tuple) then
    /// this will be `None`.
    pub fn intermediate_region(&self) -> (region: Option<(Tuple<'data>, Tuple<'data>)>)
        ensures
            match region {
                Some((start, end)) => self@.intermediate_region == Some((start@, end@)),
                None => self@.intermediate_region is None,
            },
    {
        self.intermediate_region
    }
}

impl<'data> TupleVariationHeader<'data, Cvar> {
    /// Read the variation data for `cvar`.
    ///
    /// `num_cvts` is the number of CVTs in the CVT table. A header without
    /// an embedded peak tuple, which `cvar` does not allow, is a `MissingValue`.
    pub fn variation_data<'a>(
        &'a self,
        num_cvts: u32,
        shared_point_numbers: Option<SharedPointNumbers<'a>>,
    ) -> (r: Result<CvarVariationData<'a>, ParseError>)
        ensures
            match CvarVariationDataView::spec_read(
                self@,
                num_cvts,
                shared_view(shared_point_numbers),
            ) {
                Ok(data) => r matches Ok(d) && d@ == data,
                Err(e) => r matches Err(x) && x == e,
            },
    {
        // The peak tuple is mandatory in `cvar`
        if self.peak_tuple.is_none() {
            return Err(ParseError::MissingValue);
        }
        let mut ctxt = ReadScope::new(self.data).ctxt();

        let point_numbers = self.read_point_numbers(&mut ctxt, num_cvts, shared_point_numbers)?;
        let len = point_count(&point_numbers);
        if len > u32::MAX as usize {
            return Err(ParseError::BadValue);
        }
        let deltas = read_packed_deltas(&mut ctxt, len as u32)?;

        Ok(CvarVariationData { point_numbers, deltas })
    }

    /// Returns the index of the shared tuple that this header relates to.
    ///
    /// The value returned from this method will be `None` if the header has an embedded
    /// peak tuple, which headers of the `cvar` table must have.
    pub fn tuple_index(&self) -> (index: Option<u16>)
        ensures
            index == self@.spec_tuple_index(),
    {
        if self.peak_tuple.is_none() {
            Some(self.tuple_flags_and_index & TUPLE_INDEX_MASK)
        } else {
            None
        }
    }

    /// Returns the embedded peak tuple if present.
    pub fn peak_tuple(&self) -> (tuple: Option<&Tuple<'data>>)
        ensures
            match tuple {
                Some(tuple) => self@.peak_tuple == Some(tuple@),
                None => self@.peak_tuple is None,
            },
    {
        self.peak_tuple.as_ref()
    }
}

impl CvarVariationData<'_> {
    /// The numbers of the control values with their deltas.
    pub fn iter(&self) -> (items: Vec<(u32, i16)>)
        ensures
            items@.len() == if self@.point_numbers.numbers().len() <= self@.deltas.len() {
                self@.point_numbers.numbers().len()
            } else {
                self@.deltas.len()
            },
            forall|i: int|
                0 <= i < items@.len() ==> #[trigger] items@[i] == (
                    self@.point_numbers.numbers()[i],
                    self@.deltas[i],
                ),
    {
        let mut len = point_count(&self.point_numbers);
        if self.deltas.len() < len {
            len = self.deltas.len();
        }
        let mut items: Vec<(u32, i16)> = Vec::new();
        let mut i: usize = 0;
        while i < len
            invariant
                i <= len,
                len <= self@.point_numbers.numbers().len(),
                len <= self@.deltas.len(),
                items@.len() == i,
                forall|k: int|
                    0 <= k < i ==> #[trigger] items@[k] == (
                        self@.point_numbers.numbers()[k],
                        self@.deltas[k],
                    ),
            decreases len - i,
        {
            items.push((point_at(&self.point_numbers, i), self.deltas[i]));
            i = i + 1;
        }
        items
    }

    /// Returns the number of numbers of control values.
    pub fn len(&self) -> (n: usize)
        ensures
            n == self@.point_numbers.numbers().len(),
    {
        point_count(&self.point_numbers)
    }
}

/// The start, the peak and the end of a variation region along one axis.
#[derive(Clone, Copy, Debug, PartialEq, Eq, Structural)]
pub struct RegionAxisCoordinates {
    /// The region start coordinate value for the current axis.
    pub start_coord: F2Dot14,
    /// The region peak coordinate value for the current axis.
    pub peak_coord: F2Dot14,
    /// The region end coordinate value for the current axis.
    pub end_coord: F2Dot14,
}

impl RegionAxisCoordinates {
    /// The coordinates of a region along one axis, from its start, peak and end.
    pub fn read_from(coords: (F2Dot14, F2Dot14, F2Dot14)) -> (r: Self)
        ensures
            r == (RegionAxisCoordinates {
                start_coord: coords.0,
                peak_coord: coords.1,
                end_coord: coords.2,
            }),
    {
        let (start_coord, peak_coord, end_coord) = coords;
        RegionAxisCoordinates { start_coord, peak_coord, end_coord }
    }
}

impl ReadFrom for RegionAxisCoordinates {
    open spec fn size() -> nat {
        6
    }

    open spec fn decode(s: Seq<u8>, at: int) -> Self {
        RegionAxisCoordinates {
            start_coord: F2Dot14(i16_be(s, at) as i16),
            peak_coord: F2Dot14(i16_be(s, at + 2) as i16),
            end_coord: F2Dot14(i16_be(s, at + 4) as i16),
        }
    }

    fn byte_size() -> (n: usize) {
        6
    }

    fn read_at(data: &[u8], at: usize) -> (v: Self) {
        let _ = data.len();
        let start = F2Dot14(get_i16_be(data, at));
        let peak = F2Dot14(get_i16_be(data, at + 2));
        let end = F2Dot14(get_i16_be(data, at + 4));
        Self::read_from((start, peak, end))
    }
}

/// The share of a region's deltas that applies at an instance, along one
/// axis: the fraction `numerator / denominator`.
#[derive(Clone, Copy, Debug, PartialEq, Eq, Structural)]
pub struct AxisScalar {
    pub numerator: i32,
    pub denominator: i32,
}

/// The scalar of the region `region` along one axis at the coordinate
/// `instance`, as a numerator and a denominator.
///
/// An axis whose peak is zero is ignored. An instance outside of the region
/// gets none of the deltas, an instance at the peak gets all of them, and one
/// in between gets the share that its nearness to the peak gives it.
pub open spec fn axis_scalar(region: RegionAxisCoordinates, instance: F2Dot14) -> (int, int) {
    let start = region.start_coord.0 as int;
    let peak = region.peak_coord.0 as int;
    let end = region.end_coord.0 as int;
    let instance = instance.0 as int;
    if peak == 0 {
        (1, 1)
    } else if start <= instance <= end {
        if instance == peak {
            (1, 1)
        } else if instance < peak {
            (instance - start, peak - start)
        } else {
            (end - instance, end - peak)
        }
    } else {
        (0, 1)
    }
}

/// The number of axes for which both the region and the instance have coordinates.
pub open spec fn scalar_axes(axes: Seq<RegionAxisCoordinates>, tuple: Seq<F2Dot14>) -> int {
    if axes.len() <= tuple.len() {
        axes.len() as int
    } else {
        tuple.len() as int
    }
}

/// The numerator of the scalar of a region over its first `n` axes: the
/// product of the numerators of the axes.
pub open spec fn scalar_numerator(
    axes: Seq<RegionAxisCoordinates>,
    tuple: Seq<F2Dot14>,
    n: int,
) -> int
    decreases n,
{
    if n <= 0 {
        1
    } else {
        scalar_numerator(axes, tuple, n - 1) * axis_scalar(axes[n - 1], tuple[n - 1]).0
    }
}

/// The denominator of the scalar of a region over its first `n` axes: the
/// product of the denominators of the axes.
pub open spec fn scalar_denominator(
    axes: Seq<RegionAxisCoordinates>,
    tuple: Seq<F2Dot14>,
    n: int,
) -> int
    decreases n,
{
    if n <= 0 {
        1
    } else {
        scalar_denominator(axes, tuple, n - 1) * axis_scalar(axes[n - 1], tuple[n - 1]).1
    }
}

/// The scalar of one axis lies between 0 and 1, and its denominator is positive.
pub proof fn lemma_axis_scalar_range(region: RegionAxisCoordinates, instance: F2Dot14)
    ensures
        0 <= axis_scalar(region, instance).0 <= axis_scalar(region, instance).1,
        0 < axis_scalar(region, instance).1 <= 0xffff,
{
}

/// Whether the instance lies outside of the region along an axis that counts.
pub open spec fn axis_out_of_range(region: RegionAxisCoordinates, instance: F2Dot14) -> bool {
    region.peak_coord.0 != 0 && !(region.start_coord.0 <= instance.0 <= region.end_coord.0)
}

/// Whether the instance lies on the border of the region, away from the
/// peak, along an axis that counts.
pub open spec fn axis_on_border(region: RegionAxisCoordinates, instance: F2Dot14) -> bool {
    &&& region.peak_coord.0 != 0
    &&& region.start_coord.0 <= instance.0 <= region.end_coord.0
    &&& (instance.0 < region.peak_coord.0 && instance.0 == region.start_coord.0) || (instance.0
        > region.peak_coord.0 && instance.0 == region.end_coord.0)
}

/// Whether the instance lies at the peak of the region along an axis, or
/// the axis does not count.
pub open spec fn axis_at_peak(region: RegionAxisCoordinates, instance: F2Dot14) -> bool {
    region.peak_coord.0 == 0 || (instance.0 == region.peak_coord.0 && region.start_coord.0
        <= instance.0 <= region.end_coord.0)
}

/// The scalar of a region lies between 0 and 1. It is 0 if and only if the
/// instance lies outside of the region or on its border along some axis that
/// counts, and it is 1 if and only if the instance lies at the peak along
/// every axis that counts.
pub proof fn lemma_scalar_range(axes: Seq<RegionAxisCoordinates>, tuple: Seq<F2Dot14>, n: int)
    requires
        0 <= n <= scalar_axes(axes, tuple),
    ensures
        0 <= scalar_numerator(axes, tuple, n) <= scalar_denominator(axes, tuple, n),
        0 < scalar_denominator(axes, tuple, n),
        scalar_numerator(axes, tuple, n) == 0 <==> exists|i: int|
            0 <= i < n && (#[trigger] axis_out_of_range(axes[i], tuple[i]) || axis_on_border(
                axes[i],
                tuple[i],
            )),
        scalar_numerator(axes, tuple, n) == scalar_denominator(axes, tuple, n) <==> forall|i: int|
            0 <= i < n ==> #[trigger] axis_at_peak(axes[i], tuple[i]),
    decreases n,
{
    if n > 0 {
        lemma_scalar_range(axes, tuple, n - 1);
        let a = scalar_numerator(axes, tuple, n - 1);
        let b = scalar_denominator(axes, tuple, n - 1);
        let (c, d) = axis_scalar(axes[n - 1], tuple[n - 1]);
        lemma_axis_scalar_range(axes[n - 1], tuple[n - 1]);
        assert(0 <= a * c <= b * d && 0 < b * d) by (nonlinear_arith)
            requires
                0 <= a <= b,
                0 < b,
                0 <= c <= d,
                0 < d,
        ;
        assert((a * c == 0) == (a == 0 || c == 0)) by (nonlinear_arith);
        assert((a * c == b * d) == (a == b && c == d)) by (nonlinear_arith)
            requires
                0 <= a <= b,
                0 < b,
                0 <= c <= d,
                0 < d,
        ;
        let zero = |i: int|
            axis_out_of_range(axes[i], tuple[i]) || axis_on_border(axes[i], tuple[i]);
        assert((c == 0) == zero(n - 1));
        assert((c == d) == axis_at_peak(axes[n - 1], tuple[n - 1]));
        if a * c == 0 {
            if a == 0 {
                let i = choose|i: int|
                    0 <= i < n - 1 && (#[trigger] axis_out_of_range(axes[i], tuple[i])
                        || axis_on_border(axes[i], tuple[i]));
                assert(axis_out_of_range(axes[i], tuple[i]) || axis_on_border(axes[i], tuple[i]));
            } else {
                assert(axis_out_of_range(axes[n - 1], tuple[n - 1]) || axis_on_border(
                    axes[n - 1],
                    tuple[n - 1],
                ));
            }
        }
    }
}

/// The scalar of a region is 0 if and only if the instance lies outside of
/// the region along some axis.
///
/// This holds where, along every axis, an instance on the border of the
/// region is at the peak, and the region of an axis that does not count
/// holds the instance.
pub proof fn lemma_scalar_zero(axes: Seq<RegionAxisCoordinates>, tuple: Seq<F2Dot14>)
    requires
        forall|i: int|
            0 <= i < scalar_axes(axes, tuple) ==> !#[trigger] axis_on_border(axes[i], tuple[i]),
        forall|i: int|
            0 <= i < scalar_axes(axes, tuple) && axes[i].peak_coord.0 == 0
                ==> (#[trigger] axes[i]).start_coord.0 <= tuple[i].0 <= axes[i].end_coord.0,
    ensures
        scalar_numerator(axes, tuple, scalar_axes(axes, tuple)) == 0 <==> exists|i: int|
            0 <= i < scalar_axes(axes, tuple) && !((#[trigger] axes[i]).start_coord.0 <= tuple[i].0
                <= axes[i].end_coord.0),
{
    let n = scalar_axes(axes, tuple);
    lemma_scalar_range(axes, tuple, n);
    if scalar_numerator(axes, tuple, n) == 0 {
        let i = choose|i: int|
            0 <= i < n && (#[trigger] axis_out_of_range(axes[i], tuple[i]) || axis_on_border(
                axes[i],
                tuple[i],
            ));
        assert(!axis_on_border(axes[i], tuple[i]));
        assert(!(axes[i].start_coord.0 <= tuple[i].0 <= axes[i].end_coord.0));
    }
    if exists|i: int|
        0 <= i < n && !((#[trigger] axes[i]).start_coord.0 <= tuple[i].0 <= axes[i].end_coord.0) {
        let i = choose|i: int|
            0 <= i < n && !((#[trigger] axes[i]).start_coord.0 <= tuple[i].0
                <= axes[i].end_coord.0);
        assert(axis_out_of_range(axes[i], tuple[i]));
    }
}

/// The scalar of a region is 1 if and only if, along every axis, the peak
/// is zero or the instance is at the peak.
///
/// This holds where the region holds its peak along every axis.
pub proof fn lemma_scalar_one(axes: Seq<RegionAxisCoordinates>, tuple: Seq<F2Dot14>)
    requires
        forall|i: int|
            0 <= i < scalar_axes(axes, tuple) ==> (#[trigger] axes[i]).start_coord.0
                <= axes[i].peak_coord.0 <= axes[i].end_coord.0,
    ensures
        scalar_numerator(axes, tuple, scalar_axes(axes, tuple)) == scalar_denominator(
            axes,
            tuple,
            scalar_axes(axes, tuple),
        ) <==> forall|i: int|
            0 <= i < scalar_axes(axes, tuple) ==> (#[trigger] axes[i]).peak_coord.0 == 0
                || tuple[i].0 == axes[i].peak_coord.0,
{
    let n = scalar_axes(axes, tuple);
    lemma_scalar_range(axes, tuple, n);
    if forall|i: int|
        0 <= i < n ==> (#[trigger] axes[i]).peak_coord.0 == 0 || tuple[i].0
            == axes[i].peak_coord.0 {
        assert forall|i: int| 0 <= i < n implies #[trigger] axis_at_peak(axes[i], tuple[i]) by {
            assert(axes[i].peak_coord.0 == 0 || tuple[i].0 == axes[i].peak_coord.0);
        }
    }
    if scalar_numerator(axes, tuple, n) == scalar_denominator(axes, tuple, n) {
        assert forall|i: int| 0 <= i < n implies (#[trigger] axes[i]).peak_coord.0 == 0
            || tuple[i].0 == axes[i].peak_coord.0 by {
            assert(axis_at_peak(axes[i], tuple[i]));
        }
    }
}

/// A region of the variation space: its extent along each axis.
#[derive(Clone, Copy)]
pub struct VariationRegion<'a> {
    /// Array of region axis coordinates records, in the order of axes given in the `fvar` table.
    region_axes: ReadArray<'a, RegionAxisCoordinates>,
}

impl<'a> View for VariationRegion<'a> {
    type V = Seq<RegionAxisCoordinates>;

    /// The extent of the region along each axis.
    closed spec fn view(&self) -> Seq<RegionAxisCoordinates> {
        self.region_axes@
    }
}

/// The region of `axis_count` axes that `b` holds at `at`.
pub open spec fn spec_region(b: Seq<u8>, at: int, axis_count: int) -> Seq<RegionAxisCoordinates> {
    Seq::new(axis_count as nat, |i: int| RegionAxisCoordinates::decode(b, at + 6 * i))
}

impl<'a> VariationRegion<'a> {
    /// The scalar of the region at the instance `tuple`: `None` where it is
    /// zero, and else its factors, one for each axis. The scalar is the
    /// product of its factors.
    ///
    /// Axes for which either the region or the instance has no coordinates
    /// are left out.
    pub fn scalar(&self, tuple: &[F2Dot14]) -> (r: Option<Vec<AxisScalar>>)
        ensures
            match r {
                Some(factors) => {
                    &&& scalar_numerator(self@, tuple@, scalar_axes(self@, tuple@)) != 0
                    &&& factors@.len() == scalar_axes(self@, tuple@)
                    &&& forall|i: int|
                        0 <= i < factors@.len() ==> (#[trigger] factors@[i]).numerator
                            == axis_scalar(self@[i], tuple@[i]).0 && factors@[i].denominator
                            == axis_scalar(self@[i], tuple@[i]).1
                },
                None => scalar_numerator(self@, tuple@, scalar_axes(self@, tuple@)) == 0,
            },
    {
        let n = if self.region_axes.len() <= tuple.len() {
            self.region_axes.len()
        } else {
            tuple.len()
        };
        let mut factors: Vec<AxisScalar> = Vec::new();
        let mut zero = false;
        let mut i: usize = 0;
        while i < n
            invariant
                i <= n,
                n == scalar_axes(self@, tuple@),
                self.region_axes.spec_len() == self@.len(),
                factors@.len() == i,
                zero == (scalar_numerator(self@, tuple@, i as int) == 0),
                forall|k: int|
                    0 <= k < i ==> (#[trigger] factors@[k]).numerator == axis_scalar(
                        self@[k],
                        tuple@[k],
                    ).0 && factors@[k].denominator == axis_scalar(self@[k], tuple@[k]).1,
            decreases n - i,
        {
            let region = self.region_axes.get_item(i);
            let instance = tuple[i];
            let start = region.start_coord.0 as i32;
            let peak = region.peak_coord.0 as i32;
            let end = region.end_coord.0 as i32;
            let value = instance.0 as i32;
            let factor = if peak == 0 {
                // If the peak is zero for some axis, then ignore the axis.
                AxisScalar { numerator: 1, denominator: 1 }
            } else if start <= value && value <= end {
                // The region is applicable: calculate a per-axis scalar as a proportion
                // of the proximity of the instance to the peak within the region.
                if value == peak {
                    AxisScalar { numerator: 1, denominator: 1 }
                } else if value < peak {
                    AxisScalar { numerator: value - start, denominator: peak - start }
                } else {
                    AxisScalar { numerator: end - value, denominator: end - peak }
                }
            } else {
                // If the instance coordinate is out of range for some axis, then the region and its
                // associated deltas are not applicable.
                AxisScalar { numerator: 0, denominator: 1 }
            };
            proof {
                let a = scalar_numerator(self@, tuple@, i as int);
                let c = axis_scalar(self@[i as int], tuple@[i as int]).0;
                assert((a * c == 0) == (a == 0 || c == 0)) by (nonlinear_arith);
            }
            if factor.numerator == 0 {
                zero = true;
            }
            factors.push(factor);
            i = i + 1;
        }
        if zero {
            None
        } else {
            Some(factors)
        }
    }

    /// Reads a region of a font of `axis_count` axes.
    pub fn read_dep(ctxt: &mut ReadCtxt<'a>, axis_count: u16) -> (r: Result<
        VariationRegion<'a>,
        ParseError,
    >)
        ensures
            match r {
                Ok(region) => old(ctxt).has(6 * axis_count) && region@ == spec_region(
                    old(ctxt).bytes(),
                    old(ctxt).pos(),
                    axis_count as int,
                ) && final(ctxt).advanced(old(ctxt), 6 * axis_count),
                Err(e) => e == ParseError::BadEof && !old(ctxt).has(6 * axis_count)
                    && final(ctxt).unmoved(old(ctxt)),
            },
    {
        assert(axis_count * 6 == 6 * axis_count);
        let region_axes = ctxt.read_array::<RegionAxisCoordinates>(axis_count as usize)?;
        let region = VariationRegion { region_axes };
        assert(region@ =~= spec_region(old(ctxt).bytes(), old(ctxt).pos(), axis_count as int));
        Ok(region)
    }

    /// The number of bytes of a region of a font of `axis_count` axes.
    pub fn size(axis_count: u16) -> (n: usize)
        ensures
            n == 6 * axis_count,
    {
        axis_count as usize * 6
    }
}

/// The regions of an item variation store.
pub struct VariationRegionList<'a> {
    /// The number of variation axes for this font. This must be the same number as axisCount in
    /// the `fvar` table.
    axis_count: u16,
    /// The number of variation regions.
    region_count: u16,
    /// The regions, each of six bytes for every axis.
    regions: &'a [u8],
}

/// What a list of variation regions holds.
pub struct VariationRegionListView {
    pub axis_count: u16,
    pub variation_regions: Seq<Seq<RegionAxisCoordinates>>,
}

impl<'a> View for VariationRegionList<'a> {
    type V = VariationRegionListView;

    closed spec fn view(&self) -> VariationRegionListView {
        VariationRegionListView {
            axis_count: self.axis_count,
            variation_regions: Seq::new(
                self.region_count as nat,
                |i: int| spec_region(self.regions@, i * (6 * self.axis_count), self.axis_count as int),
            ),
        }
    }
}

impl VariationRegionListView {
    /// The list of regions that `b` holds at `at`, and the position behind it.
    ///
    /// A count of regions whose highest bit is set is a `BadValue`.
    pub open spec fn spec_read(b: Seq<u8>, at: int) -> Result<
        (VariationRegionListView, int),
        ParseError,
    > {
        if at < 0 || at + 4 > b.len() {
            Err(ParseError::BadEof)
        } else {
            let axis_count = u16_be(b, at) as u16;
            let region_count = u16_be(b, at + 2) as u16;
            if region_count >= 32768 {
                Err(ParseError::BadValue)
            } else if at + 4 + region_count * (6 * axis_count) > b.len() {
                Err(ParseError::BadEof)
            } else {
                Ok(
                    (
                        VariationRegionListView {
                            axis_count,
                            variation_regions: Seq::new(
                                region_count as nat,
                                |i: int|
                                    spec_region(
                                        b,
                                        at + 4 + i * (6 * axis_count),
                                        axis_count as int,
                                    ),
                            ),
                        },
                        at + 4 + region_count * (6 * axis_count),
                    ),
                )
            }
        }
    }
}

impl<'a> VariationRegionList<'a> {
    #[verifier::type_invariant]
    spec fn inv(&self) -> bool {
        self.regions@.len() == self.region_count * (6 * self.axis_count)
    }

    /// Reads a list of regions.
    pub fn read(ctxt: &mut ReadCtxt<'a>) -> (r: Result<VariationRegionList<'a>, ParseError>)
        ensures
            parsed_view(
                old(ctxt),
                final(ctxt),
                r,
                VariationRegionListView::spec_read(old(ctxt).bytes(), old(ctxt).pos()),
            ),
    {
        let ghost b = ctxt.bytes();
        let ghost at = ctxt.pos();
        let _ = ctxt.offset();
        let axis_count = ctxt.read_u16be()?;
        let region_count = ctxt.read_u16be()?;
        // The high-order bit of the region_count field is reserved for future use,
        // and must be cleared.
        ctxt.check(region_count < 32768)?;
        let size: u64 = 6 * axis_count as u64;
        assert(region_count * size <= 0x7fff * 0x5_fffa) by (nonlinear_arith)
            requires
                region_count <= 0x7fff,
                size <= 0x5_fffa,
        ;
        let total: u64 = region_count as u64 * size;
        if total > ctxt.remaining() as u64 {
            return Err(ParseError::BadEof);
        }
        let regions = ctxt.read_slice(total as usize)?;
        let list = VariationRegionList { axis_count, region_count, regions };
        proof {
            let expected = VariationRegionListView::spec_read(b, at)->Ok_0.0;
            assert forall|i: int| 0 <= i < region_count implies #[trigger] list@.variation_regions[i]
                =~= expected.variation_regions[i] by {
                assert(0 <= i * size && i * size + size <= region_count * size)
                    by (nonlinear_arith)
                    requires
                        0 <= i < region_count,
                        0 <= size,
                ;
            }
            assert(list@.variation_regions =~= expected.variation_regions);
        }
        Ok(list)
    }

    /// The number of regions.
    pub fn len(&self) -> (n: u16)
        ensures
            n == self@.variation_regions.len(),
    {
        self.region_count
    }

    /// The region at `index`, if there is one.
    pub fn get(&self, index: u16) -> (r: Option<VariationRegion<'a>>)
        ensures
            match r {
                Some(region) => index < self@.variation_regions.len() && region@
                    == self@.variation_regions[index as int],
                None => index >= self@.variation_regions.len(),
            },
    {
        if index >= self.region_count {
            return None;
        }
        proof {
            use_type_invariant(self);
        }
        let size: u64 = 6 * self.axis_count as u64;
        assert(0 <= index * size && index * size + size <= self.region_count * size)
            by (nonlinear_arith)
            requires
                0 <= index < self.region_count,
                0 <= size,
        ;
        let len = self.regions.len();
        let offset = (index as u64 * size) as usize;
        let scope = match ReadScope::new(self.regions).offset_length(offset, size as usize) {
            Ok(scope) => scope,
            Err(_) => {
                return None;
            },
        };
        let mut ctxt = scope.ctxt();
        match VariationRegion::read_dep(&mut ctxt, self.axis_count) {
            Ok(region) => {
                assert(region@ =~= self@.variation_regions[index as int]);
                Some(region)
            },
            Err(_) => None,
        }
    }
}

/// A sub-table of an item variation store: rows of deltas, one row for each
/// item, with one delta in each row for each region that the sub-table refers to.
pub struct ItemVariationData<'a> {
    /// The number of delta sets for distinct items.
    item_count: u16,
    /// A packed field: the high bit is a flag.
    word_delta_count: u16,
    /// The number of variation regions referenced.
    region_index_count: u16,
    /// Array of indices into the variation region list for the regions referenced by this item
    /// variation data table.
    region_indexes: ReadArray<'a, u16>,
    /// Delta-set rows.
    delta_sets: &'a [u8],
}

/// What a sub-table of an item variation store holds.
pub struct ItemVariationDataView {
    pub item_count: u16,
    pub word_delta_count: u16,
    pub region_index_count: u16,
    pub region_indexes: Seq<u16>,
    pub delta_sets: Seq<u8>,
}

impl<'a> View for ItemVariationData<'a> {
    type V = ItemVariationDataView;

    closed spec fn view(&self) -> ItemVariationDataView {
        ItemVariationDataView {
            item_count: self.item_count,
            word_delta_count: self.word_delta_count,
            region_index_count: self.region_index_count,
            region_indexes: self.region_indexes@,
            delta_sets: self.delta_sets@,
        }
    }
}

/// Flag indicating that "word" deltas are long (32-bit).
pub const LONG_WORDS: u16 = 0x8000;

/// Mask for the count of "word" deltas.
pub const WORD_DELTA_COUNT_MASK: u16 = 0x7FFF;

/// The number of bytes of a row of deltas: one byte for each region, one
/// more for each word delta, and twice as many if the word deltas are long.
pub open spec fn spec_row_length(region_index_count: u16, word_delta_count: u16) -> int {
    let row_length = region_index_count + (word_delta_count & WORD_DELTA_COUNT_MASK);
    if word_delta_count & LONG_WORDS == 0 {
        row_length
    } else {
        row_length * 2
    }
}

/// A row of deltas: its word deltas and its short deltas.
pub struct DeltaSet<'a> {
    long_deltas: bool,
    word_data: &'a [u8],
    short_data: &'a [u8],
}

/// What a row of deltas holds.
pub struct DeltaSetView {
    pub long_deltas: bool,
    pub word_data: Seq<u8>,
    pub short_data: Seq<u8>,
}

impl<'a> View for DeltaSet<'a> {
    type V = DeltaSetView;

    closed spec fn view(&self) -> DeltaSetView {
        DeltaSetView {
            long_deltas: self.long_deltas,
            word_data: self.word_data@,
            short_data: self.short_data@,
        }
    }
}

/// The `n` deltas of `size` bytes each that `data` holds: signed big-endian
/// numbers of one, two or four bytes.
pub open spec fn spec_deltas(data: Seq<u8>, size: int) -> Seq<i32> {
    Seq::new(
        (data.len() / size as nat) as nat,
        |i: int|
            if size == 4 {
                crate::binary::i32_be(data, 4 * i) as i32
            } else if size == 2 {
                i16_be(data, 2 * i) as i32
            } else {
                i8_at(data, i) as i32
            },
    )
}

impl DeltaSetView {
    /// The number of bytes of a word delta.
    pub open spec fn word_size(self) -> int {
        if self.long_deltas {
            4
        } else {
            2
        }
    }

    /// The number of bytes of a short delta.
    pub open spec fn short_size(self) -> int {
        if self.long_deltas {
            2
        } else {
            1
        }
    }

    /// The deltas of the row: the word deltas, then the short deltas.
    pub open spec fn spec_iter(self) -> Seq<i32> {
        spec_deltas(self.word_data, self.word_size()) + spec_deltas(
            self.short_data,
            self.short_size(),
        )
    }
}

impl ItemVariationDataView {
    /// The number of bytes of a row of deltas.
    pub open spec fn row_length(self) -> int {
        spec_row_length(self.region_index_count, self.word_delta_count)
    }

    /// Whether the word deltas are long.
    pub open spec fn long_deltas(self) -> bool {
        self.word_delta_count & LONG_WORDS != 0
    }

    /// The number of word deltas in a row.
    pub open spec fn word_count(self) -> int {
        (self.word_delta_count & WORD_DELTA_COUNT_MASK) as int
    }

    /// The row of deltas at `index`, if the sub-table holds it whole and the
    /// word deltas fit into a row.
    pub open spec fn spec_delta_set(self, index: u16) -> Option<DeltaSetView> {
        let row = self.row_length();
        let start = index * row;
        let set = DeltaSetView {
            long_deltas: self.long_deltas(),
            word_data: Seq::empty(),
            short_data: Seq::empty(),
        };
        let mid = self.word_count() * set.word_size();
        if start + row > self.delta_sets.len() || mid > row || (row - mid) % set.short_size()
            != 0 {
            None
        } else {
            Some(
                DeltaSetView {
                    long_deltas: self.long_deltas(),
                    word_data: self.delta_sets.subrange(start, start + mid),
                    short_data: self.delta_sets.subrange(start + mid, start + row),
                },
            )
        }
    }

    /// The sub-table that `b` holds at `at`, and the position behind it.
    pub open spec fn spec_read(b: Seq<u8>, at: int) -> Result<
        (ItemVariationDataView, int),
        ParseError,
    > {
        if at < 0 || at + 6 > b.len() {
            Err(ParseError::BadEof)
        } else {
            let item_count = u16_be(b, at) as u16;
            let word_delta_count = u16_be(b, at + 2) as u16;
            let region_index_count = u16_be(b, at + 4) as u16;
            let rows = at + 6 + 2 * region_index_count;
            let end = rows + item_count * spec_row_length(region_index_count, word_delta_count);
            if end > b.len() {
                Err(ParseError::BadEof)
            } else {
                Ok(
                    (
                        ItemVariationDataView {
                            item_count,
                            word_delta_count,
                            region_index_count,
                            region_indexes: Seq::new(
                                region_index_count as nat,
                                |i: int| u16_be(b, at + 6 + 2 * i) as u16,
                            ),
                            delta_sets: b.subrange(rows, end),
                        },
                        end,
                    ),
                )
            }
        }
    }
}

/// The masks of the packed count of word deltas give at most 32767 word
/// deltas, and rows of at most 196604 bytes.
proof fn lemma_row_length(region_index_count: u16, word_delta_count: u16)
    ensures
        0 <= (word_delta_count & WORD_DELTA_COUNT_MASK) <= 0x7fff,
        0 <= spec_row_length(region_index_count, word_delta_count) <= 196604,
{
    assert(word_delta_count & 0x7FFF <= 0x7fff) by (bit_vector);
}

impl<'a> DeltaSet<'a> {
    #[verifier::type_invariant]
    spec fn inv(&self) -> bool {
        &&& self.word_data@.len() % (if self.long_deltas {
            4nat
        } else {
            2nat
        }) == 0
        &&& self.short_data@.len() % (if self.long_deltas {
            2nat
        } else {
            1nat
        }) == 0
    }

    /// The deltas of the row: the word deltas, then the short deltas.
    pub fn iter(&self) -> (deltas: Vec<i32>)
        ensures
            deltas@ == self@.spec_iter(),
    {
        proof {
            use_type_invariant(self);
        }
        let mut deltas: Vec<i32> = Vec::new();
        let word_size: usize = if self.long_deltas {
            4
        } else {
            2
        };
        let short_size: usize = if self.long_deltas {
            2
        } else {
            1
        };
        let words = self.word_data.len() / word_size;
        let ghost word_deltas = spec_deltas(self.word_data@, word_size as int);
        let mut i: usize = 0;
        while i < words
            invariant
                i <= words,
                words == self.word_data@.len() / word_size as nat,
                word_size == self@.word_size(),
                self.word_data@.len() <= usize::MAX,
                word_deltas == spec_deltas(self.word_data@, word_size as int),
                deltas@ == word_deltas.take(i as int),
            decreases words - i,
        {
            let delta = if self.long_deltas {
                assert(4 * i + 4 <= self.word_data@.len());
                crate::binary::get_i32_be(self.word_data, 4 * i)
            } else {
                assert(2 * i + 2 <= self.word_data@.len());
                crate::binary::get_i16_be(self.word_data, 2 * i) as i32
            };
            deltas.push(delta);
            i = i + 1;
            assert(deltas@ =~= word_deltas.take(i as int));
        }
        assert(word_deltas.take(words as int) =~= word_deltas);
        let shorts = self.short_data.len() / short_size;
        let ghost short_deltas = spec_deltas(self.short_data@, short_size as int);
        let mut i: usize = 0;
        while i < shorts
            invariant
                i <= shorts,
                shorts == self.short_data@.len() / short_size as nat,
                short_size == self@.short_size(),
                self.short_data@.len() <= usize::MAX,
                short_deltas == spec_deltas(self.short_data@, short_size as int),
                deltas@ == word_deltas + short_deltas.take(i as int),
            decreases shorts - i,
        {
            let delta = if self.long_deltas {
                assert(2 * i + 2 <= self.short_data@.len());
                crate::binary::get_i16_be(self.short_data, 2 * i) as i32
            } else {
                crate::binary::get_i8(self.short_data, i) as i32
            };
            deltas.push(delta);
            i = i + 1;
            assert(deltas@ =~= word_deltas + short_deltas.take(i as int));
        }
        assert(short_deltas.take(shorts as int) =~= short_deltas);
        deltas
    }
}

impl<'a> ItemVariationData<'a> {
    /// Retrieve a delta-set row within this item variation data sub-table.
    pub fn delta_set(&self, index: u16) -> (r: Option<DeltaSet<'a>>)
        ensures
            match self@.spec_delta_set(index) {
                Some(set) => r matches Some(s) && s@ == set,
                None => r is None,
            },
    {
        proof {
            lemma_row_length(self.region_index_count, self.word_delta_count);
        }
        let row_length = self.row_length();
        assert(index * row_length <= 0xffff * 196604) by (nonlinear_arith)
            requires
                index <= 0xffff,
                row_length <= 196604,
        ;
        let start: u64 = index as u64 * row_length as u64;
        let len = self.delta_sets.len();
        if start + row_length as u64 > len as u64 {
            return None;
        }
        let start = start as usize;
        let word_count = self.word_delta_count();
        let word_size = self.word_delta_size();
        let mid = word_count * word_size;
        if mid > row_length {
            return None;
        }
        // Check that short data is a multiple of the short size
        if (row_length - mid) % self.short_delta_size() != 0 {
            return None;
        }
        let word_data = vstd::slice::slice_subrange(self.delta_sets, start, start + mid);
        let short_data = vstd::slice::slice_subrange(
            self.delta_sets,
            start + mid,
            start + row_length,
        );
        proof {
            let size = word_size as int;
            let count = word_count as int;
            assert((count * size) % size == 0) by (nonlinear_arith)
                requires
                    size > 0,
            ;
        }
        Some(DeltaSet { long_deltas: self.long_deltas(), word_data, short_data })
    }

    /// The number of bytes of a word delta.
    fn word_delta_size(&self) -> (n: usize)
        ensures
            n == if self@.long_deltas() {
                4int
            } else {
                2int
            },
    {
        if self.long_deltas() {
            4
        } else {
            2
        }
    }

    /// The number of bytes of a short delta.
    fn short_delta_size(&self) -> (n: usize)
        ensures
            n == if self@.long_deltas() {
                2int
            } else {
                1int
            },
    {
        if self.long_deltas() {
            2
        } else {
            1
        }
    }

    /// The number of bytes of a row of deltas.
    fn row_length(&self) -> (n: usize)
        ensures
            n == self@.row_length(),
    {
        Self::row_length_impl(self.region_index_count, self.word_delta_count)
    }

    /// The number of bytes of a row of deltas of a sub-table with these counts.
    fn row_length_impl(region_index_count: u16, word_delta_count: u16) -> (n: usize)
        ensures
            n == spec_row_length(region_index_count, word_delta_count),
    {
        proof {
            lemma_row_length(region_index_count, word_delta_count);
        }
        let row_length = region_index_count as usize + (word_delta_count
            & WORD_DELTA_COUNT_MASK) as usize;
        if word_delta_count & LONG_WORDS == 0 {
            row_length
        } else {
            row_length * 2
        }
    }

    /// The number of word deltas in a row.
    fn word_delta_count(&self) -> (n: usize)
        ensures
            n == self@.word_count(),
            n <= 0x7fff,
    {
        proof {
            lemma_row_length(self.region_index_count, self.word_delta_count);
        }
        (self.word_delta_count & WORD_DELTA_COUNT_MASK) as usize
    }

    /// Whether the word deltas are long.
    fn long_deltas(&self) -> (b: bool)
        ensures
            b == self@.long_deltas(),
    {
        self.word_delta_count & LONG_WORDS != 0
    }

    /// Reads a sub-table of an item variation store.
    pub fn read(ctxt: &mut ReadCtxt<'a>) -> (r: Result<ItemVariationData<'a>, ParseError>)
        ensures
            parsed_view(
                old(ctxt),
                final(ctxt),
                r,
                ItemVariationDataView::spec_read(old(ctxt).bytes(), old(ctxt).pos()),
            ),
    {
        let ghost b = ctxt.bytes();
        let ghost at = ctxt.pos();
        let _ = ctxt.offset();
        let item_count = ctxt.read_u16be()?;
        let word_delta_count = ctxt.read_u16be()?;
        let region_index_count = ctxt.read_u16be()?;
        let region_indexes = ctxt.read_array::<u16>(region_index_count as usize)?;
        let row_length = Self::row_length_impl(region_index_count, word_delta_count);
        proof {
            lemma_row_length(region_index_count, word_delta_count);
        }
        assert(item_count * row_length <= 0xffff * 196604) by (nonlinear_arith)
            requires
                item_count <= 0xffff,
                row_length <= 196604,
        ;
        let total: u64 = item_count as u64 * row_length as u64;
        if total > ctxt.remaining() as u64 {
            return Err(ParseError::BadEof);
        }
        let delta_sets = ctxt.read_slice(total as usize)?;
        let data = ItemVariationData {
            item_count,
            word_delta_count,
            region_index_count,
            region_indexes,
            delta_sets,
        };
        assert(data@.region_indexes =~= ItemVariationDataView::spec_read(
            b,
            at,
        )->Ok_0.0.region_indexes);
        Ok(data)
    }
}

/// Item variation store.
///
/// Includes a variation region list, which defines the different regions of the font's
/// variation space for which variation data is defined. It also includes a set of
/// item variation data sub-tables, each of which provides a portion of the total
/// variation data.
pub struct ItemVariationStore<'a> {
    /// The variation region list.
    variation_region_list: VariationRegionList<'a>,
    /// The item variation data
    item_variation_data: Vec<ItemVariationData<'a>>,
}

/// What an item variation store holds.
pub struct ItemVariationStoreView {
    pub variation_region_list: VariationRegionListView,
    pub item_variation_data: Seq<ItemVariationDataView>,
}

impl<'a> View for ItemVariationStore<'a> {
    type V = ItemVariationStoreView;

    closed spec fn view(&self) -> ItemVariationStoreView {
        ItemVariationStoreView {
            variation_region_list: self.variation_region_list@,
            item_variation_data: item_views(self.item_variation_data@),
        }
    }
}

/// The views of the sub-tables `items`.
spec fn item_views(items: Seq<ItemVariationData<'_>>) -> Seq<ItemVariationDataView> {
    Seq::new(items.len(), |i: int| items[i]@)
}

/// What `b` holds from `offset` on: nothing where `offset` lies beyond its end.
pub open spec fn spec_offset(b: Seq<u8>, offset: int) -> Seq<u8> {
    if 0 <= offset <= b.len() {
        b.subrange(offset, b.len() as int)
    } else {
        Seq::empty()
    }
}

/// The sub-tables from the `i`th on that `scope` holds at the offsets
/// `offsets`.
pub open spec fn spec_read_items(scope: Seq<u8>, offsets: Seq<u32>, i: int) -> Result<
    Seq<ItemVariationDataView>,
    ParseError,
>
    decreases offsets.len() - i,
{
    if i < 0 || i >= offsets.len() {
        Ok(Seq::empty())
    } else {
        match ItemVariationDataView::spec_read(spec_offset(scope, offsets[i] as int), 0) {
            Err(e) => Err(e),
            Ok((item, _)) => match spec_read_items(scope, offsets, i + 1) {
                Ok(rest) => Ok(seq![item] + rest),
                Err(e) => Err(e),
            },
        }
    }
}

impl ItemVariationStoreView {
    /// The store that `b` holds at `at`, and the position behind its header.
    ///
    /// The header gives the format, which must be 1, and the offsets of the
    /// region list and of each sub-table from the start of the store.
    pub open spec fn spec_read(b: Seq<u8>, at: int) -> Result<
        (ItemVariationStoreView, int),
        ParseError,
    > {
        if at < 0 || at + 2 > b.len() {
            Err(ParseError::BadEof)
        } else if u16_be(b, at) != 1 {
            Err(ParseError::BadValue)
        } else if at + 8 > b.len() || at + 8 + 4 * u16_be(b, at + 6) > b.len() {
            Err(ParseError::BadEof)
        } else {
            let scope = b.subrange(at, b.len() as int);
            let count = u16_be(b, at + 6);
            let offsets = Seq::new(
                count as nat,
                |i: int| crate::binary::u32_be(b, at + 8 + 4 * i) as u32,
            );
            match VariationRegionListView::spec_read(
                spec_offset(scope, crate::binary::u32_be(b, at + 2)),
                0,
            ) {
                Err(e) => Err(e),
                Ok((regions, _)) => match spec_read_items(scope, offsets, 0) {
                    Err(e) => Err(e),
                    Ok(items) => Ok(
                        (
                            ItemVariationStoreView {
                                variation_region_list: regions,
                                item_variation_data: items,
                            },
                            at + 8 + 4 * count,
                        ),
                    ),
                },
            }
        }
    }
}

impl<'a> ItemVariationStore<'a> {
    /// The variation region at `region_index`, if there is one.
    pub fn variation_region(&self, region_index: u16) -> (r: Option<VariationRegion<'a>>)
        ensures
            match r {
                Some(region) => region_index < self@.variation_region_list.variation_regions.len()
                    && region@ == self@.variation_region_list.variation_regions[region_index as int],
                None => region_index >= self@.variation_region_list.variation_regions.len(),
            },
    {
        self.variation_region_list.get(region_index)
    }

    /// The sub-tables of the store.
    pub fn item_variation_data(&self) -> (items: &[ItemVariationData<'a>])
        ensures
            items@.len() == self@.item_variation_data.len(),
            forall|i: int|
                0 <= i < items@.len() ==> (#[trigger] items@[i])@ == self@.item_variation_data[i],
    {
        self.item_variation_data.as_slice()
    }

    /// Reads an item variation store.
    pub fn read(ctxt: &mut ReadCtxt<'a>) -> (r: Result<ItemVariationStore<'a>, ParseError>)
        ensures
            parsed_view(
                old(ctxt),
                final(ctxt),
                r,
                ItemVariationStoreView::spec_read(old(ctxt).bytes(), old(ctxt).pos()),
            ),
    {
        let ghost b = ctxt.bytes();
        let ghost at = ctxt.pos();
        let scope = ctxt.scope();
        let format = ctxt.read_u16be()?;
        ctxt.check(format == 1)?;
        let variation_region_list_offset = ctxt.read_u32be()?;
        let item_variation_data_count = ctxt.read_u16be()?;
        let item_variation_data_offsets = ctxt.read_array::<u32>(
            item_variation_data_count as usize,
        )?;
        let ghost offsets = Seq::new(
            item_variation_data_count as nat,
            |i: int| crate::binary::u32_be(b, at + 8 + 4 * i) as u32,
        );
        assert(item_variation_data_offsets@ =~= offsets);
        let mut list_ctxt = scope.offset(variation_region_list_offset as usize).ctxt();
        let variation_region_list = VariationRegionList::read(&mut list_ctxt)?;
        let mut item_variation_data: Vec<ItemVariationData<'a>> = Vec::new();
        let mut i: usize = 0;
        while i < item_variation_data_offsets.len()
            invariant
                i <= offsets.len(),
                item_variation_data_offsets.spec_len() == offsets.len(),
                item_variation_data_offsets@ == offsets,
                item_variation_data@.len() == i,
                scope@ == b.subrange(at, b.len() as int),
                ctxt.bytes() == b,
                b == old(ctxt).bytes(),
                at == old(ctxt).pos(),
                0 <= at <= ctxt.pos() <= b.len(),
                at + 2 <= b.len(),
                u16_be(b, at) == 1,
                at + 8 <= b.len(),
                item_variation_data_count == u16_be(b, at + 6),
                at + 8 + 4 * item_variation_data_count <= b.len(),
                offsets == Seq::new(
                    item_variation_data_count as nat,
                    |i: int| crate::binary::u32_be(b, at + 8 + 4 * i) as u32,
                ),
                VariationRegionListView::spec_read(
                    spec_offset(scope@, crate::binary::u32_be(b, at + 2)),
                    0,
                ) is Ok,
                spec_read_items(scope@, offsets, 0) == match spec_read_items(
                    scope@,
                    offsets,
                    i as int,
                ) {
                    Ok(rest) => Ok::<Seq<ItemVariationDataView>, ParseError>(
                        item_views(item_variation_data@) + rest,
                    ),
                    Err(e) => Err::<Seq<ItemVariationDataView>, ParseError>(e),
                },
            decreases offsets.len() - i,
        {
            let ghost before = item_views(item_variation_data@);
            let offset = item_variation_data_offsets.get_item(i);
            assert(offset == offsets[i as int]);
            let mut item_ctxt = scope.offset(offset as usize).ctxt();
            let item = ItemVariationData::read(&mut item_ctxt)?;
            proof {
                match spec_read_items(scope@, offsets, i + 1) {
                    Ok(rest) => {
                        lemma_append_assoc(before, seq![item@], rest);
                    },
                    Err(e) => {},
                }
            }
            item_variation_data.push(item);
            i = i + 1;
            assert(item_views(item_variation_data@) =~= before + seq![item@]);
        }
        assert(item_views(item_variation_data@) + Seq::<ItemVariationDataView>::empty()
            =~= item_views(item_variation_data@));
        Ok(ItemVariationStore { variation_region_list, item_variation_data })
    }
}

/// A row of deltas whose word deltas are 16-bit and whose short deltas are bytes.
pub struct RegularDeltaSet<'a> {
    word_data: &'a [u8],
    short_data: &'a [u8],
}

/// A row of deltas whose word deltas are 32-bit and whose short deltas are 16-bit.
pub struct LongDeltaSet<'a> {
    word_data: &'a [u8],
    short_data: &'a [u8],
}

impl<'a> RegularDeltaSet<'a> {
    #[verifier::type_invariant]
    spec fn inv(&self) -> bool {
        self.word_data@.len() % 2 == 0
    }

    /// The bytes of the word deltas.
    pub closed spec fn word_bytes(&self) -> Seq<u8> {
        self.word_data@
    }

    /// The bytes of the short deltas.
    pub closed spec fn short_bytes(&self) -> Seq<u8> {
        self.short_data@
    }

    /// A row of the given word deltas and short deltas, if the word deltas
    /// are whole.
    pub fn new(word_data: &'a [u8], short_data: &'a [u8]) -> (r: Option<Self>)
        ensures
            match r {
                Some(set) => word_data@.len() % 2 == 0 && set.word_bytes() == word_data@
                    && set.short_bytes() == short_data@,
                None => word_data@.len() % 2 != 0,
            },
    {
        if word_data.len() % 2 == 0 {
            Some(RegularDeltaSet { word_data, short_data })
        } else {
            None
        }
    }

    /// The deltas of the row: the word deltas, then the short deltas, which
    /// are signed bytes.
    pub fn iter(&self) -> (deltas: Vec<i16>)
        ensures
            deltas@.len() == self.word_bytes().len() / 2 + self.short_bytes().len(),
            forall|i: int|
                0 <= i < self.word_bytes().len() / 2 ==> #[trigger] deltas@[i] == i16_be(
                    self.word_bytes(),
                    2 * i,
                ),
            forall|i: int|
                0 <= i < self.short_bytes().len() ==> #[trigger] deltas@[self.word_bytes().len() / 2
                    + i] == i8_at(self.short_bytes(), i),
    {
        let mut deltas: Vec<i16> = Vec::new();
        let words = self.word_data.len() / 2;
        let mut i: usize = 0;
        while i < words
            invariant
                i <= words,
                words == self.word_data@.len() / 2,
                self.word_data@.len() <= usize::MAX,
                deltas@.len() == i,
                forall|k: int|
                    0 <= k < i ==> #[trigger] deltas@[k] == i16_be(self.word_data@, 2 * k),
            decreases words - i,
        {
            deltas.push(crate::binary::get_i16_be(self.word_data, 2 * i));
            i = i + 1;
        }
        let shorts = self.short_data.len();
        let mut i: usize = 0;
        while i < shorts
            invariant
                i <= shorts,
                shorts == self.short_data@.len(),
                words == self.word_data@.len() / 2,
                deltas@.len() == words + i,
                forall|k: int|
                    0 <= k < words ==> #[trigger] deltas@[k] == i16_be(self.word_data@, 2 * k),
                forall|k: int|
                    0 <= k < i ==> #[trigger] deltas@[words + k] == i8_at(self.short_data@, k),
            decreases shorts - i,
        {
            deltas.push(crate::binary::get_i8(self.short_data, i) as i16);
            i = i + 1;
        }
        deltas
    }
}

impl<'a> LongDeltaSet<'a> {
    #[verifier::type_invariant]
    spec fn inv(&self) -> bool {
        self.word_data@.len() % 4 == 0 && self.short_data@.len() % 2 == 0
    }

    /// The bytes of the word deltas.
    pub closed spec fn word_bytes(&self) -> Seq<u8> {
        self.word_data@
    }

    /// The bytes of the short deltas.
    pub closed spec fn short_bytes(&self) -> Seq<u8> {
        self.short_data@
    }

    /// A row of the given word deltas and short deltas, if both are whole.
    pub fn new(word_data: &'a [u8], short_data: &'a [u8]) -> (r: Option<Self>)
        ensures
            match r {
                Some(set) => word_data@.len() % 4 == 0 && short_data@.len() % 2 == 0
                    && set.word_bytes() == word_data@ && set.short_bytes() == short_data@,
                None => word_data@.len() % 4 != 0 || short_data@.len() % 2 != 0,
            },
    {
        if word_data.len() % 4 == 0 && short_data.len() % 2 == 0 {
            Some(LongDeltaSet { word_data, short_data })
        } else {
            None
        }
    }

    /// The deltas of the row: the word deltas, then the short deltas.
    pub fn iter(&self) -> (deltas: Vec<i32>)
        ensures
            deltas@.len() == self.word_bytes().len() / 4 + self.short_bytes().len() / 2,
            forall|i: int|
                0 <= i < self.word_bytes().len() / 4 ==> #[trigger] deltas@[i]
                    == crate::binary::i32_be(self.word_bytes(), 4 * i),
            forall|i: int|
                0 <= i < self.short_bytes().len() / 2 ==> #[trigger] deltas@[self.word_bytes().len()
                    / 4 + i] == i16_be(self.short_bytes(), 2 * i),
    {
        let mut deltas: Vec<i32> = Vec::new();
        let words = self.word_data.len() / 4;
        let mut i: usize = 0;
        while i < words
            invariant
                i <= words,
                words == self.word_data@.len() / 4,
                self.word_data@.len() <= usize::MAX,
                deltas@.len() == i,
                forall|k: int|
                    0 <= k < i ==> #[trigger] deltas@[k] == crate::binary::i32_be(
                        self.word_data@,
                        4 * k,
                    ),
            decreases words - i,
        {
            deltas.push(crate::binary::get_i32_be(self.word_data, 4 * i));
            i = i + 1;
        }
        let shorts = self.short_data.len() / 2;
        let mut i: usize = 0;
        while i < shorts
            invariant
                i <= shorts,
                shorts == self.short_data@.len() / 2,
                self.short_data@.len() <= usize::MAX,
                words == self.word_data@.len() / 4,
                deltas@.len() == words + i,
                forall|k: int|
                    0 <= k < words ==> #[trigger] deltas@[k] == crate::binary::i32_be(
                        self.word_data@,
                        4 * k,
                    ),
                forall|k: int|
                    0 <= k < i ==> #[trigger] deltas@[words + k] == i16_be(
                        self.short_data@,
                        2 * k,
                    ),
            decreases shorts - i,
        {
            deltas.push(crate::binary::get_i16_be(self.short_data, 2 * i) as i32);
            i = i + 1;
        }
        deltas
    }
}

/// A mapping from glyphs or other items to rows of an item variation store.
pub struct DeltaSetIndexMap<'a> {
    /// A packed field that describes the compressed representation of delta-set indices.
    entry_format: u8,
    /// The number of mapping entries.
    map_count: u32,
    /// The delta-set index mapping data.
    map_data: &'a [u8],
}

/// An entry of a delta-set index map: the sub-table and the row within it.
#[derive(Clone, Copy, Debug, PartialEq, Eq, Structural)]
pub struct DeltaSetIndexMapEntry {
    /// Index into the outer table (row)
    pub outer_index: u16,
    /// Index into the inner table (column)
    pub inner_index: u16,
}

/// What a delta-set index map holds.
pub struct DeltaSetIndexMapView {
    pub entry_format: u8,
    pub map_count: u32,
    pub map_data: Seq<u8>,
}

impl<'a> View for DeltaSetIndexMap<'a> {
    type V = DeltaSetIndexMapView;

    closed spec fn view(&self) -> DeltaSetIndexMapView {
        DeltaSetIndexMapView {
            entry_format: self.entry_format,
            map_count: self.map_count,
            map_data: self.map_data@,
        }
    }
}

/// Mask for the low 4 bits of the entry format, which give the count of bits
/// minus one that are used in each entry for the inner-level index.
pub const INNER_INDEX_BIT_COUNT_MASK: u8 = 0x0F;

/// Mask for bits of the entry format that indicate the size in bytes minus
/// one of each entry.
pub const MAP_ENTRY_SIZE_MASK: u8 = 0x30;

/// The number of bytes of an entry of a map with the format `entry_format`:
/// between one and four.
pub open spec fn spec_entry_size(entry_format: u8) -> u8 {
    (((entry_format & MAP_ENTRY_SIZE_MASK) >> 4) + 1) as u8
}

/// The number of bits of the inner index in an entry of a map with the
/// format `entry_format`: between one and sixteen.
pub open spec fn spec_inner_bits(entry_format: u8) -> u32 {
    ((entry_format & INNER_INDEX_BIT_COUNT_MASK) + 1) as u32
}

/// The unsigned big-endian number that the `n` bytes of `data` at `at` hold.
pub open spec fn spec_be_value(data: Seq<u8>, at: int, n: int) -> int
    decreases n,
{
    if n <= 0 {
        0
    } else {
        spec_be_value(data, at, n - 1) * 256 + data[at + n - 1]
    }
}

impl DeltaSetIndexMapView {
    /// The entry at `i`: `BadIndex` where the map ends before its last byte.
    ///
    /// The low bits of the entry are the inner index, the bits above them
    /// are the outer index, of which the low 16 bits are kept.
    pub open spec fn spec_entry(self, i: u32) -> Result<DeltaSetIndexMapEntry, ParseError> {
        let size = spec_entry_size(self.entry_format) as int;
        if i * size + size > self.map_data.len() {
            Err(ParseError::BadIndex)
        } else {
            let entry = spec_be_value(self.map_data, i * size, size) as u32;
            let bits = spec_inner_bits(self.entry_format);
            Ok(
                DeltaSetIndexMapEntry {
                    outer_index: (entry >> bits) as u16,
                    inner_index: (entry & (((1u32 << bits) - 1) as u32)) as u16,
                },
            )
        }
    }

    /// The map that `b` holds at `at`, and the position behind it.
    ///
    /// The count of entries is 16-bit in format 0 and 32-bit in format 1; any
    /// other format is a `BadVersion`.
    pub open spec fn spec_read(b: Seq<u8>, at: int) -> Result<
        (DeltaSetIndexMapView, int),
        ParseError,
    > {
        if at < 0 || at + 2 > b.len() {
            Err(ParseError::BadEof)
        } else {
            let format = b[at];
            let entry_format = b[at + 1];
            if format > 1 {
                Err(ParseError::BadVersion)
            } else {
                let data = at + if format == 0 {
                    4int
                } else {
                    6int
                };
                if data > b.len() {
                    Err(ParseError::BadEof)
                } else {
                    let map_count = if format == 0 {
                        u16_be(b, at + 2) as u32
                    } else {
                        crate::binary::u32_be(b, at + 2) as u32
                    };
                    let end = data + spec_entry_size(entry_format) * map_count;
                    if end > b.len() {
                        Err(ParseError::BadEof)
                    } else {
                        Ok(
                            (
                                DeltaSetIndexMapView {
                                    entry_format,
                                    map_count,
                                    map_data: b.subrange(data, end),
                                },
                                end,
                            ),
                        )
                    }
                }
            }
        }
    }
}

/// The fields of an entry format give entries of one to four bytes and inner
/// indices of one to sixteen bits.
proof fn lemma_entry_format(entry_format: u8)
    ensures
        1 <= spec_entry_size(entry_format) <= 4,
        spec_entry_size(entry_format) == ((entry_format & MAP_ENTRY_SIZE_MASK) >> 4) + 1,
        1 <= spec_inner_bits(entry_format) <= 16,
        spec_inner_bits(entry_format) == (entry_format & INNER_INDEX_BIT_COUNT_MASK) + 1,
        1u32 << spec_inner_bits(entry_format) >= 1,
{
    assert((entry_format & 0x30) >> 4 <= 3) by (bit_vector);
    assert(entry_format & 0x0F <= 15) by (bit_vector);
    let bits = spec_inner_bits(entry_format);
    assert(1u32 << bits >= 1) by (bit_vector)
        requires
            1 <= bits <= 16,
    ;
}

/// A number of `n` bytes is below 256 to the power of `n`.
proof fn lemma_be_value_bound(data: Seq<u8>, at: int, n: int)
    requires
        0 <= n <= 4,
    ensures
        0 <= spec_be_value(data, at, n),
        n == 0 ==> spec_be_value(data, at, n) == 0,
        n == 1 ==> spec_be_value(data, at, n) < 0x100,
        n == 2 ==> spec_be_value(data, at, n) < 0x1_0000,
        n == 3 ==> spec_be_value(data, at, n) < 0x100_0000,
        n == 4 ==> spec_be_value(data, at, n) < 0x1_0000_0000,
    decreases n,
{
    if n > 0 {
        lemma_be_value_bound(data, at, n - 1);
    }
}

impl<'a> DeltaSetIndexMap<'a> {
    /// Returns delta-set outer-level index and inner-level index combination.
    pub fn entry(&self, i: u32) -> (r: Result<DeltaSetIndexMapEntry, ParseError>)
        ensures
            r == self@.spec_entry(i),
    {
        proof {
            lemma_entry_format(self.entry_format);
        }
        let entry_size = self.entry_size() as usize;
        let len = self.map_data.len();
        assert(i * entry_size <= 0xffff_ffff * 4) by (nonlinear_arith)
            requires
                i <= 0xffff_ffff,
                entry_size <= 4,
        ;
        let offset: u64 = i as u64 * entry_size as u64;
        if offset + entry_size as u64 > len as u64 {
            return Err(ParseError::BadIndex);
        }
        let offset = offset as usize;

        // entry can be 1, 2, 3, or 4 bytes
        let mut entry: u32 = 0;
        let mut k: usize = 0;
        while k < entry_size
            invariant
                k <= entry_size <= 4,
                offset + entry_size <= self.map_data@.len(),
                self.map_data@.len() <= usize::MAX,
                entry == spec_be_value(self.map_data@, offset as int, k as int),
            decreases entry_size - k,
        {
            proof {
                lemma_be_value_bound(self.map_data@, offset as int, k as int);
            }
            entry = entry * 256 + self.map_data[offset + k] as u32;
            k = k + 1;
        }
        let bits = (self.entry_format & INNER_INDEX_BIT_COUNT_MASK) as u32 + 1;
        let outer_index = #[verifier::truncate]
        ((entry >> bits) as u16);
        let inner_index = #[verifier::truncate]
        ((entry & ((1u32 << bits) - 1)) as u16);

        Ok(DeltaSetIndexMapEntry { outer_index, inner_index })
    }

    /// The size of an entry in bytes
    fn entry_size(&self) -> (n: u8)
        ensures
            n == spec_entry_size(self@.entry_format),
            1 <= n <= 4,
    {
        Self::entry_size_impl(self.entry_format)
    }

    /// The size in bytes of an entry of a map with the format `entry_format`.
    fn entry_size_impl(entry_format: u8) -> (n: u8)
        ensures
            n == spec_entry_size(entry_format),
            1 <= n <= 4,
    {
        proof {
            lemma_entry_format(entry_format);
        }
        ((entry_format & MAP_ENTRY_SIZE_MASK) >> 4) + 1
    }

    /// The number of entries.
    pub fn map_count(&self) -> (n: u32)
        ensures
            n == self@.map_count,
    {
        self.map_count
    }

    /// Reads a delta-set index map.
    pub fn read(ctxt: &mut ReadCtxt<'a>) -> (r: Result<DeltaSetIndexMap<'a>, ParseError>)
        ensures
            parsed_view(
                old(ctxt),
                final(ctxt),
                r,
                DeltaSetIndexMapView::spec_read(old(ctxt).bytes(), old(ctxt).pos()),
            ),
    {
        let _ = ctxt.offset();
        let format = ctxt.read_u8()?;
        let entry_format = ctxt.read_u8()?;
        let map_count = if format == 0 {
            ctxt.read_u16be()? as u32
        } else if format == 1 {
            ctxt.read_u32be()?
        } else {
            return Err(ParseError::BadVersion);
        };
        let entry_size = DeltaSetIndexMap::entry_size_impl(entry_format);
        assert(entry_size * map_count <= 4 * 0xffff_ffff) by (nonlinear_arith)
            requires
                map_count <= 0xffff_ffff,
                entry_size <= 4,
        ;
        let map_size: u64 = entry_size as u64 * map_count as u64;
        if map_size > ctxt.remaining() as u64 {
            return Err(ParseError::BadEof);
        }
        let map_data = ctxt.read_slice(map_size as usize)?;

        Ok(DeltaSetIndexMap { entry_format, map_count, map_data })
    }
}

} // verus!
