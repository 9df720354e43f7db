//! Glyph outlines of the `glyf` table.
//!
//! A glyph is either simple, a list of contours made of points on and off
//! the curve, or composite, a list of other glyphs that are each moved and
//! scaled into place. The functions of this module decode the points of a
//! simple glyph, turn them into the segments of a path, and walk the
//! components of a composite glyph.
//!
//! Coordinates of path segments are whole numbers of half a font unit, since
//! the point that two neighbouring points off the curve imply lies half-way
//! between them.

use vstd::prelude::*;

use crate::binary::{
    get_i16_be, get_i8, get_u16_be, i16_be, i8_at, lemma_append_assoc, u16_be, F2Dot14,
};
use crate::loca;

verus! {

/// The segments of the outline of a glyph, and the rectangle that bounds it.
#[derive(Debug, Clone, PartialEq)]
pub struct Outline {
    pub operations: Vec<Operation>,
    pub bounding_rect: OutlineBoundingRect,
}

/// The rectangle that the `glyf` table gives as the bounds of a glyph, in font units.
#[derive(Debug, Clone, Copy, PartialEq, Eq, Structural)]
pub struct OutlineBoundingRect {
    pub max_x: i16,
    pub max_y: i16,
    pub min_x: i16,
    pub min_y: i16,
}

/// Errors of outlining a glyph.
#[derive(Debug, Clone, Copy, PartialEq, Eq, Structural)]
pub enum OutlineParseError {
    /// The font has no table that holds outlines.
    NoTablesFound,
}

/// A segment of a path. Coordinates are in half font units.
#[derive(Debug, Clone, Copy, PartialEq, Eq, Structural)]
pub enum Operation {
    /// Starts a contour at a point.
    MoveTo { x: i32, y: i32 },
    /// A line to a point.
    LineTo { x: i32, y: i32 },
    /// A quadratic curve to the point `(x, y)`, with the control point `(x1, y1)`.
    QuadraticCurveTo { x1: i32, y1: i32, x: i32, y: i32 },
    /// A cubic curve to the point `(x, y)`, with two control points.
    CubicCurveTo { x1: i32, y1: i32, x2: i32, y2: i32, x: i32, y: i32 },
    /// Ends a contour.
    ClosePath,
    /// Starts a component of a composite glyph: what follows, up to the
    /// matching `EndComponent`, is moved and scaled by `transform`, and then
    /// by the transforms of the components around this one.
    Component { transform: ComponentTransform },
    /// Ends a component of a composite glyph.
    EndComponent,
}

/// How a component of a composite glyph is moved and scaled: the point
/// `(x, y)` goes to `(a * x + c * y + e, b * x + d * y + f)`.
#[derive(Debug, Clone, Copy, PartialEq, Eq, Structural)]
pub struct ComponentTransform {
    pub a: F2Dot14,
    pub b: F2Dot14,
    pub c: F2Dot14,
    pub d: F2Dot14,
    /// The offset in x, in font units.
    pub e: i16,
    /// The offset in y, in font units.
    pub f: i16,
}

/// A point of a contour, in font units.
#[derive(Debug, Clone, Copy, PartialEq, Eq, Structural)]
pub struct GlyphPoint {
    pub x: i16,
    pub y: i16,
    /// Whether the point lies on the curve; else it is a control point.
    pub on_curve_point: bool,
    /// Whether the point is the last of its contour.
    pub last_point: bool,
}

/// The deepest nesting of composite glyphs.
pub const MAX_COMPONENTS: u8 = 32;

/// Flag of a point: the point lies on the curve.
pub const ON_CURVE_POINT: u8 = 0x01;

/// Flag of a point: its x-coordinate is one byte long.
pub const X_SHORT_VECTOR: u8 = 0x02;

/// Flag of a point: its y-coordinate is one byte long.
pub const Y_SHORT_VECTOR: u8 = 0x04;

/// Flag of a point: the next byte says how many more points have these flags.
pub const REPEAT_FLAG: u8 = 0x08;

/// Flag of a point: a short x-coordinate is positive, and a long one is
/// the same as that of the point before.
pub const X_IS_SAME_OR_POSITIVE_X_SHORT_VECTOR: u8 = 0x10;

/// Flag of a point: a short y-coordinate is positive, and a long one is
/// the same as that of the point before.
pub const Y_IS_SAME_OR_POSITIVE_Y_SHORT_VECTOR: u8 = 0x20;

/// Whether the flags `flags` hold the flag `flag`.
pub open spec fn flag_set(flags: u8, flag: u8) -> bool {
    flags & flag != 0
}

/// The number of bytes of a coordinate of a point with the flags `flags`:
/// `short` is the flag for a short coordinate and `same` the flag for one
/// that is the same or positive.
pub open spec fn coord_size(flags: u8, short: u8, same: u8) -> int {
    if flag_set(flags, short) {
        1
    } else if flag_set(flags, same) {
        0
    } else {
        2
    }
}

/// The flags of `count` points that `b` holds from `at` on, one for each
/// point, and the position behind them. A flag with the repeat flag stands
/// for as many more points as the byte that follows it says.
pub open spec fn spec_flags(b: Seq<u8>, at: int, count: int) -> Option<(Seq<u8>, int)>
    decreases b.len() - at,
{
    if count <= 0 {
        Some((Seq::empty(), at))
    } else if at < 0 || at >= b.len() {
        None
    } else if flag_set(b[at], REPEAT_FLAG) && at + 1 >= b.len() {
        None
    } else {
        let repeats = if flag_set(b[at], REPEAT_FLAG) {
            b[at + 1] + 1
        } else {
            1
        };
        let next = if flag_set(b[at], REPEAT_FLAG) {
            at + 2
        } else {
            at + 1
        };
        if repeats > count {
            None
        } else {
            match spec_flags(b, next, count - repeats) {
                Some((rest, end)) => Some((Seq::new(repeats as nat, |i: int| b[at]) + rest, end)),
                None => None,
            }
        }
    }
}

/// The number of bytes of the coordinates of the first `n` points with the
/// flags `flags`.
pub open spec fn coords_len(flags: Seq<u8>, n: int, short: u8, same: u8) -> int
    decreases n,
{
    if n <= 0 {
        0
    } else {
        coords_len(flags, n - 1, short, same) + coord_size(flags[n - 1], short, same)
    }
}

/// The change of a coordinate from the point before to a point with the flags
/// `flags`, whose bytes `b` holds at `at`.
///
/// A short coordinate is one byte, whose sign the other flag gives. A long
/// one is a signed 16-bit number, or no change at all where the other flag is
/// set.
pub open spec fn coord_delta(b: Seq<u8>, at: int, flags: u8, short: u8, same: u8) -> int {
    if flag_set(flags, short) {
        if flag_set(flags, same) {
            b[at] as int
        } else {
            -(b[at] as int)
        }
    } else if flag_set(flags, same) {
        0
    } else {
        i16_be(b, at)
    }
}

/// The coordinate of the `n`th point: the sum of the changes up to it. The
/// coordinates of the points with the flags `flags` start in `b` at `at`.
pub open spec fn coord_at(b: Seq<u8>, at: int, flags: Seq<u8>, n: int, short: u8, same: u8) -> int
    decreases n + 1,
{
    if n < 0 {
        0
    } else {
        coord_at(b, at, flags, n - 1, short, same) + coord_delta(
            b,
            at + coords_len(flags, n, short, same),
            flags[n],
            short,
            same,
        )
    }
}

/// The number of the point with which the `k`th contour ends, by the
/// endpoints that `b` holds from `at` on.
///
/// The endpoints should increase. Where one does not, its contour is taken to
/// be one point long.
pub open spec fn contour_end(b: Seq<u8>, k: int) -> int
    decreases k,
{
    if k <= 0 {
        u16_be(b, 0)
    } else {
        let left = u16_be(b, 2 * k) - u16_be(b, 2 * (k - 1)) - 1;
        contour_end(b, k - 1) + 1 + if left > 0 {
            left
        } else {
            0
        }
    }
}

/// Whether one of the first `contours` contours ends with the point `i`.
pub open spec fn is_contour_end(b: Seq<u8>, contours: int, i: int) -> bool {
    exists|k: int| 0 <= k < contours && #[trigger] contour_end(b, k) == i
}

/// What the data of a simple glyph holds behind its header.
pub struct SimpleGlyphLayout {
    /// The number of points.
    pub points_total: int,
    /// The flags of the points, one for each.
    pub flags: Seq<u8>,
    /// Where the x-coordinates start.
    pub x_coords_offset: int,
    /// Where the y-coordinates start.
    pub y_coords_offset: int,
}

/// The layout of the data `b` of a simple glyph of `contours` contours:
/// the endpoints of the contours, the instructions, the flags and the
/// coordinates. None where `b` is too short, or holds no contour.
pub open spec fn spec_layout(b: Seq<u8>, contours: u16) -> Option<SimpleGlyphLayout> {
    if contours == 0 || 2 * contours + 2 > b.len() {
        None
    } else {
        let points_total = u16_be(b, 2 * (contours - 1)) + 1;
        let flags_offset = 2 * contours + 2 + u16_be(b, 2 * contours);
        if points_total > u16::MAX {
            None
        } else {
            match spec_flags(b, flags_offset, points_total) {
                None => None,
                Some((flags, x_coords_offset)) => {
                    let y_coords_offset = x_coords_offset + coords_len(
                        flags,
                        points_total,
                        X_SHORT_VECTOR,
                        X_IS_SAME_OR_POSITIVE_X_SHORT_VECTOR,
                    );
                    let end = y_coords_offset + coords_len(
                        flags,
                        points_total,
                        Y_SHORT_VECTOR,
                        Y_IS_SAME_OR_POSITIVE_Y_SHORT_VECTOR,
                    );
                    if end > b.len() {
                        None
                    } else {
                        Some(
                            SimpleGlyphLayout {
                                points_total,
                                flags,
                                x_coords_offset,
                                y_coords_offset,
                            },
                        )
                    }
                },
            }
        }
    }
}

/// The `i`th point of the simple glyph with the data `b` and the layout `layout`.
pub open spec fn spec_point(b: Seq<u8>, contours: u16, layout: SimpleGlyphLayout, i: int) -> (
    int,
    int,
    bool,
    bool,
) {
    (
        coord_at(
            b,
            layout.x_coords_offset,
            layout.flags,
            i,
            X_SHORT_VECTOR,
            X_IS_SAME_OR_POSITIVE_X_SHORT_VECTOR,
        ),
        coord_at(
            b,
            layout.y_coords_offset,
            layout.flags,
            i,
            Y_SHORT_VECTOR,
            Y_IS_SAME_OR_POSITIVE_Y_SHORT_VECTOR,
        ),
        flag_set(layout.flags[i], ON_CURVE_POINT),
        is_contour_end(b, contours as int, i),
    )
}

/// The point with the coordinates and marks `p`.
pub open spec fn glyph_point(p: (int, int, bool, bool)) -> GlyphPoint {
    GlyphPoint { x: p.0 as i16, y: p.1 as i16, on_curve_point: p.2, last_point: p.3 }
}

/// Whether all coordinates of the first `n` points are 16-bit numbers.
pub open spec fn coords_fit(b: Seq<u8>, contours: u16, layout: SimpleGlyphLayout, n: int) -> bool {
    forall|i: int|
        0 <= i < n ==> i16::MIN <= (#[trigger] spec_point(b, contours, layout, i)).0 <= i16::MAX
            && i16::MIN <= spec_point(b, contours, layout, i).1 <= i16::MAX
}

/// The points of the simple glyph of `contours` contours with the data `b`.
///
/// A glyph whose last contour ends with its first point has no points. The
/// points are none where the data is too short, and where a coordinate is
/// not a 16-bit number.
pub open spec fn spec_parse_simple_outline(b: Seq<u8>, contours: u16) -> Option<Seq<GlyphPoint>> {
    if contours != 0 && 2 * contours <= b.len() && u16_be(b, 2 * (contours - 1)) == 0 {
        Some(Seq::empty())
    } else {
        match spec_layout(b, contours) {
            None => None,
            Some(layout) => if coords_fit(b, contours, layout, layout.points_total) {
                Some(
                    Seq::new(
                        layout.points_total as nat,
                        |i: int| glyph_point(spec_point(b, contours, layout, i)),
                    ),
                )
            } else {
                None
            },
        }
    }
}

/// The points of a simple glyph, in order.
pub struct GlyphPointsIter {
    points: Vec<GlyphPoint>,
    next: usize,
}

impl View for GlyphPointsIter {
    type V = Seq<GlyphPoint>;

    /// The points that are still to come.
    closed spec fn view(&self) -> Seq<GlyphPoint> {
        self.points@.skip(self.next as int)
    }
}

impl GlyphPointsIter {
    #[verifier::type_invariant]
    spec fn inv(&self) -> bool {
        self.next <= self.points@.len()
    }

    /// The next point, if any is left.
    pub fn next(&mut self) -> (r: Option<GlyphPoint>)
        ensures
            match r {
                Some(point) => old(self)@.len() > 0 && point == old(self)@[0] && final(self)@
                    == old(self)@.skip(1),
                None => old(self)@.len() == 0 && final(self)@ == old(self)@,
            },
    {
        proof {
            use_type_invariant(&*self);
        }
        if self.next < self.points.len() {
            let point = self.points[self.next];
            self.next = self.next + 1;
            assert(self@ =~= old(self)@.skip(1));
            Some(point)
        } else {
            None
        }
    }

    /// The points that are still to come.
    pub fn points(&self) -> (points: Vec<GlyphPoint>)
        ensures
            points@ == self@,
    {
        proof {
            use_type_invariant(self);
        }
        let mut points: Vec<GlyphPoint> = Vec::new();
        let mut i: usize = self.next;
        while i < self.points.len()
            invariant
                self.next <= i <= self.points@.len(),
                points@ == self.points@.subrange(self.next as int, i as int),
            decreases self.points@.len() - i,
        {
            points.push(self.points[i]);
            i = i + 1;
            assert(points@ =~= self.points@.subrange(self.next as int, i as int));
        }
        assert(points@ =~= self@);
        points
    }
}

/// Reads the flags of `count` points, one for each point.
fn read_flags(data: &[u8], at: usize, count: u16) -> (r: Option<(Vec<u8>, usize)>)
    ensures
        match spec_flags(data@, at as int, count as int) {
            Some((flags, end)) => r matches Some((v, e)) && v@ == flags && e == end && at <= e
                && (count > 0 ==> e <= data@.len()) && flags.len() == count,
            None => r is None,
        },
{
    let mut flags: Vec<u8> = Vec::new();
    let len = data.len();
    if count == 0 {
        return Some((flags, at));
    }
    if at > len {
        return None;
    }
    let mut pos: usize = at;
    while flags.len() < count as usize
        invariant
            at <= pos <= len,
            len == data@.len(),
            flags@.len() <= count,
            spec_flags(data@, at as int, count as int) == match spec_flags(
                data@,
                pos as int,
                count - flags@.len(),
            ) {
                Some((rest, end)) => Some((flags@ + rest, end)),
                None => None::<(Seq<u8>, int)>,
            },
        decreases len - pos,
    {
        let ghost before = flags@;
        let ghost start = pos;
        if pos >= len {
            return None;
        }
        let flag = data[pos];
        pos = pos + 1;
        // The number of times a glyph point repeats.
        let repeats: usize = if flag & REPEAT_FLAG != 0 {
            if pos >= len {
                return None;
            }
            let repeats = data[pos] as usize + 1;
            pos = pos + 1;
            repeats
        } else {
            1
        };
        if repeats > count as usize - flags.len() {
            return None;
        }
        let mut i: usize = 0;
        while i < repeats
            invariant
                i <= repeats,
                flags@ == before + Seq::new(i as nat, |k: int| flag),
            decreases repeats - i,
        {
            flags.push(flag);
            i = i + 1;
            assert(flags@ =~= before + Seq::new(i as nat, |k: int| flag));
        }
        proof {
            match spec_flags(data@, pos as int, count - flags@.len()) {
                Some((rest, end)) => {
                    lemma_append_assoc(before, Seq::new(repeats as nat, |k: int| flag), rest);
                },
                None => {},
            }
        }
    }
    assert(flags@ + Seq::<u8>::empty() =~= flags@);
    Some((flags, pos))
}

/// The coordinates of `n` points take up to two bytes each.
proof fn lemma_coords_len_bound(flags: Seq<u8>, n: int, short: u8, same: u8)
    requires
        0 <= n,
    ensures
        0 <= coords_len(flags, n, short, same) <= 2 * n,
    decreases n,
{
    if n > 0 {
        lemma_coords_len_bound(flags, n - 1, short, same);
    }
}

/// The number of bytes of the coordinates of the points with the flags `flags`.
fn resolve_coords_len(flags: &Vec<u8>, short: u8, same: u8) -> (len: usize)
    requires
        flags@.len() <= u16::MAX,
    ensures
        len == coords_len(flags@, flags@.len() as int, short, same),
        len <= 2 * flags@.len(),
{
    let mut len: usize = 0;
    let mut i: usize = 0;
    while i < flags.len()
        invariant
            i <= flags@.len() <= u16::MAX,
            len == coords_len(flags@, i as int, short, same),
            len <= 2 * i,
        decreases flags@.len() - i,
    {
        let f = flags[i];
        if f & short != 0 {
            len = len + 1;
        } else if f & same == 0 {
            len = len + 2;
        }
        i = i + 1;
    }
    len
}

/// Contours end later and later.
proof fn lemma_contour_end_increases(b: Seq<u8>, j: int, k: int)
    requires
        0 <= j <= k,
    ensures
        contour_end(b, j) + (k - j) <= contour_end(b, k),
        0 <= contour_end(b, j),
    decreases k,
{
    if j < k {
        lemma_contour_end_increases(b, j, k - 1);
    } else if j > 0 {
        lemma_contour_end_increases(b, j - 1, j - 1);
    }
}

/// Walks the coordinates of the points of a simple glyph.
struct CoordsWalk {
    /// The coordinate of the point before.
    prev: i16,
    /// Where the coordinate of the next point starts.
    offset: usize,
}

/// Reads the next coordinate, which is none where it is not a 16-bit number.
fn next_coord(
    data: &[u8],
    walk: &mut CoordsWalk,
    flags: &Vec<u8>,
    i: usize,
    short: u8,
    same: u8,
    Ghost(start): Ghost<int>,
) -> (r: Option<i16>)
    requires
        i < flags@.len(),
        0 <= start,
        old(walk).offset == start + coords_len(flags@, i as int, short, same),
        old(walk).prev == coord_at(data@, start, flags@, i - 1, short, same),
        start + coords_len(flags@, flags@.len() as int, short, same) <= data@.len(),
    ensures
        match r {
            Some(x) => x == coord_at(data@, start, flags@, i as int, short, same)
                && final(walk).prev == x
                && final(walk).offset == start + coords_len(flags@, i + 1, short, same),
            None => !(i16::MIN <= coord_at(data@, start, flags@, i as int, short, same)
                <= i16::MAX),
        },
{
    proof {
        lemma_coords_len_monotonic(flags@, i + 1, flags@.len() as int, short, same);
    }
    let _ = data.len();
    let f = flags[i];
    let mut n: i32 = 0;
    if f & short != 0 {
        n = data[walk.offset] as i32;
        if f & same == 0 {
            n = -n;
        }
        walk.offset = walk.offset + 1;
    } else if f & same == 0 {
        n = get_i16_be(data, walk.offset) as i32;
        walk.offset = walk.offset + 2;
    }
    let next = walk.prev as i32 + n;
    if next < -0x8000 || next > 0x7fff {
        return None;
    }
    walk.prev = next as i16;
    Some(walk.prev)
}

/// The coordinates of more points take more bytes.
proof fn lemma_coords_len_monotonic(flags: Seq<u8>, i: int, j: int, short: u8, same: u8)
    requires
        0 <= i <= j,
    ensures
        coords_len(flags, i, short, same) <= coords_len(flags, j, short, same),
        0 <= coords_len(flags, i, short, same),
    decreases j,
{
    if i < j {
        lemma_coords_len_monotonic(flags, i, j - 1, short, same);
    } else {
        lemma_coords_len_bound(flags, i, short, same);
    }
}

/// Decodes the points of a simple glyph of `number_of_contours` contours.
/// `glyph_data` is the data of the glyph behind its header. The result is
/// that of [`spec_parse_simple_outline`].
#[verifier::rlimit(40)]
pub fn parse_simple_outline(glyph_data: &[u8], number_of_contours: u16) -> (r: Option<
    GlyphPointsIter,
>)
    ensures
        spec_parse_simple_outline(glyph_data@, number_of_contours) == match r {
            Some(points) => Some(points@),
            None => None,
        },
{
    let len = glyph_data.len();
    let contours = number_of_contours as usize;
    if contours == 0 || 2 * contours > len {
        return None;
    }
    let last_endpoint = get_u16_be(glyph_data, 2 * (contours - 1));
    let points_total = match last_endpoint.checked_add(1) {
        Some(points_total) => points_total,
        None => {
            return None;
        },
    };
    // Contours with a single point should be ignored.
    // But this is not an error, so we should return an "empty" iterator.
    if points_total == 1 {
        let empty = GlyphPointsIter { points: Vec::new(), next: 0 };
        assert(empty@ =~= Seq::<GlyphPoint>::empty());
        return Some(empty);
    }
    // Skip instructions byte code.
    if 2 * contours + 2 > len {
        return None;
    }
    let instructions_len = get_u16_be(glyph_data, 2 * contours);
    let flags_offset = 2 * contours + 2 + instructions_len as usize;
    let (flags, x_coords_offset) = match read_flags(glyph_data, flags_offset, points_total) {
        Some(flags) => flags,
        None => {
            return None;
        },
    };
    let x_coords_len = resolve_coords_len(
        &flags,
        X_SHORT_VECTOR,
        X_IS_SAME_OR_POSITIVE_X_SHORT_VECTOR,
    );
    let y_coords_len = resolve_coords_len(
        &flags,
        Y_SHORT_VECTOR,
        Y_IS_SAME_OR_POSITIVE_Y_SHORT_VECTOR,
    );
    if x_coords_len > len - x_coords_offset {
        proof {
            lemma_coords_len_bound(
                flags@,
                flags@.len() as int,
                Y_SHORT_VECTOR,
                Y_IS_SAME_OR_POSITIVE_Y_SHORT_VECTOR,
            );
        }
        return None;
    }
    let y_coords_offset = x_coords_offset + x_coords_len;
    if y_coords_len > len - y_coords_offset {
        return None;
    }
    let ghost layout = spec_layout(glyph_data@, number_of_contours)->0;
    let ghost b = glyph_data@;

    let mut points: Vec<GlyphPoint> = Vec::new();
    let mut x = CoordsWalk { prev: 0, offset: x_coords_offset };
    let mut y = CoordsWalk { prev: 0, offset: y_coords_offset };
    // The contour that the next point belongs to, and the point it ends with.
    let mut contour: usize = 0;
    let mut contour_last: u32 = get_u16_be(glyph_data, 0) as u32;
    let mut i: usize = 0;
    while i < points_total as usize
        invariant
            i <= points_total,
            b == glyph_data@,
            len == b.len(),
            spec_layout(b, number_of_contours) == Some(layout),
            layout.points_total == points_total,
            layout.flags == flags@,
            flags@.len() == points_total,
            layout.x_coords_offset == x_coords_offset,
            layout.y_coords_offset == y_coords_offset,
            contours == number_of_contours,
            0 < contours,
            2 * contours <= len,
            x_coords_offset + coords_len(
                flags@,
                flags@.len() as int,
                X_SHORT_VECTOR,
                X_IS_SAME_OR_POSITIVE_X_SHORT_VECTOR,
            ) <= len,
            y_coords_offset + coords_len(
                flags@,
                flags@.len() as int,
                Y_SHORT_VECTOR,
                Y_IS_SAME_OR_POSITIVE_Y_SHORT_VECTOR,
            ) <= len,
            x.offset == x_coords_offset + coords_len(
                flags@,
                i as int,
                X_SHORT_VECTOR,
                X_IS_SAME_OR_POSITIVE_X_SHORT_VECTOR,
            ),
            x.prev == coord_at(
                b,
                x_coords_offset as int,
                flags@,
                i - 1,
                X_SHORT_VECTOR,
                X_IS_SAME_OR_POSITIVE_X_SHORT_VECTOR,
            ),
            y.offset == y_coords_offset + coords_len(
                flags@,
                i as int,
                Y_SHORT_VECTOR,
                Y_IS_SAME_OR_POSITIVE_Y_SHORT_VECTOR,
            ),
            y.prev == coord_at(
                b,
                y_coords_offset as int,
                flags@,
                i - 1,
                Y_SHORT_VECTOR,
                Y_IS_SAME_OR_POSITIVE_Y_SHORT_VECTOR,
            ),
            contour <= contours,
            contour < contours ==> contour_last == contour_end(b, contour as int) && i
                <= contour_last,
            contour > 0 ==> contour_end(b, contour - 1) < i,
            contour_last <= 0x2_0000,
            points@.len() == i,
            coords_fit(b, number_of_contours, layout, i as int),
            forall|k: int|
                0 <= k < i ==> #[trigger] points@[k] == glyph_point(
                    spec_point(b, number_of_contours, layout, k),
                ),
        decreases points_total - i,
    {
        let px = match next_coord(
            glyph_data,
            &mut x,
            &flags,
            i,
            X_SHORT_VECTOR,
            X_IS_SAME_OR_POSITIVE_X_SHORT_VECTOR,
            Ghost(x_coords_offset as int),
        ) {
            Some(px) => px,
            None => {
                assert(!coords_fit(b, number_of_contours, layout, layout.points_total)) by {
                    let p = spec_point(b, number_of_contours, layout, i as int);
                }
                return None;
            },
        };
        let py = match next_coord(
            glyph_data,
            &mut y,
            &flags,
            i,
            Y_SHORT_VECTOR,
            Y_IS_SAME_OR_POSITIVE_Y_SHORT_VECTOR,
            Ghost(y_coords_offset as int),
        ) {
            Some(py) => py,
            None => {
                assert(!coords_fit(b, number_of_contours, layout, layout.points_total)) by {
                    let p = spec_point(b, number_of_contours, layout, i as int);
                }
                return None;
            },
        };
        let last_point = contour < contours && i as u32 == contour_last;
        proof {
            if last_point {
                assert(contour_end(b, contour as int) == i);
            } else {
                assert forall|k: int| 0 <= k < contours implies #[trigger] contour_end(b, k)
                    != i by {
                    if k < contour {
                        lemma_contour_end_increases(b, k, contour - 1);
                    } else {
                        lemma_contour_end_increases(b, contour as int, k);
                    }
                }
            }
        }
        if last_point {
            contour = contour + 1;
            if contour < contours {
                let end = get_u16_be(glyph_data, 2 * contour) as u32;
                let prev = get_u16_be(glyph_data, 2 * (contour - 1)) as u32;
                // Malformed font can have endpoints not in increasing order.
                let left = if end > prev + 1 {
                    end - prev - 1
                } else {
                    0
                };
                proof {
                    lemma_contour_end_increases(b, 0, contour - 1);
                }
                contour_last = contour_last + 1 + left;
            }
        }
        points.push(
            GlyphPoint { x: px, y: py, on_curve_point: flags[i] & ON_CURVE_POINT != 0, last_point },
        );
        i = i + 1;
    }
    let iter = GlyphPointsIter { points, next: 0 };
    assert(iter@ =~= points@);
    assert(iter@ =~= spec_parse_simple_outline(glyph_data@, number_of_contours)->0);
    Some(iter)
}

/// What the walk along a contour remembers of the points it has met. The
/// first three points are in font units; the start of the contour may lie
/// half-way between two of them, and is in half font units.
#[derive(Debug, Clone, Copy, PartialEq, Eq)]
pub struct ContourState {
    /// The point at which the contour started.
    pub first_on_curve: Option<(i32, i32)>,
    /// The control point with which the contour started, if it did not
    /// start with a point on the curve.
    pub first_off_curve: Option<(i16, i16)>,
    /// The control point that the next segment bends towards.
    pub last_off_curve: Option<(i16, i16)>,
}

impl ContourState {
    /// The state at the start of a contour.
    pub open spec fn spec_start() -> ContourState {
        ContourState { first_on_curve: None, first_off_curve: None, last_off_curve: None }
    }

    /// The state at the start of a contour.
    pub fn start() -> (state: ContourState)
        ensures
            state == Self::spec_start(),
    {
        ContourState { first_on_curve: None, first_off_curve: None, last_off_curve: None }
    }
}

/// The point `p` in half font units.
pub open spec fn doubled(p: (i16, i16)) -> (i32, i32) {
    ((2 * p.0) as i32, (2 * p.1) as i32)
}

/// The point half-way between `p` and `q`, in half font units.
pub open spec fn midpoint(p: (i16, i16), q: (i16, i16)) -> (i32, i32) {
    ((p.0 + q.0) as i32, (p.1 + q.1) as i32)
}

/// A curve to `to` that bends towards `control`.
pub open spec fn quad_to(control: (i16, i16), to: (i32, i32)) -> Operation {
    Operation::QuadraticCurveTo {
        x1: doubled(control).0,
        y1: doubled(control).1,
        x: to.0,
        y: to.1,
    }
}

/// The state behind the point `p` of a contour, and the segments that the
/// point adds to the path, before the contour is closed.
///
/// The contour starts at its first point on the curve, or half-way between
/// its first two points if both are off the curve. A point on the curve ends
/// a line, or a curve if a control point came before it. Two control points
/// in a row imply a point on the curve half-way between them.
pub open spec fn spec_add_point(state: ContourState, p: GlyphPoint) -> (
    ContourState,
    Seq<Operation>,
) {
    let point = (p.x, p.y);
    match state.first_on_curve {
        None => if p.on_curve_point {
            (
                ContourState { first_on_curve: Some(doubled(point)), ..state },
                seq![Operation::MoveTo { x: doubled(point).0, y: doubled(point).1 }],
            )
        } else {
            match state.first_off_curve {
                Some(control) => (
                    ContourState {
                        first_on_curve: Some(midpoint(control, point)),
                        last_off_curve: Some(point),
                        ..state
                    },
                    seq![
                        Operation::MoveTo {
                            x: midpoint(control, point).0,
                            y: midpoint(control, point).1,
                        },
                    ],
                ),
                None => (ContourState { first_off_curve: Some(point), ..state }, Seq::empty()),
            }
        },
        Some(_) => match state.last_off_curve {
            Some(control) => if p.on_curve_point {
                (
                    ContourState { last_off_curve: None, ..state },
                    seq![quad_to(control, doubled(point))],
                )
            } else {
                (
                    ContourState { last_off_curve: Some(point), ..state },
                    seq![quad_to(control, midpoint(control, point))],
                )
            },
            None => if p.on_curve_point {
                (state, seq![Operation::LineTo { x: doubled(point).0, y: doubled(point).1 }])
            } else {
                (ContourState { last_off_curve: Some(point), ..state }, Seq::empty())
            },
        },
    }
}

/// The segments that close a contour in the state `state`: the curves back
/// to its start that its control points ask for, or a line, and the end of
/// the contour.
pub open spec fn spec_finish_contour(state: ContourState) -> Seq<Operation> {
    let between = match (state.first_off_curve, state.last_off_curve) {
        (Some(first), Some(last)) => seq![quad_to(last, midpoint(last, first))],
        _ => Seq::empty(),
    };
    let last_off_curve = match state.first_off_curve {
        Some(_) => None,
        None => state.last_off_curve,
    };
    let back = match state.first_on_curve {
        Some(start) => match state.first_off_curve {
            Some(first) => seq![quad_to(first, start)],
            None => match last_off_curve {
                Some(last) => seq![quad_to(last, start)],
                None => seq![Operation::LineTo { x: start.0, y: start.1 }],
            },
        },
        None => Seq::empty(),
    };
    between + back + seq![Operation::ClosePath]
}

/// The segments of the contours that the points from the `i`th on add to a
/// path, with `state` as what the walk remembers of the points before.
pub open spec fn spec_operations(points: Seq<GlyphPoint>, i: int, state: ContourState) -> Seq<
    Operation,
>
    decreases points.len() - i,
{
    if i < 0 || i >= points.len() {
        Seq::empty()
    } else {
        let (next, added) = spec_add_point(state, points[i]);
        if points[i].last_point {
            added + spec_finish_contour(next) + spec_operations(
                points,
                i + 1,
                ContourState::spec_start(),
            )
        } else {
            added + spec_operations(points, i + 1, next)
        }
    }
}

/// Adds the point `p` of a contour to the path `operations`.
fn add_point(state: &mut ContourState, p: GlyphPoint, operations: &mut Vec<Operation>)
    ensures
        *final(state) == spec_add_point(*old(state), p).0,
        final(operations)@ == old(operations)@ + spec_add_point(*old(state), p).1,
{
    let x = p.x as i32;
    let y = p.y as i32;
    match state.first_on_curve {
        None => {
            if p.on_curve_point {
                state.first_on_curve = Some((2 * x, 2 * y));
                operations.push(Operation::MoveTo { x: 2 * x, y: 2 * y });
            } else {
                match state.first_off_curve {
                    Some(control) => {
                        let mid = (control.0 as i32 + x, control.1 as i32 + y);
                        state.first_on_curve = Some(mid);
                        state.last_off_curve = Some((p.x, p.y));
                        operations.push(Operation::MoveTo { x: mid.0, y: mid.1 });
                    },
                    None => {
                        state.first_off_curve = Some((p.x, p.y));
                    },
                }
            }
        },
        Some(_) => {
            match state.last_off_curve {
                Some(control) => {
                    let x1 = 2 * control.0 as i32;
                    let y1 = 2 * control.1 as i32;
                    if p.on_curve_point {
                        state.last_off_curve = None;
                        operations.push(
                            Operation::QuadraticCurveTo { x1, y1, x: 2 * x, y: 2 * y },
                        );
                    } else {
                        state.last_off_curve = Some((p.x, p.y));
                        operations.push(
                            Operation::QuadraticCurveTo {
                                x1,
                                y1,
                                x: control.0 as i32 + x,
                                y: control.1 as i32 + y,
                            },
                        );
                    }
                },
                None => {
                    if p.on_curve_point {
                        operations.push(Operation::LineTo { x: 2 * x, y: 2 * y });
                    } else {
                        state.last_off_curve = Some((p.x, p.y));
                    }
                },
            }
        },
    }
    assert(operations@ =~= old(operations)@ + spec_add_point(*old(state), p).1);
}

/// Closes the contour in the state `state`.
fn finish_contour(state: &ContourState, operations: &mut Vec<Operation>)
    ensures
        final(operations)@ == old(operations)@ + spec_finish_contour(*state),
{
    let mut last_off_curve = state.last_off_curve;
    match (state.first_off_curve, state.last_off_curve) {
        (Some(first), Some(last)) => {
            last_off_curve = None;
            operations.push(
                Operation::QuadraticCurveTo {
                    x1: 2 * last.0 as i32,
                    y1: 2 * last.1 as i32,
                    x: last.0 as i32 + first.0 as i32,
                    y: last.1 as i32 + first.1 as i32,
                },
            );
        },
        _ => {},
    }
    match state.first_on_curve {
        Some(start) => {
            match state.first_off_curve {
                Some(first) => {
                    operations.push(
                        Operation::QuadraticCurveTo {
                            x1: 2 * first.0 as i32,
                            y1: 2 * first.1 as i32,
                            x: start.0,
                            y: start.1,
                        },
                    );
                },
                None => {
                    match last_off_curve {
                        Some(last) => {
                            operations.push(
                                Operation::QuadraticCurveTo {
                                    x1: 2 * last.0 as i32,
                                    y1: 2 * last.1 as i32,
                                    x: start.0,
                                    y: start.1,
                                },
                            );
                        },
                        None => {
                            operations.push(Operation::LineTo { x: start.0, y: start.1 });
                        },
                    }
                },
            }
        },
        None => {},
    }
    operations.push(Operation::ClosePath);
    assert(operations@ =~= old(operations)@ + spec_finish_contour(*state));
}

/// The segments of the path that the contours with the points `points` make up.
pub fn outline_operations(points: &[GlyphPoint]) -> (operations: Vec<Operation>)
    ensures
        operations@ == spec_operations(points@, 0, ContourState::spec_start()),
{
    let mut operations: Vec<Operation> = Vec::new();
    append_operations(points, &mut operations);
    assert(Seq::<Operation>::empty() + spec_operations(points@, 0, ContourState::spec_start())
        =~= spec_operations(points@, 0, ContourState::spec_start()));
    operations
}

/// Appends the segments of the contours with the points `points` to `operations`.
fn append_operations(points: &[GlyphPoint], operations: &mut Vec<Operation>)
    ensures
        final(operations)@ == old(operations)@ + spec_operations(
            points@,
            0,
            ContourState::spec_start(),
        ),
{
    let ghost all = spec_operations(points@, 0, ContourState::spec_start());
    let ghost start = operations@;
    let ghost mut done = Seq::<Operation>::empty();
    let mut state = ContourState::start();
    let mut i: usize = 0;
    assert(start + done =~= start);
    assert(done + all =~= all);
    while i < points.len()
        invariant
            i <= points@.len(),
            operations@ == start + done,
            all == done + spec_operations(points@, i as int, state),
        decreases points@.len() - i,
    {
        let point = points[i];
        let ghost before = state;
        let ghost added = spec_add_point(before, point).1;
        add_point(&mut state, point, operations);
        proof {
            lemma_append_assoc(start, done, added);
        }
        if point.last_point {
            let ghost closing = spec_finish_contour(state);
            finish_contour(&state, operations);
            proof {
                lemma_append_assoc(start, done + added, closing);
                let rest = spec_operations(points@, i + 1, ContourState::spec_start());
                lemma_append_assoc(done, added, closing + rest);
                lemma_append_assoc(added, closing, rest);
                lemma_append_assoc(done, added + closing, rest);
                lemma_append_assoc(done, added, closing);
                done = done + added + closing;
            }
            state = ContourState::start();
        } else {
            proof {
                let rest = spec_operations(points@, i + 1, state);
                lemma_append_assoc(done, added, rest);
                done = done + added;
            }
        }
        i = i + 1;
    }
    assert(done + Seq::<Operation>::empty() =~= done);
}

/// Flag of a component: its arguments are 16-bit numbers rather than bytes.
pub const ARG_1_AND_2_ARE_WORDS: u16 = 0x0001;

/// Flag of a component: its arguments are an offset rather than two points
/// to match.
pub const ARGS_ARE_XY_VALUES: u16 = 0x0002;

/// Flag of a component: it has one scale for both directions.
pub const WE_HAVE_A_SCALE: u16 = 0x0008;

/// Flag of a component: another component follows.
pub const MORE_COMPONENTS: u16 = 0x0020;

/// Flag of a component: it has a scale for each direction.
pub const WE_HAVE_AN_X_AND_Y_SCALE: u16 = 0x0040;

/// Flag of a component: it has a two by two transformation.
pub const WE_HAVE_A_TWO_BY_TWO: u16 = 0x0080;

/// The raw value of the number one.
pub const F2DOT14_ONE: i16 = 0x4000;

/// A component of a composite glyph: another glyph, and how it is placed.
#[derive(Debug, Clone, Copy, PartialEq, Eq, Structural)]
pub struct Component {
    pub glyph_id: u16,
    pub flags: u16,
    pub transform: ComponentTransform,
}

/// Whether the flags `flags` of a component hold the flag `flag`.
pub open spec fn component_flag(flags: u16, flag: u16) -> bool {
    flags & flag != 0
}

/// The number of bytes of the arguments of a component with the flags `flags`.
pub open spec fn component_args_size(flags: u16) -> int {
    if component_flag(flags, ARG_1_AND_2_ARE_WORDS) {
        4
    } else {
        2
    }
}

/// The number of bytes of the transformation of a component with the flags `flags`.
pub open spec fn component_scale_size(flags: u16) -> int {
    if component_flag(flags, WE_HAVE_A_TWO_BY_TWO) {
        8
    } else if component_flag(flags, WE_HAVE_AN_X_AND_Y_SCALE) {
        4
    } else if component_flag(flags, WE_HAVE_A_SCALE) {
        2
    } else {
        0
    }
}

/// The 2.14 number that `b` holds at `at`.
pub open spec fn f2dot14_at(b: Seq<u8>, at: int) -> F2Dot14 {
    F2Dot14(i16_be(b, at) as i16)
}

/// The component record that `b` holds at `at`, and the position behind it.
///
/// The record gives the glyph and its offset, which is zero where the
/// arguments are points to match, and a scale, a scale for each direction or
/// a two by two transformation, where the flags say so.
pub open spec fn spec_component(b: Seq<u8>, at: int) -> Option<(Component, int)> {
    if at < 0 || at + 4 > b.len() {
        None
    } else {
        let flags = u16_be(b, at) as u16;
        let scale = at + 4 + component_args_size(flags);
        let end = scale + component_scale_size(flags);
        if end > b.len() {
            None
        } else {
            let words = component_flag(flags, ARG_1_AND_2_ARE_WORDS);
            let offset = component_flag(flags, ARGS_ARE_XY_VALUES);
            let one = F2Dot14(F2DOT14_ONE);
            let zero = F2Dot14(0);
            let transform = ComponentTransform {
                a: if component_scale_size(flags) == 0 {
                    one
                } else {
                    f2dot14_at(b, scale)
                },
                b: if component_scale_size(flags) == 8 {
                    f2dot14_at(b, scale + 2)
                } else {
                    zero
                },
                c: if component_scale_size(flags) == 8 {
                    f2dot14_at(b, scale + 4)
                } else {
                    zero
                },
                d: if component_scale_size(flags) == 8 {
                    f2dot14_at(b, scale + 6)
                } else if component_scale_size(flags) == 4 {
                    f2dot14_at(b, scale + 2)
                } else if component_scale_size(flags) == 2 {
                    f2dot14_at(b, scale)
                } else {
                    one
                },
                e: if !offset {
                    0i16
                } else if words {
                    i16_be(b, at + 4) as i16
                } else {
                    i8_at(b, at + 4) as i16
                },
                f: if !offset {
                    0i16
                } else if words {
                    i16_be(b, at + 6) as i16
                } else {
                    i8_at(b, at + 5) as i16
                },
            };
            Some((Component { glyph_id: u16_be(b, at + 2) as u16, flags, transform }, end))
        }
    }
}

/// The component records that `b` holds from `at` on, up to the one that
/// says that it is the last.
pub open spec fn spec_components(b: Seq<u8>, at: int) -> Option<Seq<Component>>
    decreases b.len() - at,
{
    match spec_component(b, at) {
        None => None,
        Some((component, next)) => if !component_flag(component.flags, MORE_COMPONENTS) {
            Some(seq![component])
        } else {
            match spec_components(b, next) {
                Some(rest) => Some(seq![component] + rest),
                None => None,
            }
        },
    }
}

/// Reads a component record.
fn read_component(data: &[u8], at: usize) -> (r: Option<(Component, usize)>)
    ensures
        match spec_component(data@, at as int) {
            Some((component, end)) => r matches Some((c, e)) && c == component && e == end && at
                + 6 <= end <= data@.len(),
            None => r is None,
        },
{
    let len = data.len();
    if at > len || len - at < 4 {
        return None;
    }
    let flags = get_u16_be(data, at);
    let glyph_id = get_u16_be(data, at + 2);
    let args_size: usize = if flags & ARG_1_AND_2_ARE_WORDS != 0 {
        4
    } else {
        2
    };
    let scale_size: usize = if flags & WE_HAVE_A_TWO_BY_TWO != 0 {
        8
    } else if flags & WE_HAVE_AN_X_AND_Y_SCALE != 0 {
        4
    } else if flags & WE_HAVE_A_SCALE != 0 {
        2
    } else {
        0
    };
    if len - at - 4 < args_size + scale_size {
        return None;
    }
    let scale = at + 4 + args_size;
    let mut transform = ComponentTransform {
        a: F2Dot14(F2DOT14_ONE),
        b: F2Dot14(0),
        c: F2Dot14(0),
        d: F2Dot14(F2DOT14_ONE),
        e: 0,
        f: 0,
    };
    if flags & ARGS_ARE_XY_VALUES != 0 {
        if flags & ARG_1_AND_2_ARE_WORDS != 0 {
            transform.e = get_i16_be(data, at + 4);
            transform.f = get_i16_be(data, at + 6);
        } else {
            transform.e = get_i8(data, at + 4) as i16;
            transform.f = get_i8(data, at + 5) as i16;
        }
    }
    if scale_size == 8 {
        transform.a = F2Dot14(get_i16_be(data, scale));
        transform.b = F2Dot14(get_i16_be(data, scale + 2));
        transform.c = F2Dot14(get_i16_be(data, scale + 4));
        transform.d = F2Dot14(get_i16_be(data, scale + 6));
    } else if scale_size == 4 {
        transform.a = F2Dot14(get_i16_be(data, scale));
        transform.d = F2Dot14(get_i16_be(data, scale + 2));
    } else if scale_size == 2 {
        transform.a = F2Dot14(get_i16_be(data, scale));
        transform.d = transform.a;
    }
    Some((Component { glyph_id, flags, transform }, scale + scale_size))
}

/// Reads the component records of a composite glyph, which start in `data` at `at`.
pub fn read_components(data: &[u8], at: usize) -> (r: Option<Vec<Component>>)
    ensures
        match spec_components(data@, at as int) {
            Some(components) => r matches Some(v) && v@ == components,
            None => r is None,
        },
{
    let mut components: Vec<Component> = Vec::new();
    let mut pos: usize = at;
    loop
        invariant
            at <= pos,
            spec_components(data@, at as int) == match spec_components(data@, pos as int) {
                Some(rest) => Some(components@ + rest),
                None => None::<Seq<Component>>,
            },
        decreases data@.len() - pos,
    {
        let ghost before = components@;
        let (component, next) = match read_component(data, pos) {
            Some(component) => component,
            None => {
                return None;
            },
        };
        assert(spec_component(data@, pos as int) == Some((component, next as int)));
        assert(pos + 6 <= next <= data@.len());
        components.push(component);
        if component.flags & MORE_COMPONENTS == 0 {
            assert(components@ =~= before + seq![component]);
            return Some(components);
        }
        proof {
            match spec_components(data@, next as int) {
                Some(rest) => {
                    lemma_append_assoc(before, seq![component], rest);
                },
                None => {},
            }
            assert(components@ =~= before + seq![component]);
        }
        pos = next;
    }
}

/// The bounds that the header of the glyph data `data` gives.
pub open spec fn spec_bounding_rect(data: Seq<u8>) -> OutlineBoundingRect {
    OutlineBoundingRect {
        min_x: i16_be(data, 2) as i16,
        min_y: i16_be(data, 4) as i16,
        max_x: i16_be(data, 6) as i16,
        max_y: i16_be(data, 8) as i16,
    }
}

/// The operations `operations`, between the start and the end of a
/// component with the transformation `transform`.
pub open spec fn in_component(transform: ComponentTransform, operations: Seq<Operation>) -> Seq<
    Operation,
> {
    seq![Operation::Component { transform }] + operations + seq![Operation::EndComponent]
}

/// The operations of the components from the `i`th on of a composite glyph at
/// the nesting `depth`. A component whose glyph the `loca` table or the `glyf`
/// table does not hold adds nothing. There are no operations where a
/// component has none.
pub open spec fn spec_component_operations(
    loca_table: loca::Table,
    glyf_table: Seq<u8>,
    components: Seq<Component>,
    i: int,
    depth: int,
) -> Option<Seq<Operation>>
    decreases MAX_COMPONENTS - depth, 0int, components.len() - i,
{
    if i < 0 || i >= components.len() {
        Some(Seq::empty())
    } else if depth < 0 || depth >= MAX_COMPONENTS {
        None
    } else {
        let this = match loca_table.spec_glyph_range(components[i].glyph_id) {
            Some((start, end)) => if end <= glyf_table.len() {
                match spec_outline(
                    loca_table,
                    glyf_table,
                    glyf_table.subrange(start as int, end as int),
                    depth + 1,
                ) {
                    Some((operations, _)) => Some(
                        in_component(components[i].transform, operations),
                    ),
                    None => None,
                }
            } else {
                Some(Seq::empty())
            },
            None => Some(Seq::empty()),
        };
        match this {
            None => None,
            Some(this) => match spec_component_operations(
                loca_table,
                glyf_table,
                components,
                i + 1,
                depth,
            ) {
                Some(rest) => Some(this + rest),
                None => None,
            },
        }
    }
}

/// The operations that draw the glyph with the data `data` at the nesting
/// `depth`, and the bounds that its header gives.
///
/// A glyph with a positive number of contours is simple, and its points make
/// up its path. One with a negative number is composite, and its operations
/// are those of its components, each within the marks of its component.
/// There is no outline where the glyph has no contours, where its data is too
/// short or malformed, and where glyphs are nested too deeply.
pub open spec fn spec_outline(
    loca_table: loca::Table,
    glyf_table: Seq<u8>,
    data: Seq<u8>,
    depth: int,
) -> Option<(Seq<Operation>, OutlineBoundingRect)>
    decreases MAX_COMPONENTS - depth, 1int, 0int,
{
    if depth < 0 || depth >= MAX_COMPONENTS || data.len() < 10 {
        None
    } else {
        let number_of_contours = i16_be(data, 0);
        let tail = data.subrange(10, data.len() as int);
        let operations = if number_of_contours > 0 {
            match spec_parse_simple_outline(tail, number_of_contours as u16) {
                Some(points) => Some(spec_operations(points, 0, ContourState::spec_start())),
                None => None,
            }
        } else if number_of_contours < 0 {
            match spec_components(tail, 0) {
                Some(components) => spec_component_operations(
                    loca_table,
                    glyf_table,
                    components,
                    0,
                    depth,
                ),
                None => None,
            }
        } else {
            None
        };
        match operations {
            Some(operations) => Some((operations, spec_bounding_rect(data))),
            None => None,
        }
    }
}

/// Appends the operations of the components of a composite glyph to `operations`.
fn component_operations(
    loca_table: &loca::Table,
    glyf_table: &[u8],
    components: &Vec<Component>,
    depth: u8,
    operations: &mut Vec<Operation>,
) -> (r: Option<()>)
    requires
        depth < MAX_COMPONENTS,
    ensures
        match spec_component_operations(*loca_table, glyf_table@, components@, 0, depth as int) {
            Some(added) => r is Some && final(operations)@ == old(operations)@ + added,
            None => r is None,
        },
    decreases MAX_COMPONENTS - depth, 0int,
{
    let ghost start = operations@;
    let ghost mut done = Seq::<Operation>::empty();
    let ghost all = spec_component_operations(
        *loca_table,
        glyf_table@,
        components@,
        0,
        depth as int,
    );
    assert(start + done =~= start);
    let mut i: usize = 0;
    while i < components.len()
        invariant
            i <= components@.len(),
            depth < MAX_COMPONENTS,
            operations@ == start + done,
            start == old(operations)@,
            all == spec_component_operations(
                *loca_table,
                glyf_table@,
                components@,
                0,
                depth as int,
            ),
            all == match spec_component_operations(
                *loca_table,
                glyf_table@,
                components@,
                i as int,
                depth as int,
            ) {
                Some(rest) => Some(done + rest),
                None => None::<Seq<Operation>>,
            },
        decreases components@.len() - i,
    {
        let component = components[i];
        let ghost mut this = Seq::<Operation>::empty();
        let len = glyf_table.len();
        match loca_table.glyph_range(component.glyph_id) {
            Some((from, to)) => {
                if to <= len {
                    let glyph_data = vstd::slice::slice_subrange(glyf_table, from, to);
                    operations.push(Operation::Component { transform: component.transform });
                    let ghost inner_start = operations@;
                    if outline_impl(loca_table, glyf_table, glyph_data, depth + 1, operations).is_none() {
                        return None;
                    }
                    let ghost (inner, _) = spec_outline(
                        *loca_table,
                        glyf_table@,
                        glyph_data@,
                        depth + 1,
                    )->Some_0;
                    operations.push(Operation::EndComponent);
                    proof {
                        this = in_component(component.transform, inner);
                        assert(operations@ =~= start + done + this);
                    }
                }
            },
            None => {},
        }
        proof {
            assert(operations@ =~= start + (done + this));
            match spec_component_operations(
                *loca_table,
                glyf_table@,
                components@,
                i + 1,
                depth as int,
            ) {
                Some(rest) => {
                    lemma_append_assoc(done, this, rest);
                },
                None => {},
            }
            done = done + this;
        }
        i = i + 1;
    }
    assert(done + Seq::<Operation>::empty() =~= done);
    Some(())
}

/// Appends the operations that draw the glyph with the data `data` to
/// `operations`, and gives the bounds of the glyph.
pub fn outline_impl(
    loca_table: &loca::Table,
    glyf_table: &[u8],
    data: &[u8],
    depth: u8,
    operations: &mut Vec<Operation>,
) -> (r: Option<OutlineBoundingRect>)
    ensures
        match spec_outline(*loca_table, glyf_table@, data@, depth as int) {
            Some((added, rect)) => r == Some(rect) && final(operations)@ == old(operations)@
                + added,
            None => r is None,
        },
    decreases MAX_COMPONENTS - depth, 1int,
{
    if depth >= MAX_COMPONENTS {
        return None;
    }
    if data.len() < 10 {
        return None;
    }
    let number_of_contours = get_i16_be(data, 0);
    // It's faster to parse the rect directly.
    let rect = OutlineBoundingRect {
        min_x: get_i16_be(data, 2),
        min_y: get_i16_be(data, 4),
        max_x: get_i16_be(data, 6),
        max_y: get_i16_be(data, 8),
    };
    let tail = vstd::slice::slice_subrange(data, 10, data.len());

    if number_of_contours > 0 {
        // Simple glyph.
        let points = match parse_simple_outline(tail, number_of_contours as u16) {
            Some(points) => points.points(),
            None => {
                return None;
            },
        };
        append_operations(points.as_slice(), operations);
    } else if number_of_contours < 0 {
        // Composite glyph.
        let components = match read_components(tail, 0) {
            Some(components) => components,
            None => {
                return None;
            },
        };
        if component_operations(loca_table, glyf_table, &components, depth, operations).is_none() {
            return None;
        }
    } else {
        // An empty glyph.
        return None;
    }
    Some(rect)
}

/// The outline of the glyph `glyph_id`: the operations that draw it, and
/// its bounds. There is none where the glyph has no data or no contours,
/// and where its data is malformed.
pub open spec fn spec_glyph_outline(loca_table: loca::Table, glyf_table: Seq<u8>, glyph_id: u16) -> Option<
    (Seq<Operation>, OutlineBoundingRect),
> {
    match loca_table.spec_glyph_range(glyph_id) {
        Some((start, end)) => if end <= glyf_table.len() {
            spec_outline(loca_table, glyf_table, glyf_table.subrange(start as int, end as int), 0)
        } else {
            None
        },
        None => None,
    }
}

/// Outlines the glyph `glyph_id` of the `glyf` table.
pub fn outline(loca_table: &loca::Table, glyf_table: &[u8], glyph_id: u16) -> (r: Option<Outline>)
    ensures
        match spec_glyph_outline(*loca_table, glyf_table@, glyph_id) {
            Some((operations, rect)) => r matches Some(outline) && outline.operations@
                == operations && outline.bounding_rect == rect,
            None => r is None,
        },
{
    let (start, end) = match loca_table.glyph_range(glyph_id) {
        Some(range) => range,
        None => {
            return None;
        },
    };
    if end > glyf_table.len() {
        return None;
    }
    let glyph_data = vstd::slice::slice_subrange(glyf_table, start, end);
    let mut operations: Vec<Operation> = Vec::new();
    let bounding_rect = match outline_impl(loca_table, glyf_table, glyph_data, 0, &mut operations) {
        Some(rect) => rect,
        None => {
            return None;
        },
    };
    assert(Seq::<Operation>::empty() + operations@ =~= operations@);
    Some(Outline { operations, bounding_rect })
}

/// Outlines the glyph `glyph_id` of a font with the tables `loca_table`
/// and `glyf_table`.
///
/// Fails where the font lacks one of the tables. The result is none for a
/// glyph that has no outline.
pub fn parse_glyph_outline(
    loca_table: Option<&loca::Table>,
    glyf_table: Option<&[u8]>,
    glyph_id: u16,
) -> (r: Result<Option<Outline>, OutlineParseError>)
    ensures
        match (loca_table, glyf_table) {
            (Some(loca_table), Some(glyf_table)) => r matches Ok(found) && match spec_glyph_outline(
                *loca_table,
                glyf_table@,
                glyph_id,
            ) {
                Some((operations, rect)) => found matches Some(outline) && outline.operations@
                    == operations && outline.bounding_rect == rect,
                None => found is None,
            },
            _ => r matches Err(e) && e == OutlineParseError::NoTablesFound,
        },
{
    match (loca_table, glyf_table) {
        (Some(loca_table), Some(glyf_table)) => Ok(outline(loca_table, glyf_table, glyph_id)),
        _ => Err(OutlineParseError::NoTablesFound),
    }
}

} // verus!
