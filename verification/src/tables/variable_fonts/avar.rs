//! `avar` Axis Variations Table
//!
//! The axis variations table (`avar`) is an optional table used in variable fonts. It can be used
//! to modify aspects of how a design varies for different instances along a particular
//! design-variation axis. Specifically, it allows modification of the coordinate normalization
//! that is used when processing variation data for a particular variation instance.

use vstd::prelude::*;
use vstd::std_specs::convert::FromSpecImpl;

use crate::binary::{
    get_i16_be, i16_be, lemma_append_assoc, u16_be, F2Dot14, ReadArray, ReadCtxt, ReadFrom,
};
use crate::error::ParseError;
use crate::tables::variable_fonts::parsed_view;

verus! {

/// `avar` Axis Variations Table.
pub struct AvarTable<'a> {
    /// Major version number of the axis variations table.
    pub major_version: u16,
    /// Minor version number of the axis variations table.
    pub minor_version: u16,
    /// The number of variation axes for this font.
    pub axis_count: u16,
    /// The segment map of each axis.
    segment_maps: Vec<SegmentMap<'a>>,
}

/// Segment map record.
///
/// Contains an array of mappings from a normalised coordinate value to a modified value.
#[derive(Clone, Copy)]
pub struct SegmentMap<'a> {
    /// The array of axis value map records for this axis.
    axis_value_maps: ReadArray<'a, AxisValueMap>,
}

/// A mapping from a normalised coordinate value to a modified value.
#[derive(Debug, Copy, Clone, Eq, PartialEq, Structural)]
pub struct AxisValueMap {
    /// A normalized coordinate value obtained using default normalization.
    pub from_coordinate: F2Dot14,
    /// The modified, normalized coordinate value.
    pub to_coordinate: F2Dot14,
}

impl From<(F2Dot14, F2Dot14)> for AxisValueMap {
    fn from(coordinates: (F2Dot14, F2Dot14)) -> (r: Self) {
        let (from_coordinate, to_coordinate) = coordinates;
        AxisValueMap { from_coordinate, to_coordinate }
    }
}

impl FromSpecImpl<(F2Dot14, F2Dot14)> for AxisValueMap {
    open spec fn obeys_from_spec() -> bool {
        true
    }

    open spec fn from_spec(coordinates: (F2Dot14, F2Dot14)) -> Self {
        AxisValueMap { from_coordinate: coordinates.0, to_coordinate: coordinates.1 }
    }
}

impl ReadFrom for AxisValueMap {
    open spec fn size() -> nat {
        4
    }

    open spec fn decode(s: Seq<u8>, at: int) -> Self {
        AxisValueMap {
            from_coordinate: F2Dot14(i16_be(s, at) as i16),
            to_coordinate: F2Dot14(i16_be(s, at + 2) as i16),
        }
    }

    fn byte_size() -> (n: usize) {
        4
    }

    fn read_at(data: &[u8], at: usize) -> (v: Self) {
        let _ = data.len();
        let from_coordinate = F2Dot14(get_i16_be(data, at));
        let to_coordinate = F2Dot14(get_i16_be(data, at + 2));
        AxisValueMap::from((from_coordinate, to_coordinate))
    }
}

impl<'a> View for SegmentMap<'a> {
    type V = Seq<AxisValueMap>;

    /// The mappings of the axis, in order.
    closed spec fn view(&self) -> Seq<AxisValueMap> {
        self.axis_value_maps@
    }
}

/// What an `avar` table holds.
pub struct AvarTableView {
    pub major_version: u16,
    pub minor_version: u16,
    pub axis_count: u16,
    pub segment_maps: Seq<Seq<AxisValueMap>>,
}

impl<'a> View for AvarTable<'a> {
    type V = AvarTableView;

    closed spec fn view(&self) -> AvarTableView {
        AvarTableView {
            major_version: self.major_version,
            minor_version: self.minor_version,
            axis_count: self.axis_count,
            segment_maps: segment_map_views(self.segment_maps@),
        }
    }
}

/// The views of the segment maps `maps`.
spec fn segment_map_views(maps: Seq<SegmentMap<'_>>) -> Seq<Seq<AxisValueMap>> {
    Seq::new(maps.len(), |i: int| maps[i]@)
}

/// The segment map that `b` holds at `at`, and the position behind it: a count
/// of mappings, then the mappings.
pub open spec fn spec_segment_map(b: Seq<u8>, at: int) -> Result<
    (Seq<AxisValueMap>, int),
    ParseError,
> {
    if at < 0 || at + 2 > b.len() || at + 2 + 4 * u16_be(b, at) > b.len() {
        Err(ParseError::BadEof)
    } else {
        Ok(
            (
                Seq::new(u16_be(b, at) as nat, |i: int| AxisValueMap::decode(b, at + 2 + 4 * i)),
                at + 2 + 4 * u16_be(b, at),
            ),
        )
    }
}

/// The segment maps from the `i`th to the `n`th that `b` holds from `at` on,
/// and the position behind them.
pub open spec fn spec_segment_maps(b: Seq<u8>, at: int, i: int, n: int) -> Result<
    (Seq<Seq<AxisValueMap>>, int),
    ParseError,
>
    decreases n - i,
{
    if i >= n {
        Ok((Seq::empty(), at))
    } else {
        match spec_segment_map(b, at) {
            Err(e) => Err(e),
            Ok((map, next)) => match spec_segment_maps(b, next, i + 1, n) {
                Ok((rest, end)) => Ok((seq![map] + rest, end)),
                Err(e) => Err(e),
            },
        }
    }
}

impl AvarTableView {
    /// The table that `b` holds at `at`, and the position behind it.
    ///
    /// A major version other than 1 is a `BadVersion`. The segment maps of
    /// the axes follow the header, one for each axis.
    pub open spec fn spec_read(b: Seq<u8>, at: int) -> Result<(AvarTableView, int), ParseError> {
        if at < 0 || at + 2 > b.len() {
            Err(ParseError::BadEof)
        } else if u16_be(b, at) != 1 {
            Err(ParseError::BadVersion)
        } else if at + 8 > b.len() {
            Err(ParseError::BadEof)
        } else {
            match spec_segment_maps(b, at + 8, 0, u16_be(b, at + 6)) {
                Err(e) => Err(e),
                Ok((maps, end)) => Ok(
                    (
                        AvarTableView {
                            major_version: u16_be(b, at) as u16,
                            minor_version: u16_be(b, at + 2) as u16,
                            axis_count: u16_be(b, at + 6) as u16,
                            segment_maps: maps,
                        },
                        end,
                    ),
                ),
            }
        }
    }
}

impl<'a> AvarTable<'a> {
    /// The segment maps, one for each axis, in the order of the axes.
    pub fn segment_maps(&self) -> (maps: Vec<SegmentMap<'a>>)
        ensures
            maps@.len() == self@.segment_maps.len(),
            forall|i: int| 0 <= i < maps@.len() ==> (#[trigger] maps@[i])@ == self@.segment_maps[i],
    {
        let mut maps: Vec<SegmentMap<'a>> = Vec::new();
        let mut i: usize = 0;
        while i < self.segment_maps.len()
            invariant
                i <= self.segment_maps@.len(),
                maps@.len() == i,
                forall|k: int| 0 <= k < i ==> maps@[k] == self.segment_maps@[k],
            decreases self.segment_maps@.len() - i,
        {
            maps.push(self.segment_maps[i]);
            i = i + 1;
        }
        maps
    }

    /// Reads an `avar` table.
    pub fn read(ctxt: &mut ReadCtxt<'a>) -> (r: Result<AvarTable<'a>, ParseError>)
        ensures
            parsed_view(
                old(ctxt),
                final(ctxt),
                r,
                AvarTableView::spec_read(old(ctxt).bytes(), old(ctxt).pos()),
            ),
    {
        let ghost b = ctxt.bytes();
        let ghost at = ctxt.pos();
        let _ = ctxt.offset();
        let major_version = ctxt.read_u16be()?;
        ctxt.check_version(major_version == 1)?;
        let minor_version = ctxt.read_u16be()?;
        let _reserved = ctxt.read_u16be()?;
        let axis_count = ctxt.read_u16be()?;

        let mut segment_maps: Vec<SegmentMap<'a>> = Vec::new();
        let mut i: u16 = 0;
        while i < axis_count
            invariant
                i <= axis_count,
                ctxt.bytes() == b,
                b == old(ctxt).bytes(),
                at == old(ctxt).pos(),
                0 <= at,
                at + 8 <= ctxt.pos() <= b.len(),
                u16_be(b, at) == 1,
                major_version == 1,
                minor_version == u16_be(b, at + 2),
                axis_count == u16_be(b, at + 6),
                segment_maps@.len() == i,
                spec_segment_maps(b, at + 8, 0, axis_count as int) == match spec_segment_maps(
                    b,
                    ctxt.pos(),
                    i as int,
                    axis_count as int,
                ) {
                    Ok((rest, end)) => Ok::<(Seq<Seq<AxisValueMap>>, int), ParseError>(
                        (segment_map_views(segment_maps@) + rest, end),
                    ),
                    Err(e) => Err::<(Seq<Seq<AxisValueMap>>, int), ParseError>(e),
                },
            decreases axis_count - i,
        {
            let ghost before = segment_map_views(segment_maps@);
            let segment_map = SegmentMap::read(ctxt)?;
            proof {
                match spec_segment_maps(b, ctxt.pos(), i + 1, axis_count as int) {
                    Ok((rest, end)) => {
                        lemma_append_assoc(before, seq![segment_map@], rest);
                    },
                    Err(e) => {},
                }
            }
            segment_maps.push(segment_map);
            i = i + 1;
            assert(segment_map_views(segment_maps@) =~= before + seq![segment_map@]);
        }
        assert(segment_map_views(segment_maps@) + Seq::<Seq<AxisValueMap>>::empty()
            =~= segment_map_views(segment_maps@));

        Ok(AvarTable { major_version, minor_version, axis_count, segment_maps })
    }
}

impl<'a> SegmentMap<'a> {
    /// The axis value mappings, in order.
    pub fn axis_value_mappings(&self) -> (maps: Vec<AxisValueMap>)
        ensures
            maps@ == self@,
    {
        self.axis_value_maps.to_vec()
    }

    /// Reads a segment map.
    pub fn read(ctxt: &mut ReadCtxt<'a>) -> (r: Result<SegmentMap<'a>, ParseError>)
        ensures
            parsed_view(
                old(ctxt),
                final(ctxt),
                r,
                spec_segment_map(old(ctxt).bytes(), old(ctxt).pos()),
            ),
    {
        let _ = ctxt.offset();
        let position_map_count = ctxt.read_u16be()?;
        let axis_value_maps = ctxt.read_array::<AxisValueMap>(position_map_count as usize)?;
        let map = SegmentMap { axis_value_maps };
        assert(map@ =~= spec_segment_map(old(ctxt).bytes(), old(ctxt).pos())->Ok_0.0);
        Ok(map)
    }
}

} // verus!
