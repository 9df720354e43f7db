//! The `loca` table, which says where in the `glyf` table the data of each glyph lies.

use vstd::prelude::*;

verus! {

/// The offsets of the glyphs in the `glyf` table, in bytes: the data of a
/// glyph lies between its offset and that of the next glyph.
pub struct Table {
    /// One offset for each glyph, and one more for the end of the last glyph.
    pub offsets: Vec<u32>,
}

impl Table {
    /// The range of the data of the glyph `glyph_id`, if the glyph has any.
    pub open spec fn spec_glyph_range(&self, glyph_id: u16) -> Option<(usize, usize)> {
        if glyph_id + 1 >= self.offsets@.len() {
            None
        } else if self.offsets@[glyph_id as int] >= self.offsets@[glyph_id + 1] {
            None
        } else {
            Some(
                (self.offsets@[glyph_id as int] as usize, self.offsets@[glyph_id + 1] as usize),
            )
        }
    }

    /// The range of the data of the glyph `glyph_id` in the `glyf` table:
    /// none where the table does not list the glyph, or where the glyph has
    /// no data.
    pub fn glyph_range(&self, glyph_id: u16) -> (r: Option<(usize, usize)>)
        ensures
            r == self.spec_glyph_range(glyph_id),
    {
        let index = glyph_id as usize;
        // Glyph ID must be smaller than total number of values in a `loca` array.
        if index + 1 >= self.offsets.len() {
            return None;
        }
        let start = self.offsets[index];
        let end = self.offsets[index + 1];
        if start >= end {
            // The glyph has no outline.
            None
        } else {
            Some((start as usize, end as usize))
        }
    }
}

} // verus!
