//! What the tuple variation store reads of the `gvar` table.

use vstd::prelude::*;

use crate::binary::{F2Dot14, ReadScope};
use crate::error::ParseError;
use crate::tables::variable_fonts::{spec_tuple, Tuple};

verus! {

/// The number of points of a glyph, counting its four phantom points.
#[derive(Clone, Copy, Debug, PartialEq, Eq, Structural)]
pub struct NumPoints(u32);

impl NumPoints {
    /// The number of points, with the phantom points.
    pub closed spec fn spec_get(self) -> u32 {
        self.0
    }

    /// The number of points of a glyph that has `count` points of its own.
    pub fn new(count: u16) -> (n: Self)
        ensures
            n.spec_get() == count + 4,
    {
        NumPoints(count as u32 + 4)
    }

    /// The number `count`, which already counts the phantom points.
    pub fn from_raw(count: u32) -> (n: Self)
        ensures
            n.spec_get() == count,
    {
        NumPoints(count)
    }

    /// The number of points, with the phantom points.
    pub fn get(self) -> (count: u32)
        ensures
            count == self.spec_get(),
    {
        self.0
    }
}

/// The shared tuples of a `gvar` table.
pub struct GvarTable<'a> {
    /// The number of variation axes of the font.
    pub axis_count: u16,
    /// The number of shared tuples.
    pub shared_tuple_count: u16,
    /// The shared tuples, each of as many coordinates as there are axes.
    pub shared_tuples: &'a [u8],
}

impl<'a> GvarTable<'a> {
    /// The shared tuple at `index`.
    pub open spec fn spec_shared_tuple(&self, index: u16) -> Result<Seq<F2Dot14>, ParseError> {
        if index >= self.shared_tuple_count {
            Err(ParseError::BadIndex)
        } else if (index + 1) * (self.axis_count * 2) > self.shared_tuples@.len() {
            Err(ParseError::BadEof)
        } else {
            Ok(
                spec_tuple(
                    self.shared_tuples@,
                    index * (self.axis_count * 2),
                    self.axis_count as int,
                ),
            )
        }
    }

    /// The shared tuple at `index`: `BadIndex` where there is none, `BadEof`
    /// where the table ends before it.
    pub fn shared_tuple(&self, index: u16) -> (r: Result<Tuple<'a>, ParseError>)
        ensures
            match self.spec_shared_tuple(index) {
                Ok(tuple) => r matches Ok(t) && t@ == tuple,
                Err(e) => r matches Err(x) && x == e,
            },
    {
        if index >= self.shared_tuple_count {
            return Err(ParseError::BadIndex);
        }
        let size: u64 = self.axis_count as u64 * 2;
        assert(index * size <= 0xffff * 0x1_fffe && (index + 1) * size <= 0x1_0000 * 0x1_fffe)
            by (nonlinear_arith)
            requires
                index <= 0xffff,
                size <= 0x1_fffe,
        ;
        let offset: u64 = index as u64 * size;
        let len = self.shared_tuples.len();
        if offset + size > len as u64 {
            assert((index + 1) * size == index * size + size) by (nonlinear_arith);
            return Err(ParseError::BadEof);
        }
        assert((index + 1) * size == index * size + size) by (nonlinear_arith);
        let scope = ReadScope::new(self.shared_tuples).offset_length(
            offset as usize,
            size as usize,
        )?;
        let mut ctxt = scope.ctxt();
        let array = ctxt.read_array::<F2Dot14>(self.axis_count as usize)?;
        let tuple = Tuple(array);
        assert(tuple@ =~= spec_tuple(
            self.shared_tuples@,
            index * (self.axis_count * 2),
            self.axis_count as int,
        ));
        Ok(tuple)
    }
}

} // verus!
