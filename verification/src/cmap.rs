//! The header of the `cmap` table, which maps character codes to glyphs.
//!
//! A font may support several encodings. The header lists them; each
//! encoding record gives the offset of a subtable that holds the mapping.
//! The subtables are not read here.

use vstd::prelude::*;

use crate::binary::{get_u16_be, get_u32_be, u16_be, u32_be};

verus! {

/// Errors of reading the header of a `cmap` table.
#[derive(Clone, Copy, Debug, PartialEq, Eq, Structural)]
pub enum CMapError {
    /// The data is shorter than the version and the number of tables.
    BadEof,
    /// The version is not 0.
    BadVersion,
    /// The length of the data is not that of the header and its encoding records.
    SizeMismatch,
}

/// The number of bytes of an encoding record.
pub const ENCODING_RECORD_SIZE: usize = 8;

/// A table that defines the mappings of character codes to the glyph indices used in the font.
///
/// Multiple encoding schemes may be supported via the `encoding_records`.
#[derive(Clone, Copy, Debug)]
pub struct CMap<'a> {
    data: &'a [u8],
}

/// An encoding of a `cmap` table, and the place of its subtable.
#[derive(Clone, Copy, Debug, PartialEq, Eq, Structural)]
pub struct EncodingRecord {
    /// The platform of the encoding.
    pub platform_id: u16,
    /// The encoding, in the numbering of its platform.
    pub encoding_id: u16,
    /// The offset of the subtable of the encoding from the start of the table.
    pub subtable_offset: u32,
}

/// The encoding records of a `cmap` table that are still to come.
pub struct EncodingRecords<'a> {
    len: u16,
    current: u16,
    data: &'a [u8],
}

/// The outcome of reading the header of a `cmap` table from `buf`.
pub open spec fn spec_from_buf(buf: Seq<u8>) -> Result<(), CMapError> {
    if buf.len() < 4 {
        Err(CMapError::BadEof)
    } else if u16_be(buf, 0) != 0 {
        Err(CMapError::BadVersion)
    } else if buf.len() != 4 + ENCODING_RECORD_SIZE * u16_be(buf, 2) {
        Err(CMapError::SizeMismatch)
    } else {
        Ok(())
    }
}

/// The encoding record that `b` holds at `at`.
pub open spec fn spec_encoding_record(b: Seq<u8>, at: int) -> EncodingRecord {
    EncodingRecord {
        platform_id: u16_be(b, at) as u16,
        encoding_id: u16_be(b, at + 2) as u16,
        subtable_offset: u32_be(b, at + 4) as u32,
    }
}

impl<'a> View for CMap<'a> {
    type V = Seq<u8>;

    /// The bytes of the header and its encoding records.
    closed spec fn view(&self) -> Seq<u8> {
        self.data@
    }
}

impl<'a> CMap<'a> {
    #[verifier::type_invariant]
    spec fn inv(&self) -> bool {
        spec_from_buf(self.data@) is Ok
    }

    /// The encoding records of the table, in order.
    pub open spec fn spec_encoding_records(&self) -> Seq<EncodingRecord> {
        Seq::new(
            u16_be(self@, 2) as nat,
            |i: int| spec_encoding_record(self@, 4 + ENCODING_RECORD_SIZE * i),
        )
    }

    /// Reads the header of a `cmap` table, which must make up all of `buf`.
    ///
    /// The offsets of the subtables are not followed.
    pub fn from_buf(buf: &'a [u8]) -> (r: Result<CMap<'a>, CMapError>)
        ensures
            match spec_from_buf(buf@) {
                Ok(_) => r matches Ok(cmap) && cmap@ == buf@,
                Err(e) => r matches Err(x) && x == e,
            },
            r is Ok ==> buf@.len() == 4 + 8 * u16_be(buf@, 2) && u16_be(buf@, 0) == 0,
    {
        if buf.len() < CMap::min_size_of() {
            Err(CMapError::BadEof)
        } else if get_u16_be(buf, 0) != 0 {
            Err(CMapError::BadVersion)
        } else if buf.len() != 4 + ENCODING_RECORD_SIZE * get_u16_be(buf, 2) as usize {
            Err(CMapError::SizeMismatch)
        } else {
            Ok(CMap { data: buf })
        }
    }

    /// The number of bytes of the smallest header: the version and the
    /// number of tables.
    pub fn min_size_of() -> (n: usize)
        ensures
            n == 4,
    {
        2 + 2
    }

    /// The number of bytes of the header and its encoding records.
    pub fn size_of(&self) -> (n: usize)
        ensures
            n == 4 + 8 * u16_be(self@, 2),
            n == self@.len(),
    {
        proof {
            use_type_invariant(self);
        }
        2 + 2 + ENCODING_RECORD_SIZE * self.num_tables() as usize
    }

    /// The version of the table, which is 0.
    pub fn version(&self) -> (v: u16)
        ensures
            v == u16_be(self@, 0),
            v == 0,
    {
        proof {
            use_type_invariant(self);
        }
        get_u16_be(self.data, 0)
    }

    /// The number of encoding records.
    pub fn num_tables(&self) -> (n: u16)
        ensures
            n == u16_be(self@, 2),
            n == self.spec_encoding_records().len(),
    {
        proof {
            use_type_invariant(self);
        }
        get_u16_be(self.data, 2)
    }

    /// The encoding records, from the first on.
    pub fn encoding_records(&self) -> (records: EncodingRecords<'a>)
        ensures
            records.spec_remaining() == self.spec_encoding_records(),
    {
        proof {
            use_type_invariant(self);
        }
        let records = EncodingRecords { len: self.num_tables(), current: 0, data: self.data };
        assert(records.spec_remaining() =~= self.spec_encoding_records());
        records
    }
}

impl<'a> EncodingRecords<'a> {
    #[verifier::type_invariant]
    spec fn inv(&self) -> bool {
        &&& self.current <= self.len
        &&& self.data@.len() == 4 + ENCODING_RECORD_SIZE * self.len
    }

    /// The records that are still to come, in order.
    pub closed spec fn spec_remaining(&self) -> Seq<EncodingRecord> {
        Seq::new(
            (self.len - self.current) as nat,
            |i: int| spec_encoding_record(self.data@, 4 + ENCODING_RECORD_SIZE * (self.current + i)),
        )
    }

    /// The number of records that are still to come, as a lower and an upper bound.
    pub fn size_hint(&self) -> (hint: (usize, Option<usize>))
        ensures
            hint.0 == self.spec_remaining().len(),
            hint.1 == Some(hint.0),
    {
        proof {
            use_type_invariant(self);
        }
        let left = (self.len - self.current) as usize;
        (left, Some(left))
    }

    /// The next record, if any is left.
    pub fn next(&mut self) -> (r: Option<Result<EncodingRecord, ()>>)
        ensures
            match r {
                Some(record) => old(self).spec_remaining().len() > 0 && record == Ok::<
                    EncodingRecord,
                    (),
                >(old(self).spec_remaining()[0]) && final(self).spec_remaining() == old(
                    self,
                ).spec_remaining().skip(1),
                None => old(self).spec_remaining().len() == 0 && final(self).spec_remaining()
                    == old(self).spec_remaining(),
            },
    {
        proof {
            use_type_invariant(&*self);
        }
        if self.current < self.len {
            let at = 4 + ENCODING_RECORD_SIZE * self.current as usize;
            let record = EncodingRecord {
                platform_id: get_u16_be(self.data, at),
                encoding_id: get_u16_be(self.data, at + 2),
                subtable_offset: get_u32_be(self.data, at + 4),
            };
            self.current = self.current + 1;
            assert(self.spec_remaining() =~= old(self).spec_remaining().skip(1));
            return Some(Ok(record));
        }
        None
    }
}

impl EncodingRecord {
    /// The number of bytes of an encoding record.
    pub fn size_of(&self) -> (n: usize)
        ensures
            n == ENCODING_RECORD_SIZE,
    {
        2 + 2 + 4
    }

    /// The platform of the encoding.
    pub fn platform_id(&self) -> (id: u16)
        ensures
            id == self.platform_id,
    {
        self.platform_id
    }

    /// The encoding, in the numbering of its platform.
    pub fn encoding_id(&self) -> (id: u16)
        ensures
            id == self.encoding_id,
    {
        self.encoding_id
    }

    /// The offset of the subtable of the encoding from the start of the table.
    pub fn subtable_offset(&self) -> (offset: u32)
        ensures
            offset == self.subtable_offset,
    {
        self.subtable_offset
    }
}

} // verus!
