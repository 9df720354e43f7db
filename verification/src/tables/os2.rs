//! Parsing and writing of the `OS/2` table.
//!
//! The table is a fixed record that grew over time. Which of the later
//! parts a table holds depends on its version, and for the oldest of them on
//! the length of the table: some fonts hold a version 0 table that ends behind
//! `us_last_char_index`.

use vstd::prelude::*;

use crate::binary::{
    get_i16_be, get_u16_be, get_u32_be, i16_be, i16_be_bytes, lemma_append_assoc,
    lemma_i16_round_trip, lemma_subrange_join, lemma_u16_round_trip, lemma_u32_round_trip, u16_be,
    u16_be_bytes, u32_be, u32_be_bytes, ReadCtxt, WriteBuffer,
};
use crate::error::{ParseError, WriteError};

verus! {

/// The `OS/2` table.
pub struct Os2 {
    pub version: u16,
    pub x_avg_char_width: i16,
    pub us_weight_class: u16,
    pub us_width_class: u16,
    pub fs_type: u16,
    pub y_subscript_x_size: i16,
    pub y_subscript_y_size: i16,
    pub y_subscript_x_offset: i16,
    pub y_subscript_y_offset: i16,
    pub y_superscript_x_size: i16,
    pub y_superscript_y_size: i16,
    pub y_superscript_x_offset: i16,
    pub y_superscript_y_offset: i16,
    pub y_strikeout_size: i16,
    pub y_strikeout_position: i16,
    pub s_family_class: i16,
    pub panose: [u8; 10],
    pub ul_unicode_range1: u32,
    pub ul_unicode_range2: u32,
    pub ul_unicode_range3: u32,
    pub ul_unicode_range4: u32,
    /// A tag.
    pub ach_vend_id: u32,
    pub fs_selection: u16,
    pub us_first_char_index: u16,
    pub us_last_char_index: u16,
    /// The last part of a version 0 table, which tables of 78 bytes and more hold.
    pub version0: Option<Version0>,
    /// What version 1 added.
    pub version1: Option<Version1>,
    /// What version 2 added; versions 3 and 4 added nothing.
    pub version2to4: Option<Version2to4>,
    /// What version 5 added.
    pub version5: Option<Version5>,
}

/// The last part of a version 0 table.
pub struct Version0 {
    pub s_typo_ascender: i16,
    pub s_typo_descender: i16,
    pub s_typo_line_gap: i16,
    pub us_win_ascent: u16,
    pub us_win_descent: u16,
}

/// What version 1 added.
pub struct Version1 {
    pub ul_code_page_range1: u32,
    pub ul_code_page_range2: u32,
}

/// What version 2 added.
pub struct Version2to4 {
    pub sx_height: i16,
    pub s_cap_height: i16,
    pub us_default_char: u16,
    pub us_break_char: u16,
    pub us_max_context: u16,
}

/// What version 5 added.
pub struct Version5 {
    pub us_lower_optical_point_size: u16,
    pub us_upper_optical_point_size: u16,
}

/// The number of bytes of the part that every table holds.
pub const HEADER_SIZE: usize = 68;

/// The smallest length of a table that holds the last part of version 0.
pub const VERSION0_TABLE_SIZE: usize = 78;


impl Version0 {
    /// The number of bytes of the part.
    pub const SIZE: usize = 10;

    /// The part that `b` holds at `at`.
    pub open spec fn spec_read(b: Seq<u8>, at: int) -> Version0 {
        Version0 {
            s_typo_ascender: i16_be(b, at) as i16,
            s_typo_descender: i16_be(b, at + 2) as i16,
            s_typo_line_gap: i16_be(b, at + 4) as i16,
            us_win_ascent: u16_be(b, at + 6) as u16,
            us_win_descent: u16_be(b, at + 8) as u16,
        }
    }

    /// The bytes that the part is written as.
    pub open spec fn spec_bytes(&self) -> Seq<u8> {
        i16_be_bytes(self.s_typo_ascender as int) + i16_be_bytes(self.s_typo_descender as int) + i16_be_bytes(self.s_typo_line_gap as int) + u16_be_bytes(self.us_win_ascent as int) + u16_be_bytes(self.us_win_descent as int)
    }

    /// Reads the part from `ctxt`.
    pub fn read(ctxt: &mut ReadCtxt<'_>) -> (r: Result<Version0, ParseError>)
        ensures
            final(ctxt).read_outcome(
                old(ctxt),
                r,
                10,
                Self::spec_read(old(ctxt).bytes(), old(ctxt).pos()),
            ),
    {
        let s = ctxt.read_slice(10)?;
        Ok(
            Version0 {
                s_typo_ascender: get_i16_be(s, 0),
                s_typo_descender: get_i16_be(s, 2),
                s_typo_line_gap: get_i16_be(s, 4),
                us_win_ascent: get_u16_be(s, 6),
                us_win_descent: get_u16_be(s, 8),
            },
        )
    }

    /// Appends the part to `ctxt`.
    pub fn write(ctxt: &mut WriteBuffer, table: &Self) -> (r: Result<(), WriteError>)
        ensures
            r is Ok,
            final(ctxt)@ == old(ctxt)@ + table.spec_bytes(),
    {
        ctxt.write_i16be(table.s_typo_ascender);
        let ghost written = i16_be_bytes(table.s_typo_ascender as int);
        ctxt.write_i16be(table.s_typo_descender);
        proof {
            lemma_append_assoc(old(ctxt)@, written, i16_be_bytes(table.s_typo_descender as int));
        }
        let ghost written = written + i16_be_bytes(table.s_typo_descender as int);
        ctxt.write_i16be(table.s_typo_line_gap);
        proof {
            lemma_append_assoc(old(ctxt)@, written, i16_be_bytes(table.s_typo_line_gap as int));
        }
        let ghost written = written + i16_be_bytes(table.s_typo_line_gap as int);
        ctxt.write_u16be(table.us_win_ascent);
        proof {
            lemma_append_assoc(old(ctxt)@, written, u16_be_bytes(table.us_win_ascent as int));
        }
        let ghost written = written + u16_be_bytes(table.us_win_ascent as int);
        ctxt.write_u16be(table.us_win_descent);
        proof {
            lemma_append_assoc(old(ctxt)@, written, u16_be_bytes(table.us_win_descent as int));
        }
        let ghost written = written + u16_be_bytes(table.us_win_descent as int);
        Ok(())
    }

    /// The bytes that the part is written as, if the table holds it.
    pub open spec fn spec_optional_bytes(part: Option<Version0>) -> Seq<u8> {
        match part {
            Some(part) => part.spec_bytes(),
            None => Seq::empty(),
        }
    }

    /// Appends the part to `ctxt`, if the table holds it.
    fn write_optional(ctxt: &mut WriteBuffer, part: &Option<Version0>)
        ensures
            final(ctxt)@ == old(ctxt)@ + Self::spec_optional_bytes(*part),
    {
        match part {
            Some(part) => {
                let _ = Self::write(ctxt, part);
            },
            None => {
                assert(ctxt@ =~= old(ctxt)@ + Seq::<u8>::empty());
            },
        }
    }

    /// Reading a part and writing it gives the bytes that were read.
    pub proof fn lemma_round_trip(b: Seq<u8>, at: int)
        requires
            0 <= at,
            at + 10 <= b.len(),
        ensures
            Self::spec_read(b, at).spec_bytes() == b.subrange(at, at + 10),
    {
        lemma_i16_round_trip(b, at);
        lemma_i16_round_trip(b, at + 2);
        lemma_subrange_join(b, at, at + 2, at + 4);
        lemma_i16_round_trip(b, at + 4);
        lemma_subrange_join(b, at, at + 4, at + 6);
        lemma_u16_round_trip(b, at + 6);
        lemma_subrange_join(b, at, at + 6, at + 8);
        lemma_u16_round_trip(b, at + 8);
        lemma_subrange_join(b, at, at + 8, at + 10);
    }
}

impl Version1 {
    /// The number of bytes of the part.
    pub const SIZE: usize = 8;

    /// The part that `b` holds at `at`.
    pub open spec fn spec_read(b: Seq<u8>, at: int) -> Version1 {
        Version1 {
            ul_code_page_range1: u32_be(b, at) as u32,
            ul_code_page_range2: u32_be(b, at + 4) as u32,
        }
    }

    /// The bytes that the part is written as.
    pub open spec fn spec_bytes(&self) -> Seq<u8> {
        u32_be_bytes(self.ul_code_page_range1 as int) + u32_be_bytes(self.ul_code_page_range2 as int)
    }

    /// Reads the part from `ctxt`.
    pub fn read(ctxt: &mut ReadCtxt<'_>) -> (r: Result<Version1, ParseError>)
        ensures
            final(ctxt).read_outcome(
                old(ctxt),
                r,
                8,
                Self::spec_read(old(ctxt).bytes(), old(ctxt).pos()),
            ),
    {
        let s = ctxt.read_slice(8)?;
        Ok(
            Version1 {
                ul_code_page_range1: get_u32_be(s, 0),
                ul_code_page_range2: get_u32_be(s, 4),
            },
        )
    }

    /// Appends the part to `ctxt`.
    pub fn write(ctxt: &mut WriteBuffer, table: &Self) -> (r: Result<(), WriteError>)
        ensures
            r is Ok,
            final(ctxt)@ == old(ctxt)@ + table.spec_bytes(),
    {
        ctxt.write_u32be(table.ul_code_page_range1);
        let ghost written = u32_be_bytes(table.ul_code_page_range1 as int);
        ctxt.write_u32be(table.ul_code_page_range2);
        proof {
            lemma_append_assoc(old(ctxt)@, written, u32_be_bytes(table.ul_code_page_range2 as int));
        }
        let ghost written = written + u32_be_bytes(table.ul_code_page_range2 as int);
        Ok(())
    }

    /// The bytes that the part is written as, if the table holds it.
    pub open spec fn spec_optional_bytes(part: Option<Version1>) -> Seq<u8> {
        match part {
            Some(part) => part.spec_bytes(),
            None => Seq::empty(),
        }
    }

    /// Appends the part to `ctxt`, if the table holds it.
    fn write_optional(ctxt: &mut WriteBuffer, part: &Option<Version1>)
        ensures
            final(ctxt)@ == old(ctxt)@ + Self::spec_optional_bytes(*part),
    {
        match part {
            Some(part) => {
                let _ = Self::write(ctxt, part);
            },
            None => {
                assert(ctxt@ =~= old(ctxt)@ + Seq::<u8>::empty());
            },
        }
    }

    /// Reading a part and writing it gives the bytes that were read.
    pub proof fn lemma_round_trip(b: Seq<u8>, at: int)
        requires
            0 <= at,
            at + 8 <= b.len(),
        ensures
            Self::spec_read(b, at).spec_bytes() == b.subrange(at, at + 8),
    {
        lemma_u32_round_trip(b, at);
        lemma_u32_round_trip(b, at + 4);
        lemma_subrange_join(b, at, at + 4, at + 8);
    }
}

impl Version2to4 {
    /// The number of bytes of the part.
    pub const SIZE: usize = 10;

    /// The part that `b` holds at `at`.
    pub open spec fn spec_read(b: Seq<u8>, at: int) -> Version2to4 {
        Version2to4 {
            sx_height: i16_be(b, at) as i16,
            s_cap_height: i16_be(b, at + 2) as i16,
            us_default_char: u16_be(b, at + 4) as u16,
            us_break_char: u16_be(b, at + 6) as u16,
            us_max_context: u16_be(b, at + 8) as u16,
        }
    }

    /// The bytes that the part is written as.
    pub open spec fn spec_bytes(&self) -> Seq<u8> {
        i16_be_bytes(self.sx_height as int) + i16_be_bytes(self.s_cap_height as int) + u16_be_bytes(self.us_default_char as int) + u16_be_bytes(self.us_break_char as int) + u16_be_bytes(self.us_max_context as int)
    }

    /// Reads the part from `ctxt`.
    pub fn read(ctxt: &mut ReadCtxt<'_>) -> (r: Result<Version2to4, ParseError>)
        ensures
            final(ctxt).read_outcome(
                old(ctxt),
                r,
                10,
                Self::spec_read(old(ctxt).bytes(), old(ctxt).pos()),
            ),
    {
        let s = ctxt.read_slice(10)?;
        Ok(
            Version2to4 {
                sx_height: get_i16_be(s, 0),
                s_cap_height: get_i16_be(s, 2),
                us_default_char: get_u16_be(s, 4),
                us_break_char: get_u16_be(s, 6),
                us_max_context: get_u16_be(s, 8),
            },
        )
    }

    /// Appends the part to `ctxt`.
    pub fn write(ctxt: &mut WriteBuffer, table: &Self) -> (r: Result<(), WriteError>)
        ensures
            r is Ok,
            final(ctxt)@ == old(ctxt)@ + table.spec_bytes(),
    {
        ctxt.write_i16be(table.sx_height);
        let ghost written = i16_be_bytes(table.sx_height as int);
        ctxt.write_i16be(table.s_cap_height);
        proof {
            lemma_append_assoc(old(ctxt)@, written, i16_be_bytes(table.s_cap_height as int));
        }
        let ghost written = written + i16_be_bytes(table.s_cap_height as int);
        ctxt.write_u16be(table.us_default_char);
        proof {
            lemma_append_assoc(old(ctxt)@, written, u16_be_bytes(table.us_default_char as int));
        }
        let ghost written = written + u16_be_bytes(table.us_default_char as int);
        ctxt.write_u16be(table.us_break_char);
        proof {
            lemma_append_assoc(old(ctxt)@, written, u16_be_bytes(table.us_break_char as int));
        }
        let ghost written = written + u16_be_bytes(table.us_break_char as int);
        ctxt.write_u16be(table.us_max_context);
        proof {
            lemma_append_assoc(old(ctxt)@, written, u16_be_bytes(table.us_max_context as int));
        }
        let ghost written = written + u16_be_bytes(table.us_max_context as int);
        Ok(())
    }

    /// The bytes that the part is written as, if the table holds it.
    pub open spec fn spec_optional_bytes(part: Option<Version2to4>) -> Seq<u8> {
        match part {
            Some(part) => part.spec_bytes(),
            None => Seq::empty(),
        }
    }

    /// Appends the part to `ctxt`, if the table holds it.
    fn write_optional(ctxt: &mut WriteBuffer, part: &Option<Version2to4>)
        ensures
            final(ctxt)@ == old(ctxt)@ + Self::spec_optional_bytes(*part),
    {
        match part {
            Some(part) => {
                let _ = Self::write(ctxt, part);
            },
            None => {
                assert(ctxt@ =~= old(ctxt)@ + Seq::<u8>::empty());
            },
        }
    }

    /// Reading a part and writing it gives the bytes that were read.
    pub proof fn lemma_round_trip(b: Seq<u8>, at: int)
        requires
            0 <= at,
            at + 10 <= b.len(),
        ensures
            Self::spec_read(b, at).spec_bytes() == b.subrange(at, at + 10),
    {
        lemma_i16_round_trip(b, at);
        lemma_i16_round_trip(b, at + 2);
        lemma_subrange_join(b, at, at + 2, at + 4);
        lemma_u16_round_trip(b, at + 4);
        lemma_subrange_join(b, at, at + 4, at + 6);
        lemma_u16_round_trip(b, at + 6);
        lemma_subrange_join(b, at, at + 6, at + 8);
        lemma_u16_round_trip(b, at + 8);
        lemma_subrange_join(b, at, at + 8, at + 10);
    }
}

impl Version5 {
    /// The number of bytes of the part.
    pub const SIZE: usize = 4;

    /// The part that `b` holds at `at`.
    pub open spec fn spec_read(b: Seq<u8>, at: int) -> Version5 {
        Version5 {
            us_lower_optical_point_size: u16_be(b, at) as u16,
            us_upper_optical_point_size: u16_be(b, at + 2) as u16,
        }
    }

    /// The bytes that the part is written as.
    pub open spec fn spec_bytes(&self) -> Seq<u8> {
        u16_be_bytes(self.us_lower_optical_point_size as int) + u16_be_bytes(self.us_upper_optical_point_size as int)
    }

    /// Reads the part from `ctxt`.
    pub fn read(ctxt: &mut ReadCtxt<'_>) -> (r: Result<Version5, ParseError>)
        ensures
            final(ctxt).read_outcome(
                old(ctxt),
                r,
                4,
                Self::spec_read(old(ctxt).bytes(), old(ctxt).pos()),
            ),
    {
        let s = ctxt.read_slice(4)?;
        Ok(
            Version5 {
                us_lower_optical_point_size: get_u16_be(s, 0),
                us_upper_optical_point_size: get_u16_be(s, 2),
            },
        )
    }

    /// Appends the part to `ctxt`.
    pub fn write(ctxt: &mut WriteBuffer, table: &Self) -> (r: Result<(), WriteError>)
        ensures
            r is Ok,
            final(ctxt)@ == old(ctxt)@ + table.spec_bytes(),
    {
        ctxt.write_u16be(table.us_lower_optical_point_size);
        let ghost written = u16_be_bytes(table.us_lower_optical_point_size as int);
        ctxt.write_u16be(table.us_upper_optical_point_size);
        proof {
            lemma_append_assoc(old(ctxt)@, written, u16_be_bytes(table.us_upper_optical_point_size as int));
        }
        let ghost written = written + u16_be_bytes(table.us_upper_optical_point_size as int);
        Ok(())
    }

    /// The bytes that the part is written as, if the table holds it.
    pub open spec fn spec_optional_bytes(part: Option<Version5>) -> Seq<u8> {
        match part {
            Some(part) => part.spec_bytes(),
            None => Seq::empty(),
        }
    }

    /// Appends the part to `ctxt`, if the table holds it.
    fn write_optional(ctxt: &mut WriteBuffer, part: &Option<Version5>)
        ensures
            final(ctxt)@ == old(ctxt)@ + Self::spec_optional_bytes(*part),
    {
        match part {
            Some(part) => {
                let _ = Self::write(ctxt, part);
            },
            None => {
                assert(ctxt@ =~= old(ctxt)@ + Seq::<u8>::empty());
            },
        }
    }

    /// Reading a part and writing it gives the bytes that were read.
    pub proof fn lemma_round_trip(b: Seq<u8>, at: int)
        requires
            0 <= at,
            at + 4 <= b.len(),
        ensures
            Self::spec_read(b, at).spec_bytes() == b.subrange(at, at + 4),
    {
        lemma_u16_round_trip(b, at);
        lemma_u16_round_trip(b, at + 2);
        lemma_subrange_join(b, at, at + 2, at + 4);
    }
}

/// The number of bytes of a part that is there if `present`.
pub open spec fn optional_size(present: bool, size: int) -> int {
    if present {
        size
    } else {
        0
    }
}

impl Os2 {
    /// The number of bytes of a table of `version` within `table_size` bytes.
    pub open spec fn spec_size(version: int, table_size: int) -> int {
        HEADER_SIZE + optional_size(table_size >= VERSION0_TABLE_SIZE, 10) + optional_size(
            version >= 1,
            8,
        ) + optional_size(version >= 2, 10) + optional_size(version >= 5, 4)
    }

    /// The table that `b` holds at `at`, where `b` holds a whole one.
    pub open spec fn spec_table(b: Seq<u8>, at: int, table_size: int) -> Os2 {
        let version = u16_be(b, at);
        let at1 = at + HEADER_SIZE + optional_size(table_size >= VERSION0_TABLE_SIZE, 10);
        let at2 = at1 + optional_size(version >= 1, 8);
        let at5 = at2 + optional_size(version >= 2, 10);
        Os2 {
            version: u16_be(b, at) as u16,
            x_avg_char_width: i16_be(b, at + 2) as i16,
            us_weight_class: u16_be(b, at + 4) as u16,
            us_width_class: u16_be(b, at + 6) as u16,
            fs_type: u16_be(b, at + 8) as u16,
            y_subscript_x_size: i16_be(b, at + 10) as i16,
            y_subscript_y_size: i16_be(b, at + 12) as i16,
            y_subscript_x_offset: i16_be(b, at + 14) as i16,
            y_subscript_y_offset: i16_be(b, at + 16) as i16,
            y_superscript_x_size: i16_be(b, at + 18) as i16,
            y_superscript_y_size: i16_be(b, at + 20) as i16,
            y_superscript_x_offset: i16_be(b, at + 22) as i16,
            y_superscript_y_offset: i16_be(b, at + 24) as i16,
            y_strikeout_size: i16_be(b, at + 26) as i16,
            y_strikeout_position: i16_be(b, at + 28) as i16,
            s_family_class: i16_be(b, at + 30) as i16,
            panose: [b[at + 32], b[at + 33], b[at + 34], b[at + 35], b[at + 36], b[at + 37], b[at + 38], b[at + 39], b[at + 40], b[at + 41]],
            ul_unicode_range1: u32_be(b, at + 42) as u32,
            ul_unicode_range2: u32_be(b, at + 46) as u32,
            ul_unicode_range3: u32_be(b, at + 50) as u32,
            ul_unicode_range4: u32_be(b, at + 54) as u32,
            ach_vend_id: u32_be(b, at + 58) as u32,
            fs_selection: u16_be(b, at + 62) as u16,
            us_first_char_index: u16_be(b, at + 64) as u16,
            us_last_char_index: u16_be(b, at + 66) as u16,
            version0: if table_size >= VERSION0_TABLE_SIZE {
                Some(Version0::spec_read(b, at + HEADER_SIZE))
            } else {
                None
            },
            version1: if version >= 1 {
                Some(Version1::spec_read(b, at1))
            } else {
                None
            },
            version2to4: if version >= 2 {
                Some(Version2to4::spec_read(b, at2))
            } else {
                None
            },
            version5: if version >= 5 {
                Some(Version5::spec_read(b, at5))
            } else {
                None
            },
        }
    }

    /// Whether the parts that the table holds behind its first are the first
    /// ones of the four, with none left out before another.
    pub open spec fn spec_parts_form_prefix(&self) -> bool {
        &&& self.version5 is Some ==> self.version2to4 is Some
        &&& self.version2to4 is Some ==> self.version1 is Some
        &&& self.version1 is Some ==> self.version0 is Some
    }

    /// Whether a table of `table_size` bytes ends before the last part of
    /// version 0 although its `version` asks for a part behind that one.
    pub open spec fn spec_ends_early(version: int, table_size: int) -> bool {
        version >= 1 && table_size < VERSION0_TABLE_SIZE
    }

    /// The outcome of reading a table from `b` at `at`: the table and the
    /// position behind it, or `BadEof` where `b` ends within the table, or
    /// where the table by its length ends before a part that its version
    /// asks for.
    ///
    /// `table_size` is the length that the font gives for the table. It
    /// decides whether the last part of version 0 is read; the version decides
    /// on the later parts, which are read only behind that one.
    pub open spec fn spec_read_dep(b: Seq<u8>, at: int, table_size: int) -> Result<
        (Os2, int),
        ParseError,
    > {
        if at + HEADER_SIZE > b.len() || Self::spec_ends_early(u16_be(b, at), table_size) || at
            + Self::spec_size(u16_be(b, at), table_size) > b.len() {
            Err(ParseError::BadEof)
        } else {
            Ok(
                (
                    Self::spec_table(b, at, table_size),
                    at + Self::spec_size(u16_be(b, at), table_size),
                ),
            )
        }
    }

    /// The version that the table is written with: the latest whose part the
    /// table holds.
    pub open spec fn spec_written_version(&self) -> u16 {
        if self.version5 is Some {
            5
        } else if self.version2to4 is Some {
            4
        } else if self.version1 is Some {
            1
        } else {
            0
        }
    }

    /// The bytes that the metrics at the start of the table are written as.
    pub open spec fn spec_metrics_bytes(&self) -> Seq<u8> {
        u16_be_bytes(self.spec_written_version() as int) + i16_be_bytes(self.x_avg_char_width as int) + u16_be_bytes(self.us_weight_class as int) + u16_be_bytes(self.us_width_class as int) + u16_be_bytes(self.fs_type as int) + i16_be_bytes(self.y_subscript_x_size as int) + i16_be_bytes(self.y_subscript_y_size as int) + i16_be_bytes(self.y_subscript_x_offset as int) + i16_be_bytes(self.y_subscript_y_offset as int) + i16_be_bytes(self.y_superscript_x_size as int) + i16_be_bytes(self.y_superscript_y_size as int) + i16_be_bytes(self.y_superscript_x_offset as int) + i16_be_bytes(self.y_superscript_y_offset as int) + i16_be_bytes(self.y_strikeout_size as int) + i16_be_bytes(self.y_strikeout_position as int) + i16_be_bytes(self.s_family_class as int)
    }

    /// The bytes that the classification, the ranges and the indices behind
    /// the metrics are written as.
    pub open spec fn spec_ranges_bytes(&self) -> Seq<u8> {
        self.panose@ + u32_be_bytes(self.ul_unicode_range1 as int) + u32_be_bytes(self.ul_unicode_range2 as int) + u32_be_bytes(self.ul_unicode_range3 as int) + u32_be_bytes(self.ul_unicode_range4 as int) + u32_be_bytes(self.ach_vend_id as int) + u16_be_bytes(self.fs_selection as int) + u16_be_bytes(self.us_first_char_index as int) + u16_be_bytes(self.us_last_char_index as int)
    }

    /// The bytes that the table is written as: the part that every table
    /// holds, then each of the other parts that this table holds.
    pub open spec fn spec_bytes(&self) -> Seq<u8> {
        self.spec_metrics_bytes() + self.spec_ranges_bytes() + Version0::spec_optional_bytes(
            self.version0,
        ) + Version1::spec_optional_bytes(self.version1) + Version2to4::spec_optional_bytes(
            self.version2to4,
        ) + Version5::spec_optional_bytes(self.version5)
    }

    /// Reads a table from `ctxt`.
    ///
    /// `table_size` is the length that the font gives for the table. It
    /// decides whether the last part of version 0 is read; the version decides
    /// on the later parts. The parts of a table that is read form a prefix of
    /// the four: a table of version 1 or later that is too short for the last
    /// part of version 0 is refused.
    pub fn read_dep(ctxt: &mut ReadCtxt<'_>, table_size: usize) -> (r: Result<Os2, ParseError>)
        ensures
            final(ctxt).bytes() == old(ctxt).bytes(),
            old(ctxt).pos() <= final(ctxt).pos() <= old(ctxt).bytes().len(),
            match Self::spec_read_dep(old(ctxt).bytes(), old(ctxt).pos(), table_size as int) {
                Ok((table, end)) => r == Ok::<Os2, ParseError>(table) && final(ctxt).pos() == end,
                Err(e) => r == Err::<Os2, ParseError>(e),
            },
            r matches Ok(table) ==> table.spec_parts_form_prefix() && (table.version0 is Some
                <==> table_size >= VERSION0_TABLE_SIZE),
    {
        let ghost expected = Self::spec_table(ctxt.bytes(), ctxt.pos(), table_size as int);
        let s = ctxt.read_slice(HEADER_SIZE)?;
        let version = get_u16_be(s, 0);
        let x_avg_char_width = get_i16_be(s, 2);
        let us_weight_class = get_u16_be(s, 4);
        let us_width_class = get_u16_be(s, 6);
        let fs_type = get_u16_be(s, 8);
        let y_subscript_x_size = get_i16_be(s, 10);
        let y_subscript_y_size = get_i16_be(s, 12);
        let y_subscript_x_offset = get_i16_be(s, 14);
        let y_subscript_y_offset = get_i16_be(s, 16);
        let y_superscript_x_size = get_i16_be(s, 18);
        let y_superscript_y_size = get_i16_be(s, 20);
        let y_superscript_x_offset = get_i16_be(s, 22);
        let y_superscript_y_offset = get_i16_be(s, 24);
        let y_strikeout_size = get_i16_be(s, 26);
        let y_strikeout_position = get_i16_be(s, 28);
        let s_family_class = get_i16_be(s, 30);
        let panose: [u8; 10] = [s[32], s[33], s[34], s[35], s[36], s[37], s[38], s[39], s[40], s[41]];
        proof {
            assert(panose@.len() == 10);
            assert(expected.panose@.len() == 10);
            assert(panose@[0] == expected.panose@[0]);
            assert(panose@[1] == expected.panose@[1]);
            assert(panose@[2] == expected.panose@[2]);
            assert(panose@[3] == expected.panose@[3]);
            assert(panose@[4] == expected.panose@[4]);
            assert(panose@[5] == expected.panose@[5]);
            assert(panose@[6] == expected.panose@[6]);
            assert(panose@[7] == expected.panose@[7]);
            assert(panose@[8] == expected.panose@[8]);
            assert(panose@[9] == expected.panose@[9]);
            assert(panose@ =~= expected.panose@);
        }
        let ul_unicode_range1 = get_u32_be(s, 42);
        let ul_unicode_range2 = get_u32_be(s, 46);
        let ul_unicode_range3 = get_u32_be(s, 50);
        let ul_unicode_range4 = get_u32_be(s, 54);
        let ach_vend_id = get_u32_be(s, 58);
        let fs_selection = get_u16_be(s, 62);
        let us_first_char_index = get_u16_be(s, 64);
        let us_last_char_index = get_u16_be(s, 66);

        // The later parts stand behind the last part of version 0
        if version >= 1 && table_size < VERSION0_TABLE_SIZE {
            return Err(ParseError::BadEof);
        }
        // Read version specific fields
        let version0 = if table_size >= VERSION0_TABLE_SIZE {
            Some(Version0::read(ctxt)?)
        } else {
            None
        };
        let version1 = if version >= 1 {
            Some(Version1::read(ctxt)?)
        } else {
            None
        };
        let version2to4 = if version >= 2 {
            Some(Version2to4::read(ctxt)?)
        } else {
            None
        };
        let version5 = if version >= 5 {
            Some(Version5::read(ctxt)?)
        } else {
            None
        };

        Ok(
            Os2 {
                version,
                x_avg_char_width,
                us_weight_class,
                us_width_class,
                fs_type,
                y_subscript_x_size,
                y_subscript_y_size,
                y_subscript_x_offset,
                y_subscript_y_offset,
                y_superscript_x_size,
                y_superscript_y_size,
                y_superscript_x_offset,
                y_superscript_y_offset,
                y_strikeout_size,
                y_strikeout_position,
                s_family_class,
                panose,
                ul_unicode_range1,
                ul_unicode_range2,
                ul_unicode_range3,
                ul_unicode_range4,
                ach_vend_id,
                fs_selection,
                us_first_char_index,
                us_last_char_index,
                version0,
                version1,
                version2to4,
                version5,
            },
        )
    }

    /// Appends the metrics at the start of the table, with `version` as the version.
    fn write_metrics(ctxt: &mut WriteBuffer, table: &Self, version: u16)
        requires
            version == table.spec_written_version(),
        ensures
            final(ctxt)@ == old(ctxt)@ + table.spec_metrics_bytes(),
    {
        ctxt.write_u16be(version);
        let ghost written = u16_be_bytes(version as int);
        ctxt.write_i16be(table.x_avg_char_width);
        proof {
            lemma_append_assoc(old(ctxt)@, written, i16_be_bytes(table.x_avg_char_width as int));
        }
        let ghost written = written + i16_be_bytes(table.x_avg_char_width as int);
        ctxt.write_u16be(table.us_weight_class);
        proof {
            lemma_append_assoc(old(ctxt)@, written, u16_be_bytes(table.us_weight_class as int));
        }
        let ghost written = written + u16_be_bytes(table.us_weight_class as int);
        ctxt.write_u16be(table.us_width_class);
        proof {
            lemma_append_assoc(old(ctxt)@, written, u16_be_bytes(table.us_width_class as int));
        }
        let ghost written = written + u16_be_bytes(table.us_width_class as int);
        ctxt.write_u16be(table.fs_type);
        proof {
            lemma_append_assoc(old(ctxt)@, written, u16_be_bytes(table.fs_type as int));
        }
        let ghost written = written + u16_be_bytes(table.fs_type as int);
        ctxt.write_i16be(table.y_subscript_x_size);
        proof {
            lemma_append_assoc(old(ctxt)@, written, i16_be_bytes(table.y_subscript_x_size as int));
        }
        let ghost written = written + i16_be_bytes(table.y_subscript_x_size as int);
        ctxt.write_i16be(table.y_subscript_y_size);
        proof {
            lemma_append_assoc(old(ctxt)@, written, i16_be_bytes(table.y_subscript_y_size as int));
        }
        let ghost written = written + i16_be_bytes(table.y_subscript_y_size as int);
        ctxt.write_i16be(table.y_subscript_x_offset);
        proof {
            lemma_append_assoc(old(ctxt)@, written, i16_be_bytes(table.y_subscript_x_offset as int));
        }
        let ghost written = written + i16_be_bytes(table.y_subscript_x_offset as int);
        ctxt.write_i16be(table.y_subscript_y_offset);
        proof {
            lemma_append_assoc(old(ctxt)@, written, i16_be_bytes(table.y_subscript_y_offset as int));
        }
        let ghost written = written + i16_be_bytes(table.y_subscript_y_offset as int);
        ctxt.write_i16be(table.y_superscript_x_size);
        proof {
            lemma_append_assoc(old(ctxt)@, written, i16_be_bytes(table.y_superscript_x_size as int));
        }
        let ghost written = written + i16_be_bytes(table.y_superscript_x_size as int);
        ctxt.write_i16be(table.y_superscript_y_size);
        proof {
            lemma_append_assoc(old(ctxt)@, written, i16_be_bytes(table.y_superscript_y_size as int));
        }
        let ghost written = written + i16_be_bytes(table.y_superscript_y_size as int);
        ctxt.write_i16be(table.y_superscript_x_offset);
        proof {
            lemma_append_assoc(old(ctxt)@, written, i16_be_bytes(table.y_superscript_x_offset as int));
        }
        let ghost written = written + i16_be_bytes(table.y_superscript_x_offset as int);
        ctxt.write_i16be(table.y_superscript_y_offset);
        proof {
            lemma_append_assoc(old(ctxt)@, written, i16_be_bytes(table.y_superscript_y_offset as int));
        }
        let ghost written = written + i16_be_bytes(table.y_superscript_y_offset as int);
        ctxt.write_i16be(table.y_strikeout_size);
        proof {
            lemma_append_assoc(old(ctxt)@, written, i16_be_bytes(table.y_strikeout_size as int));
        }
        let ghost written = written + i16_be_bytes(table.y_strikeout_size as int);
        ctxt.write_i16be(table.y_strikeout_position);
        proof {
            lemma_append_assoc(old(ctxt)@, written, i16_be_bytes(table.y_strikeout_position as int));
        }
        let ghost written = written + i16_be_bytes(table.y_strikeout_position as int);
        ctxt.write_i16be(table.s_family_class);
        proof {
            lemma_append_assoc(old(ctxt)@, written, i16_be_bytes(table.s_family_class as int));
        }
        let ghost written = written + i16_be_bytes(table.s_family_class as int);
    }

    /// Appends the classification, the ranges and the indices.
    fn write_ranges(ctxt: &mut WriteBuffer, table: &Self)
        ensures
            final(ctxt)@ == old(ctxt)@ + table.spec_ranges_bytes(),
    {
        ctxt.write_bytes(table.panose.as_slice());
        let ghost written = table.panose@;
        ctxt.write_u32be(table.ul_unicode_range1);
        proof {
            lemma_append_assoc(old(ctxt)@, written, u32_be_bytes(table.ul_unicode_range1 as int));
        }
        let ghost written = written + u32_be_bytes(table.ul_unicode_range1 as int);
        ctxt.write_u32be(table.ul_unicode_range2);
        proof {
            lemma_append_assoc(old(ctxt)@, written, u32_be_bytes(table.ul_unicode_range2 as int));
        }
        let ghost written = written + u32_be_bytes(table.ul_unicode_range2 as int);
        ctxt.write_u32be(table.ul_unicode_range3);
        proof {
            lemma_append_assoc(old(ctxt)@, written, u32_be_bytes(table.ul_unicode_range3 as int));
        }
        let ghost written = written + u32_be_bytes(table.ul_unicode_range3 as int);
        ctxt.write_u32be(table.ul_unicode_range4);
        proof {
            lemma_append_assoc(old(ctxt)@, written, u32_be_bytes(table.ul_unicode_range4 as int));
        }
        let ghost written = written + u32_be_bytes(table.ul_unicode_range4 as int);
        ctxt.write_u32be(table.ach_vend_id);
        proof {
            lemma_append_assoc(old(ctxt)@, written, u32_be_bytes(table.ach_vend_id as int));
        }
        let ghost written = written + u32_be_bytes(table.ach_vend_id as int);
        ctxt.write_u16be(table.fs_selection);
        proof {
            lemma_append_assoc(old(ctxt)@, written, u16_be_bytes(table.fs_selection as int));
        }
        let ghost written = written + u16_be_bytes(table.fs_selection as int);
        ctxt.write_u16be(table.us_first_char_index);
        proof {
            lemma_append_assoc(old(ctxt)@, written, u16_be_bytes(table.us_first_char_index as int));
        }
        let ghost written = written + u16_be_bytes(table.us_first_char_index as int);
        ctxt.write_u16be(table.us_last_char_index);
        proof {
            lemma_append_assoc(old(ctxt)@, written, u16_be_bytes(table.us_last_char_index as int));
        }
        let ghost written = written + u16_be_bytes(table.us_last_char_index as int);
    }

    /// Appends the table to `ctxt`.
    ///
    /// The version written is the latest whose part the table holds, and each
    /// part that the table holds is written.
    pub fn write(ctxt: &mut WriteBuffer, table: &Self) -> (r: Result<(), WriteError>)
        ensures
            r is Ok,
            final(ctxt)@ == old(ctxt)@ + table.spec_bytes(),
    {
        let version: u16 = if table.version5.is_some() {
            5
        } else if table.version2to4.is_some() {
            4
        } else if table.version1.is_some() {
            1
        } else {
            0
        };
        Self::write_metrics(ctxt, table, version);
        let ghost written = table.spec_metrics_bytes();
        Self::write_ranges(ctxt, table);
        proof {
            lemma_append_assoc(old(ctxt)@, written, table.spec_ranges_bytes());
        }
        let ghost written = written + table.spec_ranges_bytes();
        Version0::write_optional(ctxt, &table.version0);
        proof {
            lemma_append_assoc(old(ctxt)@, written, Version0::spec_optional_bytes(table.version0));
        }
        let ghost written = written + Version0::spec_optional_bytes(table.version0);
        Version1::write_optional(ctxt, &table.version1);
        proof {
            lemma_append_assoc(old(ctxt)@, written, Version1::spec_optional_bytes(table.version1));
        }
        let ghost written = written + Version1::spec_optional_bytes(table.version1);
        Version2to4::write_optional(ctxt, &table.version2to4);
        proof {
            lemma_append_assoc(
                old(ctxt)@,
                written,
                Version2to4::spec_optional_bytes(table.version2to4),
            );
        }
        let ghost written = written + Version2to4::spec_optional_bytes(table.version2to4);
        Version5::write_optional(ctxt, &table.version5);
        proof {
            lemma_append_assoc(old(ctxt)@, written, Version5::spec_optional_bytes(table.version5));
        }
        Ok(())
    }

    /// Writing the metrics of the table that `b` holds at `at` gives the
    /// bytes that were read, where the version is one that is written.
    proof fn lemma_metrics_round_trip(b: Seq<u8>, at: int, table_size: int)
        requires
            0 <= at,
            at + 32 <= b.len(),
            Self::version_is_written(u16_be(b, at)),
        ensures
            Self::spec_table(b, at, table_size).spec_metrics_bytes() == b.subrange(at, at + 32),
    {
        let t = Self::spec_table(b, at, table_size);
        assert(t.spec_written_version() == u16_be(b, at));
        lemma_u16_round_trip(b, at);
        lemma_i16_round_trip(b, at + 2);
        lemma_subrange_join(b, at, at + 2, at + 4);
        lemma_u16_round_trip(b, at + 4);
        lemma_subrange_join(b, at, at + 4, at + 6);
        lemma_u16_round_trip(b, at + 6);
        lemma_subrange_join(b, at, at + 6, at + 8);
        lemma_u16_round_trip(b, at + 8);
        lemma_subrange_join(b, at, at + 8, at + 10);
        lemma_i16_round_trip(b, at + 10);
        lemma_subrange_join(b, at, at + 10, at + 12);
        lemma_i16_round_trip(b, at + 12);
        lemma_subrange_join(b, at, at + 12, at + 14);
        lemma_i16_round_trip(b, at + 14);
        lemma_subrange_join(b, at, at + 14, at + 16);
        lemma_i16_round_trip(b, at + 16);
        lemma_subrange_join(b, at, at + 16, at + 18);
        lemma_i16_round_trip(b, at + 18);
        lemma_subrange_join(b, at, at + 18, at + 20);
        lemma_i16_round_trip(b, at + 20);
        lemma_subrange_join(b, at, at + 20, at + 22);
        lemma_i16_round_trip(b, at + 22);
        lemma_subrange_join(b, at, at + 22, at + 24);
        lemma_i16_round_trip(b, at + 24);
        lemma_subrange_join(b, at, at + 24, at + 26);
        lemma_i16_round_trip(b, at + 26);
        lemma_subrange_join(b, at, at + 26, at + 28);
        lemma_i16_round_trip(b, at + 28);
        lemma_subrange_join(b, at, at + 28, at + 30);
        lemma_i16_round_trip(b, at + 30);
        lemma_subrange_join(b, at, at + 30, at + 32);
    }

    /// Writing the part behind the metrics of the table that `b` holds at
    /// `at` gives the bytes that were read.
    proof fn lemma_ranges_round_trip(b: Seq<u8>, at: int, table_size: int)
        requires
            0 <= at,
            at + 68 <= b.len(),
        ensures
            Self::spec_table(b, at, table_size).spec_ranges_bytes() == b.subrange(
                at + 32,
                at + 68,
            ),
    {
        let t = Self::spec_table(b, at, table_size);
        assert(t.panose@ =~= b.subrange(at + 32, at + 42));
        lemma_u32_round_trip(b, at + 42);
        lemma_subrange_join(b, at + 32, at + 42, at + 46);
        lemma_u32_round_trip(b, at + 46);
        lemma_subrange_join(b, at + 32, at + 46, at + 50);
        lemma_u32_round_trip(b, at + 50);
        lemma_subrange_join(b, at + 32, at + 50, at + 54);
        lemma_u32_round_trip(b, at + 54);
        lemma_subrange_join(b, at + 32, at + 54, at + 58);
        lemma_u32_round_trip(b, at + 58);
        lemma_subrange_join(b, at + 32, at + 58, at + 62);
        lemma_u16_round_trip(b, at + 62);
        lemma_subrange_join(b, at + 32, at + 62, at + 64);
        lemma_u16_round_trip(b, at + 64);
        lemma_subrange_join(b, at + 32, at + 64, at + 66);
        lemma_u16_round_trip(b, at + 66);
        lemma_subrange_join(b, at + 32, at + 66, at + 68);
    }

    /// The parts of a table that is read without error form a prefix of the
    /// four, and the last part of version 0 is among them exactly where the
    /// table has 78 bytes or more.
    pub proof fn lemma_read_parts_form_prefix(b: Seq<u8>, at: int, table_size: int)
        requires
            Self::spec_read_dep(b, at, table_size) is Ok,
        ensures
            Self::spec_read_dep(b, at, table_size)->Ok_0.0.spec_parts_form_prefix(),
            Self::spec_read_dep(b, at, table_size)->Ok_0.0.version0 is Some <==> table_size
                >= VERSION0_TABLE_SIZE,
            Self::spec_read_dep(b, at, table_size)->Ok_0.0.version1 is Some <==> u16_be(b, at)
                >= 1,
            Self::spec_read_dep(b, at, table_size)->Ok_0.0.version2to4 is Some <==> u16_be(b, at)
                >= 2,
            Self::spec_read_dep(b, at, table_size)->Ok_0.0.version5 is Some <==> u16_be(b, at)
                >= 5,
    {
    }

    /// Whether `version` is one of the versions that tables are written with.
    pub open spec fn version_is_written(version: int) -> bool {
        version == 0 || version == 1 || version == 4 || version == 5
    }

    /// Reading a table and writing it gives back the bytes of the table.
    ///
    /// This holds of every sequence of bytes `b` that is a table from its
    /// first byte to its last, with `b.len()` as the length of the table, and
    /// whose version is one that tables are written with: 0, 1, 4 or 5. A
    /// table of version 2 or 3 is written as version 4, from which it does
    /// not differ but in the number.
    pub proof fn lemma_read_write_round_trip(b: Seq<u8>)
        requires
            Self::spec_read_dep(b, 0, b.len() as int) is Ok,
            Self::spec_read_dep(b, 0, b.len() as int)->Ok_0.1 == b.len(),
            Self::version_is_written(u16_be(b, 0)),
        ensures
            Self::spec_read_dep(b, 0, b.len() as int)->Ok_0.0.spec_bytes() == b,
    {
        let size = b.len() as int;
        let t = Self::spec_table(b, 0, size);
        let version = u16_be(b, 0);
        Self::lemma_metrics_round_trip(b, 0, size);
        Self::lemma_ranges_round_trip(b, 0, size);
        lemma_subrange_join(b, 0, 32, 68);
        let at0: int = 68;
        let at1 = at0 + optional_size(size >= VERSION0_TABLE_SIZE, 10);
        let at2 = at1 + optional_size(version >= 1, 8);
        let at3 = at2 + optional_size(version >= 2, 10);
        let at = at3 + optional_size(version >= 5, 4);
        if size >= VERSION0_TABLE_SIZE {
            Version0::lemma_round_trip(b, at0);
        }
        lemma_subrange_join(b, 0, at0, at1);
        if version >= 1 {
            Version1::lemma_round_trip(b, at1);
        }
        lemma_subrange_join(b, 0, at1, at2);
        if version >= 2 {
            Version2to4::lemma_round_trip(b, at2);
        }
        lemma_subrange_join(b, 0, at2, at3);
        if version >= 5 {
            Version5::lemma_round_trip(b, at3);
        }
        lemma_subrange_join(b, 0, at3, at);
        assert(at == b.len());
        assert(b.subrange(0, at) =~= b);
    }
}

} // verus!
