//! Parsing and interpretation of OpenType font tables.
//!
//! The crate offers bounds-checked big-endian readers, parsers and writers for
//! a number of tables, the packed codecs and variation stores of variable
//! fonts, a scanner for Type 2 and CFF2 CharStrings, the point and component
//! decoders of the `glyf` table, and the joining pass of Arabic shaping.
//! Every executable function carries a contract that is checked by Verus.

pub mod binary;
pub mod error;
pub mod cff;
pub mod cmap;
pub mod gsub;
pub mod loca;
pub mod outline;
pub mod scripts;
pub mod tag;
pub mod tables;
