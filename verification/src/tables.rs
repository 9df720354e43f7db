//! Parsers and writers of font tables.

pub mod os2;
pub mod variable_fonts;
