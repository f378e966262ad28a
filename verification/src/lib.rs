//! Spreadsheet number-format codes: their token grammar, their
//! classification as date and time formats or numeric formats, and the
//! rendering of a moment by a date and time format, with the years and
//! names of the Japanese eras. Beside them stand a few helpers for the XML
//! text in which such codes are stored.

pub mod calendar;
pub mod date_time;
pub mod era_jp;
pub mod file_common;
pub mod format;
pub mod numeric;
pub mod text;
pub mod token;
