//! On-disk formats.
pub mod kraft_record;
