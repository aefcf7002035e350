//! Reading PAK archives: a flat container that holds a header, a table of
//! fixed-width entry records, the entries' payloads (stored raw or
//! zlib-compressed) and a trailing table of entry names.
//!
//! - [`format`] says what an archive's bytes mean: which entries they
//!   describe, what each entry's payload decodes to, and when reading fails.
//!   Every contract below is stated against it.
//! - [`reader`] is a cursor over bytes with little-endian reads.
//! - [`pak`] holds [`pak::Archive`] and [`pak::Entry`]: opening an archive,
//!   looking at its entries, fetching their data.
//! - [`inflate`] decodes zlib streams.
//! - [`util`] and [`text`] write sizes and numbers as text.
//!
//! Three things are taken on trust and marked where they stand: that
//! byteorder decodes little-endian integers, that flate2's zlib decoder
//! computes a function of the stream it is given, and that the standard
//! library's `String` appends characters and accepts exactly valid UTF-8.

pub mod error;
pub mod format;
pub mod inflate;
pub mod pak;
pub mod reader;
pub mod text;
pub mod util;
