//! The ways in which reading an archive can fail.

use vstd::prelude::*;

verus! {

/// Why an archive, or one of its entries, could not be read.
#[derive(Debug, Clone, Copy, PartialEq, Eq, Structural)]
pub enum PakError {
    /// The byte source ended before a read was complete.
    Io,
    /// The archive's structure contradicts itself: it declares no entries at
    /// all, leaves an entry without a name, or stores a raw payload whose
    /// length is not the entry's recorded size.
    Malformed,
    /// An entry's data flag selects neither raw nor zlib storage.
    UnsupportedFlag,
    /// A compressed payload is corrupt, or does not inflate to the entry's
    /// recorded size.
    Decompress,
    /// A name in the name table is not valid UTF-8.
    NameDecode,
}

} // verus!
