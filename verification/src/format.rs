//! The on-disk layout of a PAK archive, as mathematics over its bytes.
//!
//! All integers are little-endian. The file opens with a 12-byte header
//! (4 bytes of magic, a `u32` base offset, a `u32` entry count), followed at
//! once by the entry table: one 17-byte record per entry. The last record
//! does not describe a file: its offset field locates the name table, which
//! holds one length-prefixed name for each record before it.

use vstd::prelude::*;
use vstd::utf8::{decode_utf8, valid_utf8};

use crate::error::PakError;
use crate::inflate::{sized, zlib_inflated};

verus! {

/// Length of the header that opens every archive.
pub const HEADER_LEN: u64 = 12;

/// Position of the entry count inside the header.
pub const COUNT_POS: u64 = 8;

/// Length of one record of the entry table.
pub const RECORD_LEN: u64 = 17;

/// Bytes between the offset that the last record names and the first name.
pub const NAME_TABLE_SKIP: u64 = 4;

/// Data flag of a payload that is stored as it is.
pub const DATA_RAW: u8 = 0;

/// Data flag of a payload that is stored as a zlib stream.
pub const DATA_ZLIB: u8 = 1;

/// True when the `count` bytes that start at `at` all lie inside `bytes`.
pub open spec fn has_bytes(bytes: Seq<u8>, at: int, count: int) -> bool {
    0 <= at && 0 <= count && at + count <= bytes.len()
}

/// The unsigned 16-bit integer stored little-endian at `at`.
pub open spec fn le_u16(bytes: Seq<u8>, at: int) -> int {
    bytes[at] as int + 0x100 * (bytes[at + 1] as int)
}

/// The unsigned 32-bit integer stored little-endian at `at`.
pub open spec fn le_u32(bytes: Seq<u8>, at: int) -> int {
    bytes[at] as int + 0x100 * (bytes[at + 1] as int) + 0x1_0000 * (bytes[at + 2] as int)
        + 0x100_0000 * (bytes[at + 3] as int)
}

/// What an entry is, apart from its payload: the fields of its record and
/// its name.
pub struct EntryView {
    /// A field that readers carry along and do not interpret.
    pub reserved: u32,
    /// Length of the payload as it is stored.
    pub compressed_size: u32,
    /// Length of the payload once it is decoded.
    pub raw_size: u32,
    /// How the payload is stored: `DATA_RAW` or `DATA_ZLIB`.
    pub data_flags: u8,
    /// Where the payload starts, counted from the archive's first byte.
    pub offset: u32,
    /// The name of the file that the entry stands for.
    pub name: Seq<char>,
}

/// The entry count that the header declares. It counts the record that
/// locates the name table too.
pub open spec fn entry_count(bytes: Seq<u8>) -> int {
    le_u32(bytes, COUNT_POS as int)
}

/// Where the record with table index `index` starts.
pub open spec fn record_pos(index: int) -> int {
    HEADER_LEN + RECORD_LEN * index
}

/// The record stored at `at`, as an entry that has no name yet.
pub open spec fn record_at(bytes: Seq<u8>, at: int) -> EntryView {
    EntryView {
        reserved: le_u32(bytes, at) as u32,
        compressed_size: le_u32(bytes, at + 4) as u32,
        raw_size: le_u32(bytes, at + 8) as u32,
        data_flags: bytes[at + 12],
        offset: le_u32(bytes, at + 13) as u32,
        name: Seq::empty(),
    }
}

/// `entry` under the name `name`.
pub open spec fn named(entry: EntryView, name: Seq<char>) -> EntryView {
    EntryView { name, ..entry }
}

/// Where the first name of the name table is stored, given the archive's
/// last record.
pub open spec fn name_table_pos(last: EntryView) -> int {
    last.offset + NAME_TABLE_SKIP
}

/// The name stored at `at` and the position behind it. A name is a `u16`
/// length and then that many bytes of UTF-8; an empty name is no name.
pub open spec fn name_at(bytes: Seq<u8>, at: int) -> Result<(Seq<char>, int), PakError> {
    let len = le_u16(bytes, at);
    let from = at + 2;
    if !has_bytes(bytes, at, 2) {
        Err(PakError::Io)
    } else if !has_bytes(bytes, from, len) {
        Err(PakError::Io)
    } else if !valid_utf8(bytes.subrange(from, from + len)) {
        Err(PakError::NameDecode)
    } else if len == 0 {
        Err(PakError::Malformed)
    } else {
        Ok((decode_utf8(bytes.subrange(from, from + len)), from + len))
    }
}

/// The first `count` names of the name table that starts at `start`, and
/// the position behind the last of them. The names follow one another
/// without gaps, and the first that cannot be read decides the error.
pub open spec fn names(bytes: Seq<u8>, start: int, count: nat) -> Result<
    (Seq<Seq<char>>, int),
    PakError,
>
    decreases count,
{
    if count == 0 {
        Ok((Seq::empty(), start))
    } else {
        match names(bytes, start, (count - 1) as nat) {
            Err(e) => Err(e),
            Ok((list, at)) => match name_at(bytes, at) {
                Err(e) => Err(e),
                Ok((name, next)) => Ok((list.push(name), next)),
            },
        }
    }
}

/// The entries of the archive stored in `bytes`, in table order, or the
/// reason why it cannot be read.
///
/// The header must be whole (else `Io`) and declare at least one entry
/// (else `Malformed`); the entry table must be whole (else `Io`). The last
/// record locates the name table and is no entry itself; every record
/// before it is an entry, under the name that the name table holds at its
/// index.
pub open spec fn parse_archive(bytes: Seq<u8>) -> Result<Seq<EntryView>, PakError> {
    let count = entry_count(bytes);
    if !has_bytes(bytes, 0, HEADER_LEN as int) {
        Err(PakError::Io)
    } else if count == 0 {
        Err(PakError::Malformed)
    } else if !has_bytes(bytes, HEADER_LEN as int, RECORD_LEN * count) {
        Err(PakError::Io)
    } else {
        let last = record_at(bytes, record_pos(count - 1));
        match names(bytes, name_table_pos(last), (count - 1) as nat) {
            Err(e) => Err(e),
            Ok((list, _)) => Ok(
                Seq::new(
                    (count - 1) as nat,
                    |i: int| named(record_at(bytes, record_pos(i)), list[i]),
                ),
            ),
        }
    }
}

/// What the stored bytes of `entry`'s payload decode to.
///
/// A raw payload is its own decoding, provided its length is the recorded
/// raw size (else `Malformed`). A zlib payload decodes to what the decoder
/// makes of it, provided that is as long as the recorded raw size (else
/// `Decompress`). No other data flag is decoded (`UnsupportedFlag`).
pub open spec fn decoded(entry: EntryView, stored: Seq<u8>) -> Result<Seq<u8>, PakError> {
    if entry.data_flags == DATA_RAW {
        if stored.len() == entry.raw_size {
            Ok(stored)
        } else {
            Err(PakError::Malformed)
        }
    } else if entry.data_flags == DATA_ZLIB {
        sized(zlib_inflated(stored), entry.raw_size as int)
    } else {
        Err(PakError::UnsupportedFlag)
    }
}

/// The bytes of the archive in which `entry`'s payload is stored, if they
/// all exist.
pub open spec fn stored(bytes: Seq<u8>, entry: EntryView) -> Option<Seq<u8>> {
    if has_bytes(bytes, entry.offset as int, entry.compressed_size as int) {
        Some(bytes.subrange(entry.offset as int, entry.offset + entry.compressed_size))
    } else {
        None
    }
}

/// The decoded payload of `entry` in the archive `bytes`: `Io` where the
/// stored payload reaches past the end of the archive, else what the stored
/// bytes decode to.
pub open spec fn payload(bytes: Seq<u8>, entry: EntryView) -> Result<Seq<u8>, PakError> {
    match stored(bytes, entry) {
        None => Err(PakError::Io),
        Some(run) => decoded(entry, run),
    }
}

/// An archive has one entry less than its header counts: the record that
/// locates the name table is counted there and is no entry.
pub proof fn lemma_len_is_count_less_one(bytes: Seq<u8>)
    requires
        parse_archive(bytes) is Ok,
    ensures
        parse_archive(bytes)->Ok_0.len() == entry_count(bytes) - 1,
{
}

/// A name table that cannot be read up to some name cannot be read beyond
/// it either, and fails in the same way.
pub proof fn lemma_names_fail_for_good(bytes: Seq<u8>, start: int, count: nat, more: nat)
    requires
        count <= more,
    ensures
        names(bytes, start, count) matches Err(e) ==> names(bytes, start, more) == Err::<
            (Seq<Seq<char>>, int),
            PakError,
        >(e),
    decreases more - count,
{
    if count < more {
        lemma_names_fail_for_good(bytes, start, count, (more - 1) as nat);
    }
}

/// Every name that a name table yields has at least one character.
pub proof fn lemma_names_are_not_empty(bytes: Seq<u8>, start: int, count: nat)
    ensures
        names(bytes, start, count) matches Ok((list, _)) ==> list.len() == count && forall|i: int|
            0 <= i < count ==> (#[trigger] list[i]).len() > 0,
    decreases count,
{
    if count > 0 {
        lemma_names_are_not_empty(bytes, start, (count - 1) as nat);
    }
}

/// Every entry of an archive has a name of at least one character.
pub proof fn lemma_entries_are_named(bytes: Seq<u8>)
    ensures
        parse_archive(bytes) matches Ok(entries) ==> forall|i: int|
            0 <= i < entries.len() ==> (#[trigger] entries[i]).name.len() > 0,
{
    let count = entry_count(bytes);
    if parse_archive(bytes) is Ok {
        let last = record_at(bytes, record_pos(count - 1));
        lemma_names_are_not_empty(bytes, name_table_pos(last), (count - 1) as nat);
    }
}

/// An archive whose header counts one record, the one of the name table,
/// has no entries, whatever that record holds.
pub proof fn lemma_lone_record_means_no_entries(bytes: Seq<u8>)
    requires
        has_bytes(bytes, 0, HEADER_LEN + RECORD_LEN),
        entry_count(bytes) == 1,
    ensures
        parse_archive(bytes) == Ok::<Seq<EntryView>, PakError>(Seq::empty()),
{
    assert(parse_archive(bytes)->Ok_0 =~= Seq::<EntryView>::empty());
}

/// A decoded payload is as long as the entry's recorded raw size, however
/// the payload is stored.
pub proof fn lemma_payload_has_raw_size(bytes: Seq<u8>, entry: EntryView)
    ensures
        payload(bytes, entry) matches Ok(data) ==> data.len() == entry.raw_size,
{
}

/// The data of a raw entry are the very bytes stored for it: those from its
/// offset on, as many as its stored size says. They are owed exactly when
/// they all exist and the entry's two sizes agree.
pub proof fn lemma_raw_payload_is_stored(bytes: Seq<u8>, entry: EntryView)
    requires
        entry.data_flags == DATA_RAW,
    ensures
        payload(bytes, entry) matches Ok(data) ==> data == bytes.subrange(
            entry.offset as int,
            entry.offset + entry.compressed_size,
        ),
        payload(bytes, entry) is Ok <==> has_bytes(
            bytes,
            entry.offset as int,
            entry.compressed_size as int,
        ) && entry.compressed_size == entry.raw_size,
{
}

/// An archive that is cut off before the end of an entry's stored payload
/// yields an I/O error for that entry, and no data.
pub proof fn lemma_cut_payload_is_io_error(bytes: Seq<u8>, entry: EntryView, cut: int)
    requires
        0 <= cut <= bytes.len(),
        cut < entry.offset + entry.compressed_size,
    ensures
        payload(bytes.take(cut), entry) == Err::<Seq<u8>, PakError>(PakError::Io),
{
}

/// An entry whose data flag selects neither raw nor zlib storage yields no
/// data: where its stored payload exists, the flag is refused as
/// unsupported.
pub proof fn lemma_unknown_flag_is_refused(bytes: Seq<u8>, entry: EntryView)
    requires
        entry.data_flags != DATA_RAW,
        entry.data_flags != DATA_ZLIB,
    ensures
        payload(bytes, entry) is Err,
        stored(bytes, entry) is Some ==> payload(bytes, entry) == Err::<Seq<u8>, PakError>(
            PakError::UnsupportedFlag,
        ),
{
}

} // verus!
