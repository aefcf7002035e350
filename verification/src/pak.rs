//! PAK archives and their entries.

use vstd::prelude::*;

use crate::error::PakError;
use crate::format::{
    decoded, entry_count, has_bytes, lemma_entries_are_named, lemma_len_is_count_less_one,
    lemma_names_fail_for_good,
    named, names, parse_archive, payload, record_at, record_pos, EntryView, COUNT_POS, DATA_RAW,
    DATA_ZLIB, HEADER_LEN, NAME_TABLE_SKIP, RECORD_LEN,
};
use crate::inflate::{as_seq, inflate};
use crate::reader::Reader;
use crate::text::{flush_right, hex, push_hex, push_spaces};
use crate::util::{display_size, size_text};

verus! {

/// Width of the column in which a line item shows the entry's size.
pub const SIZE_COLUMN: usize = 9;

/// An archive entry.
#[derive(Debug)]
pub struct Entry {
    /// Reserved field, carried along and not interpreted.
    pub reserved: u32,
    /// Size of the entry's data as it is stored.
    pub compressed_size: u32,
    /// Size of the entry's data once it is decoded.
    pub raw_size: u32,
    /// How the entry's data is stored.
    pub data_flags: u8,
    /// Offset from the archive's start to the entry's data.
    pub offset: u32,
    /// Name of the file that the entry stands for.
    pub name: String,
}

impl View for Entry {
    type V = EntryView;

    open spec fn view(&self) -> EntryView {
        EntryView {
            reserved: self.reserved,
            compressed_size: self.compressed_size,
            raw_size: self.raw_size,
            data_flags: self.data_flags,
            offset: self.offset,
            name: self.name@,
        }
    }
}

/// The letter that a line item shows for a data flag.
pub open spec fn flag_letter(data_flags: u8) -> char {
    if data_flags == DATA_RAW {
        'r'
    } else if data_flags == DATA_ZLIB {
        'z'
    } else {
        '?'
    }
}

/// The line that lists `entry`: its offset as eight hexadecimal digits, its
/// decoded size flush right in a column of nine, the letter of its data flag
/// in parentheses, and its name.
pub open spec fn line_text(entry: EntryView) -> Seq<char> {
    hex(entry.offset as nat, 8) + seq![' '] + flush_right(
        size_text(entry.raw_size as nat),
        SIZE_COLUMN as nat,
    ) + seq![' ', '(', flag_letter(entry.data_flags), ')', ' '] + entry.name
}

impl Entry {
    /// Reads the record at the position of `source` as an entry that has
    /// no name yet, and moves past it. Where the source ends before the
    /// record does, nothing is read.
    pub fn read_from(source: &mut Reader) -> (r: Result<Entry, PakError>)
        ensures
            final(source).bytes() == old(source).bytes(),
            match r {
                Ok(entry) => {
                    &&& has_bytes(old(source).bytes(), old(source).cursor(), RECORD_LEN as int)
                    &&& entry@ == record_at(old(source).bytes(), old(source).cursor())
                    &&& final(source).cursor() == old(source).cursor() + RECORD_LEN
                },
                Err(e) => {
                    &&& !has_bytes(old(source).bytes(), old(source).cursor(), RECORD_LEN as int)
                    &&& e == PakError::Io
                    &&& final(source).cursor() == old(source).cursor()
                },
            },
    {
        if !source.remaining_at_least(RECORD_LEN) {
            return Err(PakError::Io);
        }
        let entry = Entry {
            reserved: source.read_u32()?,
            compressed_size: source.read_u32()?,
            raw_size: source.read_u32()?,
            data_flags: source.read_u8()?,
            offset: source.read_u32()?,
            name: String::new(),
        };
        Ok(entry)
    }

    /// Decodes the stored bytes of this entry's payload as its data flag
    /// asks.
    pub fn decode(&self, stored: Vec<u8>) -> (r: Result<Vec<u8>, PakError>)
        ensures
            as_seq(r) == decoded(self@, stored@),
    {
        if self.data_flags == DATA_RAW {
            if stored.len() == self.raw_size as usize {
                Ok(stored)
            } else {
                Err(PakError::Malformed)
            }
        } else if self.data_flags == DATA_ZLIB {
            inflate(stored.as_slice(), self.raw_size)
        } else {
            Err(PakError::UnsupportedFlag)
        }
    }

    /// Get the formatted line item for this entry.
    pub fn line_item(&self) -> (line: String)
        ensures
            line@ == line_text(self@),
    {
        let flag: char = if self.data_flags == DATA_RAW {
            'r'
        } else if self.data_flags == DATA_ZLIB {
            'z'
        } else {
            '?'
        };
        let size: String = display_size(self.raw_size);
        let size_len: usize = size.as_str().unicode_len();
        let mut line = String::new();
        push_hex(&mut line, self.offset, 8);
        line.push(' ');
        if size_len < SIZE_COLUMN {
            push_spaces(&mut line, SIZE_COLUMN - size_len);
        }
        line.append(size.as_str());
        line.push(' ');
        line.push('(');
        line.push(flag);
        line.push(')');
        line.push(' ');
        line.append(self.name.as_str());
        assert(line@ =~= line_text(self@));
        line
    }
}

/// Fetches the data of `entry` from `source`: seeks to the entry's offset,
/// reads the stored payload whole and decodes it. Where `source` ends up
/// positioned is left open.
pub fn fetch_data(source: &mut Reader, entry: &Entry) -> (r: Result<Vec<u8>, PakError>)
    ensures
        final(source).bytes() == old(source).bytes(),
        as_seq(r) == payload(old(source).bytes(), entry@),
{
    source.seek(entry.offset as u64);
    let stored: Vec<u8> = source.read_bytes(entry.compressed_size as usize)?;
    entry.decode(stored)
}

/// The views of the entries of a sequence, in its order.
pub open spec fn views(entries: Seq<Entry>) -> Seq<EntryView> {
    Seq::new(entries.len(), |i: int| entries[i]@)
}

/// A PAK archive: its bytes, and the entries that they describe, in the
/// order of the entry table.
pub struct Archive {
    source: Reader,
    entries: Vec<Entry>,
}

impl View for Archive {
    type V = Seq<EntryView>;

    closed spec fn view(&self) -> Seq<EntryView> {
        views(self.entries@)
    }
}

impl Archive {
    /// The bytes that the archive was opened from.
    pub closed spec fn bytes(&self) -> Seq<u8> {
        self.source.bytes()
    }

    /// An archive is well formed when its entries are the entries that its
    /// bytes describe. `open` makes no other archive, and no method changes
    /// an archive's bytes or entries.
    pub open spec fn well_formed(&self) -> bool {
        parse_archive(self.bytes()) == Ok::<Seq<EntryView>, PakError>(self@)
    }

    /// The decoded data of the entry at `index`, or the reason why there
    /// is none.
    pub open spec fn entry_payload(&self, index: int) -> Result<Seq<u8>, PakError> {
        payload(self.bytes(), self@[index])
    }

    /// Parses the archive stored in `data`.
    #[verifier::loop_isolation(false)]
    pub fn open(data: Vec<u8>) -> (r: Result<Archive, PakError>)
        ensures
            match r {
                Ok(archive) => {
                    &&& archive.bytes() == data@
                    &&& parse_archive(data@) == Ok::<Seq<EntryView>, PakError>(archive@)
                    &&& archive.well_formed()
                },
                Err(e) => parse_archive(data@) == Err::<Seq<EntryView>, PakError>(e),
            },
    {
        let ghost bytes = data@;
        let mut source = Reader::new(data);

        // The magic and the base offset are not used: skip them.
        source.seek(COUNT_POS);

        // Read the entry count, then read all of the entries.
        let count: u32 = source.read_u32()?;
        if count == 0 {
            return Err(PakError::Malformed);
        }
        let mut entries: Vec<Entry> = Vec::new();
        let mut index: u32 = 0;
        while index < count
            invariant
                source.bytes() == bytes,
                has_bytes(bytes, 0, HEADER_LEN as int),
                count == entry_count(bytes),
                index <= count,
                source.cursor() == record_pos(index as int),
                has_bytes(bytes, HEADER_LEN as int, RECORD_LEN * index),
                entries@.len() == index,
                forall|i: int|
                    0 <= i < index ==> (#[trigger] entries@[i])@ == record_at(bytes, record_pos(i)),
            decreases count - index,
        {
            let entry: Entry = Entry::read_from(&mut source)?;
            entries.push(entry);
            index = index + 1;
        }

        // The last record locates the name table: read one name for each
        // entry before it.
        let total: usize = entries.len() - 1;
        let start: u64 = entries[total].offset as u64 + NAME_TABLE_SKIP;
        source.seek(start);
        let ghost mut list: Seq<Seq<char>> = Seq::empty();
        let mut done: usize = 0;
        while done < total
            invariant
                source.bytes() == bytes,
                done <= total,
                entries@.len() == total + 1,
                list.len() == done,
                names(bytes, start as int, done as nat) == Ok::<(Seq<Seq<char>>, int), PakError>(
                    (list, source.cursor()),
                ),
                forall|i: int|
                    0 <= i < done ==> (#[trigger] entries@[i])@ == named(
                        record_at(bytes, record_pos(i)),
                        list[i],
                    ),
                forall|i: int|
                    done <= i <= total ==> (#[trigger] entries@[i])@ == record_at(
                        bytes,
                        record_pos(i),
                    ),
            decreases total - done,
        {
            proof {
                lemma_names_fail_for_good(bytes, start as int, (done + 1) as nat, total as nat);
            }
            let len: u16 = source.read_u16()?;
            let raw_name: Vec<u8> = source.read_bytes(len as usize)?;
            let name: String = match String::from_utf8(raw_name) {
                Ok(name) => name,
                Err(_) => {
                    return Err(PakError::NameDecode);
                },
            };
            if len == 0 {
                return Err(PakError::Malformed);
            }
            proof {
                list = list.push(name@);
            }
            let record: &Entry = &entries[done];
            let entry = Entry {
                reserved: record.reserved,
                compressed_size: record.compressed_size,
                raw_size: record.raw_size,
                data_flags: record.data_flags,
                offset: record.offset,
                name,
            };
            entries.set(done, entry);
            done = done + 1;
        }

        // The record of the name table is no entry: drop it.
        entries.pop();
        assert(views(entries@) =~= parse_archive(bytes)->Ok_0);
        Ok(Archive { source, entries })
    }

    /// The number of entries in the archive: one less than the entry count
    /// of its header, which counts the record of the name table too.
    pub fn len(&self) -> (count: usize)
        ensures
            count == self@.len(),
            self.well_formed() ==> count == entry_count(self.bytes()) - 1,
    {
        proof {
            if self.well_formed() {
                lemma_len_is_count_less_one(self.bytes());
            }
        }
        self.entries.len()
    }

    /// True when the archive holds no entry.
    pub fn is_empty(&self) -> (empty: bool)
        ensures
            empty == (self@.len() == 0),
    {
        self.entries.len() == 0
    }

    /// The entry at `index` in table order, if there is one.
    pub fn get(&self, index: usize) -> (r: Option<&Entry>)
        ensures
            match r {
                Some(entry) => index < self@.len() && entry@ == self@[index as int],
                None => index >= self@.len(),
            },
    {
        if index < self.entries.len() {
            Some(&self.entries[index])
        } else {
            None
        }
    }

    /// All entries, in table order.
    pub fn entries(&self) -> (all: &[Entry])
        ensures
            views(all@) == self@,
    {
        self.entries.as_slice()
    }

    /// Get the decoded data of the entry at the given `index`.
    ///
    /// Every call seeks and reads anew, so calls may come in any order and
    /// any number of times; none changes the archive's bytes or entries.
    pub fn entry_data(&mut self, index: usize) -> (r: Result<Vec<u8>, PakError>)
        requires
            index < old(self)@.len(),
        ensures
            final(self).bytes() == old(self).bytes(),
            final(self)@ == old(self)@,
            final(self).well_formed() == old(self).well_formed(),
            as_seq(r) == old(self).entry_payload(index as int),
            r matches Ok(data) ==> data@.len() == old(self)@[index as int].raw_size,
    {
        let entry: &Entry = &self.entries[index];
        fetch_data(&mut self.source, entry)
    }
}

/// A well-formed archive has one entry less than its header counts.
pub proof fn lemma_archive_len(archive: Archive)
    requires
        archive.well_formed(),
    ensures
        archive@.len() == entry_count(archive.bytes()) - 1,
{
    lemma_len_is_count_less_one(archive.bytes());
}

/// Every entry of a well-formed archive has a name of at least one
/// character.
pub proof fn lemma_archive_entries_are_named(archive: Archive)
    requires
        archive.well_formed(),
    ensures
        forall|i: int| 0 <= i < archive@.len() ==> (#[trigger] archive@[i]).name.len() > 0,
{
    lemma_entries_are_named(archive.bytes());
    assert(parse_archive(archive.bytes()) matches Ok(entries) && entries == archive@);
}

/// Fetching an entry's data twice gives the same outcome both times.
///
/// `first` is what a fetch from `archive` gives, and `between` is the
/// archive as that fetch leaves it: with the same bytes and entries.
/// `second` is what a fetch from `between` gives.
pub proof fn lemma_entry_data_repeats(
    archive: Archive,
    between: Archive,
    index: int,
    first: Result<Seq<u8>, PakError>,
    second: Result<Seq<u8>, PakError>,
)
    requires
        0 <= index < archive@.len(),
        first == archive.entry_payload(index),
        between.bytes() == archive.bytes(),
        between@ == archive@,
        second == between.entry_payload(index),
    ensures
        first == second,
{
}

} // verus!
