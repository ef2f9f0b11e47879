//! Directory entries: the variable-length on-disk records, the iterator
//! that walks a directory block, and the in-memory entry list.

use vstd::prelude::*;

use crate::le::{le16, le32};
use crate::{Ext4Error, Ext4Result, InodeType};

verus! {

/// The abstract value of a directory entry: inode number, record length,
/// name length, file type, and the name's characters.
pub type DirEntryView = (u32, u16, u8, u8, Seq<char>);

/// Directory entry
#[derive(Debug, Clone, PartialEq, Eq)]
pub struct DirectoryEntry {
    /// Inode number
    pub ino: u32,
    /// Entry length
    pub rec_len: u16,
    /// Name length
    pub name_len: u8,
    /// File type
    pub file_type: u8,
    /// Name
    pub name: String,
}

impl View for DirectoryEntry {
    type V = DirEntryView;

    open spec fn view(&self) -> DirEntryView {
        (self.ino, self.rec_len, self.name_len, self.file_type, self.name@)
    }
}

/// The retained entries of the directory bytes `data`, walking records
/// from `off` by their `rec_len` chains: a zero `rec_len` or a truncated
/// record ends the walk, tombstones (inode 0) and records with an empty
/// or malformed name are skipped.
pub open spec fn spec_dir_entries(data: Seq<u8>, off: int) -> Seq<DirEntryView>
    decreases data.len() - off,
{
    if off < 0 || off + 8 > data.len() {
        Seq::empty()
    } else {
        let ino = le32(data, off) as u32;
        let rec = le16(data, off + 4) as u16;
        if rec == 0 || off + rec > data.len() {
            Seq::empty()
        } else if ino == 0 {
            spec_dir_entries(data, off + rec)
        } else {
            let name_len = data[off + 6];
            let file_type = data[off + 7];
            let name_bytes = data.subrange(off + 8, off + 8 + name_len);
            let rest = spec_dir_entries(data, off + rec);
            if 8 + name_len <= rec && name_len > 0 && vstd::utf8::valid_utf8(name_bytes) {
                seq![
                    (ino, rec, name_len, file_type, vstd::utf8::decode_utf8(name_bytes)),
                ] + rest
            } else {
                rest
            }
        }
    }
}

impl DirectoryEntry {
    /// Parse directory entry from bytes
    pub fn from_bytes(data: &[u8]) -> (r: Ext4Result<Self>)
        ensures
            data.len() < 8 ==> r == Ext4Result::<Self>::Err(Ext4Error::InvalidInput),
            data.len() >= 8 ==> {
                let name_bytes = data@.subrange(8, 8 + data@[6]);
                if 8 + data@[6] > data.len() {
                    r == Ext4Result::<Self>::Err(Ext4Error::InvalidInput)
                } else if !vstd::utf8::valid_utf8(name_bytes) {
                    r == Ext4Result::<Self>::Err(Ext4Error::InvalidInput)
                } else {
                    r is Ok && r.get_Ok_0()@ == (
                        le32(data@, 0) as u32,
                        le16(data@, 4) as u16,
                        data@[6],
                        data@[7],
                        vstd::utf8::decode_utf8(name_bytes),
                    )
                }
            },
    {
        if data.len() < 8 {
            return Err(Ext4Error::InvalidInput);
        }

        let ino = crate::le::read_u32(data, 0);
        let rec_len = crate::le::read_u16(data, 4);
        let name_len = crate::le::read_u8(data, 6);
        let file_type = crate::le::read_u8(data, 7);

        if data.len() < 8 + name_len as usize {
            return Err(Ext4Error::InvalidInput);
        }

        let name_vec = crate::le::sub_bytes(data, 8, name_len as usize);
        let name = match crate::le::string_from_utf8(name_vec) {
            Some(s) => s,
            None => {
                return Err(Ext4Error::InvalidInput);
            },
        };

        Ok(Self { ino, rec_len, name_len, file_type, name })
    }

    /// The file type the entry's type byte encodes; unknown bytes count as files.
    pub open spec fn spec_inode_type(&self) -> InodeType {
        if self.file_type == 1 {
            InodeType::File
        } else if self.file_type == 2 {
            InodeType::Directory
        } else if self.file_type == 3 {
            InodeType::CharDevice
        } else if self.file_type == 4 {
            InodeType::BlockDevice
        } else if self.file_type == 5 {
            InodeType::Fifo
        } else if self.file_type == 6 {
            InodeType::Socket
        } else if self.file_type == 7 {
            InodeType::SymLink
        } else {
            InodeType::File
        }
    }

    /// Get the inode type
    pub fn inode_type(&self) -> (r: InodeType)
        ensures
            r == self.spec_inode_type(),
    {
        if self.file_type == 1 {
            InodeType::File
        } else if self.file_type == 2 {
            InodeType::Directory
        } else if self.file_type == 3 {
            InodeType::CharDevice
        } else if self.file_type == 4 {
            InodeType::BlockDevice
        } else if self.file_type == 5 {
            InodeType::Fifo
        } else if self.file_type == 6 {
            InodeType::Socket
        } else if self.file_type == 7 {
            InodeType::SymLink
        } else {
            InodeType::File
        }
    }

    /// Get the entry size
    pub fn entry_size(&self) -> (r: usize)
        ensures
            r == 8 + self.name_len,
    {
        8 + self.name_len as usize
    }

    /// An entry with the same fields.
    pub fn duplicate(&self) -> (r: Self)
        ensures
            r@ == self@,
    {
        Self {
            ino: self.ino,
            rec_len: self.rec_len,
            name_len: self.name_len,
            file_type: self.file_type,
            name: self.name.clone(),
        }
    }
}

/// Every entry the walk retains is live: its inode number and name
/// length are nonzero.
pub proof fn lemma_dir_entries_live(data: Seq<u8>, off: int)
    ensures
        forall|k: int|
            0 <= k < spec_dir_entries(data, off).len() ==> (#[trigger] spec_dir_entries(
                data,
                off,
            )[k]).0 != 0 && spec_dir_entries(data, off)[k].2 > 0,
    decreases data.len() - off,
{
    if off < 0 || off + 8 > data.len() {
    } else {
        let ino = le32(data, off) as u32;
        let rec = le16(data, off + 4) as u16;
        if rec == 0 || off + rec > data.len() {
        } else {
            lemma_dir_entries_live(data, off + rec);
            let es = spec_dir_entries(data, off);
            let rest = spec_dir_entries(data, off + rec);
            let name_len = data[off + 6];
            let name_bytes = data.subrange(off + 8, off + 8 + name_len);
            if ino != 0 && 8 + name_len <= rec && name_len > 0 && vstd::utf8::valid_utf8(
                name_bytes,
            ) {
                assert forall|k: int|
                    0 <= k < es.len() implies (#[trigger] es[k]).0 != 0 && es[k].2 > 0 by {
                    if k > 0 {
                        assert(es[k] == rest[k - 1]);
                    }
                }
            }
        }
    }
}

/// Directory iterator
pub struct DirectoryIterator<'a> {
    pub data: &'a [u8],
    pub offset: usize,
}

impl<'a> DirectoryIterator<'a> {
    /// Create a new directory iterator
    pub fn new(data: &'a [u8]) -> (r: Self)
        ensures
            r.data@ == data@,
            r.offset == 0,
    {
        Self { data, offset: 0 }
    }

    /// The next live entry of the walk, `None` at the end of the data,
    /// an error for a record whose name is truncated or malformed.
    pub fn next(&mut self) -> (r: Option<Ext4Result<DirectoryEntry>>)
        ensures
            final(self).data@ == old(self).data@,
            final(self).offset >= old(self).offset,
            r is Some ==> old(self).offset + 8 <= old(self).data@.len() && final(self).offset > old(
                self,
            ).offset,
            match r {
                None => spec_dir_entries(old(self).data@, old(self).offset as int)
                    == Seq::<DirEntryView>::empty() && spec_dir_entries(
                    final(self).data@,
                    final(self).offset as int,
                ) == Seq::<DirEntryView>::empty(),
                Some(Ok(e)) => e.ino != 0 && (if e.name_len > 0 {
                    spec_dir_entries(old(self).data@, old(self).offset as int) == seq![e@]
                        + spec_dir_entries(final(self).data@, final(self).offset as int)
                } else {
                    spec_dir_entries(old(self).data@, old(self).offset as int)
                        == spec_dir_entries(final(self).data@, final(self).offset as int)
                }),
                Some(Err(_)) => spec_dir_entries(old(self).data@, old(self).offset as int)
                    == spec_dir_entries(final(self).data@, final(self).offset as int),
            },
    {
        loop
            invariant
                self.data@ == old(self).data@,
                self.offset >= old(self).offset,
                spec_dir_entries(self.data@, self.offset as int) == spec_dir_entries(
                    old(self).data@,
                    old(self).offset as int,
                ),
            decreases self.data@.len() - self.offset,
        {
            // If we've reached end of data block, stop
            if self.offset >= self.data.len() {
                return None;
            }

            // Check if we have enough data for the header
            if self.data.len() - self.offset < 8 {
                return None;
            }

            let entry_data = vstd::slice::slice_subrange(self.data, self.offset, self.data.len());

            // Read the inode number and the record length
            let ino = crate::le::read_u32(entry_data, 0);
            let rec_len = crate::le::read_u16(entry_data, 4);

            proof {
                assert(le32(entry_data@, 0) == le32(self.data@, self.offset as int));
                assert(le16(entry_data@, 4) == le16(self.data@, self.offset as int + 4));
            }

            if rec_len == 0 {
                // End of the directory
                return None;
            }

            // If inode is 0, this is an unused entry: skip it
            if ino == 0 {
                if self.data.len() - self.offset < rec_len as usize {
                    proof {
                        // A tombstone that runs past the data ends the walk.
                        assert(self.offset + rec_len > self.data@.len());
                    }
                    self.offset = self.data.len();
                    return None;
                }
                self.offset = self.offset + rec_len as usize;
                continue;
            }

            // Check if we have enough data for the full entry
            if self.data.len() - self.offset < rec_len as usize {
                return None;
            }

            let entry_slice = vstd::slice::slice_subrange(
                self.data,
                self.offset,
                self.offset + rec_len as usize,
            );
            let entry = DirectoryEntry::from_bytes(entry_slice);

            let ghost off = self.offset as int;
            let ghost rec = rec_len as int;
            proof {
                assert(entry_slice@ == self.data@.subrange(off, off + rec));
                if rec >= 8 {
                    assert(le32(entry_slice@, 0) == le32(self.data@, off));
                    assert(le16(entry_slice@, 4) == le16(self.data@, off + 4));
                    assert(entry_slice@[6] == self.data@[off + 6]);
                    assert(entry_slice@[7] == self.data@[off + 7]);
                    let nl = self.data@[off + 6] as int;
                    if 8 + nl <= rec {
                        assert(entry_slice@.subrange(8, 8 + nl) =~= self.data@.subrange(
                            off + 8,
                            off + 8 + nl,
                        ));
                    }
                }
            }

            self.offset = self.offset + rec_len as usize;

            match entry {
                Ok(e) => {
                    proof {
                        if e.name_len > 0 {
                            assert(spec_dir_entries(self.data@, off) =~~= seq![e@]
                                + spec_dir_entries(self.data@, off + rec));
                        } else {
                            assert(spec_dir_entries(self.data@, off) =~~= spec_dir_entries(
                                self.data@,
                                off + rec,
                            ));
                        }
                    }
                    return Some(Ok(e));
                },
                Err(err) => {
                    proof {
                        assert(spec_dir_entries(self.data@, off) =~~= spec_dir_entries(
                            self.data@,
                            off + rec,
                        ));
                    }
                    return Some(Err(err));
                },
            }
        }
    }
}

/// Directory operations
pub struct Directory {
    pub entries: Vec<DirectoryEntry>,
}

impl View for Directory {
    type V = Seq<DirEntryView>;

    open spec fn view(&self) -> Seq<DirEntryView> {
        self.entries@.map_values(|e: DirectoryEntry| e@)
    }
}

impl Directory {
    /// Create a new directory
    pub fn new() -> (r: Self)
        ensures
            r@ == Seq::<DirEntryView>::empty(),
            r.entries@.len() == 0,
    {
        let r = Self { entries: Vec::new() };
        proof {
            assert(r@ =~= Seq::<DirEntryView>::empty());
        }
        r
    }

    /// Create a directory from raw data.
    ///
    /// Collects exactly the live entries of the record walk; a corrupt
    /// record is skipped, so a damaged tail does not lose the head.
    pub fn from_bytes(data: &[u8]) -> (r: Ext4Result<Self>)
        ensures
            r is Ok,
            r.get_Ok_0()@ == spec_dir_entries(data@, 0),
    {
        let mut entries: Vec<DirectoryEntry> = Vec::new();
        let mut iter = DirectoryIterator::new(data);
        let mut done = false;

        while !done
            invariant
                iter.data@ == data@,
                entries@.map_values(|e: DirectoryEntry| e@) + spec_dir_entries(
                    data@,
                    iter.offset as int,
                ) == spec_dir_entries(data@, 0),
                done ==> spec_dir_entries(data@, iter.offset as int)
                    == Seq::<DirEntryView>::empty(),
            decreases (if iter.offset <= data@.len() {
                data@.len() - iter.offset + 1
            } else {
                0int
            }) + (if done {
                0int
            } else {
                1int
            }),
        {
            let ghost entries_pre = entries@;
            match iter.next() {
                None => {
                    done = true;
                },
                Some(Ok(entry)) => {
                    // Skip tombstones and entries with an empty name
                    if entry.ino != 0 && entry.name_len > 0 {
                        entries.push(entry);
                        proof {
                            assert(entries@.map_values(|e: DirectoryEntry| e@) =~= entries_pre.map_values(
                                |e: DirectoryEntry| e@,
                            ) + seq![entry@]);
                            assert((entries_pre.map_values(|e: DirectoryEntry| e@) + seq![entry@])
                                + spec_dir_entries(data@, iter.offset as int)
                                =~= entries_pre.map_values(|e: DirectoryEntry| e@) + (seq![entry@]
                                + spec_dir_entries(data@, iter.offset as int)));
                        }
                    }
                },
                Some(Err(_)) => {
                    // Continue parsing other entries
                },
            }
        }

        Ok(Self { entries })
    }

    /// Add an entry to the directory
    pub fn add_entry(&mut self, entry: DirectoryEntry)
        ensures
            final(self).entries@ == old(self).entries@.push(entry),
            final(self)@ == old(self)@.push(entry@),
    {
        let ghost entries_pre = self.entries@;
        self.entries.push(entry);
        proof {
            assert(self@ =~= entries_pre.map_values(|e: DirectoryEntry| e@) + seq![entry@]);
            assert(old(self)@.push(entry@) =~= old(self)@ + seq![entry@]);
        }
    }

    /// Remove an entry by name
    pub fn remove_entry(&mut self, name: &str) -> (r: Option<DirectoryEntry>)
        ensures
            match r {
                None => final(self).entries@ == old(self).entries@ && (forall|i: int|
                    0 <= i < old(self).entries@.len() ==> (#[trigger] old(
                        self,
                    ).entries@[i]).name@ != name@),
                Some(e) => exists|i: int|
                    {
                        &&& 0 <= i < old(self).entries@.len()
                        &&& old(self).entries@[i] == e
                        &&& e.name@ == name@
                        &&& (forall|j: int|
                            0 <= j < i ==> (#[trigger] old(self).entries@[j]).name@ != name@)
                        &&& final(self).entries@ == old(self).entries@.remove(i)
                    },
            },
    {
        let n = self.entries.len();
        let mut i: usize = 0;
        while i < n
            invariant
                n == self.entries@.len(),
                0 <= i <= n,
                *self == *old(self),
                forall|j: int| 0 <= j < i ==> (#[trigger] self.entries@[j]).name@ != name@,
            decreases n - i,
        {
            if str_eq(self.entries[i].name.as_str(), name) {
                let e = self.entries.remove(i);
                return Some(e);
            }
            i += 1;
        }
        None
    }

    /// Find an entry by name
    pub fn find_entry(&self, name: &str) -> (r: Option<&DirectoryEntry>)
        ensures
            match r {
                None => forall|i: int|
                    0 <= i < self.entries@.len() ==> (#[trigger] self.entries@[i]).name@ != name@,
                Some(e) => exists|i: int|
                    {
                        &&& 0 <= i < self.entries@.len()
                        &&& self.entries@[i] == *e
                        &&& e.name@ == name@
                        &&& (forall|j: int|
                            0 <= j < i ==> (#[trigger] self.entries@[j]).name@ != name@)
                    },
            },
    {
        let n = self.entries.len();
        let mut i: usize = 0;
        while i < n
            invariant
                n == self.entries@.len(),
                0 <= i <= n,
                forall|j: int| 0 <= j < i ==> (#[trigger] self.entries@[j]).name@ != name@,
            decreases n - i,
        {
            if str_eq(self.entries[i].name.as_str(), name) {
                return Some(&self.entries[i]);
            }
            i += 1;
        }
        None
    }

    /// Find an entry whose name has exactly the given UTF-8 bytes.
    pub fn find_entry_bytes(&self, name: &[u8]) -> (r: Option<&DirectoryEntry>)
        ensures
            match r {
                None => forall|i: int|
                    0 <= i < self.entries@.len() ==> vstd::utf8::encode_utf8(
                        (#[trigger] self.entries@[i]).name@,
                    ) != name@,
                Some(e) => exists|i: int|
                    {
                        &&& 0 <= i < self.entries@.len()
                        &&& self.entries@[i] == *e
                        &&& vstd::utf8::encode_utf8(e.name@) == name@
                        &&& (forall|j: int|
                            0 <= j < i ==> vstd::utf8::encode_utf8(
                                (#[trigger] self.entries@[j]).name@,
                            ) != name@)
                    },
            },
    {
        let n = self.entries.len();
        let mut i: usize = 0;
        while i < n
            invariant
                n == self.entries@.len(),
                0 <= i <= n,
                forall|j: int|
                    0 <= j < i ==> vstd::utf8::encode_utf8((#[trigger] self.entries@[j]).name@)
                        != name@,
            decreases n - i,
        {
            if crate::le::bytes_eq(self.entries[i].name.as_str().as_bytes(), name) {
                return Some(&self.entries[i]);
            }
            i += 1;
        }
        None
    }

    /// Get all entries
    pub fn entries(&self) -> (r: &Vec<DirectoryEntry>)
        ensures
            r@ == self.entries@,
    {
        &self.entries
    }

    /// Serialize directory to bytes, for the default 4096-byte block.
    pub fn to_bytes(&self) -> (r: Ext4Result<Vec<u8>>)
        ensures
            r is Ok,
            r.get_Ok_0()@ == spec_dir_bytes(self@, 4096),
    {
        self.to_bytes_with_block_size(4096)
    }

    /// Serialize the entry list for a block of the given size.
    ///
    /// Each entry takes its 4-byte-aligned packed size as `rec_len`,
    /// except the last, whose `rec_len` stretches to the end of the
    /// block so that iteration walks the whole block; when the entries
    /// overflow one block the last keeps its packed size.
    #[verifier::rlimit(100)]
    pub fn to_bytes_with_block_size(&self, block_size: u32) -> (r: Ext4Result<Vec<u8>>)
        ensures
            r is Ok,
            r.get_Ok_0()@ == spec_dir_bytes(self@, block_size as int),
    {
        let mut data: Vec<u8> = Vec::new();

        let n = self.entries.len();
        if n == 0 {
            return Ok(data);
        }

        // Calculate record lengths for all entries first
        let mut entry_sizes: Vec<u16> = Vec::new();
        let mut total: u128 = 0;
        let mut i: usize = 0;
        while i < n
            invariant
                n == self.entries@.len(),
                0 <= i <= n,
                entry_sizes@.len() == i,
                forall|k: int| 0 <= k < i ==> entry_sizes@[k] == spec_packed_u16(self@[k]),
                total == spec_total_packed_prefix(self@, i as int),
                total <= i * 0x1_0000,
            decreases n - i,
        {
            let name_len = self.entries[i].name.as_str().len();
            let packed128: u128 = ((8u128 + name_len as u128 + 3) / 4) * 4;
            let packed: u16 = (packed128 % 0x1_0000) as u16;
            proof {
                assert(self@[i as int] == self.entries@[i as int]@);
                assert(packed == spec_packed_u16(self@[i as int]));
            }
            entry_sizes.push(packed);
            total = total + packed as u128;
            i += 1;
        }

        // Now serialize entries with proper rec_len values
        let ghost total_spec = spec_total_packed_prefix(self@, n as int);
        let mut i: usize = 0;
        while i < n
            invariant
                n == self.entries@.len(),
                n >= 1,
                0 <= i <= n,
                entry_sizes@.len() == n,
                forall|k: int| 0 <= k < n ==> entry_sizes@[k] == spec_packed_u16(self@[k]),
                total == total_spec,
                total_spec == spec_total_packed_prefix(self@, n as int),
                data@ + spec_dir_bytes_from(self@, i as int, total_spec, block_size as int)
                    == spec_dir_bytes_from(self@, 0, total_spec, block_size as int),
            decreases n - i,
        {
            let packed = entry_sizes[i];
            let rec: u16 = if i < n - 1 {
                // Not the last entry: rec_len is the size of this entry
                packed
            } else {
                // Last entry: rec_len extends to fill the block, unless
                // the entries already overflow it
                if total > block_size as u128 {
                    packed
                } else {
                    proof {
                        lemma_total_packed_prefix_bounds(self@, n as int);
                    }
                    let rem: u128 = block_size as u128 - (total - packed as u128);
                    (rem % 0x1_0000) as u16
                }
            };

            proof {
                let es = self@;
                let bs = block_size as int;
                let e = es[i as int];
                let packed_int = spec_packed_u16(e) as int;
                let spec_rec: int = if i as int == es.len() - 1 {
                    if total_spec > bs {
                        packed_int
                    } else {
                        bs - (total_spec - packed_int)
                    }
                } else {
                    packed_int
                };
                assert(self@[i as int] == self.entries@[i as int]@);
                if i as int == es.len() - 1 && total_spec <= bs {
                    lemma_total_packed_prefix_bounds(es, n as int);
                }
                assert(rec == (spec_rec % 0x1_0000) as u16);
                assert(spec_dir_bytes_from(es, i as int, total_spec, bs) == spec_entry_bytes(
                    e.0,
                    rec,
                    e.2,
                    e.3,
                    vstd::utf8::encode_utf8(e.4),
                ) + spec_dir_bytes_from(es, i as int + 1, total_spec, bs));
            }

            let ghost data_pre = data@;
            let entry_data = entry_to_bytes_with_rec_len(&self.entries[i], rec);
            crate::le::append_bytes(&mut data, entry_data.as_slice());
            proof {
                assert((data_pre + entry_data@) + spec_dir_bytes_from(
                    self@,
                    i as int + 1,
                    total_spec,
                    block_size as int,
                ) =~= data_pre + (entry_data@ + spec_dir_bytes_from(
                    self@,
                    i as int + 1,
                    total_spec,
                    block_size as int,
                )));
            }
            i += 1;
        }

        Ok(data)
    }
}

/// The sum of the packed sizes of a prefix is at least the packed size
/// of its last entry, and never negative.
pub proof fn lemma_total_packed_prefix_bounds(es: Seq<DirEntryView>, n: int)
    requires
        0 <= n <= es.len(),
    ensures
        spec_total_packed_prefix(es, n) >= 0,
        n >= 1 ==> spec_total_packed_prefix(es, n) >= spec_packed_u16(es[n - 1]),
    decreases n,
{
    if n > 0 {
        lemma_total_packed_prefix_bounds(es, n - 1);
    }
}

/// The 4-byte-aligned packed size of an entry, as the 16-bit value
/// written to its `rec_len` field.
pub open spec fn spec_packed_u16(e: DirEntryView) -> u16 {
    let n = vstd::utf8::encode_utf8(e.4).len() as usize;
    ((((8 + n + 3) / 4) * 4) % 0x1_0000) as u16
}

/// The sum of the packed sizes of the first `i` entries.
pub open spec fn spec_total_packed_prefix(es: Seq<DirEntryView>, i: int) -> int
    decreases i,
{
    if i <= 0 {
        0int
    } else {
        spec_total_packed_prefix(es, i - 1) + spec_packed_u16(es[i - 1])
    }
}

/// The serialised bytes of one entry: header, name bytes, and zero
/// padding out to `rec_len` (none when the name already runs past it).
pub open spec fn spec_entry_bytes(
    ino: u32,
    rec_len: u16,
    name_len: u8,
    file_type: u8,
    name_bytes: Seq<u8>,
) -> Seq<u8> {
    let body = crate::le::u32_le_bytes(ino) + crate::le::u16_le_bytes(rec_len) + seq![
        name_len,
        file_type,
    ] + name_bytes;
    if body.len() < rec_len {
        body + Seq::new((rec_len - body.len()) as nat, |i: int| 0u8)
    } else {
        body
    }
}

/// The serialised bytes of the entries from index `i` on, where `total`
/// is the packed size of the whole list and `bs` the block size.
pub open spec fn spec_dir_bytes_from(es: Seq<DirEntryView>, i: int, total: int, bs: int) -> Seq<u8>
    decreases es.len() - i,
{
    if i < 0 || i >= es.len() {
        Seq::empty()
    } else {
        let packed = spec_packed_u16(es[i]) as int;
        let rec = if i == es.len() - 1 {
            if total > bs {
                packed
            } else {
                bs - (total - packed)
            }
        } else {
            packed
        };
        spec_entry_bytes(
            es[i].0,
            (rec % 0x1_0000) as u16,
            es[i].2,
            es[i].3,
            vstd::utf8::encode_utf8(es[i].4),
        ) + spec_dir_bytes_from(es, i + 1, total, bs)
    }
}

/// The serialised bytes of a whole entry list for a `bs`-byte block.
pub open spec fn spec_dir_bytes(es: Seq<DirEntryView>, bs: int) -> Seq<u8> {
    spec_dir_bytes_from(es, 0, spec_total_packed_prefix(es, es.len() as int), bs)
}

/// Serialising a directory entry is inverted by parsing: the record a
/// live entry packs to holds exactly the entry's fields, and its name
/// bytes decode back to the entry's name.
pub proof fn lemma_entry_bytes_parse_back(
    ino: u32,
    rec_len: u16,
    name_len: u8,
    file_type: u8,
    name: Seq<char>,
)
    requires
        vstd::utf8::encode_utf8(name).len() == name_len,
        8 + name_len <= rec_len,
    ensures
        ({
            let bytes = spec_entry_bytes(
                ino,
                rec_len,
                name_len,
                file_type,
                vstd::utf8::encode_utf8(name),
            );
            &&& bytes.len() == rec_len
            &&& le32(bytes, 0) == ino
            &&& le16(bytes, 4) == rec_len
            &&& bytes[6] == name_len
            &&& bytes[7] == file_type
            &&& vstd::utf8::valid_utf8(bytes.subrange(8, 8 + name_len))
            &&& vstd::utf8::decode_utf8(bytes.subrange(8, 8 + name_len)) == name
        }),
{
    let nb = vstd::utf8::encode_utf8(name);
    let bytes = spec_entry_bytes(ino, rec_len, name_len, file_type, nb);
    assert(bytes.subrange(0, 4) =~= crate::le::u32_le_bytes(ino));
    crate::le::lemma_le32_round_trip(bytes, 0, ino);
    assert(bytes.subrange(4, 6) =~= crate::le::u16_le_bytes(rec_len));
    crate::le::lemma_le16_round_trip(bytes, 4, rec_len);
    assert(bytes.subrange(8, 8 + name_len as int) =~= nb);
    vstd::utf8::encode_utf8_valid_utf8(name);
    vstd::utf8::encode_utf8_decode_utf8(name);
}

/// Every entry of `es` is fit to serialise and parse back: live, with
/// its name-length field equal to its name's UTF-8 byte count.
pub open spec fn spec_entries_well_formed(es: Seq<DirEntryView>) -> bool {
    forall|i: int|
        0 <= i < es.len() ==> (#[trigger] es[i]).0 != 0 && es[i].2 > 0 && vstd::utf8::encode_utf8(
            es[i].4,
        ).len() == es[i].2
}

/// For a well-formed entry, the packed size is exactly the 4-byte
/// alignment of its header-plus-name size: between `8 + name_len` and
/// `8 + name_len + 3`, and at least 12.
proof fn lemma_packed_size(e: DirEntryView)
    requires
        e.2 > 0,
        vstd::utf8::encode_utf8(e.4).len() == e.2,
    ensures
        8 + e.2 <= spec_packed_u16(e) < 8 + e.2 + 4,
        12 <= spec_packed_u16(e),
        spec_packed_u16(e) as int == ((8 + e.2 + 3) / 4) * 4,
{
    let x = 8 + e.2 as int;
    assert(x <= ((x + 3) / 4) * 4 < x + 4) by (nonlinear_arith)
        requires
            x >= 0,
    ;
    assert(((x + 3) / 4) * 4 < 0x1_0000) by (nonlinear_arith)
        requires
            0 <= x <= 263,
    ;
}

/// The serialised suffix from entry `i` fills the block exactly: its
/// length is the block size less the packed sizes before `i`.
proof fn lemma_dir_bytes_from_len(es: Seq<DirEntryView>, i: int, total: int, bs: int)
    requires
        spec_entries_well_formed(es),
        total == spec_total_packed_prefix(es, es.len() as int),
        total <= bs,
        bs < 0x1_0000,
        0 <= i <= es.len(),
    ensures
        i < es.len() ==> spec_dir_bytes_from(es, i, total, bs).len() == bs
            - spec_total_packed_prefix(es, i),
        i == es.len() ==> spec_dir_bytes_from(es, i, total, bs).len() == 0,
        i < es.len() ==> spec_total_packed_prefix(es, i) + spec_packed_u16(es[i]) <= bs,
    decreases es.len() - i,
{
    if i < es.len() {
        lemma_dir_bytes_from_len(es, i + 1, total, bs);
        lemma_packed_size(es[i]);
        lemma_total_prefix_step_bound(es, i, total);
        let packed = spec_packed_u16(es[i]) as int;
        let rec = if i == es.len() - 1 {
            if total > bs {
                packed
            } else {
                bs - (total - packed)
            }
        } else {
            packed
        };
        let nb = vstd::utf8::encode_utf8(es[i].4);
        assert(spec_entry_bytes(es[i].0, (rec % 0x1_0000) as u16, es[i].2, es[i].3, nb).len()
            == rec) by {
            assert(rec < 0x1_0000) by {
                if i == es.len() - 1 && total <= bs {
                    lemma_suffix_total(es, i, total);
                }
            }
            assert((rec % 0x1_0000) as u16 == rec);
            assert(8 + nb.len() <= rec);
        }
    }
}

/// The packed sizes of the first `i + 1` entries never pass the whole
/// total, so each prefix stays within the block.
proof fn lemma_total_prefix_step_bound(es: Seq<DirEntryView>, i: int, total: int)
    requires
        total == spec_total_packed_prefix(es, es.len() as int),
        0 <= i < es.len(),
    ensures
        spec_total_packed_prefix(es, i) + spec_packed_u16(es[i]) <= total,
        spec_total_packed_prefix(es, i) >= 0,
    decreases es.len() - i,
{
    lemma_total_packed_prefix_bounds(es, i);
    lemma_suffix_nonneg(es, i + 1, es.len() as int);
}

/// The packed sizes between two prefixes sum to something nonnegative.
proof fn lemma_suffix_nonneg(es: Seq<DirEntryView>, i: int, j: int)
    requires
        0 <= i <= j <= es.len(),
    ensures
        spec_total_packed_prefix(es, i) <= spec_total_packed_prefix(es, j),
    decreases j - i,
{
    if i < j {
        lemma_suffix_nonneg(es, i, j - 1);
    }
}

/// For the last entry, the prefix before it plus its packed size is the
/// whole total.
proof fn lemma_suffix_total(es: Seq<DirEntryView>, i: int, total: int)
    requires
        total == spec_total_packed_prefix(es, es.len() as int),
        0 <= i,
        i == es.len() - 1,
    ensures
        spec_total_packed_prefix(es, i) + spec_packed_u16(es[i]) == total,
{
}

/// The whole serialisation, viewed from the byte offset where entry `i`
/// starts, is the serialised suffix from `i`.
proof fn lemma_dir_bytes_suffix(es: Seq<DirEntryView>, i: int, total: int, bs: int)
    requires
        spec_entries_well_formed(es),
        total == spec_total_packed_prefix(es, es.len() as int),
        total <= bs,
        bs < 0x1_0000,
        es.len() >= 1,
        0 <= i < es.len(),
    ensures
        spec_dir_bytes(es, bs).subrange(spec_total_packed_prefix(es, i), bs)
            == spec_dir_bytes_from(es, i, total, bs),
    decreases i,
{
    lemma_dir_bytes_from_len(es, 0, total, bs);
    let data = spec_dir_bytes(es, bs);
    if i == 0 {
        assert(data.subrange(0, bs) =~= data);
    } else {
        lemma_dir_bytes_suffix(es, i - 1, total, bs);
        lemma_dir_bytes_from_len(es, i - 1, total, bs);
        lemma_dir_bytes_from_len(es, i, total, bs);
        lemma_packed_size(es[i - 1]);
        lemma_total_prefix_step_bound(es, i - 1, total);
        let p = spec_total_packed_prefix(es, i - 1);
        let e_len = spec_packed_u16(es[i - 1]) as int;
        let suffix_prev = spec_dir_bytes_from(es, i - 1, total, bs);
        let suffix = spec_dir_bytes_from(es, i, total, bs);
        assert(suffix_prev.len() == e_len + suffix.len());
        assert forall|j: int| 0 <= j < suffix.len() implies data[p + e_len + j] == suffix[j] by {
            assert(data.subrange(p, bs)[e_len + j] == data[p + e_len + j]);
            assert(suffix_prev[e_len + j] == suffix[j]);
        }
        assert(data.subrange(p + e_len, bs) =~= suffix);
    }
}

/// Parsing the block a well-formed entry list serialises to gives back
/// the entries, in order: the same inode numbers, name lengths, file
/// types and names, each record length recomputed by the serialiser.
pub proof fn lemma_dir_bytes_parse_back(es: Seq<DirEntryView>, bs: int)
    requires
        spec_entries_well_formed(es),
        es.len() >= 1,
        spec_total_packed_prefix(es, es.len() as int) <= bs,
        bs < 0x1_0000,
    ensures
        ({
            let parsed = spec_dir_entries(spec_dir_bytes(es, bs), 0);
            &&& parsed.len() == es.len()
            &&& forall|i: int|
                0 <= i < es.len() ==> (#[trigger] parsed[i]).0 == es[i].0 && parsed[i].2
                    == es[i].2 && parsed[i].3 == es[i].3 && parsed[i].4 == es[i].4
        }),
{
    let total = spec_total_packed_prefix(es, es.len() as int);
    lemma_dir_walk_from(es, 0, total, bs);
    assert(spec_dir_off(es, 0, total, bs) == 0) by {
        assert(spec_total_packed_prefix(es, 0) == 0);
    }
}

/// The record length the serialiser gives entry `i`: its packed size,
/// except for the last entry, which stretches to the end of the block
/// unless the entries overflow it.
pub open spec fn spec_rec_at(es: Seq<DirEntryView>, i: int, total: int, bs: int) -> int {
    let packed = spec_packed_u16(es[i]) as int;
    if i == es.len() - 1 {
        if total > bs {
            packed
        } else {
            bs - (total - packed)
        }
    } else {
        packed
    }
}

/// The byte offset where entry `i` starts in the serialised block;
/// past the last entry it is the end of the block.
pub open spec fn spec_dir_off(es: Seq<DirEntryView>, i: int, total: int, bs: int) -> int {
    if i >= es.len() {
        bs
    } else {
        spec_total_packed_prefix(es, i)
    }
}

/// One step of the walk over the serialised block: at the offset where
/// entry `i` starts, the walk reads back entry `i` and continues where
/// entry `i + 1` starts.
#[verifier::rlimit(100)]
#[verifier::spinoff_prover]
proof fn lemma_dir_walk_step(es: Seq<DirEntryView>, i: int, total: int, bs: int)
    requires
        spec_entries_well_formed(es),
        total == spec_total_packed_prefix(es, es.len() as int),
        total <= bs,
        bs < 0x1_0000,
        es.len() >= 1,
        0 <= i < es.len(),
    ensures
        ({
            let data = spec_dir_bytes(es, bs);
            let p = spec_total_packed_prefix(es, i);
            let rec = spec_rec_at(es, i, total, bs);
            &&& p + rec == spec_dir_off(es, i + 1, total, bs)
            &&& spec_dir_entries(data, p) == seq![
                (es[i].0, rec as u16, es[i].2, es[i].3, es[i].4),
            ] + spec_dir_entries(data, p + rec)
        }),
{
    lemma_dir_bytes_from_len(es, 0, total, bs);
    lemma_dir_bytes_suffix(es, i, total, bs);
    lemma_dir_bytes_from_len(es, i, total, bs);
    lemma_dir_bytes_from_len(es, i + 1, total, bs);
    lemma_packed_size(es[i]);
    lemma_total_prefix_step_bound(es, i, total);

    let data = spec_dir_bytes(es, bs);
    let e = es[i];
    let p = spec_total_packed_prefix(es, i);
    let packed = spec_packed_u16(e) as int;
    let rec = spec_rec_at(es, i, total, bs);
    if i == es.len() - 1 {
        lemma_suffix_total(es, i, total);
    }
    let nb = vstd::utf8::encode_utf8(e.4);
    let recu = (rec % 0x1_0000) as u16;
    let ebytes = spec_entry_bytes(e.0, recu, e.2, e.3, nb);
    let suffix = spec_dir_bytes_from(es, i, total, bs);
    let suffix_next = spec_dir_bytes_from(es, i + 1, total, bs);
    assert(suffix == ebytes + suffix_next);
    assert(ebytes.len() == rec);
    assert(recu == rec);

    // The bytes of entry `i` inside the whole block
    assert forall|j: int| 0 <= j < rec implies data[p + j] == ebytes[j] by {
        assert(data.subrange(p, bs)[j] == data[p + j]);
        assert(suffix[j] == ebytes[j]);
    }
    assert(data.subrange(p, p + rec) =~= ebytes);

    lemma_entry_bytes_parse_back(e.0, recu, e.2, e.3, e.4);
    assert(le32(data, p) == le32(ebytes, 0));
    assert(le16(data, p + 4) == le16(ebytes, 4));
    assert(data[p + 6] == ebytes[6]);
    assert(data[p + 7] == ebytes[7]);
    assert(data.subrange(p + 8, p + 8 + e.2) =~= ebytes.subrange(8, 8 + e.2));
    assert(vstd::utf8::decode_utf8(data.subrange(p + 8, p + 8 + e.2)) == e.4);

    assert(spec_dir_entries(data, p) == seq![(e.0, rec as u16, e.2, e.3, e.4)]
        + spec_dir_entries(data, p + rec));
    assert(p + rec == spec_dir_off(es, i + 1, total, bs));
}

/// The walk of the serialised block, started where entry `i` begins,
/// yields exactly the serialised entries from `i` on.
#[verifier::rlimit(100)]
#[verifier::spinoff_prover]
proof fn lemma_dir_walk_from(es: Seq<DirEntryView>, i: int, total: int, bs: int)
    requires
        spec_entries_well_formed(es),
        total == spec_total_packed_prefix(es, es.len() as int),
        total <= bs,
        bs < 0x1_0000,
        es.len() >= 1,
        0 <= i <= es.len(),
    ensures
        ({
            let data = spec_dir_bytes(es, bs);
            let parsed = spec_dir_entries(data, spec_dir_off(es, i, total, bs));
            &&& parsed.len() == es.len() - i
            &&& forall|k: int|
                0 <= k < parsed.len() ==> (#[trigger] parsed[k]).0 == es[i + k].0 && parsed[k].2
                    == es[i + k].2 && parsed[k].3 == es[i + k].3 && parsed[k].4 == es[i + k].4
        }),
    decreases es.len() - i,
{
    let data = spec_dir_bytes(es, bs);
    if i == es.len() {
        lemma_dir_bytes_from_len(es, 0, total, bs);
        assert(spec_dir_entries(data, bs) == Seq::<DirEntryView>::empty());
    } else {
        lemma_dir_walk_from(es, i + 1, total, bs);
        let off_rec = if i + 1 == es.len() {
            bs
        } else {
            spec_total_packed_prefix(es, i + 1)
        };
        let parsed_next = spec_dir_entries(data, off_rec);
        assert(parsed_next.len() == es.len() - (i + 1));
        assert(forall|m: int|
            0 <= m < parsed_next.len() ==> (#[trigger] parsed_next[m]).0 == es[i + 1 + m].0
                && parsed_next[m].2 == es[i + 1 + m].2 && parsed_next[m].3 == es[i + 1 + m].3
                && parsed_next[m].4 == es[i + 1 + m].4);
        lemma_dir_walk_step(es, i, total, bs);
        let p = spec_total_packed_prefix(es, i);
        let rec = spec_rec_at(es, i, total, bs);
        let off_next = if i + 1 == es.len() {
            bs
        } else {
            spec_total_packed_prefix(es, i + 1)
        };
        let parsed = spec_dir_entries(data, p);
        let rest = spec_dir_entries(data, off_next);
        assert(p + rec == off_next);
        assert(parsed == seq![(es[i].0, rec as u16, es[i].2, es[i].3, es[i].4)] + rest);
        assert(parsed.len() == 1 + rest.len());
        assert forall|k: int|
            0 <= k < parsed.len() implies (#[trigger] parsed[k]).0 == es[i + k].0 && parsed[k].2
                == es[i + k].2 && parsed[k].3 == es[i + k].3 && parsed[k].4 == es[i + k].4 by {
            if k == 0 {
                assert(parsed[0] == (es[i].0, rec as u16, es[i].2, es[i].3, es[i].4));
            } else {
                assert(parsed[k] == rest[k - 1]);
                assert(rest[k - 1].0 == es[i + 1 + (k - 1)].0 && rest[k - 1].2 == es[i + 1 + (k
                    - 1)].2 && rest[k - 1].3 == es[i + 1 + (k - 1)].3 && rest[k - 1].4 == es[i + 1
                    + (k - 1)].4);
            }
        }
    }
}

/// One serialised entry: the header fields little-endian, the name's
/// UTF-8 bytes, and zero padding out to `rec_len`.
fn entry_to_bytes_with_rec_len(entry: &DirectoryEntry, rec_len: u16) -> (r: Vec<u8>)
    ensures
        r@ == spec_entry_bytes(
            entry.ino,
            rec_len,
            entry.name_len,
            entry.file_type,
            vstd::utf8::encode_utf8(entry.name@),
        ),
{
    let ghost name_bytes = vstd::utf8::encode_utf8(entry.name@);
    let ghost body = crate::le::u32_le_bytes(entry.ino) + crate::le::u16_le_bytes(rec_len) + seq![
        entry.name_len,
        entry.file_type,
    ] + name_bytes;

    let mut data: Vec<u8> = Vec::new();

    // Inode number (4 bytes)
    data.push((entry.ino % 0x100) as u8);
    data.push(((entry.ino / 0x100) % 0x100) as u8);
    data.push(((entry.ino / 0x1_0000) % 0x100) as u8);
    data.push(((entry.ino / 0x100_0000) % 0x100) as u8);

    // Record length (2 bytes) - this is the total length of this entry
    data.push((rec_len % 0x100) as u8);
    data.push(((rec_len / 0x100) % 0x100) as u8);

    // Name length (1 byte)
    data.push(entry.name_len);

    // File type (1 byte)
    data.push(entry.file_type);

    // Name
    let nb = entry.name.as_str().as_bytes();
    let m = nb.len();
    proof {
        assert(body.len() == 8 + name_bytes.len());
        assert forall|j: int| 0 <= j < name_bytes.len() implies body[8 + j] == name_bytes[j] by {}
        assert(data@ =~= body.subrange(0, 8));
    }
    let mut i: usize = 0;
    while i < m
        invariant
            0 <= i <= m,
            m == nb@.len(),
            nb@ == name_bytes,
            body.len() == 8 + m,
            forall|j: int| 0 <= j < m ==> body[8 + j] == nb@[j],
            data@.len() == 8 + i,
            data@ == body.subrange(0, 8 + i),
        decreases m - i,
    {
        data.push(nb[i]);
        proof {
            assert(data@ =~= body.subrange(0, 8 + i + 1));
        }
        i += 1;
    }
    proof {
        assert(body.subrange(0, body.len() as int) =~= body);
    }

    // Padding to fill up to rec_len
    while data.len() < rec_len as usize
        invariant
            data@.len() >= body.len(),
            data@.subrange(0, body.len() as int) == body,
            forall|j: int| body.len() <= j < data@.len() ==> data@[j] == 0u8,
            data@.len() <= body.len() || data@.len() <= rec_len,
        decreases rec_len as int - data@.len(),
    {
        data.push(0);
        proof {
            assert(data@.subrange(0, body.len() as int) =~= body);
        }
    }

    proof {
        let target = spec_entry_bytes(
            entry.ino,
            rec_len,
            entry.name_len,
            entry.file_type,
            name_bytes,
        );
        assert(data@ =~= target);
    }
    data
}

/// Whether two strings hold the same characters, compared byte-wise
/// through their UTF-8 encodings.
pub fn str_eq(a: &str, b: &str) -> (r: bool)
    ensures
        r == (a@ == b@),
{
    let r = crate::le::bytes_eq(a.as_bytes(), b.as_bytes());
    proof {
        vstd::utf8::encode_utf8_decode_utf8(a@);
        vstd::utf8::encode_utf8_decode_utf8(b@);
    }
    r
}

} // verus!
