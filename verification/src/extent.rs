//! Ext4 extent support
//!
//! Ext4 maps file data through extent trees instead of direct/indirect
//! blocks when the extents incompatible feature is enabled.

use vstd::prelude::*;

use crate::device::BlockDevice;
use crate::le::{le16, le32};
use crate::{Ext4Error, Ext4FileSystem, Ext4Result};

verus! {

/// The deepest extent tree the search will follow. Trees deeper than
/// this (or cyclic chains of index blocks) are rejected as not found.
pub const EXTENT_DEPTH_LIMIT: u32 = 5;

/// Extent header structure
#[derive(Debug, Clone, Copy, PartialEq, Eq, Structural)]
pub struct ExtentHeader {
    /// Magic number (0xF30A)
    pub magic: u16,
    /// Number of valid entries
    pub entries: u16,
    /// Maximum number of entries
    pub max_entries: u16,
    /// Depth of extent tree
    pub depth: u16,
    /// Generation
    pub generation: u32,
}

/// Extent structure for leaf nodes
#[derive(Debug, Clone, Copy, PartialEq, Eq, Structural)]
pub struct Extent {
    /// First logical block
    pub block: u32,
    /// Number of blocks covered by this extent
    pub len: u16,
    /// Starting physical block
    pub start: u32,
}

/// Extent index structure for internal nodes
#[derive(Debug, Clone, Copy, PartialEq, Eq, Structural)]
pub struct ExtentIndex {
    /// First logical block covered by this index
    pub block: u32,
    /// Leaf node block number
    pub leaf: u32,
}

/// Extent node (either leaf or index)
#[derive(Debug, Clone)]
pub enum ExtentNode {
    /// Leaf node with extents
    Leaf(Vec<Extent>),
    /// Internal node with indices
    Index(Vec<ExtentIndex>),
}

/// The header fields encoded at the start of an extent node.
pub open spec fn spec_extent_header(data: Seq<u8>) -> ExtentHeader {
    ExtentHeader {
        magic: le16(data, 0) as u16,
        entries: le16(data, 2) as u16,
        max_entries: le16(data, 4) as u16,
        depth: le16(data, 6) as u16,
        generation: le32(data, 8) as u32,
    }
}

/// The 12-byte extent record at offset `off`.
pub open spec fn spec_extent_at(data: Seq<u8>, off: int) -> Extent {
    Extent {
        block: le32(data, off) as u32,
        len: le16(data, off + 4) as u16,
        start: le32(data, off + 6) as u32,
    }
}

/// The 12-byte extent index record at offset `off`.
pub open spec fn spec_extent_index_at(data: Seq<u8>, off: int) -> ExtentIndex {
    ExtentIndex { block: le32(data, off) as u32, leaf: le32(data, off + 4) as u32 }
}

/// How many 12-byte records of the declared `entries` fit after the header.
pub open spec fn spec_record_count(len: int, entries: int) -> int
    recommends
        len >= 12,
{
    let capacity = (len - 12) / 12;
    if entries <= capacity {
        entries
    } else {
        capacity
    }
}

impl ExtentHeader {
    /// Parse extent header from bytes
    pub fn from_bytes(data: &[u8]) -> (r: Ext4Result<Self>)
        ensures
            data.len() < 12 ==> r == Ext4Result::<Self>::Err(Ext4Error::InvalidInput),
            data.len() >= 12 && le16(data@, 0) != 0xF30A ==> r == Ext4Result::<Self>::Err(
                Ext4Error::InvalidInput,
            ),
            data.len() >= 12 && le16(data@, 0) == 0xF30A ==> r is Ok && r.get_Ok_0()
                == spec_extent_header(data@),
    {
        if data.len() < 12 {
            return Err(Ext4Error::InvalidInput);
        }

        let magic = crate::le::read_u16(data, 0);
        if magic != 0xF30A {
            return Err(Ext4Error::InvalidInput);
        }

        Ok(
            Self {
                magic,
                entries: crate::le::read_u16(data, 2),
                max_entries: crate::le::read_u16(data, 4),
                depth: crate::le::read_u16(data, 6),
                generation: crate::le::read_u32(data, 8),
            },
        )
    }

    /// Check if this is a leaf node
    pub fn is_leaf(&self) -> (r: bool)
        ensures
            r == (self.depth == 0),
    {
        self.depth == 0
    }
}

impl Extent {
    /// Parse extent from bytes
    pub fn from_bytes(data: &[u8]) -> (r: Ext4Result<Self>)
        ensures
            data.len() < 12 ==> r == Ext4Result::<Self>::Err(Ext4Error::InvalidInput),
            data.len() >= 12 ==> r is Ok && r.get_Ok_0() == spec_extent_at(data@, 0),
    {
        if data.len() < 12 {
            return Err(Ext4Error::InvalidInput);
        }

        Ok(
            Self {
                block: crate::le::read_u32(data, 0),
                len: crate::le::read_u16(data, 4),
                start: crate::le::read_u32(data, 6),
            },
        )
    }
}

impl ExtentIndex {
    /// Parse extent index from bytes
    pub fn from_bytes(data: &[u8]) -> (r: Ext4Result<Self>)
        ensures
            data.len() < 12 ==> r == Ext4Result::<Self>::Err(Ext4Error::InvalidInput),
            data.len() >= 12 ==> r is Ok && r.get_Ok_0() == spec_extent_index_at(data@, 0),
    {
        if data.len() < 12 {
            return Err(Ext4Error::InvalidInput);
        }

        Ok(Self { block: crate::le::read_u32(data, 0), leaf: crate::le::read_u32(data, 4) })
    }
}

/// Parse an extent node from bytes
pub fn parse_extent_node(data: &[u8]) -> (r: Ext4Result<ExtentNode>)
    ensures
        data.len() < 12 ==> r == Ext4Result::<ExtentNode>::Err(Ext4Error::InvalidInput),
        data.len() >= 12 && le16(data@, 0) != 0xF30A ==> r == Ext4Result::<ExtentNode>::Err(
            Ext4Error::InvalidInput,
        ),
        data.len() >= 12 && le16(data@, 0) == 0xF30A ==> r is Ok && ({
            let h = spec_extent_header(data@);
            let count = spec_record_count(data.len() as int, h.entries as int);
            if h.depth == 0 {
                r.get_Ok_0() matches ExtentNode::Leaf(es) && es@ == Seq::new(
                    count as nat,
                    |i: int| spec_extent_at(data@, 12 + 12 * i),
                )
            } else {
                r.get_Ok_0() matches ExtentNode::Index(is) && is@ == Seq::new(
                    count as nat,
                    |i: int| spec_extent_index_at(data@, 12 + 12 * i),
                )
            }
        }),
{
    let header = match ExtentHeader::from_bytes(data) {
        Ok(h) => h,
        Err(e) => {
            return Err(e);
        },
    };

    let ghost count = spec_record_count(data.len() as int, header.entries as int);

    let capacity = (data.len() - 12) / 12;
    let limit: usize = if (header.entries as usize) < capacity {
        header.entries as usize
    } else {
        capacity
    };
    proof {
        assert(limit == count);
    }

    if header.is_leaf() {
        // Parse leaf extents
        let mut extents: Vec<Extent> = Vec::new();
        let mut i: usize = 0;
        while i < limit
            invariant
                data.len() >= 12,
                header == spec_extent_header(data@),
                count == spec_record_count(data.len() as int, header.entries as int),
                limit == count,
                limit <= capacity,
                capacity == (data.len() - 12) / 12,
                0 <= i <= limit,
                extents@.len() == i,
                forall|k: int|
                    0 <= k < i ==> extents@[k] == spec_extent_at(data@, 12 + 12 * k),
            decreases limit - i,
        {
            proof {
                assert(12 + 12 * (i as int) + 12 <= data.len() as int) by (nonlinear_arith)
                    requires
                        0 <= i as int,
                        (i as int) < (data.len() as int - 12) / 12,
                        data.len() >= 12,
                ;
            }
            let offset = 12 + 12 * i;
            let chunk = vstd::slice::slice_subrange(data, offset, offset + 12);
            let extent = match Extent::from_bytes(chunk) {
                Ok(e) => e,
                Err(e) => {
                    return Err(e);
                },
            };
            proof {
                assert(chunk@ == data@.subrange(offset as int, offset as int + 12));
                assert(extent == spec_extent_at(data@, 12 + 12 * i));
            }
            extents.push(extent);
            i += 1;
        }
        proof {
            assert(extents@ =~= Seq::new(count as nat, |k: int| spec_extent_at(data@, 12 + 12 * k)));
        }
        Ok(ExtentNode::Leaf(extents))
    } else {
        // Parse index entries
        let mut indices: Vec<ExtentIndex> = Vec::new();
        let mut i: usize = 0;
        while i < limit
            invariant
                data.len() >= 12,
                header == spec_extent_header(data@),
                count == spec_record_count(data.len() as int, header.entries as int),
                limit == count,
                limit <= capacity,
                capacity == (data.len() - 12) / 12,
                0 <= i <= limit,
                indices@.len() == i,
                forall|k: int|
                    0 <= k < i ==> indices@[k] == spec_extent_index_at(data@, 12 + 12 * k),
            decreases limit - i,
        {
            proof {
                assert(12 + 12 * (i as int) + 12 <= data.len() as int) by (nonlinear_arith)
                    requires
                        0 <= i as int,
                        (i as int) < (data.len() as int - 12) / 12,
                        data.len() >= 12,
                ;
            }
            let offset = 12 + 12 * i;
            let chunk = vstd::slice::slice_subrange(data, offset, offset + 12);
            let index = match ExtentIndex::from_bytes(chunk) {
                Ok(e) => e,
                Err(e) => {
                    return Err(e);
                },
            };
            proof {
                assert(chunk@ == data@.subrange(offset as int, offset as int + 12));
                assert(index == spec_extent_index_at(data@, 12 + 12 * i));
            }
            indices.push(index);
            i += 1;
        }
        proof {
            assert(indices@ =~= Seq::new(
                count as nat,
                |k: int| spec_extent_index_at(data@, 12 + 12 * k),
            ));
        }
        Ok(ExtentNode::Index(indices))
    }
}

/// The result of scanning a leaf's extents from index `i` for `logical`:
/// the physical block of the first extent whose run covers it.
pub open spec fn spec_leaf_scan(es: Seq<Extent>, logical: u32, i: int) -> Option<u32>
    decreases es.len() - i,
{
    if i < 0 || i >= es.len() {
        None
    } else {
        let e = es[i];
        if logical >= e.block && (logical as int) < e.block + e.len {
            Some((((e.start + logical - e.block) as int % 0x1_0000_0000) as u32))
        } else {
            spec_leaf_scan(es, logical, i + 1)
        }
    }
}

/// The physical block an extent tree rooted in device block `blk` maps
/// `logical` to, following at most `fuel` levels of index nodes; `None`
/// for an unmapped block, a malformed node, or an exhausted `fuel`.
pub open spec fn spec_node_lookup(contents: Seq<Seq<u8>>, blk: u32, logical: u32, fuel: nat) -> Option<
    u32,
>
    decreases fuel, 1nat, 0nat,
{
    if fuel == 0 {
        None
    } else {
        let data = contents[blk as int];
        if data.len() < 12 || le16(data, 0) != 0xF30A {
            None
        } else {
            let h = spec_extent_header(data);
            let count = spec_record_count(data.len() as int, h.entries as int);
            if h.depth == 0 {
                spec_leaf_scan(
                    Seq::new(count as nat, |i: int| spec_extent_at(data, 12 + 12 * i)),
                    logical,
                    0,
                )
            } else {
                spec_index_scan(
                    contents,
                    Seq::new(count as nat, |i: int| spec_extent_index_at(data, 12 + 12 * i)),
                    logical,
                    0,
                    fuel,
                )
            }
        }
    }
}

/// The result of scanning an index node's records from `i`: the lookup
/// continues in the child of the first record whose range covers `logical`.
pub open spec fn spec_index_scan(
    contents: Seq<Seq<u8>>,
    is: Seq<ExtentIndex>,
    logical: u32,
    i: int,
    fuel: nat,
) -> Option<u32>
    decreases fuel, 0nat, is.len() - i,
{
    if i < 0 || i >= is.len() || fuel == 0 {
        None
    } else {
        let next: int = if i + 1 < is.len() {
            is[i + 1].block as int
        } else {
            0xFFFF_FFFFint
        };
        if logical >= is[i].block && (logical as int) < next {
            spec_node_lookup(contents, is[i].leaf, logical, (fuel - 1) as nat)
        } else {
            spec_index_scan(contents, is, logical, i + 1, fuel)
        }
    }
}

/// The inline lookup in the root extent node embedded in the inode's
/// block array, scanning up to four extents from entry `i`.
pub open spec fn spec_inline_scan(block: Seq<u32>, logical: u32, i: int, entries: int) -> Option<
    u32,
>
    decreases 4 - i,
{
    if i < 0 || i >= entries || i >= 4 {
        None
    } else {
        let idx = 1 + i * 3;
        let eb = block[idx];
        let elen = (block[idx + 1] & 0xFFFF) as u16;
        let start_hi = ((block[idx + 1] >> 16u32) & 0xFFFF) as u16;
        let start = ((start_hi as u32) << 16u32) | block[idx + 2];
        if elen == 0 && logical == 0 {
            Some(eb)
        } else if logical >= eb && elen > 0 && (logical as int) < eb + elen {
            Some((((start + logical - eb) as int % 0x1_0000_0000) as u32))
        } else {
            spec_inline_scan(block, logical, i + 1, entries)
        }
    }
}

/// The lookup through an extent root that lies inline in the inode's
/// block array (its first 16 bits hold the extent magic).
pub open spec fn spec_inline_extent_lookup(block: Seq<u32>, logical: u32) -> Option<u32> {
    let entries = ((block[0] >> 16u32) & 0xFFFF) as int;
    spec_inline_scan(block, logical, 0, entries)
}

/// Find physical block for a given logical block in an extent tree
pub fn find_block_in_extent_tree<D: BlockDevice>(
    fs: &mut Ext4FileSystem<D>,
    inode_block: &[u32; 15],
    logical_block: u32,
) -> (r: Ext4Result<u32>)
    ensures
        Ext4FileSystem::<D>::same_shape(*old(fs), *final(fs)),
        final(fs).device.contents() == old(fs).device.contents(),
        r is Err ==> r == Ext4Result::<u32>::Err(Ext4Error::BlockNotFound) || r == Ext4Result::<
            u32,
        >::Err(Ext4Error::InvalidInput) || r == Ext4Result::<u32>::Err(Ext4Error::IoError),
        (inode_block@[0] & 0xFFFF) == 0xF30A ==> r == (match spec_inline_extent_lookup(
            inode_block@,
            logical_block,
        ) {
            Some(b) => Ext4Result::<u32>::Ok(b),
            None => Ext4Result::<u32>::Err(Ext4Error::BlockNotFound),
        }),
        (inode_block@[0] & 0xFFFF) != 0xF30A && inode_block@[0] == 0 ==> r
            == Ext4Result::<u32>::Err(Ext4Error::BlockNotFound),
        (inode_block@[0] & 0xFFFF) != 0xF30A && inode_block@[0] != 0 && r is Ok
            ==> spec_node_lookup(
            old(fs).device.contents(),
            inode_block@[0],
            logical_block,
            EXTENT_DEPTH_LIMIT as nat,
        ) == Some(r.get_Ok_0()),
{
    // When extents are enabled the first block array word is either the
    // inline extent header or the block number of the root extent node.
    let extent_root = inode_block[0];

    // Check if this is an inline extent (magic in first 2 bytes)
    if (extent_root & 0xFFFF) == 0xF30A {
        // This is an inline extent - extract from inode block array
        let entries = ((extent_root >> 16u32) & 0xFFFF) as u16;

        proof {
            let v = inode_block@[0];
            assert(((v >> 16u32) & 0xFFFF) <= 0xFFFF) by (bit_vector);
        }

        let mut i: u16 = 0;
        let bound: u16 = if entries < 4 {
            entries
        } else {
            4
        };
        while i < bound
            invariant
                bound == (if entries < 4 {
                    entries
                } else {
                    4u16
                }),
                0 <= i <= bound,
                (inode_block@[0] & 0xFFFF) == 0xF30A,
                entries == ((inode_block@[0] >> 16u32) & 0xFFFF) as u16,
                spec_inline_scan(inode_block@, logical_block, i as int, entries as int)
                    == spec_inline_extent_lookup(inode_block@, logical_block),
                Ext4FileSystem::<D>::same_shape(*old(fs), *fs),
                fs.device.contents() == old(fs).device.contents(),
            decreases bound - i,
        {
            let idx = (1 + i * 3) as usize;
            proof {
                let w = inode_block@[idx as int + 1];
                assert((w & 0xFFFF) <= 0xFFFF) by (bit_vector);
                assert(((w >> 16u32) & 0xFFFF) <= 0xFFFF) by (bit_vector);
            }
            let block = inode_block[idx];
            let len = (inode_block[idx + 1] & 0xFFFF) as u16;
            let start_hi = ((inode_block[idx + 1] >> 16u32) & 0xFFFF) as u16;
            let start_lo = inode_block[idx + 2];
            let start = ((start_hi as u32) << 16u32) | start_lo;

            if len == 0 {
                // An uninitialised extent: fall back to treating its
                // first field as the mapped block for logical 0.
                if logical_block == 0 {
                    return Ok(block);
                }
            }

            if logical_block >= block && len > 0 && (logical_block as u64) < block as u64
                + len as u64 {
                let phys: u64 = (start as u64 + (logical_block - block) as u64)
                    % 0x1_0000_0000u64;
                return Ok(phys as u32);
            }

            i += 1;
        }
        return Err(Ext4Error::BlockNotFound);
    }

    // For larger files, the extent tree root is stored in its own block,
    // whose number is the first block array word.
    if extent_root == 0 {
        return Err(Ext4Error::BlockNotFound);
    }

    // Traverse the extent tree starting at the root block
    find_block_in_extent_node(fs, extent_root, logical_block, EXTENT_DEPTH_LIMIT)
}

/// Recursively search for a block in an extent node
fn find_block_in_extent_node<D: BlockDevice>(
    fs: &mut Ext4FileSystem<D>,
    block_num: u32,
    logical_block: u32,
    depth_left: u32,
) -> (r: Ext4Result<u32>)
    ensures
        Ext4FileSystem::<D>::same_shape(*old(fs), *final(fs)),
        final(fs).device.contents() == old(fs).device.contents(),
        r is Err ==> r == Ext4Result::<u32>::Err(Ext4Error::BlockNotFound) || r == Ext4Result::<
            u32,
        >::Err(Ext4Error::InvalidInput) || r == Ext4Result::<u32>::Err(Ext4Error::IoError),
        r is Ok ==> spec_node_lookup(
            old(fs).device.contents(),
            block_num,
            logical_block,
            depth_left as nat,
        ) == Some(r.get_Ok_0()),
    decreases depth_left,
{
    if depth_left == 0 {
        return Err(Ext4Error::BlockNotFound);
    }

    let mut buf = crate::le::zero_vec(fs.superblock.block_size as usize);
    match fs.read_block(block_num, &mut buf) {
        Ok(()) => (),
        Err(e) => {
            return Err(e);
        },
    }

    let node = match parse_extent_node(buf.as_slice()) {
        Ok(n) => n,
        Err(e) => {
            return Err(e);
        },
    };

    match node {
        ExtentNode::Leaf(extents) => {
            // Search through extents
            let ghost es = extents@;
            let n = extents.len();
            let mut i: usize = 0;
            while i < n
                invariant
                    n == es.len(),
                    extents@ == es,
                    0 <= i <= n,
                    spec_leaf_scan(es, logical_block, i as int) == spec_leaf_scan(
                        es,
                        logical_block,
                        0,
                    ),
                    spec_node_lookup(
                        old(fs).device.contents(),
                        block_num,
                        logical_block,
                        depth_left as nat,
                    ) == spec_leaf_scan(es, logical_block, 0),
                    Ext4FileSystem::<D>::same_shape(*old(fs), *fs),
                    fs.device.contents() == old(fs).device.contents(),
                decreases n - i,
            {
                let extent = extents[i];
                if logical_block >= extent.block && (logical_block as u64) < extent.block as u64
                    + extent.len as u64 {
                    let phys: u64 = (extent.start as u64 + (logical_block - extent.block) as u64)
                        % 0x1_0000_0000u64;
                    return Ok(phys as u32);
                }
                i += 1;
            }
            Err(Ext4Error::BlockNotFound)
        },
        ExtentNode::Index(indices) => {
            // Find the right index to follow
            let ghost is = indices@;
            let n = indices.len();
            let mut i: usize = 0;
            while i < n
                invariant
                    n == is.len(),
                    indices@ == is,
                    0 <= i <= n,
                    depth_left >= 1,
                    spec_index_scan(
                        old(fs).device.contents(),
                        is,
                        logical_block,
                        i as int,
                        depth_left as nat,
                    ) == spec_index_scan(
                        old(fs).device.contents(),
                        is,
                        logical_block,
                        0,
                        depth_left as nat,
                    ),
                    spec_node_lookup(
                        old(fs).device.contents(),
                        block_num,
                        logical_block,
                        depth_left as nat,
                    ) == spec_index_scan(
                        old(fs).device.contents(),
                        is,
                        logical_block,
                        0,
                        depth_left as nat,
                    ),
                    Ext4FileSystem::<D>::same_shape(*old(fs), *fs),
                    fs.device.contents() == old(fs).device.contents(),
                decreases n - i,
            {
                let index = indices[i];
                let next_logical: u32 = if i + 1 < n {
                    indices[i + 1].block
                } else {
                    0xFFFF_FFFF
                };

                if logical_block >= index.block && logical_block < next_logical {
                    // Recurse into child node
                    return find_block_in_extent_node(fs, index.leaf, logical_block, depth_left - 1);
                }
                i += 1;
            }
            Err(Ext4Error::BlockNotFound)
        },
    }
}

} // verus!
