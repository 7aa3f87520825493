//! An opened image: its super-blocks, the active base snapshot table, and
//! the three B+trees.

use vstd::prelude::*;
use crate::data_source::{le_u64, in_bounds, DataSource, DataPointer, DataSourceError};
use crate::layout::{
    FixedRecord, Vdfs4SuperBlocks, Vdfs4BaseTable, Vdfs4HeadBtreeNode, Vdfs4SnapshotDescriptor,
    is_base_table_signature, is_extended_table_signature,
};
use crate::layout::consts::{SUPER_PAGE_SIZE_DEFAULT, CRC32_SIZE, BtreeType};
use crate::btree::{BtreeError, VdfsBtree};
use crate::btree::catalog::CatalogTree;
use crate::btree::extent::ExtentTree;
use crate::btree::xattr::XattrTree;
use crate::vdfs_crc::{crc32_trailer_ok, has_valid_crc32_trailer};

verus! {

#[derive(Clone, Copy, Debug, PartialEq, Eq, Structural)]
pub enum VdfsError {
    BtreeError(BtreeError),
    DataSourceError(DataSourceError),
    BaseTableIsMissing,
    /// A logical block the resolver found in neither the fork nor the
    /// extent tree.
    FileBlockNotFound(u64),
    /// A logical block beyond the fork's block count.
    FileBlockOutOfRange(u64),
    /// An extent that maps a logical block outside the 64-bit block space.
    InvalidExtent(u64),
    DecompressionError,
    CompressedFileExtentWrongSignature,
    CannotDecompressFileWithoutCompression,
    CannotFindParentFolder,
    /// A feature of the format this decoder does not handle: LZO,
    /// encrypted chunks, orphan lists, unpack inodes.
    NotImplemented,
}

impl VdfsError {
    pub open spec fn spec_is_per_file(self) -> bool {
        match self {
            VdfsError::FileBlockNotFound(_) => true,
            VdfsError::FileBlockOutOfRange(_) => true,
            VdfsError::InvalidExtent(_) => true,
            VdfsError::DecompressionError => true,
            VdfsError::CompressedFileExtentWrongSignature => true,
            VdfsError::CannotDecompressFileWithoutCompression => true,
            VdfsError::CannotFindParentFolder => true,
            _ => false,
        }
    }

    /// The error ends the work on one file only; the others end the run.
    pub fn is_per_file(&self) -> (r: bool)
        ensures
            r == self.spec_is_per_file(),
    {
        match self {
            VdfsError::FileBlockNotFound(_) => true,
            VdfsError::FileBlockOutOfRange(_) => true,
            VdfsError::InvalidExtent(_) => true,
            VdfsError::DecompressionError => true,
            VdfsError::CompressedFileExtentWrongSignature => true,
            VdfsError::CannotDecompressFileWithoutCompression => true,
            VdfsError::CannotFindParentFolder => true,
            _ => false,
        }
    }
}

/// Size of a head node's free-space bitmap: the rest of the super-page
/// after the head node and the trailing CRC.
pub const BITMAP_SIZE_IN_BYTES: u64 = 16360;

/// A base table at `p` of `s` is valid: its signature is "CoWB" and the
/// bytes up to its checksum offset are followed by their CRC-32.
pub open spec fn base_table_valid(s: Seq<u8>, p: int) -> bool {
    let co = le_u64(s, p + 16);
    &&& in_bounds(s, p, 104)
    &&& is_base_table_signature(s.subrange(p, p + 4))
    &&& in_bounds(s, p, co + 4)
    &&& crc32_trailer_ok(s.subrange(p, p + co + 4))
}

/// The base table to use of two slots' tables: the one that is valid; of
/// two valid ones, the second where its (mount, sync) version is higher,
/// else the first.
pub open spec fn spec_select_base_table(
    first: Option<DataPointer<Vdfs4BaseTable>>,
    second: Option<DataPointer<Vdfs4BaseTable>>,
) -> Option<DataPointer<Vdfs4BaseTable>> {
    match (first, second) {
        (Some(a), Some(b)) => if a.data.descriptor.spec_is_older_than(b.data.descriptor) {
            Some(b)
        } else {
            Some(a)
        },
        (Some(a), None) => Some(a),
        (None, Some(b)) => Some(b),
        (None, None) => None,
    }
}

/// Of two valid base tables, the one chosen has a (mount, sync) version at
/// least that of the other, compared mount count first.
pub proof fn lemma_selected_base_table_is_newest(a: DataPointer<Vdfs4BaseTable>, b: DataPointer<Vdfs4BaseTable>)
    ensures
        spec_select_base_table(Some(a), Some(b)) matches Some(c) && (c == a || c == b) && {
            let other = if c == a { b } else { a };
            !c.data.descriptor.spec_is_older_than(other.data.descriptor)
        },
{
}

pub struct Vdfs<'a> {
    pub data_source: &'a DataSource,
    pub block_size: u64,
    pub super_blocks: Vdfs4SuperBlocks,
    pub bitmap_size_in_bytes: u64,
    pub current_base_table: Option<DataPointer<Vdfs4BaseTable>>,
    pub catalog_btree: Option<CatalogTree<'a>>,
    pub extent_btree: Option<ExtentTree<'a>>,
    pub xattr_btree: Option<XattrTree<'a>>,
}

impl<'a> Vdfs<'a> {
    pub open spec fn img(&self) -> Seq<u8> {
        self.data_source@
    }

    pub open spec fn wf(&self) -> bool {
        &&& self.super_blocks.decoded_from(self.img(), 0)
        &&& self.super_blocks.super_block.log_block_size < 64
        &&& self.block_size == vstd::arithmetic::power2::pow2(self.super_blocks.super_block.log_block_size as nat)
        &&& self.block_size > 0
        &&& self.bitmap_size_in_bytes == BITMAP_SIZE_IN_BYTES
        &&& self.current_base_table matches Some(t) ==> t.data.translation_table_offsets@.len() == 5
        &&& self.catalog_btree matches Some(t) ==> t.wf() && t.btree.data_source == self.data_source
        &&& self.extent_btree matches Some(t) ==> t.wf() && t.btree.data_source == self.data_source
    }

    /// Opens an image: reads the super-block region at offset 0 and takes
    /// the block size from the super-block.
    pub fn new(data_source: &'a DataSource) -> (r: Result<Vdfs<'a>, BtreeError>)
        ensures
            !in_bounds(data_source@, 0, 4096) ==> r == Err::<Vdfs<'a>, BtreeError>(
                BtreeError::DataSourceError(DataSourceError::ReadDataError),
            ),
            in_bounds(data_source@, 0, 4096) && data_source@[1188int] >= 64 ==> r == Err::<Vdfs<'a>, BtreeError>(
                BtreeError::InvalidNodeGeometry(data_source@[1188int], data_source@[1189int]),
            ),
            r is Ok <==> in_bounds(data_source@, 0, 4096) && data_source@[1188int] < 64,
            r matches Ok(v) ==> v.wf() && v.data_source == data_source && v.current_base_table is None
                && v.catalog_btree is None && v.extent_btree is None && v.xattr_btree is None,
    {
        let super_blocks: DataPointer<Vdfs4SuperBlocks> = match data_source.read_at(0) {
            Ok(s) => s,
            Err(e) => return Err(BtreeError::DataSourceError(e)),
        };
        let lbs = super_blocks.data.super_block.log_block_size;
        if lbs >= 64 {
            return Err(BtreeError::InvalidNodeGeometry(lbs, super_blocks.data.super_block.log_super_page_size));
        }
        proof {
            vstd::bits::lemma_u64_pow2_no_overflow(lbs as nat);
            vstd::bits::lemma_u64_shl_is_mul(1, lbs as u64);
        }
        let block_size: u64 = 1u64 << (lbs as u64);
        let bitmap_size_in_bytes = SUPER_PAGE_SIZE_DEFAULT - 20 - CRC32_SIZE as u64;
        Ok(Vdfs {
            data_source,
            block_size,
            super_blocks: super_blocks.data,
            bitmap_size_in_bytes,
            current_base_table: None,
            catalog_btree: None,
            extent_btree: None,
            xattr_btree: None,
        })
    }

    pub fn get_super_blocks(&self) -> (r: &Vdfs4SuperBlocks)
        ensures
            r == &self.super_blocks,
    {
        &self.super_blocks
    }

    /// `blocks` blocks in bytes; none where that overflows.
    pub fn blocks_to_bytes(&self, blocks: u64) -> (r: Option<u64>)
        ensures
            r is Some <==> self.block_size * blocks <= u64::MAX,
            r matches Some(b) ==> b == self.block_size * blocks,
    {
        self.block_size.checked_mul(blocks)
    }

    /// The head node of a tree whose super-page starts at block `extent_offset`.
    pub fn read_btree_head(&self, extent_offset: u64) -> (r: Result<DataPointer<Vdfs4HeadBtreeNode>, VdfsError>)
        ensures
            r is Ok <==> (self.block_size * extent_offset <= u64::MAX && in_bounds(
                self.img(),
                self.block_size * extent_offset,
                20,
            )),
            r matches Ok(h) ==> h.position == self.block_size * extent_offset && h.data.decoded_from(
                self.img(),
                h.position as int,
            ),
    {
        let position = match self.blocks_to_bytes(extent_offset) {
            Some(p) => p,
            None => return Err(VdfsError::DataSourceError(DataSourceError::ReadDataError)),
        };
        match self.data_source.read_at(position) {
            Ok(h) => Ok(h),
            Err(e) => Err(VdfsError::DataSourceError(e)),
        }
    }

    pub fn get_bitmap_size_in_bits(&self) -> (r: u64)
        requires
            self.wf(),
        ensures
            r == self.bitmap_size_in_bytes * 8,
    {
        self.bitmap_size_in_bytes * 8
    }

    /// Bit `bit_offset` of the free-space bitmap that follows the head node
    /// at block `extent_offset`.
    pub fn read_bitmap_bit(&self, extent_offset: u64, bit_offset: u64) -> (r: Result<bool, BtreeError>)
        requires
            self.wf(),
            bit_offset < self.bitmap_size_in_bytes * 8,
        ensures
            ({
                let p = self.block_size * extent_offset + 20 + bit_offset / 8;
                &&& r is Ok <==> (p <= u64::MAX && in_bounds(self.img(), p, 1))
                &&& r matches Ok(b) ==> b == ((self.img()[p] >> ((bit_offset % 8) as u8)) & 1u8 == 1u8)
            }),
    {
        let start = match self.blocks_to_bytes(extent_offset) {
            Some(p) => p,
            None => return Err(BtreeError::DataSourceError(DataSourceError::ReadDataError)),
        };
        let byte_offset_in_bitmap = bit_offset / 8;
        let bit_offset_in_byte = (bit_offset % 8) as u8;
        let position = match start.checked_add(20 + byte_offset_in_bitmap) {
            Some(p) => p,
            None => return Err(BtreeError::DataSourceError(DataSourceError::ReadDataError)),
        };
        let byte = match self.data_source.read_u8_at(position) {
            Ok(b) => b,
            Err(e) => return Err(BtreeError::DataSourceError(e)),
        };
        Ok((byte >> bit_offset_in_byte) & 1u8 == 1u8)
    }

    /// Byte position of base-table slot `index` (0 or 1): the tables extent
    /// is split in two equal halves.
    pub open spec fn spec_base_table_offset(&self, index: u32) -> int {
        let tables = self.super_blocks.ext_super_block.tables;
        self.block_size * tables.begin + index * ((self.block_size * tables.length) / 2)
    }

    fn get_base_table_offset(&self, index: u32) -> (r: Option<u64>)
        requires
            index < 2,
        ensures
            r is Some <==> (self.block_size * self.super_blocks.ext_super_block.tables.begin <= u64::MAX
                && self.block_size * self.super_blocks.ext_super_block.tables.length <= u64::MAX
                && self.spec_base_table_offset(index) <= u64::MAX),
            r matches Some(o) ==> o == self.spec_base_table_offset(index),
    {
        let tables = self.super_blocks.ext_super_block.tables;
        let length_in_bytes = self.blocks_to_bytes(tables.length)?;
        let first = self.blocks_to_bytes(tables.begin)?;
        if index == 0 {
            Some(first)
        } else {
            first.checked_add(length_in_bytes / 2)
        }
    }

    /// Reads the base table at `offset_in_bytes`; none where it is not valid.
    pub fn read_base_table(&self, offset_in_bytes: u64) -> (r: Result<Option<DataPointer<Vdfs4BaseTable>>, VdfsError>)
        ensures
            r is Err <==> (!in_bounds(self.img(), offset_in_bytes as int, 104) || (is_base_table_signature(
                self.img().subrange(offset_in_bytes as int, offset_in_bytes + 4),
            ) && !in_bounds(self.img(), offset_in_bytes as int, le_u64(self.img(), offset_in_bytes + 16) + 4))),
            r is Err ==> r == Err::<Option<DataPointer<Vdfs4BaseTable>>, VdfsError>(
                VdfsError::DataSourceError(DataSourceError::ReadDataError),
            ),
            r matches Ok(o) ==> (o is Some <==> base_table_valid(self.img(), offset_in_bytes as int)),
            r matches Ok(Some(t)) ==> t.position == offset_in_bytes && t.data.decoded_from(
                self.img(),
                offset_in_bytes as int,
            ),
    {
        let base_table: DataPointer<Vdfs4BaseTable> = match self.data_source.read_at(offset_in_bytes) {
            Ok(t) => t,
            Err(e) => return Err(VdfsError::DataSourceError(e)),
        };
        if !base_table.data.descriptor.is_base_table() {
            return Ok(None);
        }
        if self.check_crc32_of_snapshot_descriptor(base_table.position, &base_table.data.descriptor)? {
            Ok(Some(base_table))
        } else {
            Ok(None)
        }
    }

    /// The bytes of the table at `offset_in_bytes`, up to its checksum
    /// offset, are followed by their CRC-32.
    fn check_crc32_of_snapshot_descriptor(
        &self,
        offset_in_bytes: u64,
        snapshot_descriptor: &Vdfs4SnapshotDescriptor,
    ) -> (r: Result<bool, VdfsError>)
        ensures
            r is Ok <==> in_bounds(self.img(), offset_in_bytes as int, snapshot_descriptor.checksum_offset + 4),
            r is Err ==> r == Err::<bool, VdfsError>(VdfsError::DataSourceError(DataSourceError::ReadDataError)),
            r matches Ok(b) ==> b == crc32_trailer_ok(
                self.img().subrange(
                    offset_in_bytes as int,
                    offset_in_bytes + snapshot_descriptor.checksum_offset + 4,
                ),
            ),
    {
        let size = match snapshot_descriptor.checksum_offset.checked_add(CRC32_SIZE as u64) {
            Some(s) => s,
            None => {
                proof {
                    self.data_source.lemma_len_bound();
                }
                return Err(VdfsError::DataSourceError(DataSourceError::ReadDataError));
            },
        };
        let bytes = match self.data_source.read_bytes_at(offset_in_bytes, size) {
            Ok(b) => b,
            Err(e) => return Err(VdfsError::DataSourceError(e)),
        };
        Ok(has_valid_crc32_trailer(bytes.as_slice()))
    }

    /// Both slot offsets fit in 64 bits.
    pub open spec fn offsets_fit(&self) -> bool {
        &&& self.block_size * self.super_blocks.ext_super_block.tables.begin <= u64::MAX
        &&& self.block_size * self.super_blocks.ext_super_block.tables.length <= u64::MAX
        &&& self.spec_base_table_offset(1) <= u64::MAX
    }

    /// Reading the base table at `off` fails: the table, or the bytes its
    /// checksum covers, lie outside the image.
    pub open spec fn base_table_read_fails(&self, off: int) -> bool {
        !in_bounds(self.img(), off, 104) || (is_base_table_signature(self.img().subrange(off, off + 4))
            && !in_bounds(self.img(), off, le_u64(self.img(), off + 16) + 4))
    }

    /// Both slots can be read.
    pub open spec fn slots_readable(&self) -> bool {
        &&& self.offsets_fit()
        &&& !self.base_table_read_fails(self.spec_base_table_offset(0))
        &&& !self.base_table_read_fails(self.spec_base_table_offset(1))
    }

    /// `a` and `b` are what the two base-table slots hold: the decoded
    /// table where it is valid, none where it is not.
    pub open spec fn base_tables_read(
        &self,
        a: Option<DataPointer<Vdfs4BaseTable>>,
        b: Option<DataPointer<Vdfs4BaseTable>>,
    ) -> bool {
        &&& (a matches Some(t) ==> t.position == self.spec_base_table_offset(0) && base_table_valid(
            self.img(),
            t.position as int,
        ) && t.data.decoded_from(self.img(), t.position as int))
        &&& (b matches Some(t) ==> t.position == self.spec_base_table_offset(1) && base_table_valid(
            self.img(),
            t.position as int,
        ) && t.data.decoded_from(self.img(), t.position as int))
        &&& (a is None ==> !base_table_valid(self.img(), self.spec_base_table_offset(0)))
        &&& (b is None ==> !base_table_valid(self.img(), self.spec_base_table_offset(1)))
    }

    /// Reads both base-table slots.
    pub fn read_base_tables(&self) -> (r: Result<
        (Option<DataPointer<Vdfs4BaseTable>>, Option<DataPointer<Vdfs4BaseTable>>),
        VdfsError,
    >)
        ensures
            r is Err ==> r == Err::<
                (Option<DataPointer<Vdfs4BaseTable>>, Option<DataPointer<Vdfs4BaseTable>>),
                VdfsError,
            >(VdfsError::DataSourceError(DataSourceError::ReadDataError)),
            r is Ok <==> self.slots_readable(),
            r matches Ok((a, b)) ==> self.base_tables_read(a, b),
    {
        let first_offset = match self.get_base_table_offset(0) {
            Some(o) => o,
            None => return Err(VdfsError::DataSourceError(DataSourceError::ReadDataError)),
        };
        let second_offset = match self.get_base_table_offset(1) {
            Some(o) => o,
            None => return Err(VdfsError::DataSourceError(DataSourceError::ReadDataError)),
        };
        let first_table = self.read_base_table(first_offset)?;
        let second_table = self.read_base_table(second_offset)?;
        Ok((first_table, second_table))
    }

    /// Picks the base table to use (see `spec_select_base_table`).
    pub fn select_base_table(
        first: Option<DataPointer<Vdfs4BaseTable>>,
        second: Option<DataPointer<Vdfs4BaseTable>>,
    ) -> (r: Option<DataPointer<Vdfs4BaseTable>>)
        ensures
            r == spec_select_base_table(first, second),
    {
        match (first, second) {
            (Some(a), Some(b)) => if a.data.descriptor.is_older_than(&b.data.descriptor) {
                Some(b)
            } else {
                Some(a)
            },
            (Some(a), None) => Some(a),
            (None, Some(b)) => Some(b),
            (None, None) => None,
        }
    }

    /// Reads both base-table slots and makes the newest valid one current.
    pub fn init_current_base_table(&mut self) -> (r: Result<(), VdfsError>)
        requires
            old(self).wf(),
        ensures
            final(self).wf(),
            final(self).data_source == old(self).data_source,
            final(self).super_blocks == old(self).super_blocks,
            final(self).catalog_btree == old(self).catalog_btree,
            final(self).extent_btree == old(self).extent_btree,
            final(self).xattr_btree == old(self).xattr_btree,
            r is Ok <==> old(self).slots_readable() && (base_table_valid(old(self).img(), old(self).spec_base_table_offset(0))
                || base_table_valid(old(self).img(), old(self).spec_base_table_offset(1))),
            r == Err::<(), VdfsError>(VdfsError::BaseTableIsMissing) <==> old(self).slots_readable() && !base_table_valid(
                old(self).img(),
                old(self).spec_base_table_offset(0),
            ) && !base_table_valid(old(self).img(), old(self).spec_base_table_offset(1)),
            r is Err ==> final(self).current_base_table == old(self).current_base_table,
            r is Ok ==> final(self).current_base_table is Some && exists|
                a: Option<DataPointer<Vdfs4BaseTable>>,
                b: Option<DataPointer<Vdfs4BaseTable>>,
            | #[trigger] old(self).base_tables_read(a, b) && final(self).current_base_table == spec_select_base_table(a, b),
            r == Err::<(), VdfsError>(VdfsError::BaseTableIsMissing) ==> !base_table_valid(
                old(self).img(),
                old(self).spec_base_table_offset(0),
            ) && !base_table_valid(old(self).img(), old(self).spec_base_table_offset(1)),
    {
        let (first, second) = self.read_base_tables()?;
        match Self::select_base_table(first, second) {
            Some(t) => {
                self.current_base_table = Some(t);
                Ok(())
            },
            None => Err(VdfsError::BaseTableIsMissing),
        }
    }

    /// Opens the catalog, extent and xattr trees on the current base table.
    pub fn init_btrees(&mut self) -> (r: Result<(), VdfsError>)
        requires
            old(self).wf(),
        ensures
            final(self).wf(),
            final(self).data_source == old(self).data_source,
            final(self).current_base_table == old(self).current_base_table,
            final(self).super_blocks == old(self).super_blocks,
            old(self).current_base_table is None ==> r == Err::<(), VdfsError>(VdfsError::BaseTableIsMissing),
            old(self).current_base_table matches Some(t) ==> match VdfsBtree::spec_new_result(
                old(self).data_source,
                old(self).super_blocks,
                t,
                BtreeType::CatalogTree,
            ) {
                Err(e) => r == Err::<(), VdfsError>(VdfsError::BtreeError(e)),
                Ok(_) => match VdfsBtree::spec_new_result(old(self).data_source, old(self).super_blocks, t, BtreeType::ExtentsTree) {
                    Err(e) => r == Err::<(), VdfsError>(VdfsError::BtreeError(e)),
                    Ok(_) => match VdfsBtree::spec_new_result(old(self).data_source, old(self).super_blocks, t, BtreeType::XAttrTree) {
                        Err(e) => r == Err::<(), VdfsError>(VdfsError::BtreeError(e)),
                        Ok(_) => r is Ok,
                    },
                },
            },
            r is Err ==> final(self).catalog_btree == old(self).catalog_btree && final(self).extent_btree == old(self).extent_btree && final(self).xattr_btree == old(self).xattr_btree,
            r is Ok ==> (final(self).catalog_btree matches Some(c) && c.btree.base_table == old(self).current_base_table->Some_0
                && c.btree.data_source == old(self).data_source) && (final(self).extent_btree matches Some(x)
                && x.btree.base_table == old(self).current_base_table->Some_0) && (final(self).xattr_btree matches Some(x) && x.wf() && x.btree.base_table == old(self).current_base_table->Some_0),
    {
        let base_table = match self.current_base_table {
            Some(t) => t,
            None => return Err(VdfsError::BaseTableIsMissing),
        };
        let data_source = self.data_source;
        let catalog = match CatalogTree::new(data_source, &self.super_blocks, base_table) {
            Ok(t) => t,
            Err(e) => return Err(VdfsError::BtreeError(e)),
        };
        let extent = match ExtentTree::new(data_source, &self.super_blocks, base_table) {
            Ok(t) => t,
            Err(e) => return Err(VdfsError::BtreeError(e)),
        };
        let xattr = match XattrTree::new(data_source, &self.super_blocks, base_table) {
            Ok(t) => t,
            Err(e) => return Err(VdfsError::BtreeError(e)),
        };
        self.catalog_btree = Some(catalog);
        self.extent_btree = Some(extent);
        self.xattr_btree = Some(xattr);
        Ok(())
    }
}


/// Number of extended snapshot tables a base table may be followed by.
pub const VDFS4_SNAPSHOT_EXT_TABLES: u32 = 8;

/// Size of one extended snapshot table.
pub const VDFS4_SNAPSHOT_EXT_SIZE: u64 = 4096;

impl<'a> Vdfs<'a> {
    /// Position of the first extended table after a base table at `base`
    /// whose checksum lies at `co`: the base table and its CRC, rounded up
    /// to whole extended-table sizes.
    pub open spec fn spec_first_extended(base: int, co: int) -> int {
        base + ((co + 4 + 4095) / 4096) * 4096
    }

    /// How many valid extended tables follow from table `k` on (at most
    /// `VDFS4_SNAPSHOT_EXT_TABLES`), each `VDFS4_SNAPSHOT_EXT_SIZE` bytes
    /// after the one before: a table counts while its signature is "CoWE"
    /// and its CRC trailer matches; a table that cannot be read is an error.
    pub open spec fn spec_extended_count(&self, start: int, k: int) -> Result<u32, VdfsError>
        decreases 8 - k,
    {
        let p = start + 4096 * k;
        let img = self.img();
        if k >= 8 {
            Ok(8)
        } else if p > u64::MAX || !in_bounds(img, p, 24) {
            Err(VdfsError::DataSourceError(DataSourceError::ReadDataError))
        } else if !is_extended_table_signature(img.subrange(p, p + 4)) {
            Ok(k as u32)
        } else if !in_bounds(img, p, le_u64(img, p + 16) + 4) {
            Err(VdfsError::DataSourceError(DataSourceError::ReadDataError))
        } else if !crc32_trailer_ok(img.subrange(p, p + le_u64(img, p + 16) + 4)) {
            Ok(k as u32)
        } else {
            self.spec_extended_count(start, k + 1)
        }
    }

    /// Detects the extended tables that follow `base_table`: how many are
    /// present and valid. They are not applied.
    pub fn read_extended_tables(&self, base_table: &DataPointer<Vdfs4BaseTable>) -> (r: Result<u32, VdfsError>)
        ensures
            ({
                let start = Self::spec_first_extended(
                    base_table.position as int,
                    base_table.data.descriptor.checksum_offset as int,
                );
                if start > u64::MAX {
                    r == Err::<u32, VdfsError>(VdfsError::DataSourceError(DataSourceError::ReadDataError))
                } else {
                    r == self.spec_extended_count(start, 0)
                }
            }),
    {
        proof {
            self.data_source.lemma_len_bound();
        }
        let co = base_table.data.descriptor.checksum_offset;
        if co > u64::MAX - 4 - 4095 {
            return Err(VdfsError::DataSourceError(DataSourceError::ReadDataError));
        }
        let rounded = ((co + 4 + 4095) / VDFS4_SNAPSHOT_EXT_SIZE) * VDFS4_SNAPSHOT_EXT_SIZE;
        let start = match base_table.position.checked_add(rounded) {
            Some(p) => p,
            None => return Err(VdfsError::DataSourceError(DataSourceError::ReadDataError)),
        };
        let mut k: u32 = 0;
        while k < VDFS4_SNAPSHOT_EXT_TABLES
            invariant
                k <= 8,
                start as int == Self::spec_first_extended(
                    base_table.position as int,
                    base_table.data.descriptor.checksum_offset as int,
                ),
                self.spec_extended_count(start as int, 0) == self.spec_extended_count(start as int, k as int),
            decreases 8 - k,
        {
            let position = match start.checked_add(VDFS4_SNAPSHOT_EXT_SIZE * k as u64) {
                Some(p) => p,
                None => return Err(VdfsError::DataSourceError(DataSourceError::ReadDataError)),
            };
            let table: DataPointer<Vdfs4SnapshotDescriptor> = match self.data_source.read_at(position) {
                Ok(t) => t,
                Err(e) => return Err(VdfsError::DataSourceError(e)),
            };
            if !table.data.is_extended_table() {
                return Ok(k);
            }
            if !self.check_crc32_of_snapshot_descriptor(position, &table.data)? {
                return Ok(k);
            }
            k = k + 1;
        }
        Ok(k)
    }
}

} // verus!
