//! Record layouts of the VDFS4 format and their fixed-size decoders.
//!
//! Every record is stored little-endian, field after field, with no padding
//! and no length prefixes.

pub mod consts;

use vstd::prelude::*;
use crate::data_source::{le_u16, le_u32, le_u64, u8_at, u16_at, u32_at, u64_at, DataSource, DataPointer, DataSourceError, in_bounds};
use self::consts::{
    VDFS4_META_BTREE_EXTENTS, TranslationTableIndex, VDFS4_FILE_NAME_LEN, VDFS4_XATTR_NAME_MAX_LEN, SpecialInodeIds,
    CatalogTreeRecordType, FileType, VdfsFileFlags, VDFS4_EXTENTS_COUNT_IN_FORK, VdfsFileCompression,
    VdfsFileAuth, VdfsFileSignatureType, VDFS4_CHUNK_FLAG_UNCOMPR, VDFS4_CHUNK_FLAG_ENCRYPTED,
};
use core::cmp::Ordering;

verus! {

/// A record with a fixed encoded size and a decoder for it.
pub trait FixedRecord: Sized {
    /// Number of bytes the encoded record occupies.
    spec fn spec_size() -> nat;

    /// `self` is what the bytes of `s` at `p` decode to.
    spec fn decoded_from(self, s: Seq<u8>, p: int) -> bool;

    fn encoded_size() -> (r: usize)
        ensures
            r == Self::spec_size(),
    ;

    fn decode(b: &[u8], p: usize) -> (r: Self)
        requires
            p + Self::spec_size() <= b@.len(),
        ensures
            r.decoded_from(b@, p as int),
    ;
}

impl DataSource {
    /// Decodes the record that starts at `position`.
    pub fn read_at<T: FixedRecord>(&self, position: u64) -> (r: Result<DataPointer<T>, DataSourceError>)
        ensures
            r is Ok <==> in_bounds(self@, position as int, T::spec_size() as int),
            r matches Ok(d) ==> d.position == position && d.data.decoded_from(self@, position as int),
            r is Err ==> r->Err_0 == DataSourceError::ReadDataError,
    {
        let size = T::encoded_size();
        let b = self.as_slice();
        let len = b.len();
        if position <= len as u64 && size <= len - position as usize {
            let data = T::decode(b, position as usize);
            Ok(DataPointer { data, position })
        } else {
            Err(DataSourceError::ReadDataError)
        }
    }
}

/// Decodes the record that starts at `p` of a buffer, if it fits there.
pub fn deserialize<T: FixedRecord>(b: &[u8], p: usize) -> (r: Result<T, DataSourceError>)
    ensures
        r is Ok <==> p + T::spec_size() <= b@.len(),
        r matches Ok(d) ==> d.decoded_from(b@, p as int),
        r is Err ==> r->Err_0 == DataSourceError::DeserializeError,
{
    let size = T::encoded_size();
    if p <= b.len() && size <= b.len() - p {
        Ok(T::decode(b, p))
    } else {
        Err(DataSourceError::DeserializeError)
    }
}

/// A slice never holds more than `usize::MAX` elements.
pub proof fn lemma_slice_len<T>(b: &[T])
    ensures
        b@.len() <= usize::MAX,
{
    assert(b@.len() == b.len());
}

fn magic4_at(b: &[u8], p: usize) -> (r: [u8; 4])
    requires
        p + 4 <= b@.len(),
    ensures
        r@ == b@.subrange(p as int, p + 4),
{
    proof {
        lemma_slice_len(b);
    }
    let r = [b[p], b[p + 1], b[p + 2], b[p + 3]];
    assert(r@ =~= b@.subrange(p as int, p + 4));
    r
}

#[derive(Clone, Copy, Debug)]
pub struct Vdfs4Extent {
    pub begin: u64,
    pub length: u64,
}

impl FixedRecord for Vdfs4Extent {
    open spec fn spec_size() -> nat {
        16
    }

    open spec fn decoded_from(self, s: Seq<u8>, p: int) -> bool {
        self.begin == le_u64(s, p) && self.length == le_u64(s, p + 8)
    }

    fn encoded_size() -> (r: usize) {
        16
    }

    fn decode(b: &[u8], p: usize) -> (r: Self) {
        proof {
            lemma_slice_len(b);
        }
        Vdfs4Extent { begin: u64_at(b, p), length: u64_at(b, p + 8) }
    }
}

#[derive(Clone, Copy, Debug)]
pub struct Vdfs4Timespec {
    pub seconds: u32,
    pub seconds_high: u32,
    pub nanoseconds: u32,
}

impl FixedRecord for Vdfs4Timespec {
    open spec fn spec_size() -> nat {
        12
    }

    open spec fn decoded_from(self, s: Seq<u8>, p: int) -> bool {
        self.seconds == le_u32(s, p) && self.seconds_high == le_u32(s, p + 4)
            && self.nanoseconds == le_u32(s, p + 8)
    }

    fn encoded_size() -> (r: usize) {
        12
    }

    fn decode(b: &[u8], p: usize) -> (r: Self) {
        proof {
            lemma_slice_len(b);
        }
        Vdfs4Timespec {
            seconds: u32_at(b, p),
            seconds_high: u32_at(b, p + 4),
            nanoseconds: u32_at(b, p + 8),
        }
    }
}

/// The primary super-block (512 bytes); the fields the decoder consumes.
#[derive(Clone, Copy, Debug)]
pub struct Vdfs4SuperBlock {
    pub signature: [u8; 4],
    pub layout_version: [u8; 4],
    pub maximum_blocks_count: u64,
    pub log_block_size: u8,
    pub log_super_page_size: u8,
    pub log_erase_block_size: u8,
    pub image_inode_count: u64,
    pub checksum: u32,
}

impl FixedRecord for Vdfs4SuperBlock {
    open spec fn spec_size() -> nat {
        512
    }

    open spec fn decoded_from(self, s: Seq<u8>, p: int) -> bool {
        &&& self.signature@ == s.subrange(p, p + 4)
        &&& self.layout_version@ == s.subrange(p + 4, p + 8)
        &&& self.maximum_blocks_count == le_u64(s, p + 8)
        &&& self.log_block_size == s[p + 164]
        &&& self.log_super_page_size == s[p + 165]
        &&& self.log_erase_block_size == s[p + 166]
        &&& self.image_inode_count == le_u64(s, p + 240)
        &&& self.checksum == le_u32(s, p + 508)
    }

    fn encoded_size() -> (r: usize) {
        512
    }

    fn decode(b: &[u8], p: usize) -> (r: Self) {
        proof {
            lemma_slice_len(b);
        }
        Vdfs4SuperBlock {
            signature: magic4_at(b, p),
            layout_version: magic4_at(b, p + 4),
            maximum_blocks_count: u64_at(b, p + 8),
            log_block_size: u8_at(b, p + 164),
            log_super_page_size: u8_at(b, p + 165),
            log_erase_block_size: u8_at(b, p + 166),
            image_inode_count: u64_at(b, p + 240),
            checksum: u32_at(b, p + 508),
        }
    }
}

/// The extended super-block (2560 bytes); the fields the decoder consumes.
#[derive(Debug)]
pub struct Vdfs4ExtendedSuperBlock {
    pub files_count: u64,
    pub folders_count: u64,
    pub volume_body: Vdfs4Extent,
    pub mount_counter: u32,
    pub sync_counter: u32,
    pub umount_counter: u32,
    pub generation: u32,
    pub tables: Vdfs4Extent,
    /// The meta area: `VDFS4_META_BTREE_EXTENTS` extents.
    pub meta: Vec<Vdfs4Extent>,
    pub volume_blocks_count: u64,
    pub meta_hashtable_area: Vdfs4Extent,
    pub checksum: u32,
}

/// Offset of the meta extents inside the extended super-block.
pub const EXT_SUPER_BLOCK_META_OFFSET: usize = 88;

impl FixedRecord for Vdfs4ExtendedSuperBlock {
    open spec fn spec_size() -> nat {
        2560
    }

    open spec fn decoded_from(self, s: Seq<u8>, p: int) -> bool {
        &&& self.files_count == le_u64(s, p)
        &&& self.folders_count == le_u64(s, p + 8)
        &&& self.volume_body.decoded_from(s, p + 16)
        &&& self.mount_counter == le_u32(s, p + 32)
        &&& self.sync_counter == le_u32(s, p + 36)
        &&& self.umount_counter == le_u32(s, p + 40)
        &&& self.generation == le_u32(s, p + 44)
        &&& self.tables.decoded_from(s, p + 72)
        &&& self.meta@.len() == VDFS4_META_BTREE_EXTENTS
        &&& forall|i: int|
            0 <= i < VDFS4_META_BTREE_EXTENTS ==> (#[trigger] self.meta@[i]).decoded_from(s, p + 88 + 16 * i)
        &&& self.volume_blocks_count == le_u64(s, p + 1640)
        &&& self.meta_hashtable_area.decoded_from(s, p + 1680)
        &&& self.checksum == le_u32(s, p + 2556)
    }

    fn encoded_size() -> (r: usize) {
        2560
    }

    fn decode(b: &[u8], p: usize) -> (r: Self) {
        proof {
            lemma_slice_len(b);
        }
        let mut meta: Vec<Vdfs4Extent> = Vec::new();
        let mut i: usize = 0;
        while i < VDFS4_META_BTREE_EXTENTS
            invariant
                i <= VDFS4_META_BTREE_EXTENTS,
                p + 2560 <= b@.len(),
                b@.len() <= usize::MAX,
                meta@.len() == i,
                forall|j: int| 0 <= j < i ==> (#[trigger] meta@[j]).decoded_from(b@, p + 88 + 16 * j),
            decreases VDFS4_META_BTREE_EXTENTS - i,
        {
            meta.push(Vdfs4Extent::decode(b, p + 88 + 16 * i));
            i = i + 1;
        }
        Vdfs4ExtendedSuperBlock {
            files_count: u64_at(b, p),
            folders_count: u64_at(b, p + 8),
            volume_body: Vdfs4Extent::decode(b, p + 16),
            mount_counter: u32_at(b, p + 32),
            sync_counter: u32_at(b, p + 36),
            umount_counter: u32_at(b, p + 40),
            generation: u32_at(b, p + 44),
            tables: Vdfs4Extent::decode(b, p + 72),
            meta,
            volume_blocks_count: u64_at(b, p + 1640),
            meta_hashtable_area: Vdfs4Extent::decode(b, p + 1680),
            checksum: u32_at(b, p + 2556),
        }
    }
}

/// The super-block region at offset 0: two signature copies, the primary
/// super-block at 1024 and the extended super-block at 1536.
#[derive(Debug)]
pub struct Vdfs4SuperBlocks {
    pub super_block: Vdfs4SuperBlock,
    pub ext_super_block: Vdfs4ExtendedSuperBlock,
}

impl FixedRecord for Vdfs4SuperBlocks {
    open spec fn spec_size() -> nat {
        4096
    }

    open spec fn decoded_from(self, s: Seq<u8>, p: int) -> bool {
        self.super_block.decoded_from(s, p + 1024) && self.ext_super_block.decoded_from(s, p + 1536)
    }

    fn encoded_size() -> (r: usize) {
        4096
    }

    fn decode(b: &[u8], p: usize) -> (r: Self) {
        proof {
            lemma_slice_len(b);
        }
        Vdfs4SuperBlocks {
            super_block: Vdfs4SuperBlock::decode(b, p + 1024),
            ext_super_block: Vdfs4ExtendedSuperBlock::decode(b, p + 1536),
        }
    }
}

/// The bytes of `m` are those of the four-byte signature `lit`.
pub open spec fn sig4(m: Seq<u8>, a: u8, b: u8, c: u8, d: u8) -> bool {
    m.len() == 4 && m[0] == a && m[1] == b && m[2] == c && m[3] == d
}

fn is_sig4(m: &[u8; 4], a: u8, b: u8, c: u8, d: u8) -> (r: bool)
    ensures
        r == sig4(m@, a, b, c, d),
{
    m[0] == a && m[1] == b && m[2] == c && m[3] == d
}

/// Signature of a base snapshot table: "CoWB".
pub open spec fn is_base_table_signature(m: Seq<u8>) -> bool {
    sig4(m, 0x43, 0x6f, 0x57, 0x42)
}

/// Signature of an extended snapshot table: "CoWE".
pub open spec fn is_extended_table_signature(m: Seq<u8>) -> bool {
    sig4(m, 0x43, 0x6f, 0x57, 0x45)
}

/// Magic of a tree's head node: "eHND".
pub open spec fn is_head_node_magic(m: Seq<u8>) -> bool {
    sig4(m, 0x65, 0x48, 0x4e, 0x44)
}

/// Magic of an interior or leaf node: it starts with "Nd".
pub open spec fn is_node_magic(m: Seq<u8>) -> bool {
    m.len() == 4 && m[0] == 0x4e && m[1] == 0x64
}

/// Header of an interior or leaf B+tree node (32 bytes).
#[derive(Clone, Copy, Debug)]
pub struct Vdfs4GeneralBtreeNode {
    pub magic: [u8; 4],
    pub version: [u32; 2],
    pub free_space: u16,
    pub recs_count: u16,
    pub node_id: u32,
    pub nrev_node_id: u32,
    pub next_node_id: u32,
    pub node_type: u32,
}

impl FixedRecord for Vdfs4GeneralBtreeNode {
    open spec fn spec_size() -> nat {
        32
    }

    open spec fn decoded_from(self, s: Seq<u8>, p: int) -> bool {
        &&& self.magic@ == s.subrange(p, p + 4)
        &&& self.version@.len() == 2
        &&& self.version@[0] == le_u32(s, p + 4)
        &&& self.version@[1] == le_u32(s, p + 8)
        &&& self.free_space == le_u16(s, p + 12)
        &&& self.recs_count == le_u16(s, p + 14)
        &&& self.node_id == le_u32(s, p + 16)
        &&& self.nrev_node_id == le_u32(s, p + 20)
        &&& self.next_node_id == le_u32(s, p + 24)
        &&& self.node_type == le_u32(s, p + 28)
    }

    fn encoded_size() -> (r: usize) {
        32
    }

    fn decode(b: &[u8], p: usize) -> (r: Self) {
        proof {
            lemma_slice_len(b);
        }
        let version = [u32_at(b, p + 4), u32_at(b, p + 8)];
        Vdfs4GeneralBtreeNode {
            magic: magic4_at(b, p),
            version,
            free_space: u16_at(b, p + 12),
            recs_count: u16_at(b, p + 14),
            node_id: u32_at(b, p + 16),
            nrev_node_id: u32_at(b, p + 20),
            next_node_id: u32_at(b, p + 24),
            node_type: u32_at(b, p + 28),
        }
    }
}

impl Vdfs4GeneralBtreeNode {
    /// Version of the node: its high word, then its low word.
    pub open spec fn spec_version(self) -> int {
        self.version@[1] * 4294967296 + self.version@[0]
    }

    pub fn get_version(&self) -> (r: u64)
        requires
            self.version@.len() == 2,
        ensures
            r == self.spec_version(),
    {
        self.version[1] as u64 * 4294967296 + self.version[0] as u64
    }

    pub open spec fn spec_check_node_signature(self) -> bool {
        is_head_node_magic(self.magic@) || is_node_magic(self.magic@)
    }

    /// The magic is that of a head node or of an ordinary node.
    pub fn check_node_signature(&self) -> (r: bool)
        ensures
            r == self.spec_check_node_signature(),
    {
        is_sig4(&self.magic, 0x65, 0x48, 0x4e, 0x44) || (self.magic[0] == 0x4e && self.magic[1] == 0x64)
    }

    /// Index of the node's last record; none when the node is empty.
    pub fn get_last_record_index(&self) -> (r: Option<u16>)
        ensures
            r is Some <==> self.recs_count > 0,
            r matches Some(i) ==> i == self.recs_count - 1,
    {
        if self.recs_count > 0 {
            Some(self.recs_count - 1)
        } else {
            None
        }
    }
}

/// Head node of a tree (20 bytes); its free-space bitmap follows it.
#[derive(Clone, Copy, Debug)]
pub struct Vdfs4HeadBtreeNode {
    pub magic: [u8; 4],
    pub version: [u32; 2],
    pub root_bnode_id: u32,
    pub btree_height: u16,
}

impl FixedRecord for Vdfs4HeadBtreeNode {
    open spec fn spec_size() -> nat {
        20
    }

    open spec fn decoded_from(self, s: Seq<u8>, p: int) -> bool {
        &&& self.magic@ == s.subrange(p, p + 4)
        &&& self.version@.len() == 2
        &&& self.version@[0] == le_u32(s, p + 4)
        &&& self.version@[1] == le_u32(s, p + 8)
        &&& self.root_bnode_id == le_u32(s, p + 12)
        &&& self.btree_height == le_u16(s, p + 16)
    }

    fn encoded_size() -> (r: usize) {
        20
    }

    fn decode(b: &[u8], p: usize) -> (r: Self) {
        proof {
            lemma_slice_len(b);
        }
        let version = [u32_at(b, p + 4), u32_at(b, p + 8)];
        Vdfs4HeadBtreeNode {
            magic: magic4_at(b, p),
            version,
            root_bnode_id: u32_at(b, p + 12),
            btree_height: u16_at(b, p + 16),
        }
    }
}

impl Vdfs4HeadBtreeNode {
    pub open spec fn spec_version(self) -> int {
        self.version@[1] * 4294967296 + self.version@[0]
    }

    pub fn get_version(&self) -> (r: u64)
        requires
            self.version@.len() == 2,
        ensures
            r == self.spec_version(),
    {
        self.version[1] as u64 * 4294967296 + self.version[0] as u64
    }

    /// The magic is that of a head node.
    pub fn check_node_signature(&self) -> (r: bool)
        ensures
            r == is_head_node_magic(self.magic@),
    {
        is_sig4(&self.magic, 0x65, 0x48, 0x4e, 0x44)
    }
}

/// Header of a snapshot table (24 bytes).
#[derive(Clone, Copy, Debug)]
pub struct Vdfs4SnapshotDescriptor {
    pub signature: [u8; 4],
    pub sync_count: u32,
    pub mount_count: u64,
    pub checksum_offset: u64,
}

impl FixedRecord for Vdfs4SnapshotDescriptor {
    open spec fn spec_size() -> nat {
        24
    }

    open spec fn decoded_from(self, s: Seq<u8>, p: int) -> bool {
        &&& self.signature@ == s.subrange(p, p + 4)
        &&& self.sync_count == le_u32(s, p + 4)
        &&& self.mount_count == le_u64(s, p + 8)
        &&& self.checksum_offset == le_u64(s, p + 16)
    }

    fn encoded_size() -> (r: usize) {
        24
    }

    fn decode(b: &[u8], p: usize) -> (r: Self) {
        proof {
            lemma_slice_len(b);
        }
        Vdfs4SnapshotDescriptor {
            signature: magic4_at(b, p),
            sync_count: u32_at(b, p + 4),
            mount_count: u64_at(b, p + 8),
            checksum_offset: u64_at(b, p + 16),
        }
    }
}

impl Vdfs4SnapshotDescriptor {
    pub open spec fn spec_version(self) -> u64 {
        (self.mount_count << 32u64) | (self.sync_count as u64)
    }

    /// `(mount_count << 32) | sync_count`.
    pub fn get_version(&self) -> (r: u64)
        ensures
            r == self.spec_version(),
    {
        (self.mount_count << 32u64) | (self.sync_count as u64)
    }

    /// `(mount_count, sync_count)` of `self` is below that of `other`, mount
    /// count first.
    pub open spec fn spec_is_older_than(self, other: Self) -> bool {
        self.mount_count < other.mount_count || (self.mount_count == other.mount_count
            && self.sync_count < other.sync_count)
    }

    pub fn is_older_than(&self, other: &Self) -> (r: bool)
        ensures
            r == self.spec_is_older_than(*other),
    {
        self.mount_count < other.mount_count || (self.mount_count == other.mount_count
            && self.sync_count < other.sync_count)
    }

    pub fn is_extended_table(&self) -> (r: bool)
        ensures
            r == is_extended_table_signature(self.signature@),
    {
        is_sig4(&self.signature, 0x43, 0x6f, 0x57, 0x45)
    }

    pub fn is_base_table(&self) -> (r: bool)
        ensures
            r == is_base_table_signature(self.signature@),
    {
        is_sig4(&self.signature, 0x43, 0x6f, 0x57, 0x42)
    }
}

/// A base snapshot table (104 bytes); its translation tables follow.
#[derive(Clone, Copy, Debug)]
pub struct Vdfs4BaseTable {
    pub descriptor: Vdfs4SnapshotDescriptor,
    pub last_page_index: [u64; 5],
    pub translation_table_offsets: [u64; 5],
}

impl FixedRecord for Vdfs4BaseTable {
    open spec fn spec_size() -> nat {
        104
    }

    open spec fn decoded_from(self, s: Seq<u8>, p: int) -> bool {
        &&& self.descriptor.decoded_from(s, p)
        &&& self.last_page_index@.len() == 5
        &&& self.translation_table_offsets@.len() == 5
        &&& forall|i: int| 0 <= i < 5 ==> #[trigger] self.last_page_index@[i] == le_u64(s, p + 24 + 8 * i)
        &&& forall|i: int|
            0 <= i < 5 ==> #[trigger] self.translation_table_offsets@[i] == le_u64(s, p + 64 + 8 * i)
    }

    fn encoded_size() -> (r: usize) {
        104
    }

    fn decode(b: &[u8], p: usize) -> (r: Self) {
        proof {
            lemma_slice_len(b);
        }
        let last_page_index = [
            u64_at(b, p + 24),
            u64_at(b, p + 32),
            u64_at(b, p + 40),
            u64_at(b, p + 48),
            u64_at(b, p + 56),
        ];
        let translation_table_offsets = [
            u64_at(b, p + 64),
            u64_at(b, p + 72),
            u64_at(b, p + 80),
            u64_at(b, p + 88),
            u64_at(b, p + 96),
        ];
        let r = Vdfs4BaseTable {
            descriptor: Vdfs4SnapshotDescriptor::decode(b, p),
            last_page_index,
            translation_table_offsets,
        };
        assert forall|i: int| 0 <= i < 5 implies #[trigger] r.translation_table_offsets@[i] == le_u64(
            b@,
            p + 64 + 8 * i,
        ) by {
            if i == 0 {
            } else if i == 1 {
            } else if i == 2 {
            } else if i == 3 {
            } else {
            }
        }
        assert forall|i: int| 0 <= i < 5 implies #[trigger] r.last_page_index@[i] == le_u64(
            b@,
            p + 24 + 8 * i,
        ) by {
            if i == 0 {
            } else if i == 1 {
            } else if i == 2 {
            } else if i == 3 {
            } else {
            }
        }
        r
    }
}

impl Vdfs4BaseTable {
    pub open spec fn spec_translated_position(base_table_offset: u64, base_table: Vdfs4BaseTable, index: usize) -> int {
        base_table_offset + base_table.translation_table_offsets@[index as int]
    }

    /// Start of the translation table of `table_type`: the table's position
    /// plus its offset; none where that overflows.
    pub fn get_translated_position<I: TranslationTableIndex>(
        &self,
        base_table_offset: u64,
        base_table: &Vdfs4BaseTable,
        table_type: I,
    ) -> (r: Option<u64>)
        requires
            base_table.translation_table_offsets@.len() == 5,
        ensures
            r is Some <==> Self::spec_translated_position(base_table_offset, *base_table, table_type.spec_index()) <= u64::MAX,
            r matches Some(x) ==> x == Self::spec_translated_position(base_table_offset, *base_table, table_type.spec_index()),
    {
        let index = table_type.get_index();
        base_table_offset.checked_add(base_table.translation_table_offsets[index])
    }
}

/// Entry of a translation table: where a node lives and its version.
#[derive(Clone, Copy, Debug)]
pub struct Vdfs4BaseTableRecord {
    pub meta_iblock: u64,
    pub sync_count: u32,
    pub mount_count: u32,
}

impl FixedRecord for Vdfs4BaseTableRecord {
    open spec fn spec_size() -> nat {
        16
    }

    open spec fn decoded_from(self, s: Seq<u8>, p: int) -> bool {
        self.meta_iblock == le_u64(s, p) && self.sync_count == le_u32(s, p + 8) && self.mount_count
            == le_u32(s, p + 12)
    }

    fn encoded_size() -> (r: usize) {
        16
    }

    fn decode(b: &[u8], p: usize) -> (r: Self) {
        proof {
            lemma_slice_len(b);
        }
        Vdfs4BaseTableRecord {
            meta_iblock: u64_at(b, p),
            sync_count: u32_at(b, p + 8),
            mount_count: u32_at(b, p + 12),
        }
    }
}

impl Vdfs4BaseTableRecord {
    pub open spec fn spec_version(self) -> int {
        self.mount_count * 4294967296 + self.sync_count
    }

    pub fn get_version(&self) -> (r: u64)
        ensures
            r == self.spec_version(),
    {
        self.mount_count as u64 * 4294967296 + self.sync_count as u64
    }
}

#[derive(Clone, Copy, Debug)]
pub struct Vdfs4ExtendedRecord {
    pub object_id: u64,
    pub table_index: u64,
    pub meta_iblock: u64,
}

#[derive(Clone, Copy, Debug)]
pub struct Vdfs4ExtendedTable {
    pub descriptor: Vdfs4SnapshotDescriptor,
    pub records_count: u32,
    pub pad: u32,
}

#[derive(Clone, Copy, Debug)]
pub struct Vdfs4MetaHashtable {
    pub signature: [u8; 4],
    pub pad: u32,
    pub size: u64,
    pub hashtable_offsets: [u64; 5],
}

/// The prefix every tree key starts with (8 bytes).
#[derive(Clone, Copy, Debug)]
pub struct Vdfs4GenericKey {
    pub magic: [u8; 4],
    pub key_len: u16,
    pub record_len: u16,
}

impl FixedRecord for Vdfs4GenericKey {
    open spec fn spec_size() -> nat {
        8
    }

    open spec fn decoded_from(self, s: Seq<u8>, p: int) -> bool {
        self.magic@ == s.subrange(p, p + 4) && self.key_len == le_u16(s, p + 4) && self.record_len
            == le_u16(s, p + 6)
    }

    fn encoded_size() -> (r: usize) {
        8
    }

    fn decode(b: &[u8], p: usize) -> (r: Self) {
        proof {
            lemma_slice_len(b);
        }
        Vdfs4GenericKey {
            magic: magic4_at(b, p),
            key_len: u16_at(b, p + 4),
            record_len: u16_at(b, p + 6),
        }
    }
}

impl Vdfs4GenericKey {
    /// An all-zero key prefix, for search keys.
    pub fn new() -> (r: Self)
        ensures
            r == (Vdfs4GenericKey { magic: [0u8, 0u8, 0u8, 0u8], key_len: 0, record_len: 0 }),
            r.magic@ == seq![0u8, 0u8, 0u8, 0u8],
    {
        let r = Vdfs4GenericKey { magic: [0u8, 0u8, 0u8, 0u8], key_len: 0, record_len: 0 };
        assert(r.magic@ =~= seq![0u8, 0u8, 0u8, 0u8]);
        r
    }
}

/// Three-way comparison of integers.
pub open spec fn cmp_int(a: int, b: int) -> Ordering {
    if a < b {
        Ordering::Less
    } else if a > b {
        Ordering::Greater
    } else {
        Ordering::Equal
    }
}

/// `first`, unless it is `Equal`; then `then`.
pub open spec fn cmp_then(first: Ordering, then: Ordering) -> Ordering {
    if first == Ordering::Equal {
        then
    } else {
        first
    }
}

/// Lexicographic order on byte strings; a proper prefix comes first.
pub open spec fn lex_cmp(a: Seq<u8>, b: Seq<u8>) -> Ordering
    decreases a.len(),
{
    if a.len() == 0 {
        if b.len() == 0 {
            Ordering::Equal
        } else {
            Ordering::Less
        }
    } else if b.len() == 0 {
        Ordering::Greater
    } else if a[0] < b[0] {
        Ordering::Less
    } else if a[0] > b[0] {
        Ordering::Greater
    } else {
        lex_cmp(a.drop_first(), b.drop_first())
    }
}

fn cmp_u64(a: u64, b: u64) -> (r: Ordering)
    ensures
        r == cmp_int(a as int, b as int),
{
    if a < b {
        Ordering::Less
    } else if a > b {
        Ordering::Greater
    } else {
        Ordering::Equal
    }
}

pub fn cmp_bytes(a: &[u8], b: &[u8]) -> (r: Ordering)
    ensures
        r == lex_cmp(a@, b@),
{
    let mut i: usize = 0;
    assert(a@.skip(0) =~= a@);
    assert(b@.skip(0) =~= b@);
    while i < a.len() && i < b.len()
        invariant
            i <= a@.len(),
            i <= b@.len(),
            lex_cmp(a@, b@) == lex_cmp(a@.skip(i as int), b@.skip(i as int)),
        decreases a.len() - i,
    {
        let x = a[i];
        let y = b[i];
        if x < y {
            return Ordering::Less;
        } else if x > y {
            return Ordering::Greater;
        }
        assert(a@.skip(i as int).drop_first() =~= a@.skip(i + 1));
        assert(b@.skip(i as int).drop_first() =~= b@.skip(i + 1));
        i = i + 1;
    }
    if i < b.len() {
        Ordering::Less
    } else if i < a.len() {
        Ordering::Greater
    } else {
        Ordering::Equal
    }
}

/// The properties that make `lex_cmp` a total order.
pub proof fn lemma_lex_cmp(a: Seq<u8>, b: Seq<u8>, c: Seq<u8>)
    ensures
        lex_cmp(a, b) == Ordering::Equal <==> a == b,
        lex_cmp(a, b) == Ordering::Less <==> lex_cmp(b, a) == Ordering::Greater,
        lex_cmp(a, b) == Ordering::Less && lex_cmp(b, c) == Ordering::Less ==> lex_cmp(a, c) == Ordering::Less,
    decreases a.len(),
{
    if a.len() > 0 && b.len() > 0 && c.len() > 0 {
        lemma_lex_cmp(a.drop_first(), b.drop_first(), c.drop_first());
    } else if a.len() > 0 && b.len() > 0 {
        lemma_lex_cmp(a.drop_first(), b.drop_first(), b.drop_first());
    }
    if a.len() == 0 && b.len() == 0 {
        assert(a =~= b);
    }
    if a.len() > 0 && b.len() > 0 && a[0] == b[0] {
        if a.drop_first() == b.drop_first() {
            assert(a.len() == b.len());
            assert forall|i: int| 0 <= i < a.len() implies a[i] == b[i] by {
                if i > 0 {
                    assert(a[i] == a.drop_first()[i - 1]);
                    assert(b[i] == b.drop_first()[i - 1]);
                }
            }
            assert(a =~= b);
        }
        if a == b {
            assert(a.drop_first() =~= b.drop_first());
        }
    }
}


/// `a` orders at or before `b`.
pub open spec fn key_le<K: VdfsBtreeKey>(a: K, b: K) -> bool {
    a.spec_cmp(b) != Ordering::Greater
}

/// `a` orders strictly before `b`.
pub open spec fn key_lt<K: VdfsBtreeKey>(a: K, b: K) -> bool {
    a.spec_cmp(b) == Ordering::Less
}

/// A key of one of the B+trees: decodable, totally ordered, and telling
/// where its record's value starts.
pub trait VdfsBtreeKey: FixedRecord {
    /// The tree's key order.
    spec fn spec_cmp(self, other: Self) -> Ordering;

    /// Offset of the record's value from the record's start: `key_len`.
    spec fn spec_value_offset(self) -> u64;

    fn compare(&self, other: &Self) -> (r: Ordering)
        ensures
            r == self.spec_cmp(*other),
    ;

    fn get_generic_key(&self) -> (r: &Vdfs4GenericKey)
        ensures
            r.key_len == self.spec_value_offset(),
    ;

    fn get_value_offset(&self) -> (r: u64)
        ensures
            r == self.spec_value_offset(),
    ;

    /// How the key encoded at `p` of `s` orders against `other`.
    spec fn spec_cmp_at(s: Seq<u8>, p: int, other: Self) -> Ordering;

    /// The value offset (`key_len`) of the key encoded at `p` of `s`.
    open spec fn spec_value_offset_at(s: Seq<u8>, p: int) -> u64 {
        le_u16(s, p + 4) as u64
    }

    /// A decoded key orders as its bytes do and has their value offset.
    proof fn lemma_cmp_at(a: Self, s: Seq<u8>, p: int, x: Self)
        requires
            a.decoded_from(s, p),
            0 <= p,
            p + Self::spec_size() <= s.len(),
        ensures
            a.spec_cmp(x) == Self::spec_cmp_at(s, p, x),
            a.spec_value_offset() == Self::spec_value_offset_at(s, p),
    ;

    /// `spec_cmp` is a total order.
    proof fn lemma_cmp_total_order(a: Self, b: Self, c: Self)
        ensures
            a.spec_cmp(a) == Ordering::Equal,
            a.spec_cmp(b) == Ordering::Less <==> b.spec_cmp(a) == Ordering::Greater,
            a.spec_cmp(b) == Ordering::Equal <==> b.spec_cmp(a) == Ordering::Equal,
            a.spec_cmp(b) != Ordering::Greater && b.spec_cmp(c) != Ordering::Greater ==> a.spec_cmp(c)
                != Ordering::Greater,
            a.spec_cmp(b) == Ordering::Less && b.spec_cmp(c) != Ordering::Greater ==> a.spec_cmp(c)
                == Ordering::Less,
            a.spec_cmp(b) != Ordering::Greater && b.spec_cmp(c) == Ordering::Less ==> a.spec_cmp(c)
                == Ordering::Less,
    ;
}

/// Key of the catalog tree (281 bytes).
#[derive(Clone, Debug)]
pub struct Vdfs4CatTreeKey {
    pub gen_key: Vdfs4GenericKey,
    /// Object id of the parent directory.
    pub parent_id: u64,
    /// Object id of the object itself.
    pub object_id: u64,
    pub record_type: u8,
    pub name_len: u8,
    /// The name field: `VDFS4_FILE_NAME_LEN` bytes, of which the first
    /// `name_len` hold the name.
    pub name: Vec<u8>,
}

impl FixedRecord for Vdfs4CatTreeKey {
    open spec fn spec_size() -> nat {
        281
    }

    open spec fn decoded_from(self, s: Seq<u8>, p: int) -> bool {
        &&& self.gen_key.decoded_from(s, p)
        &&& self.parent_id == le_u64(s, p + 8)
        &&& self.object_id == le_u64(s, p + 16)
        &&& self.record_type == s[p + 24]
        &&& self.name_len == s[p + 25]
        &&& self.name@ == s.subrange(p + 26, p + 281)
    }

    fn encoded_size() -> (r: usize) {
        281
    }

    fn decode(b: &[u8], p: usize) -> (r: Self) {
        proof {
            lemma_slice_len(b);
        }
        Vdfs4CatTreeKey {
            gen_key: Vdfs4GenericKey::decode(b, p),
            parent_id: u64_at(b, p + 8),
            object_id: u64_at(b, p + 16),
            record_type: u8_at(b, p + 24),
            name_len: u8_at(b, p + 25),
            name: crate::data_source::bytes_at(b, p + 26, VDFS4_FILE_NAME_LEN),
        }
    }
}

impl Vdfs4CatTreeKey {
    /// The name: the first `name_len` bytes of the name field.
    pub open spec fn name_bytes(self) -> Seq<u8> {
        if self.name_len <= self.name@.len() {
            self.name@.subrange(0, self.name_len as int)
        } else {
            self.name@
        }
    }

    pub fn get_name_bytes(&self) -> (r: &[u8])
        ensures
            r@ == self.name_bytes(),
    {
        let n = self.name_len as usize;
        if n <= self.name.len() {
            vstd::slice::slice_subrange(self.name.as_slice(), 0, n)
        } else {
            self.name.as_slice()
        }
    }

    pub open spec fn spec_record_type(self) -> Option<CatalogTreeRecordType> {
        CatalogTreeRecordType::spec_from_u8(self.record_type)
    }

    /// The record's type; none for a code the format does not define.
    pub fn get_record_type(&self) -> (r: Option<CatalogTreeRecordType>)
        ensures
            r == self.spec_record_type(),
    {
        CatalogTreeRecordType::from_u8(self.record_type)
    }

    /// The search key that orders before every child of the root: parent
    /// id `Root`, every other field zero.
    pub fn child_of_root() -> (r: Self)
        ensures
            r.parent_id == SpecialInodeIds::Root.spec_id(),
            r.object_id == 0,
            r.record_type == 0,
            r.name_len == 0,
            r.name_bytes() == Seq::<u8>::empty(),
            r.name@ == Seq::new(VDFS4_FILE_NAME_LEN as nat, |i: int| 0u8),
            r.gen_key == (Vdfs4GenericKey { magic: [0u8, 0u8, 0u8, 0u8], key_len: 0, record_len: 0 }),
    {
        let mut name: Vec<u8> = Vec::new();
        let mut i: usize = 0;
        while i < VDFS4_FILE_NAME_LEN
            invariant
                i <= VDFS4_FILE_NAME_LEN,
                name@ == Seq::new(i as nat, |k: int| 0u8),
            decreases VDFS4_FILE_NAME_LEN - i,
        {
            name.push(0u8);
            i = i + 1;
            assert(name@ =~= Seq::new(i as nat, |k: int| 0u8));
        }
        let r = Vdfs4CatTreeKey {
            gen_key: Vdfs4GenericKey::new(),
            parent_id: SpecialInodeIds::Root.to_u32() as u64,
            object_id: 0,
            record_type: 0,
            name_len: 0,
            name,
        };
        assert(r.name_bytes() =~= Seq::<u8>::empty());
        r
    }
}

impl VdfsBtreeKey for Vdfs4CatTreeKey {
    /// Parent id, then name bytes, then name length, then object id.
    open spec fn spec_cmp(self, other: Self) -> Ordering {
        cmp_then(
            cmp_int(self.parent_id as int, other.parent_id as int),
            cmp_then(
                lex_cmp(self.name_bytes(), other.name_bytes()),
                cmp_then(
                    cmp_int(self.name_len as int, other.name_len as int),
                    cmp_int(self.object_id as int, other.object_id as int),
                ),
            ),
        )
    }

    open spec fn spec_value_offset(self) -> u64 {
        self.gen_key.key_len as u64
    }

    fn compare(&self, other: &Self) -> (r: Ordering) {
        match cmp_u64(self.parent_id, other.parent_id) {
            Ordering::Equal => {},
            by_parent => return by_parent,
        }
        match cmp_bytes(self.get_name_bytes(), other.get_name_bytes()) {
            Ordering::Equal => {},
            by_name => return by_name,
        }
        match cmp_u64(self.name_len as u64, other.name_len as u64) {
            Ordering::Equal => {},
            by_len => return by_len,
        }
        cmp_u64(self.object_id, other.object_id)
    }

    fn get_generic_key(&self) -> (r: &Vdfs4GenericKey) {
        &self.gen_key
    }

    fn get_value_offset(&self) -> (r: u64) {
        self.gen_key.key_len as u64
    }

    open spec fn spec_cmp_at(s: Seq<u8>, p: int, other: Self) -> Ordering {
        cmp_then(
            cmp_int(le_u64(s, p + 8), other.parent_id as int),
            cmp_then(
                lex_cmp(s.subrange(p + 26, p + 26 + s[p + 25]), other.name_bytes()),
                cmp_then(cmp_int(s[p + 25] as int, other.name_len as int), cmp_int(le_u64(s, p + 16), other.object_id as int)),
            ),
        )
    }

    proof fn lemma_cmp_at(a: Self, s: Seq<u8>, p: int, x: Self) {
        assert(a.name_bytes() =~= s.subrange(p + 26, p + 26 + s[p + 25]));
    }

    proof fn lemma_cmp_total_order(a: Self, b: Self, c: Self) {
        let (na, nb, nc) = (a.name_bytes(), b.name_bytes(), c.name_bytes());
        lemma_lex_cmp(na, nb, nc);
        lemma_lex_cmp(nb, nc, na);
        lemma_lex_cmp(nc, na, nb);
        lemma_lex_cmp(na, nc, nb);
        lemma_lex_cmp(nb, na, nc);
        lemma_lex_cmp(nc, nb, na);
        lemma_lex_cmp(na, na, na);
    }
}

/// Key of the extent tree (24 bytes).
#[derive(Clone, Copy, Debug)]
pub struct Vdfs4ExtTreeKey {
    pub gen_key: Vdfs4GenericKey,
    pub object_id: u64,
    pub iblock: u64,
}

impl FixedRecord for Vdfs4ExtTreeKey {
    open spec fn spec_size() -> nat {
        24
    }

    open spec fn decoded_from(self, s: Seq<u8>, p: int) -> bool {
        self.gen_key.decoded_from(s, p) && self.object_id == le_u64(s, p + 8) && self.iblock == le_u64(
            s,
            p + 16,
        )
    }

    fn encoded_size() -> (r: usize) {
        24
    }

    fn decode(b: &[u8], p: usize) -> (r: Self) {
        proof {
            lemma_slice_len(b);
        }
        Vdfs4ExtTreeKey {
            gen_key: Vdfs4GenericKey::decode(b, p),
            object_id: u64_at(b, p + 8),
            iblock: u64_at(b, p + 16),
        }
    }
}

impl Vdfs4ExtTreeKey {
    /// The search key of object `object_id`'s first extent: block 0, an
    /// all-zero key prefix.
    pub open spec fn spec_from_object_id(object_id: u64) -> Self {
        Vdfs4ExtTreeKey {
            gen_key: Vdfs4GenericKey { magic: [0u8, 0u8, 0u8, 0u8], key_len: 0, record_len: 0 },
            object_id,
            iblock: 0,
        }
    }

    /// The search key of an object's first extent: block 0.
    pub fn from_object_id(object_id: u64) -> (r: Self)
        ensures
            r == Self::spec_from_object_id(object_id),
    {
        Vdfs4ExtTreeKey { gen_key: Vdfs4GenericKey::new(), object_id, iblock: 0 }
    }
}

impl VdfsBtreeKey for Vdfs4ExtTreeKey {
    /// Object id, then logical block.
    open spec fn spec_cmp(self, other: Self) -> Ordering {
        cmp_then(
            cmp_int(self.object_id as int, other.object_id as int),
            cmp_int(self.iblock as int, other.iblock as int),
        )
    }

    open spec fn spec_value_offset(self) -> u64 {
        self.gen_key.key_len as u64
    }

    fn compare(&self, other: &Self) -> (r: Ordering) {
        match cmp_u64(self.object_id, other.object_id) {
            Ordering::Equal => cmp_u64(self.iblock, other.iblock),
            by_object => by_object,
        }
    }

    fn get_generic_key(&self) -> (r: &Vdfs4GenericKey) {
        &self.gen_key
    }

    fn get_value_offset(&self) -> (r: u64) {
        self.gen_key.key_len as u64
    }

    open spec fn spec_cmp_at(s: Seq<u8>, p: int, other: Self) -> Ordering {
        cmp_then(cmp_int(le_u64(s, p + 8), other.object_id as int), cmp_int(le_u64(s, p + 16), other.iblock as int))
    }

    proof fn lemma_cmp_at(a: Self, s: Seq<u8>, p: int, x: Self) {
    }

    proof fn lemma_cmp_total_order(a: Self, b: Self, c: Self) {
    }
}

/// Key of the extended-attribute tree (217 bytes).
#[derive(Clone, Debug)]
pub struct Vdfs4XattrTreeKey {
    pub gen_key: Vdfs4GenericKey,
    pub object_id: u64,
    pub name_len: u8,
    /// The name field: `VDFS4_XATTR_NAME_MAX_LEN` bytes.
    pub name: Vec<u8>,
}

impl FixedRecord for Vdfs4XattrTreeKey {
    open spec fn spec_size() -> nat {
        217
    }

    open spec fn decoded_from(self, s: Seq<u8>, p: int) -> bool {
        &&& self.gen_key.decoded_from(s, p)
        &&& self.object_id == le_u64(s, p + 8)
        &&& self.name_len == s[p + 16]
        &&& self.name@ == s.subrange(p + 17, p + 217)
    }

    fn encoded_size() -> (r: usize) {
        217
    }

    fn decode(b: &[u8], p: usize) -> (r: Self) {
        proof {
            lemma_slice_len(b);
        }
        Vdfs4XattrTreeKey {
            gen_key: Vdfs4GenericKey::decode(b, p),
            object_id: u64_at(b, p + 8),
            name_len: u8_at(b, p + 16),
            name: crate::data_source::bytes_at(b, p + 17, VDFS4_XATTR_NAME_MAX_LEN),
        }
    }
}

/// Catalog keys are totally ordered: the order is reflexive, antisymmetric,
/// and transitive, also where strict and non-strict steps mix.
pub proof fn lemma_catalog_key_order_total(a: Vdfs4CatTreeKey, b: Vdfs4CatTreeKey, c: Vdfs4CatTreeKey)
    ensures
        a.spec_cmp(a) == Ordering::Equal,
        key_lt(a, b) <==> b.spec_cmp(a) == Ordering::Greater,
        a.spec_cmp(b) == Ordering::Equal <==> b.spec_cmp(a) == Ordering::Equal,
        key_lt(a, b) || key_lt(b, a) || a.spec_cmp(b) == Ordering::Equal,
        key_le(a, b) && key_le(b, c) ==> key_le(a, c),
        key_lt(a, b) && key_le(b, c) ==> key_lt(a, c),
        key_le(a, b) && key_lt(b, c) ==> key_lt(a, c),
{
    Vdfs4CatTreeKey::lemma_cmp_total_order(a, b, c);
}



/// Value of a catalog folder record (80 bytes); file records start with it.
#[derive(Clone, Copy, Debug)]
pub struct Vdfs4CatalogFolderRecord {
    pub flags: u32,
    pub generation: u32,
    /// Number of entries of the directory.
    pub total_items_count: u64,
    /// Number of links to the file.
    pub links_count: u64,
    /// Next inode of the orphan list.
    pub next_orphan_id: u64,
    pub file_mode: u16,
    pub uid: u32,
    pub gid: u32,
    pub creation_time: Vdfs4Timespec,
    pub modification_time: Vdfs4Timespec,
    pub access_time: Vdfs4Timespec,
}

impl FixedRecord for Vdfs4CatalogFolderRecord {
    open spec fn spec_size() -> nat {
        80
    }

    open spec fn decoded_from(self, s: Seq<u8>, p: int) -> bool {
        &&& self.flags == le_u32(s, p)
        &&& self.generation == le_u32(s, p + 4)
        &&& self.total_items_count == le_u64(s, p + 8)
        &&& self.links_count == le_u64(s, p + 16)
        &&& self.next_orphan_id == le_u64(s, p + 24)
        &&& self.file_mode == le_u16(s, p + 32)
        &&& self.uid == le_u32(s, p + 36)
        &&& self.gid == le_u32(s, p + 40)
        &&& self.creation_time.decoded_from(s, p + 44)
        &&& self.modification_time.decoded_from(s, p + 56)
        &&& self.access_time.decoded_from(s, p + 68)
    }

    fn encoded_size() -> (r: usize) {
        80
    }

    fn decode(b: &[u8], p: usize) -> (r: Self) {
        proof {
            lemma_slice_len(b);
        }
        Vdfs4CatalogFolderRecord {
            flags: u32_at(b, p),
            generation: u32_at(b, p + 4),
            total_items_count: u64_at(b, p + 8),
            links_count: u64_at(b, p + 16),
            next_orphan_id: u64_at(b, p + 24),
            file_mode: u16_at(b, p + 32),
            uid: u32_at(b, p + 36),
            gid: u32_at(b, p + 40),
            creation_time: Vdfs4Timespec::decode(b, p + 44),
            modification_time: Vdfs4Timespec::decode(b, p + 56),
            access_time: Vdfs4Timespec::decode(b, p + 68),
        }
    }
}

impl Vdfs4CatalogFolderRecord {
    pub fn is_file_type(&self, file_type: FileType) -> (r: bool)
        ensures
            r == file_type.spec_is_file_type(self.file_mode),
    {
        file_type.is_file_type(self.file_mode)
    }

    pub fn get_file_type(&self) -> (r: Option<FileType>)
        ensures
            r == FileType::spec_from_u16(self.file_mode),
    {
        FileType::from_u16(self.file_mode)
    }

    /// The flag's bit is set; `HardLink` also holds of a record with more
    /// than one link.
    pub open spec fn spec_has_file_flag(self, flag: VdfsFileFlags) -> bool {
        (flag == VdfsFileFlags::HardLink && self.links_count > 1) || (self.flags & (1u32 << flag.spec_bit()))
            != 0
    }

    pub fn has_file_flag(&self, flag: VdfsFileFlags) -> (r: bool)
        ensures
            r == self.spec_has_file_flag(flag),
    {
        if let VdfsFileFlags::HardLink = flag {
            if self.links_count > 1 {
                return true;
            }
        }
        self.flags & (1u32 << flag.bit()) != 0
    }
}

/// An extent with the logical block it starts at (24 bytes).
#[derive(Clone, Copy, Debug)]
pub struct Vdfs4Iextent {
    pub extent: Vdfs4Extent,
    pub iblock: u64,
}

impl FixedRecord for Vdfs4Iextent {
    open spec fn spec_size() -> nat {
        24
    }

    open spec fn decoded_from(self, s: Seq<u8>, p: int) -> bool {
        self.extent.decoded_from(s, p) && self.iblock == le_u64(s, p + 16)
    }

    fn encoded_size() -> (r: usize) {
        24
    }

    fn decode(b: &[u8], p: usize) -> (r: Self) {
        proof {
            lemma_slice_len(b);
        }
        Vdfs4Iextent { extent: Vdfs4Extent::decode(b, p), iblock: u64_at(b, p + 16) }
    }
}

/// A file's data fork (232 bytes).
#[derive(Clone, Debug)]
pub struct Vdfs4Fork {
    /// Bytes of valid data.
    pub size_in_bytes: u64,
    /// Blocks allocated to the fork.
    pub total_blocks_count: u64,
    /// `VDFS4_EXTENTS_COUNT_IN_FORK` extents, in the order the writer put them.
    pub extents: Vec<Vdfs4Iextent>,
}

impl FixedRecord for Vdfs4Fork {
    open spec fn spec_size() -> nat {
        232
    }

    open spec fn decoded_from(self, s: Seq<u8>, p: int) -> bool {
        &&& self.size_in_bytes == le_u64(s, p)
        &&& self.total_blocks_count == le_u64(s, p + 8)
        &&& self.extents@.len() == VDFS4_EXTENTS_COUNT_IN_FORK
        &&& forall|i: int|
            0 <= i < VDFS4_EXTENTS_COUNT_IN_FORK ==> (#[trigger] self.extents@[i]).decoded_from(s, p + 16 + 24 * i)
    }

    fn encoded_size() -> (r: usize) {
        232
    }

    fn decode(b: &[u8], p: usize) -> (r: Self) {
        proof {
            lemma_slice_len(b);
        }
        let mut extents: Vec<Vdfs4Iextent> = Vec::new();
        let mut i: usize = 0;
        while i < VDFS4_EXTENTS_COUNT_IN_FORK
            invariant
                i <= VDFS4_EXTENTS_COUNT_IN_FORK,
                p + 232 <= b@.len(),
                b@.len() <= usize::MAX,
                extents@.len() == i,
                forall|j: int| 0 <= j < i ==> (#[trigger] extents@[j]).decoded_from(b@, p + 16 + 24 * j),
            decreases VDFS4_EXTENTS_COUNT_IN_FORK - i,
        {
            extents.push(Vdfs4Iextent::decode(b, p + 16 + 24 * i));
            i = i + 1;
        }
        Vdfs4Fork { size_in_bytes: u64_at(b, p), total_blocks_count: u64_at(b, p + 8), extents }
    }
}

/// Value of a catalog file record (312 bytes).
#[derive(Clone, Debug)]
pub struct Vdfs4CatalogFileRecord {
    pub common: Vdfs4CatalogFolderRecord,
    pub data_fork: Vdfs4Fork,
}

impl FixedRecord for Vdfs4CatalogFileRecord {
    open spec fn spec_size() -> nat {
        312
    }

    open spec fn decoded_from(self, s: Seq<u8>, p: int) -> bool {
        self.common.decoded_from(s, p) && self.data_fork.decoded_from(s, p + 80)
    }

    fn encoded_size() -> (r: usize) {
        312
    }

    fn decode(b: &[u8], p: usize) -> (r: Self) {
        proof {
            lemma_slice_len(b);
        }
        Vdfs4CatalogFileRecord {
            common: Vdfs4CatalogFolderRecord::decode(b, p),
            data_fork: Vdfs4Fork::decode(b, p + 80),
        }
    }
}

/// Value of a catalog hard-link record (6 bytes).
#[derive(Clone, Copy, Debug)]
pub struct Vdfs4CatalogHlinkRecord {
    pub file_mode: u16,
    pub pad1: u16,
    pub pad2: u16,
}

impl FixedRecord for Vdfs4CatalogHlinkRecord {
    open spec fn spec_size() -> nat {
        6
    }

    open spec fn decoded_from(self, s: Seq<u8>, p: int) -> bool {
        self.file_mode == le_u16(s, p) && self.pad1 == le_u16(s, p + 2) && self.pad2 == le_u16(s, p + 4)
    }

    fn encoded_size() -> (r: usize) {
        6
    }

    fn decode(b: &[u8], p: usize) -> (r: Self) {
        proof {
            lemma_slice_len(b);
        }
        Vdfs4CatalogHlinkRecord { file_mode: u16_at(b, p), pad1: u16_at(b, p + 2), pad2: u16_at(b, p + 4) }
    }
}

/// Record of the extent tree: its key, then the extent (40 bytes).
#[derive(Clone, Copy, Debug)]
pub struct Vdfs4ExtTreeRecord {
    pub key: Vdfs4ExtTreeKey,
    pub lextent: Vdfs4Extent,
}

impl FixedRecord for Vdfs4ExtTreeRecord {
    open spec fn spec_size() -> nat {
        40
    }

    open spec fn decoded_from(self, s: Seq<u8>, p: int) -> bool {
        self.key.decoded_from(s, p) && self.lextent.decoded_from(s, p + 24)
    }

    fn encoded_size() -> (r: usize) {
        40
    }

    fn decode(b: &[u8], p: usize) -> (r: Self) {
        proof {
            lemma_slice_len(b);
        }
        Vdfs4ExtTreeRecord { key: Vdfs4ExtTreeKey::decode(b, p), lextent: Vdfs4Extent::decode(b, p + 24) }
    }
}

/// Value of an index record: the child node's id.
#[derive(Clone, Copy, Debug)]
pub struct GenericIndexValue {
    pub node_id: u32,
}

impl FixedRecord for GenericIndexValue {
    open spec fn spec_size() -> nat {
        4
    }

    open spec fn decoded_from(self, s: Seq<u8>, p: int) -> bool {
        self.node_id == le_u32(s, p)
    }

    fn encoded_size() -> (r: usize) {
        4
    }

    fn decode(b: &[u8], p: usize) -> (r: Self) {
        GenericIndexValue { node_id: u32_at(b, p) }
    }
}

/// Descriptor at the end of a compressed file's payload (40 bytes).
#[derive(Clone, Copy, Debug)]
pub struct Vdfs4CompressedFileDescr {
    pub sign_type: u8,
    pub magic: [u8; 4],
    pub extents_num: u16,
    pub layout_version: u16,
    pub unpacked_size: u64,
    pub crc: u32,
    pub log_chunk_size: u32,
}

impl FixedRecord for Vdfs4CompressedFileDescr {
    open spec fn spec_size() -> nat {
        40
    }

    open spec fn decoded_from(self, s: Seq<u8>, p: int) -> bool {
        &&& self.sign_type == s[p + 7]
        &&& self.magic@ == s.subrange(p + 8, p + 12)
        &&& self.extents_num == le_u16(s, p + 12)
        &&& self.layout_version == le_u16(s, p + 14)
        &&& self.unpacked_size == le_u64(s, p + 16)
        &&& self.crc == le_u32(s, p + 24)
        &&& self.log_chunk_size == le_u32(s, p + 28)
    }

    fn encoded_size() -> (r: usize) {
        40
    }

    fn decode(b: &[u8], p: usize) -> (r: Self) {
        proof {
            lemma_slice_len(b);
        }
        Vdfs4CompressedFileDescr {
            sign_type: u8_at(b, p + 7),
            magic: magic4_at(b, p + 8),
            extents_num: u16_at(b, p + 12),
            layout_version: u16_at(b, p + 14),
            unpacked_size: u64_at(b, p + 16),
            crc: u32_at(b, p + 24),
            log_chunk_size: u32_at(b, p + 28),
        }
    }
}

impl Vdfs4CompressedFileDescr {
    /// "CZip" is zlib, "CGzp" gzip, "CLzo" LZO; any other magic names none.
    pub open spec fn spec_compression(self) -> Option<VdfsFileCompression> {
        if sig4(self.magic@, 0x43, 0x5a, 0x69, 0x70) {
            Some(VdfsFileCompression::Zlib)
        } else if sig4(self.magic@, 0x43, 0x47, 0x7a, 0x70) {
            Some(VdfsFileCompression::Gzip)
        } else if sig4(self.magic@, 0x43, 0x4c, 0x7a, 0x6f) {
            Some(VdfsFileCompression::Lzo)
        } else {
            None
        }
    }

    pub fn get_compression(&self) -> (r: Option<VdfsFileCompression>)
        ensures
            r == self.spec_compression(),
    {
        if is_sig4(&self.magic, 0x43, 0x5a, 0x69, 0x70) {
            Some(VdfsFileCompression::Zlib)
        } else if is_sig4(&self.magic, 0x43, 0x47, 0x7a, 0x70) {
            Some(VdfsFileCompression::Gzip)
        } else if is_sig4(&self.magic, 0x43, 0x4c, 0x7a, 0x6f) {
            Some(VdfsFileCompression::Lzo)
        } else {
            None
        }
    }

    /// The first magic byte names the chunk hash: 'I' MD5, 'H' SHA-1,
    /// 'h' SHA-256; any other byte, none.
    pub open spec fn spec_auth(self) -> Option<VdfsFileAuth> {
        if self.magic@[0] == 0x49 {
            Some(VdfsFileAuth::Md5)
        } else if self.magic@[0] == 0x48 {
            Some(VdfsFileAuth::Sha1)
        } else if self.magic@[0] == 0x68 {
            Some(VdfsFileAuth::Sha256)
        } else {
            None
        }
    }

    pub fn get_auth(&self) -> (r: Option<VdfsFileAuth>)
        ensures
            r == self.spec_auth(),
    {
        if self.magic[0] == 0x49 {
            Some(VdfsFileAuth::Md5)
        } else if self.magic[0] == 0x48 {
            Some(VdfsFileAuth::Sha1)
        } else if self.magic[0] == 0x68 {
            Some(VdfsFileAuth::Sha256)
        } else {
            None
        }
    }

    pub fn get_signature_type(&self) -> (r: Option<VdfsFileSignatureType>)
        ensures
            r == VdfsFileSignatureType::spec_from_u8(self.sign_type),
    {
        VdfsFileSignatureType::from_u8(self.sign_type)
    }
}

/// Entry of a compressed file's chunk table (16 bytes).
#[derive(Clone, Copy, Debug)]
pub struct Vdfs4CompressedExtent {
    pub magic: [u8; 2],
    pub flags: u16,
    pub len_bytes: u32,
    pub start: u64,
}

impl FixedRecord for Vdfs4CompressedExtent {
    open spec fn spec_size() -> nat {
        16
    }

    open spec fn decoded_from(self, s: Seq<u8>, p: int) -> bool {
        &&& self.magic@ == s.subrange(p, p + 2)
        &&& self.flags == le_u16(s, p + 2)
        &&& self.len_bytes == le_u32(s, p + 4)
        &&& self.start == le_u64(s, p + 8)
    }

    fn encoded_size() -> (r: usize) {
        16
    }

    fn decode(b: &[u8], p: usize) -> (r: Self) {
        proof {
            lemma_slice_len(b);
        }
        let magic = [b[p], b[p + 1]];
        assert(magic@ =~= b@.subrange(p as int, p + 2));
        Vdfs4CompressedExtent { magic, flags: u16_at(b, p + 2), len_bytes: u32_at(b, p + 4), start: u64_at(b, p + 8) }
    }
}

impl Vdfs4CompressedExtent {
    /// The magic is "XT".
    pub open spec fn spec_extent_signature_ok(self) -> bool {
        self.magic@.len() == 2 && self.magic@[0] == 0x58 && self.magic@[1] == 0x54
    }

    pub fn check_extent_signature(&self) -> (r: bool)
        ensures
            r == self.spec_extent_signature_ok(),
    {
        self.magic[0] == 0x58 && self.magic[1] == 0x54
    }

    pub open spec fn spec_uncompressed(self) -> bool {
        self.flags & VDFS4_CHUNK_FLAG_UNCOMPR != 0
    }

    pub open spec fn spec_encrypted(self) -> bool {
        self.flags & VDFS4_CHUNK_FLAG_ENCRYPTED != 0
    }

    pub fn has_uncompressed_flag(&self) -> (r: bool)
        ensures
            r == self.spec_uncompressed(),
    {
        self.flags & VDFS4_CHUNK_FLAG_UNCOMPR != 0
    }

    pub fn has_encrypted_flag(&self) -> (r: bool)
        ensures
            r == self.spec_encrypted(),
    {
        self.flags & VDFS4_CHUNK_FLAG_ENCRYPTED != 0
    }
}

} // verus!
