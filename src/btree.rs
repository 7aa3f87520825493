//! The B+tree engine: node lookup through the base table's translation
//! tables and the meta area, record access inside a node, binary search,
//! descent to a level, and a forward iterator over leaf records.

pub mod catalog;
pub mod extent;
pub mod xattr;

use vstd::prelude::*;
use vstd::arithmetic::power2::pow2;
use core::cmp::Ordering;
use crate::data_source::{le_u16, le_u32, le_u64, in_bounds, u32_at, DataSource, DataPointer, DataSourceError};
use crate::layout::{
    FixedRecord, VdfsBtreeKey, Vdfs4Extent, Vdfs4BaseTable, Vdfs4BaseTableRecord, Vdfs4GeneralBtreeNode,
    Vdfs4HeadBtreeNode, Vdfs4SuperBlocks, GenericIndexValue, is_head_node_magic, is_node_magic, deserialize,
    lemma_slice_len,
};
use crate::layout::consts::{BtreeType, TranslationTableIndex, CRC32_SIZE, VDFS4_KEY_MAX_LEN};

verus! {

#[derive(Clone, Copy, Debug, PartialEq, Eq, Structural)]
pub enum BtreeError {
    DataSourceError(DataSourceError),
    /// Version found in the node, version the base table records.
    NodeAndBaseTableVersionsMismatch(u64, u64),
    InvalidNodeSignature,
    BnodeRecordIndexOutOfBounds(u16),
    BnodeRecordOffsetOutOfBounds(u32),
    BnodeRecordValueOffsetOutOfBounds(u64),
    /// Requested level, height of the tree.
    LevelIsTooHigh(u16, u16),
    LeftRecordKeyIsHigherThanSearchKey,
    /// Block size and super-page size (as logarithms) that give no node size.
    InvalidNodeGeometry(u8, u8),
    /// A meta block beyond the meta area's extents.
    MetaBlockNotMapped(u64),
    /// A position that does not fit in 64 bits.
    PositionOverflow,
    /// A chain of sibling nodes longer than the image can hold.
    NodeChainTooLong(u32),
}

/// Leaf level of every tree.
pub const VDFS4_BTREE_LEAF_LVL: u16 = 1;

/// Physical block of logical meta block `m`, scanning the meta extents from
/// index `i` with `before` blocks already passed: the first extent whose
/// running total exceeds `m` holds it.
pub open spec fn meta_block_from(meta: Seq<Vdfs4Extent>, m: int, i: int, before: int) -> Option<int>
    decreases meta.len() - i,
{
    if i < 0 || i >= meta.len() {
        None
    } else if before + meta[i].length > m {
        Some(meta[i].begin + (m - before))
    } else {
        meta_block_from(meta, m, i + 1, before + meta[i].length)
    }
}

pub open spec fn spec_meta_block(meta: Seq<Vdfs4Extent>, m: int) -> Option<int> {
    meta_block_from(meta, m, 0, 0)
}

/// Version stored in the node header at `p`.
pub open spec fn node_version_at(s: Seq<u8>, p: int) -> int {
    le_u32(s, p + 8) * 4294967296 + le_u32(s, p + 4)
}

/// Position inside a node of the slot that holds record `i`'s offset: slots
/// run backwards from just before the node's trailing CRC.
pub open spec fn offset_slot(node_size: int, i: int) -> int {
    node_size - 4 - 4 * (i + 1)
}

/// Offset of record `i` inside the node held in `buf`.
pub open spec fn record_offset(buf: Seq<u8>, i: int) -> int {
    le_u32(buf, offset_slot(buf.len() as int, i))
}

/// Record `i` of a node with `recs` records has a valid offset and a whole
/// key of type `K` there.
pub open spec fn record_present<K: FixedRecord>(buf: Seq<u8>, recs: int, i: int) -> bool {
    &&& 0 <= i < recs
    &&& offset_slot(buf.len() as int, i) >= 0
    &&& 0 < record_offset(buf, i) < buf.len()
    &&& record_offset(buf, i) + K::spec_size() <= buf.len()
}

/// `k` is the key of record `i`.
pub open spec fn record_key_ok<K: FixedRecord>(buf: Seq<u8>, recs: int, i: int, k: K) -> bool {
    record_present::<K>(buf, recs, i) && k.decoded_from(buf, record_offset(buf, i))
}

/// `ks` are the keys of all records of the node, in index order.
pub open spec fn node_keys_ok<K: FixedRecord>(buf: Seq<u8>, recs: int, ks: Seq<K>) -> bool {
    &&& ks.len() == recs
    &&& forall|i: int| 0 <= i < recs ==> #[trigger] record_key_ok(buf, recs, i, ks[i])
}

/// The error reading record `i` of a node with `recs` records gives, if
/// any: an index past the records or the offset slots, an offset outside
/// the node, or a key that does not fit before the node's end.
pub open spec fn record_error<K: FixedRecord>(buf: Seq<u8>, recs: int, i: u16) -> Option<BtreeError> {
    if i >= recs || offset_slot(buf.len() as int, i as int) < 0 {
        Some(BtreeError::BnodeRecordIndexOutOfBounds(i))
    } else if record_offset(buf, i as int) == 0 || record_offset(buf, i as int) >= buf.len() {
        Some(BtreeError::BnodeRecordOffsetOutOfBounds(record_offset(buf, i as int) as u32))
    } else if record_offset(buf, i as int) + K::spec_size() > buf.len() {
        Some(BtreeError::DataSourceError(DataSourceError::DeserializeError))
    } else {
        None
    }
}

/// How the key of record `i` orders against `key`.
pub open spec fn cmp_rec<K: VdfsBtreeKey>(buf: Seq<u8>, i: int, key: K) -> Ordering {
    K::spec_cmp_at(buf, record_offset(buf, i), key)
}

/// The halving steps of the search between `lo` (key below `key`) and
/// `hi` (key above it), with the right-biased midpoint.
pub open spec fn bsearch_loop<K: VdfsBtreeKey>(buf: Seq<u8>, recs: int, key: K, lo: int, hi: int) -> Result<
    int,
    BtreeError,
>
    decreases hi - lo,
{
    if hi - lo <= 1 {
        Ok(lo)
    } else {
        let mid = lo + (hi - lo + 1) / 2;
        match record_error::<K>(buf, recs, mid as u16) {
            Some(e) => Err(e),
            None => if cmp_rec(buf, mid, key) == Ordering::Less {
                bsearch_loop(buf, recs, key, mid, hi)
            } else if cmp_rec(buf, mid, key) == Ordering::Equal {
                Ok(mid)
            } else {
                bsearch_loop(buf, recs, key, lo, mid)
            },
        }
    }
}

/// The in-node binary search for `key` among `recs` records: index 0 of a
/// one-record node or where the first key equals `key`; an error where the
/// first key is above `key`; the last index where the last key is at most
/// `key`; otherwise the halving steps between the first and last index.
pub open spec fn spec_bsearch<K: VdfsBtreeKey>(buf: Seq<u8>, recs: u16, key: K) -> Result<int, BtreeError> {
    let m = recs - 1;
    if recs == 0 {
        Err(BtreeError::BnodeRecordIndexOutOfBounds(0))
    } else if record_error::<K>(buf, recs as int, 0) is Some {
        Err(record_error::<K>(buf, recs as int, 0)->Some_0)
    } else if recs == 1 || cmp_rec(buf, 0, key) == Ordering::Equal {
        Ok(0)
    } else if cmp_rec(buf, 0, key) == Ordering::Greater {
        Err(BtreeError::LeftRecordKeyIsHigherThanSearchKey)
    } else if record_error::<K>(buf, recs as int, m as u16) is Some {
        Err(record_error::<K>(buf, recs as int, m as u16)->Some_0)
    } else if cmp_rec(buf, m, key) != Ordering::Greater {
        Ok(m)
    } else {
        bsearch_loop(buf, recs as int, key, 0, m)
    }
}

pub open spec fn result_index<K>(r: Result<(u16, DataPointer<K>), BtreeError>) -> Result<int, BtreeError> {
    match r {
        Ok((i, _)) => Ok(i as int),
        Err(e) => Err(e),
    }
}

/// A node header and the record found in it.
#[derive(Clone, Debug)]
pub struct BnodeRecordInfo<T> {
    pub key: DataPointer<T>,
    pub bnode: DataPointer<Vdfs4GeneralBtreeNode>,
    /// Id the node was looked up by.
    pub node_id: u32,
    pub record_index: u16,
}

/// A decoded node header.
#[derive(Clone, Copy, Debug)]
pub struct Bnode {
    pub descriptor: Vdfs4GeneralBtreeNode,
}

/// One B+tree of an image, with what its node lookups need.
pub struct VdfsBtree<'a> {
    pub data_source: &'a DataSource,
    /// The meta area's extents.
    pub meta: Vec<Vdfs4Extent>,
    pub base_table: DataPointer<Vdfs4BaseTable>,
    pub node_size_bytes: u64,
    pub block_size: u64,
    pub btree_type: BtreeType,
    pub head_node: DataPointer<Vdfs4HeadBtreeNode>,
}

/// Where node `id` of tree `bt` is and the version its translation entry
/// records, or the error looking it up gives: a position past 64 bits, an
/// entry outside the image, or a meta block outside the meta area.
pub open spec fn spec_locate(
    img: Seq<u8>,
    meta: Seq<Vdfs4Extent>,
    base: DataPointer<Vdfs4BaseTable>,
    block_size: u64,
    bt: BtreeType,
    id: u32,
) -> Result<(int, int), BtreeError> {
    let t0 = base.position + base.data.translation_table_offsets@[bt.spec_index() as int];
    let rp = t0 + 16 * id;
    if t0 > u64::MAX || rp > u64::MAX {
        Err(BtreeError::PositionOverflow)
    } else if !in_bounds(img, rp, 16) {
        Err(BtreeError::DataSourceError(DataSourceError::ReadDataError))
    } else {
        match spec_meta_block(meta, le_u64(img, rp)) {
            None => Err(BtreeError::MetaBlockNotMapped(le_u64(img, rp) as u64)),
            Some(b) => if b < 0 || b > u64::MAX || b * block_size > u64::MAX {
                Err(BtreeError::PositionOverflow)
            } else {
                Ok((b * block_size, le_u32(img, rp + 12) * 4294967296 + le_u32(img, rp + 8)))
            },
        }
    }
}

impl<'a> VdfsBtree<'a> {
    pub open spec fn img(&self) -> Seq<u8> {
        self.data_source@
    }

    pub open spec fn wf(&self) -> bool {
        &&& self.base_table.data.translation_table_offsets@.len() == 5
        &&& self.block_size > 0
        &&& self.node_size_bytes > 0
        &&& self.head_node.data.version@.len() == 2
    }

    pub open spec fn spec_locate_node(&self, node_id: u32) -> Result<(int, int), BtreeError> {
        spec_locate(self.img(), self.meta@, self.base_table, self.block_size, self.btree_type, node_id)
    }

    /// Position of node `node_id`, or the error reading it gives: a failed
    /// lookup, a header outside the image, a version other than the one its
    /// translation entry records (checked first), or a magic that is neither
    /// a head node's nor an ordinary node's.
    pub open spec fn spec_node_result(&self, node_id: u32) -> Result<int, BtreeError> {
        match self.spec_locate_node(node_id) {
            Err(e) => Err(e),
            Ok((p, v)) => if !in_bounds(self.img(), p, 32) {
                Err(BtreeError::DataSourceError(DataSourceError::ReadDataError))
            } else if node_version_at(self.img(), p) != v {
                Err(BtreeError::NodeAndBaseTableVersionsMismatch(node_version_at(self.img(), p) as u64, v as u64))
            } else if !(is_head_node_magic(self.img().subrange(p, p + 4)) || is_node_magic(
                self.img().subrange(p, p + 4),
            )) {
                Err(BtreeError::InvalidNodeSignature)
            } else {
                Ok(p)
            },
        }
    }

    /// Position of the head node (node 0), or the error reading it gives,
    /// as for `spec_node_result` but with the head node's size and magic.
    pub open spec fn spec_head_result(&self) -> Result<int, BtreeError> {
        match self.spec_locate_node(0) {
            Err(e) => Err(e),
            Ok((p, v)) => if !in_bounds(self.img(), p, 20) {
                Err(BtreeError::DataSourceError(DataSourceError::ReadDataError))
            } else if node_version_at(self.img(), p) != v {
                Err(BtreeError::NodeAndBaseTableVersionsMismatch(node_version_at(self.img(), p) as u64, v as u64))
            } else if !is_head_node_magic(self.img().subrange(p, p + 4)) {
                Err(BtreeError::InvalidNodeSignature)
            } else {
                Ok(p)
            },
        }
    }

    pub open spec fn spec_node_ok(&self, node_id: u32) -> bool {
        self.spec_node_result(node_id) is Ok
    }

    /// `n` is node `node_id`'s header, found where the translation says.
    pub open spec fn node_is(&self, node_id: u32, n: DataPointer<Vdfs4GeneralBtreeNode>) -> bool {
        &&& self.spec_node_result(node_id) == Ok::<int, BtreeError>(n.position as int)
        &&& n.data.decoded_from(self.img(), n.position as int)
    }

    /// The bytes of the node at `p`.
    pub open spec fn node_bytes(&self, p: int) -> Seq<u8> {
        self.img().subrange(p, p + self.node_size_bytes)
    }

    /// `info` is where the search for `key` ends in a node of this tree:
    /// the node is `info.node_id`, it lies whole in the image, the record is
    /// a search position for `key` among the node's keys, and the search
    /// does not go on to the right sibling.
    pub open spec fn search_position_ok<K: VdfsBtreeKey>(&self, key: K, info: BnodeRecordInfo<K>) -> bool {
        let p = info.bnode.position as int;
        let buf = self.node_bytes(p);
        let recs = info.bnode.data.recs_count as int;
        &&& self.node_is(info.node_id, info.bnode)
        &&& in_bounds(self.img(), p, self.node_size_bytes as int)
        &&& record_key_ok(buf, recs, info.record_index as int, info.key.data)
        &&& info.key.position == p + record_offset(buf, info.record_index as int)
        &&& spec_bsearch(buf, info.bnode.data.recs_count, key) == Ok::<int, BtreeError>(info.record_index as int)
        &&& (info.record_index + 1 != recs || info.bnode.data.next_node_id == 0)
    }

    /// The tree `new` builds on these arguments, before its geometry and
    /// head node are filled in.
    pub open spec fn spec_unbuilt(
        data_source: &'a DataSource,
        super_blocks: Vdfs4SuperBlocks,
        base_table: DataPointer<Vdfs4BaseTable>,
        btree_type: BtreeType,
    ) -> VdfsBtree<'a> {
        VdfsBtree {
            data_source,
            meta: super_blocks.ext_super_block.meta,
            base_table,
            node_size_bytes: 0,
            block_size: pow2(super_blocks.super_block.log_block_size as nat) as u64,
            btree_type,
            head_node: arbitrary(),
        }
    }

    /// What `new` gives: an error for block and super-page sizes that give
    /// no node size, else the head node's position or the error reading it.
    pub open spec fn spec_new_result(
        data_source: &'a DataSource,
        super_blocks: Vdfs4SuperBlocks,
        base_table: DataPointer<Vdfs4BaseTable>,
        btree_type: BtreeType,
    ) -> Result<int, BtreeError> {
        let lbs = super_blocks.super_block.log_block_size;
        let lsp = super_blocks.super_block.log_super_page_size;
        if lbs > lsp || lsp >= 64 {
            Err(BtreeError::InvalidNodeGeometry(lbs, lsp))
        } else {
            Self::spec_unbuilt(data_source, super_blocks, base_table, btree_type).spec_head_result()
        }
    }

    /// Creates the tree of `btree_type` and reads its head node (node 0).
    #[verifier::rlimit(80)]
    pub fn new(
        data_source: &'a DataSource,
        super_blocks: &Vdfs4SuperBlocks,
        base_table: DataPointer<Vdfs4BaseTable>,
        btree_type: BtreeType,
    ) -> (r: Result<VdfsBtree<'a>, BtreeError>)
        requires
            base_table.data.translation_table_offsets@.len() == 5,
            super_blocks.ext_super_block.meta@.len() == crate::layout::consts::VDFS4_META_BTREE_EXTENTS,
        ensures
            match Self::spec_new_result(data_source, *super_blocks, base_table, btree_type) {
                Err(e) => r == Err::<VdfsBtree<'a>, BtreeError>(e),
                Ok(p) => r matches Ok(t) && t.head_node.position == p,
            },
            r matches Ok(t) ==> {
                &&& t.wf()
                &&& t.data_source == data_source
                &&& t.meta@ == super_blocks.ext_super_block.meta@
                &&& t.base_table == base_table
                &&& t.btree_type == btree_type
                &&& t.block_size == pow2(super_blocks.super_block.log_block_size as nat)
                &&& t.node_size_bytes == pow2(
                    (super_blocks.super_block.log_super_page_size - super_blocks.super_block.log_block_size) as nat,
                ) * t.block_size
                &&& t.spec_head_result() == Ok::<int, BtreeError>(t.head_node.position as int)
                &&& t.head_node.data.decoded_from(t.img(), t.head_node.position as int)
            },
    {
        let lbs = super_blocks.super_block.log_block_size;
        let lsp = super_blocks.super_block.log_super_page_size;
        if lbs > lsp || lsp >= 64 {
            return Err(BtreeError::InvalidNodeGeometry(lbs, lsp));
        }
        let log_blocks_in_leb = lsp - lbs;
        proof {
            vstd::bits::lemma_u64_pow2_no_overflow(lbs as nat);
            vstd::bits::lemma_u64_pow2_no_overflow(log_blocks_in_leb as nat);
            vstd::bits::lemma_u64_pow2_no_overflow(lsp as nat);
            vstd::arithmetic::power2::lemma_pow2_adds(log_blocks_in_leb as nat, lbs as nat);
            vstd::bits::lemma_u64_shl_is_mul(1, lbs as u64);
            vstd::bits::lemma_u64_shl_is_mul(1, log_blocks_in_leb as u64);
        }
        let block_size: u64 = 1u64 << (lbs as u64);
        let blocks_in_leb: u64 = 1u64 << (log_blocks_in_leb as u64);
        let node_size_bytes = blocks_in_leb * block_size;
        let mut meta: Vec<Vdfs4Extent> = Vec::new();
        let mut i: usize = 0;
        while i < super_blocks.ext_super_block.meta.len()
            invariant
                i <= super_blocks.ext_super_block.meta@.len(),
                meta@ == super_blocks.ext_super_block.meta@.subrange(0, i as int),
            decreases super_blocks.ext_super_block.meta@.len() - i,
        {
            meta.push(super_blocks.ext_super_block.meta[i]);
            i = i + 1;
            assert(meta@ =~= super_blocks.ext_super_block.meta@.subrange(0, i as int));
        }
        assert(meta@ =~= super_blocks.ext_super_block.meta@);
        proof {
            assert(Self::spec_unbuilt(data_source, *super_blocks, base_table, btree_type).spec_locate_node(0) == spec_locate(
                data_source@,
                meta@,
                base_table,
                block_size,
                btree_type,
                0,
            ));
        }
        let (position, version) = Self::node_location(data_source, &meta, &base_table, block_size, btree_type, 0)?;
        let head: DataPointer<Vdfs4HeadBtreeNode> = match data_source.read_at(position) {
            Ok(h) => h,
            Err(e) => return Err(BtreeError::DataSourceError(e)),
        };
        let found = head.data.get_version();
        if found != version {
            return Err(BtreeError::NodeAndBaseTableVersionsMismatch(found, version));
        }
        if !head.data.check_node_signature() {
            return Err(BtreeError::InvalidNodeSignature);
        }
        let t = VdfsBtree { data_source, meta, base_table, node_size_bytes, block_size, btree_type, head_node: head };
        proof {
            assert(t.spec_locate_node(0) == Self::spec_unbuilt(data_source, *super_blocks, base_table, btree_type).spec_locate_node(0));
        }
        Ok(t)
    }

    /// Physical block of logical meta block `metablock`.
    pub fn get_iblock_offset(meta: &Vec<Vdfs4Extent>, metablock: u64) -> (r: Result<u64, BtreeError>)
        ensures
            match spec_meta_block(meta@, metablock as int) {
                None => r == Err::<u64, BtreeError>(BtreeError::MetaBlockNotMapped(metablock)),
                Some(b) => r == if 0 <= b <= u64::MAX {
                    Ok::<u64, BtreeError>(b as u64)
                } else {
                    Err::<u64, BtreeError>(BtreeError::PositionOverflow)
                },
            },
    {
        let mut total: u64 = 0;
        let mut i: usize = 0;
        while i < meta.len()
            invariant
                i <= meta@.len(),
                total <= metablock,
                spec_meta_block(meta@, metablock as int) == meta_block_from(meta@, metablock as int, i as int, total as int),
            decreases meta@.len() - i,
        {
            let e = meta[i];
            if e.length > metablock - total {
                return match e.begin.checked_add(metablock - total) {
                    Some(b) => Ok(b),
                    None => Err(BtreeError::PositionOverflow),
                };
            }
            total = total + e.length;
            i = i + 1;
        }
        Err(BtreeError::MetaBlockNotMapped(metablock))
    }

    /// Position of node `node_id` and the version its translation entry
    /// records.
    #[verifier::rlimit(80)]
    fn node_location(
        data_source: &DataSource,
        meta: &Vec<Vdfs4Extent>,
        base_table: &DataPointer<Vdfs4BaseTable>,
        block_size: u64,
        btree_type: BtreeType,
        node_id: u32,
    ) -> (r: Result<(u64, u64), BtreeError>)
        requires
            base_table.data.translation_table_offsets@.len() == 5,
            block_size > 0,
        ensures
            match spec_locate(data_source@, meta@, *base_table, block_size, btree_type, node_id) {
                Err(e) => r == Err::<(u64, u64), BtreeError>(e),
                Ok((p, v)) => r == Ok::<(u64, u64), BtreeError>((p as u64, v as u64)),
            },
    {
        let start = match base_table.data.get_translated_position(base_table.position, &base_table.data, btree_type) {
            Some(s) => s,
            None => return Err(BtreeError::PositionOverflow),
        };
        let record_position = match start.checked_add(16 * node_id as u64) {
            Some(p) => p,
            None => return Err(BtreeError::PositionOverflow),
        };
        let record: DataPointer<Vdfs4BaseTableRecord> = match data_source.read_at(record_position) {
            Ok(x) => x,
            Err(e) => return Err(BtreeError::DataSourceError(e)),
        };
        let ghost t0 = base_table.position + base_table.data.translation_table_offsets@[btree_type.spec_index() as int];
        proof {
            assert(start as int == t0);
            assert(record_position as int == t0 + 16 * node_id);
            assert(record.data.meta_iblock as int == le_u64(data_source@, record_position as int));
        }
        let block = Self::get_iblock_offset(meta, record.data.meta_iblock)?;
        proof {
            assert(spec_meta_block(meta@, le_u64(data_source@, record_position as int)) == Some(block as int));
        }
        let position = match block.checked_mul(block_size) {
            Some(p) => p,
            None => {
                proof {
                    assert(block as int * block_size as int > u64::MAX);
                }
                return Err(BtreeError::PositionOverflow);
            },
        };
        let version = record.data.get_version();
        proof {
            assert(position as int == block as int * block_size as int);
            assert(version as int == le_u32(data_source@, record_position + 12) * 4294967296 + le_u32(
                data_source@,
                record_position + 8,
            ));
        }
        Ok((position, version))
    }

    /// Reads and checks the header of node `node_id`.
    #[verifier::rlimit(80)]
    pub fn get_bnode(&self, node_id: u32) -> (r: Result<DataPointer<Vdfs4GeneralBtreeNode>, BtreeError>)
        requires
            self.wf(),
        ensures
            match self.spec_node_result(node_id) {
                Err(e) => r == Err::<DataPointer<Vdfs4GeneralBtreeNode>, BtreeError>(e),
                Ok(p) => r matches Ok(n) && n.position == p,
            },
            r matches Ok(n) ==> self.node_is(node_id, n),
    {
        let (position, version) = Self::node_location(
            self.data_source,
            &self.meta,
            &self.base_table,
            self.block_size,
            self.btree_type,
            node_id,
        )?;
        let node: DataPointer<Vdfs4GeneralBtreeNode> = match self.data_source.read_at(position) {
            Ok(n) => n,
            Err(e) => return Err(BtreeError::DataSourceError(e)),
        };
        let found = node.data.get_version();
        if found != version {
            return Err(BtreeError::NodeAndBaseTableVersionsMismatch(found, version));
        }
        if !node.data.check_node_signature() {
            return Err(BtreeError::InvalidNodeSignature);
        }
        Ok(node)
    }
}

impl<'a> VdfsBtree<'a> {
    /// Reads the whole node at `bnode`'s position.
    pub fn read_bnode_buffer(&self, bnode: &DataPointer<Vdfs4GeneralBtreeNode>) -> (r: Result<Vec<u8>, BtreeError>)
        ensures
            r is Ok <==> in_bounds(self.img(), bnode.position as int, self.node_size_bytes as int),
            r matches Ok(b) ==> b@ == self.node_bytes(bnode.position as int),
            r is Err ==> r == Err::<Vec<u8>, BtreeError>(BtreeError::DataSourceError(DataSourceError::ReadDataError)),
    {
        match self.data_source.read_bytes_at(bnode.position, self.node_size_bytes) {
            Ok(b) => Ok(b),
            Err(e) => Err(BtreeError::DataSourceError(e)),
        }
    }

    /// Position, inside a node, of the slot holding record `index`'s offset.
    pub fn get_bnode_offset_offset(&self, index: u16) -> (r: Option<u64>)
        ensures
            r is Some <==> offset_slot(self.node_size_bytes as int, index as int) >= 0,
            r matches Some(o) ==> o == offset_slot(self.node_size_bytes as int, index as int),
    {
        let back: u64 = CRC32_SIZE as u64 + 4 * (index as u64 + 1);
        if back <= self.node_size_bytes {
            Some(self.node_size_bytes - back)
        } else {
            None
        }
    }

    /// Offset of record `index` inside the node held in `buffer`.
    pub fn get_bnode_offset_from_buffer(
        &self,
        buffer: &[u8],
        bnode: &DataPointer<Vdfs4GeneralBtreeNode>,
        index: u16,
    ) -> (r: Result<u32, BtreeError>)
        requires
            buffer@.len() == self.node_size_bytes,
        ensures
            index >= bnode.data.recs_count || offset_slot(buffer@.len() as int, index as int) < 0 ==> r
                == Err::<u32, BtreeError>(BtreeError::BnodeRecordIndexOutOfBounds(index)),
            !(index >= bnode.data.recs_count || offset_slot(buffer@.len() as int, index as int) < 0) ==> (
            if record_offset(buffer@, index as int) == 0 || record_offset(buffer@, index as int) >= buffer@.len() {
                r == Err::<u32, BtreeError>(
                    BtreeError::BnodeRecordOffsetOutOfBounds(record_offset(buffer@, index as int) as u32),
                )
            } else {
                r == Ok::<u32, BtreeError>(record_offset(buffer@, index as int) as u32)
            }),
    {
        if index >= bnode.data.recs_count {
            return Err(BtreeError::BnodeRecordIndexOutOfBounds(index));
        }
        let slot = match self.get_bnode_offset_offset(index) {
            Some(o) => o,
            None => return Err(BtreeError::BnodeRecordIndexOutOfBounds(index)),
        };
        proof {
            lemma_slice_len(buffer);
        }
        let offset = u32_at(buffer, slot as usize);
        if offset == 0 || offset as u64 >= self.node_size_bytes {
            return Err(BtreeError::BnodeRecordOffsetOutOfBounds(offset));
        }
        Ok(offset)
    }

    /// Decodes the key of record `index` of the node held in `buffer`.
    pub fn get_bnode_record_from_buffer<K: VdfsBtreeKey>(
        &self,
        buffer: &[u8],
        bnode: &DataPointer<Vdfs4GeneralBtreeNode>,
        index: u16,
    ) -> (r: Result<DataPointer<K>, BtreeError>)
        requires
            buffer@.len() == self.node_size_bytes,
            bnode.position + self.node_size_bytes <= u64::MAX,
        ensures
            match record_error::<K>(buffer@, bnode.data.recs_count as int, index) {
                Some(e) => r == Err::<DataPointer<K>, BtreeError>(e),
                None => r is Ok,
            },
            record_error::<K>(buffer@, bnode.data.recs_count as int, index) is None <==> record_present::<K>(
                buffer@,
                bnode.data.recs_count as int,
                index as int,
            ),
            r matches Ok(d) ==> record_key_ok(buffer@, bnode.data.recs_count as int, index as int, d.data)
                && d.position == bnode.position + record_offset(buffer@, index as int),
    {
        let offset = self.get_bnode_offset_from_buffer(buffer, bnode, index)?;
        let key: K = match deserialize(buffer, offset as usize) {
            Ok(k) => k,
            Err(e) => return Err(BtreeError::DataSourceError(e)),
        };
        Ok(DataPointer { data: key, position: bnode.position + offset as u64 })
    }

    /// Binary search for `key` among the records of the node in `buffer`
    /// (see `spec_bsearch`).
    pub fn binary_search_in_bnode<K: VdfsBtreeKey>(
        &self,
        buffer: &[u8],
        key: &K,
        bnode: &DataPointer<Vdfs4GeneralBtreeNode>,
    ) -> (r: Result<(u16, DataPointer<K>), BtreeError>)
        requires
            buffer@.len() == self.node_size_bytes,
            bnode.position + self.node_size_bytes <= u64::MAX,
        ensures
            result_index(r) == spec_bsearch(buffer@, bnode.data.recs_count, *key),
            r matches Ok((i, d)) ==> record_key_ok(buffer@, bnode.data.recs_count as int, i as int, d.data)
                && d.position == bnode.position + record_offset(buffer@, i as int),
    {
        let recs = bnode.data.recs_count;
        if recs == 0 {
            return Err(BtreeError::BnodeRecordIndexOutOfBounds(0));
        }
        let ghost s = buffer@;
        let ghost n = recs as int;
        let mut left_index: u16 = 0;
        let mut right_index: u16 = recs - 1;
        let mut left_record: DataPointer<K> = self.get_bnode_record_from_buffer(buffer, bnode, left_index)?;
        proof {
            K::lemma_cmp_at(left_record.data, s, record_offset(s, 0), *key);
        }
        let first = left_record.data.compare(key);
        if left_index == right_index || matches!(first, Ordering::Equal) {
            return Ok((left_index, left_record));
        } else if matches!(first, Ordering::Greater) {
            return Err(BtreeError::LeftRecordKeyIsHigherThanSearchKey);
        }
        let mut record: DataPointer<K> = self.get_bnode_record_from_buffer(buffer, bnode, right_index)?;
        proof {
            K::lemma_cmp_at(record.data, s, record_offset(s, n - 1), *key);
        }
        if !matches!(record.data.compare(key), Ordering::Greater) {
            return Ok((right_index, record));
        }
        while left_index + 1 < right_index
            invariant
                s == buffer@,
                n == bnode.data.recs_count,
                n >= 2,
                buffer@.len() == self.node_size_bytes,
                bnode.position + self.node_size_bytes <= u64::MAX,
                0 <= left_index < right_index <= n - 1,
                spec_bsearch(s, bnode.data.recs_count, *key) == bsearch_loop(s, n, *key, left_index as int, right_index as int),
                record_key_ok(s, n, left_index as int, left_record.data),
                left_record.position == bnode.position + record_offset(s, left_index as int),
            decreases right_index - left_index,
        {
            let middle_index = left_index + (right_index - left_index + 1) / 2;
            proof {
                assert(middle_index == left_index as int + (right_index as int - left_index as int + 1) / 2);
            }
            record = match self.get_bnode_record_from_buffer(buffer, bnode, middle_index) {
                Ok(x) => x,
                Err(e) => {
                    proof {
                        assert(bsearch_loop(s, n, *key, left_index as int, right_index as int) == Err::<int, BtreeError>(e));
                    }
                    return Err(e);
                },
            };
            proof {
                K::lemma_cmp_at(record.data, s, record_offset(s, middle_index as int), *key);
                assert(record_error::<K>(s, n, middle_index) is None);
            }
            match record.data.compare(key) {
                Ordering::Less => {
                    left_index = middle_index;
                    left_record = record;
                },
                Ordering::Equal => {
                    return Ok((middle_index, record));
                },
                Ordering::Greater => {
                    right_index = middle_index;
                },
            }
        }
        Ok((left_index, left_record))
    }
}

/// Keys in strictly increasing order.
pub open spec fn strictly_sorted<K: VdfsBtreeKey>(ks: Seq<K>) -> bool {
    forall|i: int, j: int| 0 <= i < j < ks.len() ==> #[trigger] ks[i].spec_cmp(ks[j]) == Ordering::Less
}

proof fn lemma_bsearch_loop_sorted<K: VdfsBtreeKey>(buf: Seq<u8>, recs: int, ks: Seq<K>, key: K, lo: int, hi: int)
    requires
        strictly_sorted(ks),
        ks.len() == recs,
        recs <= 65535,
        forall|i: int| 0 <= i < recs ==> #[trigger] record_present::<K>(buf, recs, i),
        forall|i: int| 0 <= i < recs ==> #[trigger] cmp_rec(buf, i, key) == ks[i].spec_cmp(key),
        0 <= lo < hi < recs,
        ks[lo].spec_cmp(key) == Ordering::Less,
        key.spec_cmp(ks[hi]) == Ordering::Less,
    ensures
        bsearch_loop(buf, recs, key, lo, hi) matches Ok(i) && lo <= i < hi && ks[i].spec_cmp(key) != Ordering::Greater
            && (ks[i].spec_cmp(key) == Ordering::Equal || key.spec_cmp(ks[i + 1]) == Ordering::Less),
    decreases hi - lo,
{
    if hi - lo > 1 {
        let mid = lo + (hi - lo + 1) / 2;
        assert(record_present::<K>(buf, recs, mid));
        assert(cmp_rec(buf, mid, key) == ks[mid].spec_cmp(key));
        if ks[mid].spec_cmp(key) == Ordering::Less {
            lemma_bsearch_loop_sorted(buf, recs, ks, key, mid, hi);
        } else if ks[mid].spec_cmp(key) == Ordering::Greater {
            K::lemma_cmp_total_order(key, ks[mid], key);
            lemma_bsearch_loop_sorted(buf, recs, ks, key, lo, mid);
        }
    }
}

/// In a node whose keys k0 < k1 < ... < km (m at least 1) are strictly
/// increasing and all decodable, the search for `key` fails exactly when
/// `key` is below k0; otherwise it gives the index i of the greatest key
/// at most `key`: ki <= key, and key < k(i+1) when i < m; and when `key`
/// equals kj it gives j.
pub proof fn lemma_binary_search_sorted<K: VdfsBtreeKey>(buf: Seq<u8>, recs: u16, ks: Seq<K>, key: K)
    requires
        strictly_sorted(ks),
        recs >= 2,
        node_keys_ok(buf, recs as int, ks),
    ensures
        spec_bsearch(buf, recs, key) is Err <==> key.spec_cmp(ks[0]) == Ordering::Less,
        spec_bsearch(buf, recs, key) is Err ==> spec_bsearch(buf, recs, key) == Err::<int, BtreeError>(
            BtreeError::LeftRecordKeyIsHigherThanSearchKey,
        ),
        spec_bsearch(buf, recs, key) matches Ok(i) ==> 0 <= i < ks.len() && ks[i].spec_cmp(key) != Ordering::Greater && (
        i + 1 < ks.len() ==> key.spec_cmp(ks[i + 1]) == Ordering::Less),
        forall|j: int|
            0 <= j < ks.len() && #[trigger] ks[j].spec_cmp(key) == Ordering::Equal ==> spec_bsearch(buf, recs, key)
                == Ok::<int, BtreeError>(j),
{
    let n = recs as int;
    let m = n - 1;
    assert forall|i: int| 0 <= i < n implies #[trigger] record_present::<K>(buf, n, i) by {
        assert(record_key_ok(buf, n, i, ks[i]));
    }
    assert forall|i: int| 0 <= i < n implies #[trigger] cmp_rec(buf, i, key) == ks[i].spec_cmp(key) by {
        assert(record_key_ok(buf, n, i, ks[i]));
        K::lemma_cmp_at(ks[i], buf, record_offset(buf, i), key);
    }
    assert(record_present::<K>(buf, n, 0) && record_present::<K>(buf, n, m));
    K::lemma_cmp_total_order(key, ks[0], ks[m]);
    K::lemma_cmp_total_order(ks[0], key, ks[m]);
    assert(ks[0].spec_cmp(ks[m]) == Ordering::Less);
    if ks[0].spec_cmp(key) != Ordering::Equal && ks[0].spec_cmp(key) != Ordering::Greater && ks[m].spec_cmp(key)
        == Ordering::Greater {
        K::lemma_cmp_total_order(key, ks[m], key);
        lemma_bsearch_loop_sorted(buf, n, ks, key, 0, m);
    }
    let r = spec_bsearch(buf, recs, key);
    if let Ok(i) = r {
        if i < m {
            assert(ks[i].spec_cmp(ks[i + 1]) == Ordering::Less);
            K::lemma_cmp_total_order(key, ks[i], ks[i + 1]);
            K::lemma_cmp_total_order(ks[i], key, ks[i + 1]);
        }
        assert forall|j: int| 0 <= j < ks.len() && #[trigger] ks[j].spec_cmp(key) == Ordering::Equal implies i == j by {
            K::lemma_cmp_total_order(ks[j], key, ks[i]);
            K::lemma_cmp_total_order(ks[i], key, ks[j]);
            if i < j {
                assert(ks[i].spec_cmp(ks[j]) == Ordering::Less);
                if i + 1 < j {
                    assert(ks[i + 1].spec_cmp(ks[j]) == Ordering::Less);
                }
                K::lemma_cmp_total_order(key, ks[i + 1], ks[j]);
                K::lemma_cmp_total_order(ks[j], key, ks[i + 1]);
            } else if j < i {
                assert(ks[j].spec_cmp(ks[i]) == Ordering::Less);
                K::lemma_cmp_total_order(key, ks[j], ks[i]);
            }
        }
    } else {
        assert forall|j: int| 0 <= j < ks.len() && #[trigger] ks[j].spec_cmp(key) == Ordering::Equal implies false by {
            if j > 0 {
                assert(ks[0].spec_cmp(ks[j]) == Ordering::Less);
            }
            K::lemma_cmp_total_order(ks[0], ks[j], key);
            K::lemma_cmp_total_order(key, ks[j], ks[0]);
        }
    }
}

impl<'a> VdfsBtree<'a> {
    /// Upper bound on the moves along a sibling chain: the number of
    /// node-sized slots of the image.
    pub open spec fn spec_max_hops(&self) -> int {
        self.img().len() as int / (self.node_size_bytes as int)
    }

    fn max_hops(&self) -> (r: u64)
        requires
            self.wf(),
        ensures
            r == self.spec_max_hops(),
    {
        proof {
            self.data_source.lemma_len_bound();
            vstd::arithmetic::div_mod::lemma_div_is_ordered_by_denominator(
                self.img().len() as int,
                1,
                self.node_size_bytes as int,
            );
        }
        self.data_source.len() / self.node_size_bytes
    }

    /// The search for `key` on the level of node `id`: load the node, search
    /// it, and move to the right sibling while the search ends on the
    /// node's last record and a sibling exists, at most `hops` times. The
    /// result is the node id, its position and the record index.
    pub open spec fn spec_walk_level<K: VdfsBtreeKey>(&self, key: K, id: u32, hops: int) -> Result<
        (u32, int, int),
        BtreeError,
    >
        decreases hops,
    {
        match self.spec_node_result(id) {
            Err(e) => Err(e),
            Ok(p) => if !in_bounds(self.img(), p, self.node_size_bytes as int) {
                Err(BtreeError::DataSourceError(DataSourceError::ReadDataError))
            } else {
                let recs = le_u16(self.img(), p + 14);
                let next = le_u32(self.img(), p + 24);
                match spec_bsearch(self.node_bytes(p), recs as u16, key) {
                    Err(e) => Err(e),
                    Ok(i) => if i + 1 == recs && next != 0 {
                        if hops <= 0 {
                            Err(BtreeError::NodeChainTooLong(id))
                        } else {
                            self.spec_walk_level(key, next as u32, hops - 1)
                        }
                    } else {
                        Ok((id, p, i))
                    },
                }
            },
        }
    }

    /// Loads node `node_id` and its bytes, and searches them for `key`.
    fn load_and_search<K: VdfsBtreeKey>(&self, key: &K, node_id: u32) -> (r: Result<
        (DataPointer<Vdfs4GeneralBtreeNode>, Vec<u8>, u16, DataPointer<K>),
        BtreeError,
    >)
        requires
            self.wf(),
        ensures
            match self.spec_node_result(node_id) {
                Err(e) => r == Err::<(DataPointer<Vdfs4GeneralBtreeNode>, Vec<u8>, u16, DataPointer<K>), BtreeError>(e),
                Ok(p) => if !in_bounds(self.img(), p, self.node_size_bytes as int) {
                    r == Err::<(DataPointer<Vdfs4GeneralBtreeNode>, Vec<u8>, u16, DataPointer<K>), BtreeError>(
                        BtreeError::DataSourceError(DataSourceError::ReadDataError),
                    )
                } else {
                    match spec_bsearch(self.node_bytes(p), le_u16(self.img(), p + 14) as u16, *key) {
                        Err(e) => r == Err::<(DataPointer<Vdfs4GeneralBtreeNode>, Vec<u8>, u16, DataPointer<K>), BtreeError>(e),
                        Ok(i) => r matches Ok((bnode, buf, idx, rec)) && bnode.position == p && idx == i,
                    }
                },
            },
            r matches Ok((bnode, buf, idx, rec)) ==> {
                &&& self.node_is(node_id, bnode)
                &&& in_bounds(self.img(), bnode.position as int, self.node_size_bytes as int)
                &&& buf@ == self.node_bytes(bnode.position as int)
                &&& record_key_ok(buf@, bnode.data.recs_count as int, idx as int, rec.data)
                &&& rec.position == bnode.position + record_offset(buf@, idx as int)
                &&& spec_bsearch(buf@, bnode.data.recs_count, *key) == Ok::<int, BtreeError>(idx as int)
            },
    {
        let bnode = self.get_bnode(node_id)?;
        let buf = self.read_bnode_buffer(&bnode)?;
        proof {
            self.data_source.lemma_len_bound();
        }
        let (idx, rec) = self.binary_search_in_bnode(buf.as_slice(), key, &bnode)?;
        Ok((bnode, buf, idx, rec))
    }

    /// Searches the level that node `start_bnode_id` is on for `key`, moving
    /// right along siblings while the search ends on a node's last record
    /// (see `spec_walk_level`).
    pub fn traverse_level<K: VdfsBtreeKey>(&self, key: &K, start_bnode_id: u32) -> (r: Result<
        BnodeRecordInfo<K>,
        BtreeError,
    >)
        requires
            self.wf(),
        ensures
            match self.spec_walk_level(*key, start_bnode_id, self.spec_max_hops()) {
                Err(e) => r == Err::<BnodeRecordInfo<K>, BtreeError>(e),
                Ok((n, p, i)) => r matches Ok(info) && info.node_id == n && info.bnode.position == p
                    && info.record_index == i,
            },
            r matches Ok(info) ==> self.search_position_ok(*key, info),
    {
        let mut node_id = start_bnode_id;
        let (mut bnode, mut buf, mut idx, mut rec) = self.load_and_search(key, node_id)?;
        let mut hops = self.max_hops();
        while idx as u32 + 1 == bnode.data.recs_count as u32 && bnode.data.next_node_id != 0
            invariant
                self.wf(),
                self.spec_walk_level(*key, start_bnode_id, self.spec_max_hops()) == self.spec_walk_level(
                    *key,
                    node_id,
                    hops as int,
                ),
                self.spec_node_result(node_id) == Ok::<int, BtreeError>(bnode.position as int),
                self.node_is(node_id, bnode),
                in_bounds(self.img(), bnode.position as int, self.node_size_bytes as int),
                buf@ == self.node_bytes(bnode.position as int),
                record_key_ok(buf@, bnode.data.recs_count as int, idx as int, rec.data),
                rec.position == bnode.position + record_offset(buf@, idx as int),
                spec_bsearch(buf@, bnode.data.recs_count, *key) == Ok::<int, BtreeError>(idx as int),
            decreases hops,
        {
            if hops == 0 {
                return Err(BtreeError::NodeChainTooLong(node_id));
            }
            hops = hops - 1;
            node_id = bnode.data.next_node_id;
            let (b, bf, i, r) = self.load_and_search(key, node_id)?;
            bnode = b;
            buf = bf;
            idx = i;
            rec = r;
        }
        Ok(BnodeRecordInfo { key: rec, bnode, node_id, record_index: idx })
    }

    /// `levels` more descents from the search position `st`: each reads the
    /// child id stored as the value of the record found, and searches the
    /// child's level.
    pub open spec fn spec_descend<K: VdfsBtreeKey>(
        &self,
        key: K,
        st: Result<(u32, int, int), BtreeError>,
        levels: int,
    ) -> Result<(u32, int, int), BtreeError>
        decreases levels,
    {
        if levels <= 0 {
            st
        } else {
            match st {
                Err(e) => Err(e),
                Ok((n, p, i)) => {
                    let buf = self.node_bytes(p);
                    let off = record_offset(buf, i);
                    let vo = K::spec_value_offset_at(buf, off);
                    let vp = p + off + vo;
                    if vo > VDFS4_KEY_MAX_LEN {
                        Err(BtreeError::BnodeRecordValueOffsetOutOfBounds(vo))
                    } else if vp > u64::MAX {
                        Err(BtreeError::PositionOverflow)
                    } else if !in_bounds(self.img(), vp, 4) {
                        Err(BtreeError::DataSourceError(DataSourceError::ReadDataError))
                    } else {
                        self.spec_descend(
                            key,
                            self.spec_walk_level(key, le_u32(self.img(), vp) as u32, self.spec_max_hops()),
                            levels - 1,
                        )
                    }
                },
            }
        }
    }

    /// The search for `key` down to `till_level`: an error where that level
    /// is not below the tree's height, else the root level's search and
    /// `height - till_level` descents.
    pub open spec fn spec_traverse<K: VdfsBtreeKey>(&self, key: K, till_level: u16) -> Result<
        (u32, int, int),
        BtreeError,
    > {
        let h = self.head_node.data.btree_height;
        if till_level >= h {
            Err(BtreeError::LevelIsTooHigh(till_level, h))
        } else {
            self.spec_descend(
                key,
                self.spec_walk_level(key, self.head_node.data.root_bnode_id, self.spec_max_hops()),
                h - till_level,
            )
        }
    }

    /// Descends from the root to `till_level` (the leaves are level 1).
    #[verifier::rlimit(80)]
    pub fn traverse<K: VdfsBtreeKey>(&self, key: &K, till_level: u16) -> (r: Result<BnodeRecordInfo<K>, BtreeError>)
        requires
            self.wf(),
        ensures
            match self.spec_traverse(*key, till_level) {
                Err(e) => r == Err::<BnodeRecordInfo<K>, BtreeError>(e),
                Ok((n, p, i)) => r matches Ok(info) && info.node_id == n && info.bnode.position == p
                    && info.record_index == i,
            },
            r matches Ok(info) ==> self.search_position_ok(*key, info),
    {
        let max_tree_level = self.head_node.data.btree_height;
        if till_level >= max_tree_level {
            return Err(BtreeError::LevelIsTooHigh(till_level, max_tree_level));
        }
        let mut info = self.traverse_level(key, self.head_node.data.root_bnode_id)?;
        let mut level = max_tree_level;
        while level > till_level
            invariant
                self.wf(),
                till_level < max_tree_level,
                max_tree_level == self.head_node.data.btree_height,
                till_level <= level,
                self.spec_traverse(*key, till_level) == self.spec_descend(
                    *key,
                    Ok::<(u32, int, int), BtreeError>((info.node_id, info.bnode.position as int, info.record_index as int)),
                    level - till_level,
                ),
                self.search_position_ok(*key, info),
            decreases level,
        {
            let ghost buf = self.node_bytes(info.bnode.position as int);
            proof {
                K::lemma_cmp_at(info.key.data, buf, record_offset(buf, info.record_index as int), *key);
            }
            let offset = info.key.data.get_value_offset();
            if offset > VDFS4_KEY_MAX_LEN {
                return Err(BtreeError::BnodeRecordValueOffsetOutOfBounds(offset));
            }
            let position = match info.key.position.checked_add(offset) {
                Some(p) => p,
                None => return Err(BtreeError::PositionOverflow),
            };
            let index_value: DataPointer<GenericIndexValue> = match self.data_source.read_at(position) {
                Ok(v) => v,
                Err(e) => return Err(BtreeError::DataSourceError(e)),
            };
            proof {
                assert(index_value.data.node_id == le_u32(self.img(), position as int));
                assert(self.spec_descend(
                    *key,
                    Ok::<(u32, int, int), BtreeError>((info.node_id, info.bnode.position as int, info.record_index as int)),
                    level - till_level,
                ) == self.spec_descend(
                    *key,
                    self.spec_walk_level(*key, index_value.data.node_id, self.spec_max_hops()),
                    level - till_level - 1,
                ));
            }
            info = self.traverse_level(key, index_value.data.node_id)?;
            level = level - 1;
        }
        Ok(info)
    }

    /// Position of `key` on the leaf level: the search down to level 1.
    pub fn find<K: VdfsBtreeKey>(&self, key: &K) -> (r: Result<BnodeRecordInfo<K>, BtreeError>)
        requires
            self.wf(),
        ensures
            match self.spec_traverse(*key, VDFS4_BTREE_LEAF_LVL) {
                Err(e) => r == Err::<BnodeRecordInfo<K>, BtreeError>(e),
                Ok((n, p, i)) => r matches Ok(info) && info.node_id == n && info.bnode.position == p
                    && info.record_index == i,
            },
            r matches Ok(info) ==> self.search_position_ok(*key, info),
    {
        self.traverse(key, VDFS4_BTREE_LEAF_LVL)
    }
}

/// `info` names a record of the tree: its node is `info.node_id`, lies whole
/// in the image, and holds `info.key` as record `info.record_index`.
pub open spec fn record_at<'a, K: VdfsBtreeKey>(t: &VdfsBtree<'a>, info: BnodeRecordInfo<K>) -> bool {
    let p = info.bnode.position as int;
    let buf = t.node_bytes(p);
    &&& t.node_is(info.node_id, info.bnode)
    &&& in_bounds(t.img(), p, t.node_size_bytes as int)
    &&& record_key_ok(buf, info.bnode.data.recs_count as int, info.record_index as int, info.key.data)
    &&& info.key.position == p + record_offset(buf, info.record_index as int)
}

/// `b` is the record that follows `a` along the leaf chain: the next index
/// of the same node, or the first record of the right sibling after a
/// node's last record.
pub open spec fn chain_step<K>(a: BnodeRecordInfo<K>, b: BnodeRecordInfo<K>) -> bool {
    ||| (b.node_id == a.node_id && b.bnode == a.bnode && b.record_index == a.record_index + 1)
    ||| (a.record_index + 1 == a.bnode.data.recs_count && a.bnode.data.next_node_id != 0 && b.node_id
        == a.bnode.data.next_node_id && b.record_index == 0)
}

/// `a` is the last record of a node without a right sibling.
pub open spec fn chain_end<K>(a: BnodeRecordInfo<K>) -> bool {
    a.record_index + 1 == a.bnode.data.recs_count && a.bnode.data.next_node_id == 0
}

/// Forward iterator over leaf records, from a start position to the end of
/// the sibling chain.
pub struct BtreeRecordsIterator<'a, 'b> {
    pub btree: &'b VdfsBtree<'a>,
    pub bnode: DataPointer<Vdfs4GeneralBtreeNode>,
    pub node_id: u32,
    /// The bytes of the current node.
    pub buffer: Vec<u8>,
    pub record_index: u16,
    /// No record has been handed out yet.
    pub initial_state: bool,
    /// Moves to a right sibling still allowed.
    pub hops_left: u64,
}

/// Record `i` of node `n` at `p` as the next position, or the error reading
/// it gives.
pub open spec fn spec_record_step<'a, K: VdfsBtreeKey>(t: &VdfsBtree<'a>, n: u32, p: int, i: int, hops: int) -> Result<
    Option<(u32, int, int, int)>,
    BtreeError,
> {
    match record_error::<K>(t.node_bytes(p), le_u16(t.img(), p + 14), i as u16) {
        Some(e) => Err(e),
        None => Ok(Some((n, p, i, hops))),
    }
}

/// One step of the iterator at node `n` (position `p`), index `idx`: the
/// start record first; then the next index of the node; after the last
/// record, the first record of the right sibling (one hop), or none where
/// there is none. The result is the new node, position, index and hops.
pub open spec fn spec_next<'a, K: VdfsBtreeKey>(
    t: &VdfsBtree<'a>,
    n: u32,
    p: int,
    idx: int,
    initial: bool,
    hops: int,
) -> Result<Option<(u32, int, int, int)>, BtreeError> {
    let recs = le_u16(t.img(), p + 14);
    let next = le_u32(t.img(), p + 24);
    if initial && idx < recs {
        spec_record_step::<K>(t, n, p, idx, hops)
    } else if idx + 1 < recs {
        spec_record_step::<K>(t, n, p, idx + 1, hops)
    } else if idx + 1 == recs {
        if next == 0 {
            Ok(None)
        } else if hops <= 0 {
            Err(BtreeError::NodeChainTooLong(next as u32))
        } else {
            match t.spec_node_result(next as u32) {
                Err(e) => Err(e),
                Ok(p2) => if !in_bounds(t.img(), p2, t.node_size_bytes as int) {
                    Err(BtreeError::DataSourceError(DataSourceError::ReadDataError))
                } else {
                    spec_record_step::<K>(t, next as u32, p2, 0, hops - 1)
                },
            }
        }
    } else {
        Err(BtreeError::BnodeRecordIndexOutOfBounds(idx as u16))
    }
}

/// The step goes forward: fewer hops left, or as many and a later index.
pub open spec fn step_progresses(idx: int, initial: bool, hops: int, i2: int, h2: int) -> bool {
    &&& 0 <= idx <= 65535
    &&& 0 <= i2 <= 65535
    &&& 0 <= h2
    &&& (h2 < hops || (h2 == hops && 2 * (65536 - i2) < 2 * (65536 - idx) + if initial {
        1int
    } else {
        0int
    }))
}

/// The positions the iterator hands out from this state to the end of the
/// chain, or the first error.
pub open spec fn spec_walk_records<'a, K: VdfsBtreeKey>(
    t: &VdfsBtree<'a>,
    n: u32,
    p: int,
    idx: int,
    initial: bool,
    hops: int,
) -> Result<Seq<(u32, int, int)>, BtreeError>
    decreases hops, 2 * (65536 - idx) + if initial {
        1int
    } else {
        0int
    },
{
    match spec_next::<K>(t, n, p, idx, initial, hops) {
        Err(e) => Err(e),
        Ok(None) => Ok(Seq::empty()),
        Ok(Some((n2, p2, i2, h2))) => if step_progresses(idx, initial, hops, i2, h2) {
            match spec_walk_records::<K>(t, n2, p2, i2, false, h2) {
                Err(e) => Err(e),
                Ok(rest) => Ok(seq![(n2, p2, i2)] + rest),
            }
        } else {
            Err(BtreeError::BnodeRecordIndexOutOfBounds(0))
        },
    }
}

/// Every step of the iterator goes forward.
pub proof fn lemma_next_progresses<'a, K: VdfsBtreeKey>(
    t: &VdfsBtree<'a>,
    n: u32,
    p: int,
    idx: int,
    initial: bool,
    hops: int,
)
    requires
        0 <= idx <= 65535,
        0 <= hops,
    ensures
        spec_next::<K>(t, n, p, idx, initial, hops) matches Ok(Some((n2, p2, i2, h2))) ==> step_progresses(
            idx,
            initial,
            hops,
            i2,
            h2,
        ),
{
}

impl<'a, 'b> BtreeRecordsIterator<'a, 'b> {
    pub open spec fn wf(&self) -> bool {
        &&& self.btree.wf()
        &&& self.btree.node_is(self.node_id, self.bnode)
        &&& in_bounds(self.btree.img(), self.bnode.position as int, self.btree.node_size_bytes as int)
        &&& self.buffer@ == self.btree.node_bytes(self.bnode.position as int)
    }

    /// Where the next record is: the start record first, then the record
    /// after the current one; none at the end of the chain.
    pub open spec fn next_position(&self) -> Option<(u32, int)> {
        let recs = self.bnode.data.recs_count as int;
        if self.initial_state && self.record_index < recs {
            Some((self.node_id, self.record_index as int))
        } else if self.record_index + 1 < recs {
            Some((self.node_id, self.record_index + 1))
        } else if self.record_index + 1 == recs && self.bnode.data.next_node_id != 0 {
            Some((self.bnode.data.next_node_id, 0))
        } else {
            None
        }
    }

    /// The iterator has passed the last record of the chain.
    pub open spec fn at_end(&self) -> bool {
        !(self.initial_state && self.record_index < self.bnode.data.recs_count) && self.record_index + 1
            == self.bnode.data.recs_count && self.bnode.data.next_node_id == 0
    }

    /// Decreases with every record handed out.
    pub open spec fn progress(&self) -> int {
        self.hops_left * 262144 + (65536 - self.record_index) * 2 + if self.initial_state {
            1int
        } else {
            0int
        }
    }

    pub open spec fn spec_step<K: VdfsBtreeKey>(&self) -> Result<Option<(u32, int, int, int)>, BtreeError> {
        spec_next::<K>(
            self.btree,
            self.node_id,
            self.bnode.position as int,
            self.record_index as int,
            self.initial_state,
            self.hops_left as int,
        )
    }

    pub open spec fn spec_rest<K: VdfsBtreeKey>(&self) -> Result<Seq<(u32, int, int)>, BtreeError> {
        spec_walk_records::<K>(
            self.btree,
            self.node_id,
            self.bnode.position as int,
            self.record_index as int,
            self.initial_state,
            self.hops_left as int,
        )
    }

    pub open spec fn current<K>(&self, key: DataPointer<K>) -> BnodeRecordInfo<K> {
        BnodeRecordInfo { key, bnode: self.bnode, node_id: self.node_id, record_index: self.record_index }
    }

    /// The next record along the chain; none after the last one (see
    /// `spec_next`).
    pub fn next<K: VdfsBtreeKey>(&mut self) -> (r: Result<Option<DataPointer<K>>, BtreeError>)
        requires
            old(self).wf(),
            old(self).record_index < old(self).bnode.data.recs_count,
        ensures
            final(self).btree == old(self).btree,
            match old(self).spec_step::<K>() {
                Err(e) => r == Err::<Option<DataPointer<K>>, BtreeError>(e),
                Ok(None) => r == Ok::<Option<DataPointer<K>>, BtreeError>(None) && final(self).node_id == old(self).node_id && final(self).bnode == old(self).bnode && final(self).record_index == old(self).record_index
                    && final(self).hops_left == old(self).hops_left,
                Ok(Some((n2, p2, i2, h2))) => r is Ok && (r->Ok_0) is Some && final(self).node_id == n2 && final(self).bnode.position == p2 && final(self).record_index == i2 && final(self).hops_left == h2,
            },
            r is Ok ==> final(self).wf() && !final(self).initial_state && final(self).record_index < final(
                self).bnode.data.recs_count,
            r == Ok::<Option<DataPointer<K>>, BtreeError>(None) <==> old(self).at_end(),
            r matches Ok(Some(d)) ==> {
                &&& old(self).next_position() == Some((final(self).node_id, final(self).record_index as int))
                &&& record_at(final(self).btree, final(self).current(d))
                &&& final(self).progress() < old(self).progress()
                &&& final(self).record_index != 0 ==> final(self).bnode == old(self).bnode
            },
    {
        let recs = self.bnode.data.recs_count;
        if !self.initial_state {
            if self.record_index as u32 + 1 < recs as u32 {
                self.record_index = self.record_index + 1;
            } else {
                let next_node_id = self.bnode.data.next_node_id;
                if next_node_id == 0 {
                    self.initial_state = false;
                    return Ok(None);
                }
                if self.hops_left == 0 {
                    return Err(BtreeError::NodeChainTooLong(next_node_id));
                }
                let bnode = self.btree.get_bnode(next_node_id)?;
                let buffer = self.btree.read_bnode_buffer(&bnode)?;
                self.hops_left = self.hops_left - 1;
                self.bnode = bnode;
                self.buffer = buffer;
                self.node_id = next_node_id;
                self.record_index = 0;
            }
        }
        self.initial_state = false;
        proof {
            self.btree.data_source.lemma_len_bound();
        }
        let rec = self.btree.get_bnode_record_from_buffer(self.buffer.as_slice(), &self.bnode, self.record_index)?;
        Ok(Some(rec))
    }
}

/// The positions of `v`: node id, node position and record index.
pub open spec fn positions<K>(v: Seq<BnodeRecordInfo<K>>) -> Seq<(u32, int, int)> {
    Seq::new(v.len(), |k: int| (v[k].node_id, v[k].bnode.position as int, v[k].record_index as int))
}

impl<'a> VdfsBtree<'a> {
    /// An iterator whose first record is record `start_index` of node
    /// `start_bnode_id`.
    pub fn records_iter<'b>(&'b self, start_bnode_id: u32, start_index: u16) -> (r: Result<
        BtreeRecordsIterator<'a, 'b>,
        BtreeError,
    >)
        requires
            self.wf(),
        ensures
            match self.spec_node_result(start_bnode_id) {
                Err(e) => r is Err && r->Err_0 == e,
                Ok(p) => if !in_bounds(self.img(), p, self.node_size_bytes as int) {
                    r is Err && r->Err_0 == BtreeError::DataSourceError(DataSourceError::ReadDataError)
                } else {
                    r is Ok && r->Ok_0.bnode.position == p && r->Ok_0.hops_left == self.spec_max_hops()
                },
            },
            r matches Ok(it) ==> {
                &&& it.wf()
                &&& it.btree == self
                &&& it.node_id == start_bnode_id
                &&& it.record_index == start_index
                &&& it.initial_state
            },
    {
        let bnode = self.get_bnode(start_bnode_id)?;
        let buffer = match self.read_bnode_buffer(&bnode) {
            Ok(b) => b,
            Err(e) => return Err(e),
        };
        Ok(BtreeRecordsIterator {
            btree: self,
            bnode,
            node_id: start_bnode_id,
            buffer,
            record_index: start_index,
            initial_state: true,
            hops_left: self.max_hops(),
        })
    }

    /// The records from record `start_index` of node `start_bnode_id` to
    /// the end of the chain: their positions, or the first error.
    pub open spec fn spec_collect<K: VdfsBtreeKey>(&self, start_bnode_id: u32, start_index: u16) -> Result<
        Seq<(u32, int, int)>,
        BtreeError,
    > {
        match self.spec_node_result(start_bnode_id) {
            Err(e) => Err(e),
            Ok(p) => if !in_bounds(self.img(), p, self.node_size_bytes as int) {
                Err(BtreeError::DataSourceError(DataSourceError::ReadDataError))
            } else {
                spec_walk_records::<K>(self, start_bnode_id, p, start_index as int, true, self.spec_max_hops())
            },
        }
    }

    /// All records from record `start_index` of node `start_bnode_id` to the
    /// end of the sibling chain, each with where it was found.
    pub fn collect_records<K: VdfsBtreeKey>(&self, start_bnode_id: u32, start_index: u16) -> (r: Result<
        Vec<BnodeRecordInfo<K>>,
        BtreeError,
    >)
        requires
            self.wf(),
        ensures
            match self.spec_collect::<K>(start_bnode_id, start_index) {
                Err(e) => r == Err::<Vec<BnodeRecordInfo<K>>, BtreeError>(e),
                Ok(s) => r matches Ok(v) && positions(v@) == s,
            },
            r matches Ok(v) ==> {
                &&& v@.len() >= 1
                &&& v@[0].node_id == start_bnode_id && v@[0].record_index == start_index
                &&& forall|k: int| 0 <= k < v@.len() ==> #[trigger] record_at(self, v@[k])
                &&& forall|k: int| 0 <= k < v@.len() - 1 ==> #[trigger] chain_step(v@[k], v@[k + 1])
                &&& chain_end(v@[v@.len() - 1])
            },
    {
        let mut it = self.records_iter(start_bnode_id, start_index)?;
        if start_index >= it.bnode.data.recs_count {
            return Err(BtreeError::BnodeRecordIndexOutOfBounds(start_index));
        }
        let mut out: Vec<BnodeRecordInfo<K>> = Vec::new();
        proof {
            assert(positions(out@) =~= Seq::<(u32, int, int)>::empty());
            assert(Seq::<(u32, int, int)>::empty() + Seq::<(u32, int, int)>::empty() =~= Seq::<(u32, int, int)>::empty());
        }
        loop
            invariant
                it.wf(),
                it.btree == self,
                self.wf(),
                it.hops_left <= self.spec_max_hops(),
                it.record_index < it.bnode.data.recs_count,
                self.spec_collect::<K>(start_bnode_id, start_index) == match it.spec_rest::<K>() {
                    Err(e) => Err::<Seq<(u32, int, int)>, BtreeError>(e),
                    Ok(rest) => Ok(positions(out@) + rest),
                },
                out@.len() == 0 ==> it.initial_state && it.node_id == start_bnode_id && it.record_index == start_index,
                out@.len() > 0 ==> !it.initial_state && out@[out@.len() - 1].node_id == it.node_id
                    && out@[out@.len() - 1].bnode == it.bnode && out@[out@.len() - 1].record_index == it.record_index,
                out@.len() > 0 ==> out@[0].node_id == start_bnode_id && out@[0].record_index == start_index,
                forall|k: int| 0 <= k < out@.len() ==> #[trigger] record_at(self, out@[k]),
                forall|k: int| 0 <= k < out@.len() - 1 ==> #[trigger] chain_step(out@[k], out@[k + 1]),
            decreases it.progress(),
        {
            let ghost before = it;
            proof {
                lemma_next_progresses::<K>(
                    self,
                    it.node_id,
                    it.bnode.position as int,
                    it.record_index as int,
                    it.initial_state,
                    it.hops_left as int,
                );
            }
            let step = it.next::<K>();
            let step = match step {
                Ok(s) => s,
                Err(e) => return Err(e),
            };
            match step {
                Some(d) => {
                    let ghost prev = out@;
                    let info = BnodeRecordInfo { key: d, bnode: it.bnode, node_id: it.node_id, record_index: it.record_index };
                    out.push(info);
                    proof {
                        assert(out@[out@.len() - 1] == info);
                        if prev.len() > 0 {
                            let a = prev[prev.len() - 1];
                            assert(chain_step(a, info));
                        }
                        assert forall|k: int| 0 <= k < out@.len() - 1 implies #[trigger] chain_step(out@[k], out@[k + 1]) by {
                            if k < prev.len() - 1 {
                                assert(out@[k] == prev[k] && out@[k + 1] == prev[k + 1]);
                            }
                        }
                        assert forall|k: int| 0 <= k < out@.len() implies #[trigger] record_at(self, out@[k]) by {
                            if k < prev.len() {
                                assert(out@[k] == prev[k]);
                            }
                        }
                        assert(positions(out@) =~= positions(prev).push(
                            (info.node_id, info.bnode.position as int, info.record_index as int),
                        ));
                        if let Ok(rest) = it.spec_rest::<K>() {
                            assert(positions(prev) + (seq![(info.node_id, info.bnode.position as int, info.record_index as int)] + rest)
                                =~= positions(out@) + rest);
                        }
                    }
                },
                None => {
                    proof {
                        if out@.len() == 0 {
                            assert(!before.at_end());
                        }
                        assert(positions(out@) + Seq::<(u32, int, int)>::empty() =~= positions(out@));
                    }
                    return Ok(out);
                },
            }
        }
    }
}

impl<K: VdfsBtreeKey> DataPointer<K> {
    /// Position of the record's value: the key's position plus `key_len`.
    pub open spec fn spec_value_position(&self) -> int {
        self.position + self.data.spec_value_offset()
    }

    /// Decodes the value of the record whose key this is.
    pub fn get_record_value<R: FixedRecord>(&self, data_source: &DataSource) -> (r: Result<DataPointer<R>, BtreeError>)
        ensures
            r is Ok <==> (self.data.spec_value_offset() <= VDFS4_KEY_MAX_LEN && in_bounds(
                data_source@,
                self.spec_value_position(),
                R::spec_size() as int,
            )),
            self.data.spec_value_offset() > VDFS4_KEY_MAX_LEN ==> r == Err::<DataPointer<R>, BtreeError>(
                BtreeError::BnodeRecordValueOffsetOutOfBounds(self.data.spec_value_offset()),
            ),
            r is Err && self.data.spec_value_offset() <= VDFS4_KEY_MAX_LEN ==> r == Err::<DataPointer<R>, BtreeError>(
                BtreeError::DataSourceError(DataSourceError::ReadDataError),
            ),
            r matches Ok(d) ==> d.position == self.spec_value_position() && d.data.decoded_from(
                data_source@,
                d.position as int,
            ),
    {
        let offset = self.data.get_value_offset();
        if offset > VDFS4_KEY_MAX_LEN {
            return Err(BtreeError::BnodeRecordValueOffsetOutOfBounds(offset));
        }
        let position = match self.position.checked_add(offset) {
            Some(p) => p,
            None => {
                proof {
                    data_source.lemma_len_bound();
                }
                return Err(BtreeError::DataSourceError(DataSourceError::ReadDataError));
            },
        };
        match data_source.read_at(position) {
            Ok(d) => Ok(d),
            Err(e) => Err(BtreeError::DataSourceError(e)),
        }
    }
}


/// The leaf level is in key order along the sibling chain: a record that
/// follows another along the chain has the greater key.
pub open spec fn chain_in_key_order<'a, K: VdfsBtreeKey>(t: &VdfsBtree<'a>) -> bool {
    forall|a: BnodeRecordInfo<K>, b: BnodeRecordInfo<K>|
        #![trigger record_at(t, a), record_at(t, b), chain_step(a, b)]
        record_at(t, a) && record_at(t, b) && chain_step(a, b) ==> a.key.data.spec_cmp(b.key.data) == Ordering::Less
}

proof fn lemma_chain_walk_sorted_from<'a, K: VdfsBtreeKey>(
    t: &VdfsBtree<'a>,
    v: Seq<BnodeRecordInfo<K>>,
    i: int,
    j: int,
)
    requires
        chain_in_key_order::<K>(t),
        forall|k: int| 0 <= k < v.len() ==> #[trigger] record_at(t, v[k]),
        forall|k: int| 0 <= k < v.len() - 1 ==> #[trigger] chain_step(v[k], v[k + 1]),
        0 <= i < j < v.len(),
    ensures
        v[i].key.data.spec_cmp(v[j].key.data) == Ordering::Less,
    decreases j - i,
{
    assert(record_at(t, v[j - 1]) && record_at(t, v[j]) && chain_step(v[j - 1], v[j - 1 + 1]));
    if j > i + 1 {
        lemma_chain_walk_sorted_from(t, v, i, j - 1);
        K::lemma_cmp_total_order(v[i].key.data, v[j - 1].key.data, v[j].key.data);
    }
}

/// Walking the leaf chain of a tree whose leaves are in key order gives
/// strictly increasing keys: the records come in key order, none twice.
/// (`collect_records` and `CatalogTree::all_records` give such walks, from
/// their start position to the end of the chain.)
pub proof fn lemma_chain_walk_sorted<'a, K: VdfsBtreeKey>(t: &VdfsBtree<'a>, v: Seq<BnodeRecordInfo<K>>)
    requires
        chain_in_key_order::<K>(t),
        forall|k: int| 0 <= k < v.len() ==> #[trigger] record_at(t, v[k]),
        forall|k: int| 0 <= k < v.len() - 1 ==> #[trigger] chain_step(v[k], v[k + 1]),
    ensures
        forall|i: int, j: int|
            0 <= i < j < v.len() ==> #[trigger] v[i].key.data.spec_cmp(v[j].key.data) == Ordering::Less,
        forall|i: int, j: int| 0 <= i < j < v.len() ==> #[trigger] v[i].key.data.spec_cmp(v[j].key.data) != Ordering::Equal,
{
    assert forall|i: int, j: int| 0 <= i < j < v.len() implies #[trigger] v[i].key.data.spec_cmp(v[j].key.data)
        == Ordering::Less by {
        lemma_chain_walk_sorted_from(t, v, i, j);
    }
}

} // verus!
