//! The catalog tree: directory entries keyed by parent id and name.

use vstd::prelude::*;
use crate::data_source::{DataSource, DataPointer};
use crate::layout::{Vdfs4BaseTable, Vdfs4SuperBlocks, Vdfs4CatTreeKey};
use crate::layout::consts::{BtreeType, SpecialInodeIds, VDFS4_META_BTREE_EXTENTS};
use super::{
    VdfsBtree, BtreeError, BtreeRecordsIterator, BnodeRecordInfo, record_at, chain_step, chain_end, positions,
    VDFS4_BTREE_LEAF_LVL,
};

verus! {

/// A search key of the shape that orders before every child of the root:
/// parent `Root`, empty name, object id 0.
pub open spec fn is_root_search_key(k: Vdfs4CatTreeKey) -> bool {
    k.parent_id == SpecialInodeIds::Root.spec_id() && k.object_id == 0 && k.name_len == 0 && k.name_bytes()
        == Seq::<u8>::empty()
}

pub struct CatalogTree<'a> {
    pub btree: VdfsBtree<'a>,
}

impl<'a> CatalogTree<'a> {
    pub open spec fn wf(&self) -> bool {
        self.btree.wf() && self.btree.btree_type == BtreeType::CatalogTree
    }

    pub fn new(
        data_source: &'a DataSource,
        super_blocks: &Vdfs4SuperBlocks,
        base_table: DataPointer<Vdfs4BaseTable>,
    ) -> (r: Result<CatalogTree<'a>, BtreeError>)
        requires
            base_table.data.translation_table_offsets@.len() == 5,
            super_blocks.ext_super_block.meta@.len() == VDFS4_META_BTREE_EXTENTS,
        ensures
            match VdfsBtree::spec_new_result(data_source, *super_blocks, base_table, BtreeType::CatalogTree) {
                Err(e) => r is Err && r->Err_0 == e,
                Ok(p) => r is Ok && r->Ok_0.btree.head_node.position == p,
            },
            r matches Ok(t) ==> t.btree.btree_type == BtreeType::CatalogTree && t.wf() && t.btree.data_source == data_source && t.btree.base_table == base_table
                && t.btree.meta@ == super_blocks.ext_super_block.meta@,
    {
        let btree = VdfsBtree::new(data_source, super_blocks, base_table, BtreeType::CatalogTree)?;
        Ok(CatalogTree { btree })
    }

    /// An iterator from the search position of the key that orders before
    /// every child of the root.
    pub fn all_records_iterator<'b>(&'b self) -> (r: Result<BtreeRecordsIterator<'a, 'b>, BtreeError>)
        requires
            self.wf(),
        ensures
            r matches Ok(it) ==> it.wf() && it.btree == &self.btree && it.initial_state && it.record_index
                < it.bnode.data.recs_count,
            exists|k: Vdfs4CatTreeKey|
                is_root_search_key(k) && match #[trigger] self.btree.spec_traverse(k, VDFS4_BTREE_LEAF_LVL) {
                    Err(e) => r is Err && r->Err_0 == e,
                    Ok((n, p, i)) => r is Ok && r->Ok_0.node_id == n && r->Ok_0.bnode.position == p
                        && r->Ok_0.record_index == i && r->Ok_0.hops_left == self.btree.spec_max_hops(),
                },
    {
        let key = Vdfs4CatTreeKey::child_of_root();
        let root_child_node = self.btree.find(&key)?;
        let r = self.btree.records_iter(root_child_node.node_id, root_child_node.record_index);
        proof {
            assert(is_root_search_key(key));
        }
        r
    }

    /// Every catalog record from the search position of the key that
    /// orders before every child of the root to the end of the leaf chain,
    /// in chain order, each once.
    pub fn all_records(&self) -> (r: Result<Vec<BnodeRecordInfo<Vdfs4CatTreeKey>>, BtreeError>)
        requires
            self.wf(),
        ensures
            exists|k: Vdfs4CatTreeKey|
                is_root_search_key(k) && match #[trigger] self.btree.spec_traverse(k, VDFS4_BTREE_LEAF_LVL) {
                    Err(e) => r == Err::<Vec<BnodeRecordInfo<Vdfs4CatTreeKey>>, BtreeError>(e),
                    Ok((n, p, i)) => match self.btree.spec_collect::<Vdfs4CatTreeKey>(n, i as u16) {
                        Err(e) => r == Err::<Vec<BnodeRecordInfo<Vdfs4CatTreeKey>>, BtreeError>(e),
                        Ok(s) => r matches Ok(v) && positions(v@) == s,
                    },
                },
            r matches Ok(v) ==> {
                &&& v@.len() >= 1
                &&& forall|i: int| 0 <= i < v@.len() ==> #[trigger] record_at(&self.btree, v@[i])
                &&& forall|i: int| 0 <= i < v@.len() - 1 ==> #[trigger] chain_step(v@[i], v@[i + 1])
                &&& chain_end(v@[v@.len() - 1])
            },
    {
        let key = Vdfs4CatTreeKey::child_of_root();
        proof {
            assert(is_root_search_key(key));
        }
        let start = self.btree.find(&key)?;
        self.btree.collect_records(start.node_id, start.record_index)
    }
}

} // verus!
