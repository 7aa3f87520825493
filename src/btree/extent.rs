//! The extent tree: extents of files whose fork is full, keyed by object
//! id and logical block.

use vstd::prelude::*;
use crate::data_source::{DataSource, DataPointer};
use crate::layout::{Vdfs4BaseTable, Vdfs4SuperBlocks, Vdfs4ExtTreeKey};
use crate::layout::consts::{BtreeType, VDFS4_META_BTREE_EXTENTS};
use super::{VdfsBtree, BtreeError, BtreeRecordsIterator, VDFS4_BTREE_LEAF_LVL};

verus! {

pub struct ExtentTree<'a> {
    pub btree: VdfsBtree<'a>,
}

impl<'a> ExtentTree<'a> {
    pub open spec fn wf(&self) -> bool {
        self.btree.wf() && self.btree.btree_type == BtreeType::ExtentsTree
    }

    pub fn new(
        data_source: &'a DataSource,
        super_blocks: &Vdfs4SuperBlocks,
        base_table: DataPointer<Vdfs4BaseTable>,
    ) -> (r: Result<ExtentTree<'a>, BtreeError>)
        requires
            base_table.data.translation_table_offsets@.len() == 5,
            super_blocks.ext_super_block.meta@.len() == VDFS4_META_BTREE_EXTENTS,
        ensures
            match VdfsBtree::spec_new_result(data_source, *super_blocks, base_table, BtreeType::ExtentsTree) {
                Err(e) => r is Err && r->Err_0 == e,
                Ok(p) => r is Ok && r->Ok_0.btree.head_node.position == p,
            },
            r matches Ok(t) ==> t.btree.btree_type == BtreeType::ExtentsTree && t.wf() && t.btree.data_source == data_source && t.btree.base_table == base_table
                && t.btree.meta@ == super_blocks.ext_super_block.meta@,
    {
        let btree = VdfsBtree::new(data_source, super_blocks, base_table, BtreeType::ExtentsTree)?;
        Ok(ExtentTree { btree })
    }

    /// An iterator from the search position of `(first_object_id, 0)`.
    pub fn records_iterator<'b>(&'b self, first_object_id: u64) -> (r: Result<BtreeRecordsIterator<'a, 'b>, BtreeError>)
        requires
            self.wf(),
        ensures
            r matches Ok(it) ==> it.wf() && it.btree == &self.btree && it.initial_state && it.record_index
                < it.bnode.data.recs_count,
            match self.btree.spec_traverse(Vdfs4ExtTreeKey::spec_from_object_id(first_object_id), VDFS4_BTREE_LEAF_LVL) {
                Err(e) => r is Err && r->Err_0 == e,
                Ok((n, p, i)) => r is Ok && r->Ok_0.node_id == n && r->Ok_0.bnode.position == p
                    && r->Ok_0.record_index == i && r->Ok_0.hops_left == self.btree.spec_max_hops(),
            },
    {
        let key = Vdfs4ExtTreeKey::from_object_id(first_object_id);
        let root_child_node = self.btree.find(&key)?;
        self.btree.records_iter(root_child_node.node_id, root_child_node.record_index)
    }
}

} // verus!
