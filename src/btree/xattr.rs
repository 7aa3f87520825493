//! The extended-attribute tree. Unpacking does not read it; it is opened so
//! that its head node is checked like the others.

use vstd::prelude::*;
use crate::data_source::{DataSource, DataPointer};
use crate::layout::{Vdfs4BaseTable, Vdfs4SuperBlocks};
use crate::layout::consts::{BtreeType, VDFS4_META_BTREE_EXTENTS};
use super::{VdfsBtree, BtreeError};

verus! {

pub struct XattrTree<'a> {
    pub btree: VdfsBtree<'a>,
}

impl<'a> XattrTree<'a> {
    pub open spec fn wf(&self) -> bool {
        self.btree.wf() && self.btree.btree_type == BtreeType::XAttrTree
    }

    pub fn new(
        data_source: &'a DataSource,
        super_blocks: &Vdfs4SuperBlocks,
        base_table: DataPointer<Vdfs4BaseTable>,
    ) -> (r: Result<XattrTree<'a>, BtreeError>)
        requires
            base_table.data.translation_table_offsets@.len() == 5,
            super_blocks.ext_super_block.meta@.len() == VDFS4_META_BTREE_EXTENTS,
        ensures
            match VdfsBtree::spec_new_result(data_source, *super_blocks, base_table, BtreeType::XAttrTree) {
                Err(e) => r is Err && r->Err_0 == e,
                Ok(p) => r is Ok && r->Ok_0.btree.head_node.position == p,
            },
            r matches Ok(t) ==> t.btree.btree_type == BtreeType::XAttrTree && t.wf() && t.btree.data_source == data_source && t.btree.base_table == base_table,
    {
        let btree = VdfsBtree::new(data_source, super_blocks, base_table, BtreeType::XAttrTree)?;
        Ok(XattrTree { btree })
    }
}

} // verus!
