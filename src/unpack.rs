//! Reconstructing directories and file contents: flag precedence, the
//! block resolver, raw and compressed file decoding, and the two passes
//! over the catalog.

use vstd::prelude::*;
use crate::data_source::{le_u16, le_u32, le_u64, in_bounds, DataSource, DataPointer, DataSourceError};
use crate::layout::{
    FixedRecord, VdfsBtreeKey, Vdfs4CatTreeKey, Vdfs4CatalogFolderRecord, Vdfs4CatalogFileRecord, Vdfs4Iextent,
    Vdfs4ExtTreeKey, Vdfs4ExtTreeRecord, Vdfs4CompressedFileDescr, Vdfs4CompressedExtent, Vdfs4CatalogHlinkRecord,
};
use crate::layout::consts::{
    VDFS4_KEY_MAX_LEN, FileType, VdfsFileFlags, VdfsFileAuth, VdfsFileCompression, VdfsFileSignatureType, CatalogTreeRecordType,
    VDFS4_INVALID_NODE_ID,
};
use crate::btree::extent::ExtentTree;
use crate::btree::catalog::is_root_search_key;
use crate::btree::{
    VdfsBtree, BtreeRecordsIterator, BtreeError, BnodeRecordInfo, record_at, record_offset, spec_next, step_progresses, lemma_next_progresses,
    VDFS4_BTREE_LEAF_LVL, positions,
};

verus! {

broadcast use vstd::array::group_array_axioms;



} // verus!

use crate::vdfs::{Vdfs, VdfsError};

verus! {

/// What becomes of a file record, by its type and flags.
#[derive(Clone, Copy, Debug, PartialEq, Eq, Structural)]
pub enum FileDisposition {
    /// Not a regular file (symlink, device, fifo, socket, directory).
    NotRegular,
    /// A regular file skipped because of this flag.
    Skip(VdfsFileFlags),
    /// Decoded from its blocks as they are.
    Raw,
    /// Decoded through its compressed container.
    Compressed,
}

/// First match wins: `AuthFile`, `HardLink`, `Immutable`, `OrphanInode`,
/// `ProfiledFile`, `ReadOnlyAuth` skip the file; otherwise `CompressedFile`
/// or `EncryptedFile` take the compressed path, and any other file the raw
/// one.
pub open spec fn spec_file_disposition(rec: Vdfs4CatalogFolderRecord) -> FileDisposition {
    if !FileType::Regular.spec_is_file_type(rec.file_mode) {
        FileDisposition::NotRegular
    } else if rec.spec_has_file_flag(VdfsFileFlags::AuthFile) {
        FileDisposition::Skip(VdfsFileFlags::AuthFile)
    } else if rec.spec_has_file_flag(VdfsFileFlags::HardLink) {
        FileDisposition::Skip(VdfsFileFlags::HardLink)
    } else if rec.spec_has_file_flag(VdfsFileFlags::Immutable) {
        FileDisposition::Skip(VdfsFileFlags::Immutable)
    } else if rec.spec_has_file_flag(VdfsFileFlags::OrphanInode) {
        FileDisposition::Skip(VdfsFileFlags::OrphanInode)
    } else if rec.spec_has_file_flag(VdfsFileFlags::ProfiledFile) {
        FileDisposition::Skip(VdfsFileFlags::ProfiledFile)
    } else if rec.spec_has_file_flag(VdfsFileFlags::ReadOnlyAuth) {
        FileDisposition::Skip(VdfsFileFlags::ReadOnlyAuth)
    } else if rec.spec_has_file_flag(VdfsFileFlags::CompressedFile) || rec.spec_has_file_flag(
        VdfsFileFlags::EncryptedFile,
    ) {
        FileDisposition::Compressed
    } else {
        FileDisposition::Raw
    }
}

pub fn classify_file_record(rec: &Vdfs4CatalogFolderRecord) -> (r: FileDisposition)
    ensures
        r == spec_file_disposition(*rec),
{
    if !rec.is_file_type(FileType::Regular) {
        FileDisposition::NotRegular
    } else if rec.has_file_flag(VdfsFileFlags::AuthFile) {
        FileDisposition::Skip(VdfsFileFlags::AuthFile)
    } else if rec.has_file_flag(VdfsFileFlags::HardLink) {
        FileDisposition::Skip(VdfsFileFlags::HardLink)
    } else if rec.has_file_flag(VdfsFileFlags::Immutable) {
        FileDisposition::Skip(VdfsFileFlags::Immutable)
    } else if rec.has_file_flag(VdfsFileFlags::OrphanInode) {
        FileDisposition::Skip(VdfsFileFlags::OrphanInode)
    } else if rec.has_file_flag(VdfsFileFlags::ProfiledFile) {
        FileDisposition::Skip(VdfsFileFlags::ProfiledFile)
    } else if rec.has_file_flag(VdfsFileFlags::ReadOnlyAuth) {
        FileDisposition::Skip(VdfsFileFlags::ReadOnlyAuth)
    } else if rec.has_file_flag(VdfsFileFlags::CompressedFile) || rec.has_file_flag(VdfsFileFlags::EncryptedFile) {
        FileDisposition::Compressed
    } else {
        FileDisposition::Raw
    }
}

/// A skip flag earlier in the precedence decides over every later flag: a
/// regular file with `AuthFile` set is skipped for it whatever else is set,
/// and one that carries no skip flag is decoded, compressed exactly when
/// `CompressedFile` or `EncryptedFile` is set.
pub proof fn lemma_flag_precedence(rec: Vdfs4CatalogFolderRecord)
    requires
        FileType::Regular.spec_is_file_type(rec.file_mode),
    ensures
        rec.spec_has_file_flag(VdfsFileFlags::AuthFile) ==> spec_file_disposition(rec) == FileDisposition::Skip(
            VdfsFileFlags::AuthFile,
        ),
        spec_file_disposition(rec) matches FileDisposition::Skip(f) ==> rec.spec_has_file_flag(f),
        !rec.spec_has_file_flag(VdfsFileFlags::AuthFile) && !rec.spec_has_file_flag(VdfsFileFlags::HardLink)
            && !rec.spec_has_file_flag(VdfsFileFlags::Immutable) && !rec.spec_has_file_flag(VdfsFileFlags::OrphanInode)
            && !rec.spec_has_file_flag(VdfsFileFlags::ProfiledFile) && !rec.spec_has_file_flag(
            VdfsFileFlags::ReadOnlyAuth,
        ) ==> (spec_file_disposition(rec) == FileDisposition::Compressed <==> (rec.spec_has_file_flag(
            VdfsFileFlags::CompressedFile,
        ) || rec.spec_has_file_flag(VdfsFileFlags::EncryptedFile))) && spec_file_disposition(rec)
            != FileDisposition::NotRegular,
{
}

/// `path` followed by a separator and `component`.
pub open spec fn child_path(path: Seq<u8>, component: Seq<u8>) -> Seq<u8> {
    path + seq![0x2fu8] + component
}

pub fn add_path_component(path: &mut Vec<u8>, component: &[u8])
    ensures
        final(path)@ == child_path(old(path)@, component@),
{
    path.push(0x2fu8);
    let mut i: usize = 0;
    let ghost start = path@;
    while i < component.len()
        invariant
            i <= component@.len(),
            path@ == start + component@.subrange(0, i as int),
        decreases component@.len() - i,
    {
        path.push(component[i]);
        i = i + 1;
        assert(path@ =~= start + component@.subrange(0, i as int));
    }
    assert(component@.subrange(0, i as int) =~= component@);
}

/// A directory found by the first pass, with its path below the output root.
#[derive(Clone, Debug)]
pub struct FolderEntry {
    pub object_id: u64,
    pub path: Vec<u8>,
}

/// Path of the directory `id` among the first `n` entries: the last entry
/// for it wins.
pub open spec fn folder_path_in(folders: Seq<FolderEntry>, id: u64, n: int) -> Option<Seq<u8>>
    decreases n,
{
    if n <= 0 {
        None
    } else if folders[n - 1].object_id == id {
        Some(folders[n - 1].path@)
    } else {
        folder_path_in(folders, id, n - 1)
    }
}

pub open spec fn spec_folder_path(folders: Seq<FolderEntry>, id: u64) -> Option<Seq<u8>> {
    folder_path_in(folders, id, folders.len() as int)
}

/// Index of the entry that gives directory `id`'s path.
pub fn find_folder(folders: &Vec<FolderEntry>, id: u64) -> (r: Option<usize>)
    ensures
        r is None <==> spec_folder_path(folders@, id) is None,
        r matches Some(i) ==> i < folders@.len() && spec_folder_path(folders@, id) == Some(folders@[i as int].path@),
{
    let mut n = folders.len();
    while n > 0
        invariant
            n <= folders@.len(),
            spec_folder_path(folders@, id) == folder_path_in(folders@, id, n as int),
        decreases n,
    {
        if folders[n - 1].object_id == id {
            return Some(n - 1);
        }
        n = n - 1;
    }
    None
}

/// Physical block of logical block `iblock` in the fork's extents, from
/// extent `i` on: the first extent whose end lies past `iblock` holds it.
pub open spec fn fork_block_from(extents: Seq<Vdfs4Iextent>, iblock: int, i: int) -> Option<int>
    decreases extents.len() - i,
{
    if i < 0 || i >= extents.len() {
        None
    } else if extents[i].iblock + extents[i].extent.length > iblock {
        Some(extents[i].extent.begin + (iblock - extents[i].iblock))
    } else {
        fork_block_from(extents, iblock, i + 1)
    }
}

pub open spec fn spec_fork_block(extents: Seq<Vdfs4Iextent>, iblock: int) -> Option<int> {
    fork_block_from(extents, iblock, 0)
}

/// Resolves `iblock` through the fork's extents.
pub fn fork_block(extents: &Vec<Vdfs4Iextent>, iblock: u64) -> (r: Option<Result<u64, VdfsError>>)
    ensures
        r is None <==> spec_fork_block(extents@, iblock as int) is None,
        r matches Some(x) ==> (spec_fork_block(extents@, iblock as int) matches Some(b) && (x == if 0 <= b
            <= u64::MAX {
            Ok::<u64, VdfsError>(b as u64)
        } else {
            Err::<u64, VdfsError>(VdfsError::InvalidExtent(iblock))
        })),
{
    let mut i: usize = 0;
    while i < extents.len()
        invariant
            i <= extents@.len(),
            spec_fork_block(extents@, iblock as int) == fork_block_from(extents@, iblock as int, i as int),
        decreases extents@.len() - i,
    {
        let e = extents[i];
        if e.iblock > iblock {
            let back = e.iblock - iblock;
            return Some(
                if e.extent.begin >= back {
                    Ok(e.extent.begin - back)
                } else {
                    Err(VdfsError::InvalidExtent(iblock))
                },
            );
        }
        if e.extent.length > iblock - e.iblock {
            return Some(
                match e.extent.begin.checked_add(iblock - e.iblock) {
                    Some(b) => Ok(b),
                    None => Err(VdfsError::InvalidExtent(iblock)),
                },
            );
        }
        i = i + 1;
    }
    None
}


/// Appends `src` to `out`.
pub fn append_bytes(out: &mut Vec<u8>, src: &[u8])
    ensures
        final(out)@ == old(out)@ + src@,
{
    let ghost start = out@;
    let mut i: usize = 0;
    while i < src.len()
        invariant
            i <= src@.len(),
            out@ == start + src@.subrange(0, i as int),
        decreases src@.len() - i,
    {
        out.push(src[i]);
        i = i + 1;
        assert(out@ =~= start + src@.subrange(0, i as int));
    }
    assert(src@.subrange(0, i as int) =~= src@);
}

impl<'a> Vdfs<'a> {
    /// The extent tree maps logical block `iblock` of object `oid` to
    /// physical block `b`: a record of the tree with that object id has a
    /// value whose extent covers `iblock`.
    pub open spec fn extent_tree_maps(&self, oid: u64, iblock: int, b: int) -> bool {
        &&& self.extent_btree matches Some(t)
        &&& exists|info: BnodeRecordInfo<Vdfs4ExtTreeKey>, v: Vdfs4ExtTreeRecord|
            #![trigger record_at(&t.btree, info), v.decoded_from(self.img(), info.key.spec_value_position())]
            record_at(&t.btree, info) && info.key.data.object_id == oid && v.decoded_from(
                self.img(),
                info.key.spec_value_position(),
            ) && v.key.iblock + v.lextent.length > iblock && b == v.lextent.begin + (iblock - v.key.iblock)
    }

    /// Logical block `iblock` of the file resolves to physical block `b`:
    /// through the fork's extents where one covers it, else through the
    /// extent tree.
    pub open spec fn block_resolves(&self, oid: u64, rec: Vdfs4CatalogFileRecord, iblock: int, b: int) -> bool {
        &&& iblock <= rec.data_fork.total_blocks_count
        &&& match spec_fork_block(rec.data_fork.extents@, iblock) {
            Some(x) => x == b,
            None => self.extent_tree_maps(oid, iblock, b),
        }
    }

    /// The scan of the extent tree for logical block `ib` of object `oid`,
    /// from the iterator state (`n`, `p`, `idx`, `initial`, `hops`): records
    /// come in chain order; the first with another object id, or the end of
    /// the chain, ends the scan with `FileBlockNotFound`; the first whose
    /// extent reaches past `ib` gives its begin plus `ib` less its first
    /// logical block.
    pub open spec fn spec_extent_scan(
        t: &VdfsBtree<'a>,
        oid: u64,
        ib: u64,
        n: u32,
        p: int,
        idx: int,
        initial: bool,
        hops: int,
    ) -> Result<u64, VdfsError>
        decreases hops, 2 * (65536 - idx) + if initial {
            1int
        } else {
            0int
        },
    {
        match spec_next::<Vdfs4ExtTreeKey>(t, n, p, idx, initial, hops) {
            Err(e) => Err(VdfsError::BtreeError(e)),
            Ok(None) => Err(VdfsError::FileBlockNotFound(ib)),
            Ok(Some((n2, p2, i2, h2))) => match Self::spec_scan_record(t, oid, ib, p2, i2) {
                Some(res) => res,
                None => if step_progresses(idx, initial, hops, i2, h2) {
                    Self::spec_extent_scan(t, oid, ib, n2, p2, i2, false, h2)
                } else {
                    Err(VdfsError::FileBlockNotFound(ib))
                },
            },
        }
    }

    /// What record `i` of the node at `p` settles in the scan for block
    /// `ib` of `oid`: the end of the scan for another object id, an error
    /// reading its value, or the block its extent maps `ib` to; none where
    /// the extent ends at or before `ib`.
    pub open spec fn spec_scan_record(t: &VdfsBtree<'a>, oid: u64, ib: u64, p: int, i: int) -> Option<
        Result<u64, VdfsError>,
    > {
        let buf = t.node_bytes(p);
        let off = record_offset(buf, i);
        let vo = le_u16(buf, off + 4);
        let vp = p + off + vo;
        let img = t.img();
        if le_u64(buf, off + 8) != oid {
            Some(Err(VdfsError::FileBlockNotFound(ib)))
        } else if vo > VDFS4_KEY_MAX_LEN {
            Some(Err(VdfsError::BtreeError(BtreeError::BnodeRecordValueOffsetOutOfBounds(vo as u64))))
        } else if vp > u64::MAX || !in_bounds(img, vp, 40) {
            Some(Err(VdfsError::BtreeError(BtreeError::DataSourceError(DataSourceError::ReadDataError))))
        } else {
            let kib = le_u64(img, vp + 16);
            let b = le_u64(img, vp + 24) + (ib - kib);
            if kib > ib || le_u64(img, vp + 32) > ib - kib {
                if 0 <= b <= u64::MAX {
                    Some(Ok(b as u64))
                } else {
                    Some(Err(VdfsError::InvalidExtent(ib)))
                }
            } else {
                None
            }
        }
    }

    /// What the resolver gives for logical block `ib`: the fork's first
    /// covering extent; else, with an extent tree, its scan from the search
    /// position of `(oid, 0)`.
    pub open spec fn spec_resolve(&self, oid: u64, rec: Vdfs4CatalogFileRecord, ib: u64) -> Result<u64, VdfsError> {
        match spec_fork_block(rec.data_fork.extents@, ib as int) {
            Some(b) => if 0 <= b <= u64::MAX {
                Ok(b as u64)
            } else {
                Err(VdfsError::InvalidExtent(ib))
            },
            None => match self.extent_btree {
                None => Err(VdfsError::BaseTableIsMissing),
                Some(t) => match t.btree.spec_traverse(Vdfs4ExtTreeKey::spec_from_object_id(oid), VDFS4_BTREE_LEAF_LVL) {
                    Err(e) => Err(VdfsError::BtreeError(e)),
                    Ok((n, p, i)) => Self::spec_extent_scan(&t.btree, oid, ib, n, p, i, true, t.btree.spec_max_hops()),
                },
            },
        }
    }

    /// Scans the extent tree for logical block `iblock` of `file_object_id`
    /// from the iterator `it` (see `spec_extent_scan`).
    #[verifier::rlimit(100)]
    #[verifier::loop_isolation(false)]
    fn scan_extent_tree<'b>(
        &self,
        tree: &'b ExtentTree<'a>,
        file_object_id: u64,
        iblock: u64,
        it: BtreeRecordsIterator<'a, 'b>,
    ) -> (r: Result<u64, VdfsError>)
        requires
            self.wf(),
            it.wf(),
            it.btree == &tree.btree,
            it.record_index < it.bnode.data.recs_count,
            tree.btree.data_source == self.data_source,
        ensures
            r == Self::spec_extent_scan(
                &tree.btree,
                file_object_id,
                iblock,
                it.node_id,
                it.bnode.position as int,
                it.record_index as int,
                it.initial_state,
                it.hops_left as int,
            ),
            r matches Ok(b) ==> exists|info: BnodeRecordInfo<Vdfs4ExtTreeKey>, v: Vdfs4ExtTreeRecord|
                #![trigger record_at(&tree.btree, info), v.decoded_from(self.img(), info.key.spec_value_position())]
                record_at(&tree.btree, info) && info.key.data.object_id == file_object_id && v.decoded_from(
                    self.img(),
                    info.key.spec_value_position(),
                ) && v.key.iblock + v.lextent.length > iblock && b == v.lextent.begin + (iblock - v.key.iblock),
    {
        let ghost result_spec = Self::spec_extent_scan(
            &tree.btree,
            file_object_id,
            iblock,
            it.node_id,
            it.bnode.position as int,
            it.record_index as int,
            it.initial_state,
            it.hops_left as int,
        );
        let mut it = it;
        loop
            invariant
                self.wf(),
                it.wf(),
                it.btree == &tree.btree,
                it.record_index < it.bnode.data.recs_count,
                result_spec == Self::spec_extent_scan(
                    &tree.btree,
                    file_object_id,
                    iblock,
                    it.node_id,
                    it.bnode.position as int,
                    it.record_index as int,
                    it.initial_state,
                    it.hops_left as int,
                ),
            decreases it.progress(),
        {
            let ghost before = it;
            proof {
                lemma_next_progresses::<Vdfs4ExtTreeKey>(
                    &tree.btree,
                    it.node_id,
                    it.bnode.position as int,
                    it.record_index as int,
                    it.initial_state,
                    it.hops_left as int,
                );
            }
            let key = match it.next::<Vdfs4ExtTreeKey>() {
                Ok(Some(k)) => k,
                Ok(None) => break,
                Err(e) => return Err(VdfsError::BtreeError(e)),
            };
            let ghost info = it.current(key);
            let ghost buf = tree.btree.node_bytes(it.bnode.position as int);
            let ghost off = record_offset(buf, it.record_index as int);
            let ghost settled = Self::spec_scan_record(
                &tree.btree,
                file_object_id,
                iblock,
                it.bnode.position as int,
                it.record_index as int,
            );
            proof {
                assert(record_at(&tree.btree, info));
                Vdfs4ExtTreeKey::lemma_cmp_at(key.data, buf, off, key.data);
                assert(result_spec == match settled {
                    Some(res) => res,
                    None => Self::spec_extent_scan(
                        &tree.btree,
                        file_object_id,
                        iblock,
                        it.node_id,
                        it.bnode.position as int,
                        it.record_index as int,
                        it.initial_state,
                        it.hops_left as int,
                    ),
                });
            }
            if key.data.object_id != file_object_id {
                break;
            }
            let value: DataPointer<Vdfs4ExtTreeRecord> = match key.get_record_value(self.data_source) {
                Ok(v) => v,
                Err(e) => return Err(VdfsError::BtreeError(e)),
            };
            let v = value.data;
            if v.key.iblock > iblock || v.lextent.length > iblock - v.key.iblock {
                proof {
                    assert(v.decoded_from(self.img(), info.key.spec_value_position()));
                }
                if v.key.iblock > iblock {
                    let back = v.key.iblock - iblock;
                    if v.lextent.begin >= back {
                        return Ok(v.lextent.begin - back);
                    }
                    return Err(VdfsError::InvalidExtent(iblock));
                }
                return match v.lextent.begin.checked_add(iblock - v.key.iblock) {
                    Some(b) => Ok(b),
                    None => Err(VdfsError::InvalidExtent(iblock)),
                };
            }
        }
        Err(VdfsError::FileBlockNotFound(iblock))
    }

    /// Physical block of logical block `iblock` of the file (see
    /// `spec_resolve`).
    pub fn get_file_iblock_position(
        &self,
        file_object_id: u64,
        catalog_file_record: &Vdfs4CatalogFileRecord,
        iblock: u64,
    ) -> (r: Result<u64, VdfsError>)
        requires
            self.wf(),
            iblock <= catalog_file_record.data_fork.total_blocks_count,
        ensures
            r == self.spec_resolve(file_object_id, *catalog_file_record, iblock),
            r matches Ok(b) ==> self.block_resolves(file_object_id, *catalog_file_record, iblock as int, b as int),
    {
        if let Some(found) = fork_block(&catalog_file_record.data_fork.extents, iblock) {
            return found;
        }
        let tree = match &self.extent_btree {
            Some(t) => t,
            None => return Err(VdfsError::BaseTableIsMissing),
        };
        let it = match tree.records_iterator(file_object_id) {
            Ok(i) => i,
            Err(e) => return Err(VdfsError::BtreeError(e)),
        };
        self.scan_extent_tree(tree, file_object_id, iblock, it)
    }

    /// Reading the file's first `left` bytes from logical block `ib` on,
    /// a block at a time through the resolver: the bytes, or the first
    /// error.
    pub open spec fn spec_raw_read(&self, oid: u64, rec: Vdfs4CatalogFileRecord, ib: int, left: int) -> Result<
        Seq<u8>,
        VdfsError,
    >
        decreases left,
    {
        if left <= 0 {
            Ok(Seq::empty())
        } else if self.block_size == 0 {
            Err(VdfsError::InvalidExtent(ib as u64))
        } else if ib > rec.data_fork.total_blocks_count {
            Err(VdfsError::FileBlockOutOfRange(ib as u64))
        } else {
            match self.spec_resolve(oid, rec, ib as u64) {
                Err(e) => Err(e),
                Ok(b) => {
                    let n = if left < self.block_size {
                        left
                    } else {
                        self.block_size as int
                    };
                    if b * self.block_size > u64::MAX {
                        Err(VdfsError::InvalidExtent(ib as u64))
                    } else if !in_bounds(self.img(), b * self.block_size, n) {
                        Err(VdfsError::DataSourceError(DataSourceError::ReadDataError))
                    } else {
                        match self.spec_raw_read(oid, rec, ib + 1, left - n) {
                            Err(e) => Err(e),
                            Ok(rest) => Ok(self.img().subrange(b * self.block_size, b * self.block_size + n) + rest),
                        }
                    }
                },
            }
        }
    }

    /// The first `size_in_bytes` bytes of the file, block after block
    /// through the resolver (see `spec_raw_read`).
    pub fn read_raw_file_data(&self, file_object_id: u64, catalog_file_record: &Vdfs4CatalogFileRecord) -> (r: Result<
        Vec<u8>,
        VdfsError,
    >)
        requires
            self.wf(),
        ensures
            match self.spec_raw_read(
                file_object_id,
                *catalog_file_record,
                0,
                catalog_file_record.data_fork.size_in_bytes as int,
            ) {
                Err(e) => r == Err::<Vec<u8>, VdfsError>(e),
                Ok(s) => r matches Ok(v) && v@ == s,
            },
    {
        let size = catalog_file_record.data_fork.size_in_bytes;
        let mut out: Vec<u8> = Vec::new();
        let mut bytes_left = size;
        let mut iblock: u64 = 0;
        proof {
            assert(out@ + Seq::<u8>::empty() =~= out@);
        }
        while bytes_left > 0
            invariant
                self.wf(),
                size == catalog_file_record.data_fork.size_in_bytes,
                out@.len() + bytes_left == size,
                iblock <= out@.len(),
                self.spec_raw_read(file_object_id, *catalog_file_record, 0, size as int) == match self.spec_raw_read(
                    file_object_id,
                    *catalog_file_record,
                    iblock as int,
                    bytes_left as int,
                ) {
                    Err(e) => Err::<Seq<u8>, VdfsError>(e),
                    Ok(rest) => Ok(out@ + rest),
                },
            decreases bytes_left,
        {
            if iblock > catalog_file_record.data_fork.total_blocks_count {
                return Err(VdfsError::FileBlockOutOfRange(iblock));
            }
            let block = self.get_file_iblock_position(file_object_id, catalog_file_record, iblock)?;
            let position = match block.checked_mul(self.block_size) {
                Some(p) => p,
                None => return Err(VdfsError::InvalidExtent(iblock)),
            };
            let n = if bytes_left < self.block_size {
                bytes_left
            } else {
                self.block_size
            };
            let chunk = match self.data_source.read_bytes_at(position, n) {
                Ok(c) => c,
                Err(e) => return Err(VdfsError::DataSourceError(e)),
            };
            let ghost old_out = out@;
            append_bytes(&mut out, chunk.as_slice());
            proof {
                if let Ok(rest) = self.spec_raw_read(file_object_id, *catalog_file_record, iblock + 1, bytes_left - n) {
                    assert(old_out + (chunk@ + rest) =~= out@ + rest);
                }
            }
            bytes_left = bytes_left - n;
            iblock = iblock + 1;
        }
        Ok(out)
    }
}

/// What libflate's zlib decoder gives for `data`: the inflated bytes, or
/// none where it reports an error.
pub uninterp spec fn zlib_inflated(data: Seq<u8>) -> Option<Seq<u8>>;

/// What libflate's gzip decoder gives for `data`: the inflated bytes, or
/// none where it reports an error.
pub uninterp spec fn gzip_inflated(data: Seq<u8>) -> Option<Seq<u8>>;

/// Relies on libflate's `zlib::Decoder` (header read by `new`, body by
/// `read_to_end`): the output, or the failure of either step, depends on
/// the input bytes alone.
#[verifier::external_body]
fn zlib_decode(data: &[u8]) -> (r: Option<Vec<u8>>)
    ensures
        match r {
            Some(v) => zlib_inflated(data@) == Some(v@),
            None => zlib_inflated(data@) is None,
        },
{
    let mut decoder = match libflate::zlib::Decoder::new(data) {
        Ok(d) => d,
        Err(_) => return None,
    };
    let mut out: Vec<u8> = Vec::new();
    match std::io::Read::read_to_end(&mut decoder, &mut out) {
        Ok(_) => Some(out),
        Err(_) => None,
    }
}

/// Relies on libflate's `gzip::Decoder` (header read by `new`, body by
/// `read_to_end`): the output, or the failure of either step, depends on
/// the input bytes alone.
#[verifier::external_body]
fn gzip_decode(data: &[u8]) -> (r: Option<Vec<u8>>)
    ensures
        match r {
            Some(v) => gzip_inflated(data@) == Some(v@),
            None => gzip_inflated(data@) is None,
        },
{
    let mut decoder = match libflate::gzip::Decoder::new(data) {
        Ok(d) => d,
        Err(_) => return None,
    };
    let mut out: Vec<u8> = Vec::new();
    match std::io::Read::read_to_end(&mut decoder, &mut out) {
        Ok(_) => Some(out),
        Err(_) => None,
    }
}

/// Size of the trailing descriptor.
pub const COMPRESSED_DESCR_SIZE: u64 = 40;

/// Size of one chunk-table entry.
pub const COMPRESSED_EXTENT_SIZE: u64 = 16;

/// Bytes the signature of descriptor `d` takes; none for an unknown type.
pub open spec fn signature_len(d: Vdfs4CompressedFileDescr) -> int {
    match VdfsFileSignatureType::spec_from_u8(d.sign_type) {
        Some(t) => t.spec_signature_length() as int,
        None => 0,
    }
}

/// Start of the chunk table of a payload of `raw_len` bytes whose files
/// carry no hashes: before the descriptor, the table, then the signature.
pub open spec fn chunk_table_start(raw_len: int, d: Vdfs4CompressedFileDescr) -> int {
    raw_len - 40 - 16 * d.extents_num - signature_len(d)
}

/// Output of chunk `i` of the table at `ts`, or the error that stops the
/// decoding there.
pub open spec fn chunk_result(raw: Seq<u8>, ts: int, comp: Option<VdfsFileCompression>, i: int) -> Result<
    Seq<u8>,
    VdfsError,
> {
    let p = ts + 16 * i;
    let flags = le_u16(raw, p + 2) as u16;
    let len = le_u32(raw, p + 4);
    let start = le_u64(raw, p + 8);
    let data = raw.subrange(start, start + len);
    if !in_bounds(raw, p, 16) {
        Err(VdfsError::DataSourceError(DataSourceError::ReadDataError))
    } else if !(raw[p] == 0x58 && raw[p + 1] == 0x54) {
        Err(VdfsError::CompressedFileExtentWrongSignature)
    } else if flags & 2u16 != 0 {
        Err(VdfsError::NotImplemented)
    } else if !in_bounds(raw, start, len) {
        Err(VdfsError::DataSourceError(DataSourceError::ReadDataError))
    } else if flags & 1u16 != 0 {
        Ok(data)
    } else {
        match comp {
            Some(VdfsFileCompression::Zlib) => match zlib_inflated(data) {
                Some(out) => Ok(out),
                None => Err(VdfsError::DecompressionError),
            },
            Some(VdfsFileCompression::Gzip) => match gzip_inflated(data) {
                Some(out) => Ok(out),
                None => Err(VdfsError::DecompressionError),
            },
            Some(VdfsFileCompression::Lzo) => Err(VdfsError::NotImplemented),
            None => Err(VdfsError::CannotDecompressFileWithoutCompression),
        }
    }
}

/// Outputs of chunks `0..k` one after the other, or the first error.
pub open spec fn chunks_result(raw: Seq<u8>, ts: int, comp: Option<VdfsFileCompression>, k: int) -> Result<
    Seq<u8>,
    VdfsError,
>
    decreases k,
{
    if k <= 0 {
        Ok(Seq::empty())
    } else {
        match chunks_result(raw, ts, comp, k - 1) {
            Err(e) => Err(e),
            Ok(prefix) => match chunk_result(raw, ts, comp, k - 1) {
                Err(e) => Err(e),
                Ok(c) => Ok(prefix + c),
            },
        }
    }
}

/// A compressed container's contents.
#[derive(Clone, Debug)]
pub enum CompressedPayload {
    /// The chunks carry hashes of this kind: the file is left alone.
    Authenticated(VdfsFileAuth),
    /// The chunks' outputs, one after the other.
    Decoded(Vec<u8>),
}

/// What decoding the container `raw` of a file with `rec`'s flags gives,
/// where `d` is the descriptor in its last 40 bytes.
pub open spec fn spec_compressed_outcome(
    raw: Seq<u8>,
    rec: Vdfs4CatalogFolderRecord,
    d: Vdfs4CompressedFileDescr,
) -> Result<Option<Seq<u8>>, VdfsError> {
    let ts = chunk_table_start(raw.len() as int, d);
    if d.spec_auth() is Some {
        Ok(None)
    } else if rec.spec_has_file_flag(VdfsFileFlags::AuthFile) || (rec.spec_has_file_flag(
        VdfsFileFlags::CompressedFile,
    ) && d.spec_compression() is None) {
        Err(VdfsError::CannotDecompressFileWithoutCompression)
    } else if ts < 0 {
        Err(VdfsError::DataSourceError(DataSourceError::ReadDataError))
    } else {
        match chunks_result(raw, ts, d.spec_compression(), d.extents_num as int) {
            Ok(s) => Ok(Some(s)),
            Err(e) => Err(e),
        }
    }
}

/// Once a chunk fails, decoding more chunks fails with the same error.
pub proof fn lemma_chunks_error_sticks(raw: Seq<u8>, ts: int, comp: Option<VdfsFileCompression>, i: int, k: int)
    requires
        1 <= i <= k,
        chunks_result(raw, ts, comp, i) is Err,
    ensures
        chunks_result(raw, ts, comp, k) == chunks_result(raw, ts, comp, i),
    decreases k - i,
{
    if k > i {
        lemma_chunks_error_sticks(raw, ts, comp, i, k - 1);
    }
}

fn decode_chunk(
    raw: &DataSource,
    table_start: u64,
    compression: Option<VdfsFileCompression>,
    index: u16,
) -> (r: Result<Vec<u8>, VdfsError>)
    ensures
        match chunk_result(raw@, table_start as int, compression, index as int) {
            Ok(s) => r matches Ok(v) && v@ == s,
            Err(e) => r == Err::<Vec<u8>, VdfsError>(e),
        },
{
    let position = match table_start.checked_add(COMPRESSED_EXTENT_SIZE * index as u64) {
        Some(p) => p,
        None => {
            proof {
                raw.lemma_len_bound();
            }
            return Err(VdfsError::DataSourceError(DataSourceError::ReadDataError));
        },
    };
    let extent: DataPointer<Vdfs4CompressedExtent> = match raw.read_at(position) {
        Ok(e) => e,
        Err(e) => return Err(VdfsError::DataSourceError(e)),
    };
    let e = extent.data;
    if !e.check_extent_signature() {
        return Err(VdfsError::CompressedFileExtentWrongSignature);
    }
    if e.has_encrypted_flag() {
        return Err(VdfsError::NotImplemented);
    }
    let chunk = match raw.read_bytes_at(e.start, e.len_bytes as u64) {
        Ok(c) => c,
        Err(err) => return Err(VdfsError::DataSourceError(err)),
    };
    if e.has_uncompressed_flag() {
        return Ok(chunk);
    }
    match compression {
        Some(VdfsFileCompression::Zlib) => match zlib_decode(chunk.as_slice()) {
            Some(out) => Ok(out),
            None => Err(VdfsError::DecompressionError),
        },
        Some(VdfsFileCompression::Gzip) => match gzip_decode(chunk.as_slice()) {
            Some(out) => Ok(out),
            None => Err(VdfsError::DecompressionError),
        },
        Some(VdfsFileCompression::Lzo) => Err(VdfsError::NotImplemented),
        None => Err(VdfsError::CannotDecompressFileWithoutCompression),
    }
}

/// Decodes a compressed file's raw payload: reads the trailing
/// descriptor, leaves files with chunk hashes alone, and concatenates the
/// outputs of the chunks the table lists.
pub fn decode_compressed_payload(raw: &DataSource, rec: &Vdfs4CatalogFolderRecord) -> (r: Result<
    CompressedPayload,
    VdfsError,
>)
    ensures
        raw@.len() < 40 ==> r == Err::<CompressedPayload, VdfsError>(
            VdfsError::DataSourceError(DataSourceError::ReadDataError),
        ),
        forall|d: Vdfs4CompressedFileDescr| #[trigger]
            d.decoded_from(raw@, raw@.len() - 40) && raw@.len() >= 40 ==> match spec_compressed_outcome(raw@, *rec, d) {
                Ok(None) => r matches Ok(CompressedPayload::Authenticated(a)) && d.spec_auth() == Some(a),
                Ok(Some(s)) => r matches Ok(CompressedPayload::Decoded(v)) && v@ == s,
                Err(e) => r == Err::<CompressedPayload, VdfsError>(e),
            },
{
    let raw_size = raw.len();
    if raw_size < COMPRESSED_DESCR_SIZE {
        return Err(VdfsError::DataSourceError(DataSourceError::ReadDataError));
    }
    let descriptor: DataPointer<Vdfs4CompressedFileDescr> = match raw.read_at(raw_size - COMPRESSED_DESCR_SIZE) {
        Ok(d) => d,
        Err(e) => return Err(VdfsError::DataSourceError(e)),
    };
    let descr = descriptor.data;
    let ghost d0 = descr;
    proof {
        assert forall|d: Vdfs4CompressedFileDescr| #[trigger] d.decoded_from(raw@, raw@.len() - 40) implies d == d0 by {
            assert(d.magic =~= d0.magic);
        }
    }
    let compression = descr.get_compression();
    if let Some(auth) = descr.get_auth() {
        return Ok(CompressedPayload::Authenticated(auth));
    }
    if rec.has_file_flag(VdfsFileFlags::AuthFile) || (rec.has_file_flag(VdfsFileFlags::CompressedFile)
        && compression.is_none()) {
        return Err(VdfsError::CannotDecompressFileWithoutCompression);
    }
    let signature_length = match descr.get_signature_type() {
        Some(t) => t.get_signature_length(),
        None => 0,
    };
    let tail = COMPRESSED_DESCR_SIZE + COMPRESSED_EXTENT_SIZE * descr.extents_num as u64 + signature_length;
    if tail > raw_size {
        return Err(VdfsError::DataSourceError(DataSourceError::ReadDataError));
    }
    let table_start = raw_size - tail;
    proof {
        raw.lemma_len_bound();
    }
    let mut out: Vec<u8> = Vec::new();
    let mut index: u16 = 0;
    while index < descr.extents_num
        invariant
            index <= descr.extents_num,
            raw@.len() >= 40,
            forall|d: Vdfs4CompressedFileDescr| #[trigger] d.decoded_from(raw@, raw@.len() - 40) ==> d == descr,
            descr.spec_auth() is None,
            compression == descr.spec_compression(),
            !(rec.spec_has_file_flag(VdfsFileFlags::AuthFile) || (rec.spec_has_file_flag(VdfsFileFlags::CompressedFile)
                && descr.spec_compression() is None)),
            table_start == chunk_table_start(raw@.len() as int, descr),
            table_start < raw@.len(),
            raw@.len() <= usize::MAX,
            chunks_result(raw@, table_start as int, compression, index as int) == Ok::<Seq<u8>, VdfsError>(out@),
        decreases descr.extents_num - index,
    {
        let chunk = match decode_chunk(raw, table_start, compression, index) {
            Ok(c) => c,
            Err(e) => {
                proof {
                    lemma_chunks_error_sticks(raw@, table_start as int, compression, index as int + 1, descr.extents_num as int);
                }
                return Err(e);
            },
        };
        append_bytes(&mut out, chunk.as_slice());
        index = index + 1;
    }
    Ok(CompressedPayload::Decoded(out))
}


/// Directory ids and paths, in the order the first pass finds them.
pub open spec fn entries_view(v: Seq<FolderEntry>) -> Seq<(u64, Seq<u8>)> {
    Seq::new(v.len(), |k: int| (v[k].object_id, v[k].path@))
}

/// Path of directory `id` among the first `n` of `fs`: the last one wins.
pub open spec fn path_lookup(fs: Seq<(u64, Seq<u8>)>, id: u64, n: int) -> Option<Seq<u8>>
    decreases n,
{
    if n <= 0 {
        None
    } else if fs[n - 1].0 == id {
        Some(fs[n - 1].1)
    } else {
        path_lookup(fs, id, n - 1)
    }
}

proof fn lemma_lookup_view(v: Seq<FolderEntry>, id: u64, n: int)
    requires
        n <= v.len(),
    ensures
        folder_path_in(v, id, n) == path_lookup(entries_view(v), id, n),
    decreases n,
{
    if n > 0 {
        lemma_lookup_view(v, id, n - 1);
    }
}

/// The value of the record with key `key` can be read: its offset is
/// within the key limit and `size` bytes there lie in the image.
pub open spec fn value_readable(img: Seq<u8>, key: DataPointer<Vdfs4CatTreeKey>, size: int) -> bool {
    key.data.spec_value_offset() <= VDFS4_KEY_MAX_LEN && in_bounds(img, key.spec_value_position(), size)
}

/// The error reading an unreadable value gives.
pub open spec fn value_error(key: DataPointer<Vdfs4CatTreeKey>) -> VdfsError {
    if key.data.spec_value_offset() > VDFS4_KEY_MAX_LEN {
        VdfsError::BtreeError(BtreeError::BnodeRecordValueOffsetOutOfBounds(key.data.spec_value_offset()))
    } else {
        VdfsError::BtreeError(BtreeError::DataSourceError(DataSourceError::ReadDataError))
    }
}

/// The first pass over the first `i` records: each folder record adds its
/// id and path (the output root where its parent is `RootDirObject`, else
/// its parent's path, a separator and its name); an unreadable value, an
/// orphan-list link or an unknown parent stops the pass.
pub open spec fn folders_pass(img: Seq<u8>, records: Seq<BnodeRecordInfo<Vdfs4CatTreeKey>>, i: int) -> Result<
    Seq<(u64, Seq<u8>)>,
    VdfsError,
>
    decreases i,
{
    if i <= 0 {
        Ok(Seq::empty())
    } else {
        match folders_pass(img, records, i - 1) {
            Err(e) => Err(e),
            Ok(fs) => {
                let key = records[i - 1].key;
                if key.data.spec_record_type() != Some(CatalogTreeRecordType::Folder) {
                    Ok(fs)
                } else if !value_readable(img, key, 80) {
                    Err(value_error(key))
                } else if le_u64(img, key.spec_value_position() + 24) != 0 {
                    Err(VdfsError::NotImplemented)
                } else if key.data.parent_id == 0 {
                    Ok(fs.push((key.data.object_id, Seq::<u8>::empty())))
                } else {
                    match path_lookup(fs, key.data.parent_id, fs.len() as int) {
                        None => Err(VdfsError::CannotFindParentFolder),
                        Some(pp) => Ok(fs.push((key.data.object_id, child_path(pp, key.data.name_bytes())))),
                    }
                }
            },
        }
    }
}

proof fn lemma_folders_pass_error_sticks(img: Seq<u8>, records: Seq<BnodeRecordInfo<Vdfs4CatTreeKey>>, i: int, k: int)
    requires
        1 <= i <= k,
        folders_pass(img, records, i) is Err,
    ensures
        folders_pass(img, records, k) == folders_pass(img, records, i),
    decreases k - i,
{
    if k > i {
        lemma_folders_pass_error_sticks(img, records, i, k - 1);
    }
}

/// What the second pass does with one catalog record.
#[derive(Clone, Debug)]
pub enum FileAction {
    /// Nothing to materialize: a directory, a hard-link record, a dummy.
    Ignore,
    /// A record that names itself as its parent.
    SelfReference,
    /// A file that is not a regular file.
    NotRegular(Option<FileType>),
    /// A regular file skipped for this flag.
    Skip(VdfsFileFlags),
    /// A compressed file whose chunks carry hashes of this kind.
    Authenticated(VdfsFileAuth),
    /// A file to create at `path` (below the output root) with `data`.
    Write { path: Vec<u8>, data: Vec<u8> },
}

impl<'a> Vdfs<'a> {
    /// First pass: the path of every directory, from the catalog records in
    /// order (see `folders_pass`).
    pub fn collect_folders(&self, records: &Vec<BnodeRecordInfo<Vdfs4CatTreeKey>>) -> (r: Result<
        Vec<FolderEntry>,
        VdfsError,
    >)
        ensures
            match folders_pass(self.img(), records@, records@.len() as int) {
                Ok(fs) => r matches Ok(v) && entries_view(v@) == fs,
                Err(e) => r == Err::<Vec<FolderEntry>, VdfsError>(e),
            },
    {
        let mut out: Vec<FolderEntry> = Vec::new();
        let mut i: usize = 0;
        assert(entries_view(out@) =~= Seq::<(u64, Seq<u8>)>::empty());
        while i < records.len()
            invariant
                i <= records@.len(),
                folders_pass(self.img(), records@, i as int) == Ok::<Seq<(u64, Seq<u8>)>, VdfsError>(entries_view(out@)),
            decreases records@.len() - i,
        {
            let record = &records[i];
            let ghost fs = entries_view(out@);
            if let Some(CatalogTreeRecordType::Folder) = record.key.data.get_record_type() {
                let folder: DataPointer<Vdfs4CatalogFolderRecord> = match record.key.get_record_value(self.data_source) {
                    Ok(f) => f,
                    Err(e) => {
                        proof {
                            lemma_folders_pass_error_sticks(self.img(), records@, i + 1, records@.len() as int);
                        }
                        return Err(VdfsError::BtreeError(e));
                    },
                };
                if folder.data.next_orphan_id != VDFS4_INVALID_NODE_ID {
                    proof {
                        lemma_folders_pass_error_sticks(self.img(), records@, i + 1, records@.len() as int);
                    }
                    return Err(VdfsError::NotImplemented);
                }
                let mut path: Vec<u8> = Vec::new();
                let parent_id = record.key.data.parent_id;
                if parent_id != VDFS4_INVALID_NODE_ID {
                    proof {
                        lemma_lookup_view(out@, parent_id, out@.len() as int);
                    }
                    let parent = match find_folder(&out, parent_id) {
                        Some(p) => p,
                        None => {
                            proof {
                                lemma_folders_pass_error_sticks(self.img(), records@, i + 1, records@.len() as int);
                            }
                            return Err(VdfsError::CannotFindParentFolder);
                        },
                    };
                    append_bytes(&mut path, out[parent].path.as_slice());
                    assert(path@ =~= out@[parent as int].path@);
                    add_path_component(&mut path, record.key.data.get_name_bytes());
                }
                let ghost prev = out@;
                out.push(FolderEntry { object_id: record.key.data.object_id, path });
                proof {
                    assert(entries_view(out@) =~= fs.push((record.key.data.object_id, out@[prev.len() as int].path@)));
                    if parent_id == 0 {
                        assert(out@[prev.len() as int].path@ =~= Seq::<u8>::empty());
                    }
                }
            }
            i = i + 1;
        }
        proof {
            assert(records@.len() == i);
        }
        Ok(out)
    }

    /// What unpacking a regular file gives for its raw bytes `raw`: the raw
    /// bytes themselves, or, with `CompressedFile` or `EncryptedFile` set,
    /// what its container decodes to with the descriptor `d` in its last 40
    /// bytes (`Ok(None)` for a file with chunk hashes).
    pub open spec fn spec_unpacked(
        raw: Seq<u8>,
        rec: Vdfs4CatalogFolderRecord,
        d: Vdfs4CompressedFileDescr,
    ) -> Result<Option<Seq<u8>>, VdfsError> {
        if !(rec.spec_has_file_flag(VdfsFileFlags::CompressedFile) || rec.spec_has_file_flag(
            VdfsFileFlags::EncryptedFile,
        )) {
            Ok(Some(raw))
        } else if raw.len() < 40 {
            Err(VdfsError::DataSourceError(DataSourceError::ReadDataError))
        } else {
            spec_compressed_outcome(raw, rec, d)
        }
    }

    /// The decoded contents of a regular file: raw, or through its
    /// compressed container when `CompressedFile` or `EncryptedFile` is set.
    pub fn unpack_file(&self, file_object_id: u64, catalog_file_record: &Vdfs4CatalogFileRecord) -> (r: Result<
        CompressedPayload,
        VdfsError,
    >)
        requires
            self.wf(),
        ensures
            match self.spec_raw_read(
                file_object_id,
                *catalog_file_record,
                0,
                catalog_file_record.data_fork.size_in_bytes as int,
            ) {
                Err(e) => r == Err::<CompressedPayload, VdfsError>(e),
                Ok(raw) => forall|d: Vdfs4CompressedFileDescr| #[trigger]
                    d.decoded_from(raw, raw.len() - 40) ==> match Self::spec_unpacked(raw, catalog_file_record.common, d) {
                        Ok(None) => r matches Ok(CompressedPayload::Authenticated(a)) && d.spec_auth() == Some(a),
                        Ok(Some(s)) => r matches Ok(CompressedPayload::Decoded(v)) && v@ == s,
                        Err(e) => r == Err::<CompressedPayload, VdfsError>(e),
                    },
            },
    {
        let raw = self.read_raw_file_data(file_object_id, catalog_file_record)?;
        if catalog_file_record.common.has_file_flag(VdfsFileFlags::CompressedFile)
            || catalog_file_record.common.has_file_flag(VdfsFileFlags::EncryptedFile) {
            let source = DataSource::from_source(raw);
            decode_compressed_payload(&source, &catalog_file_record.common)
        } else {
            Ok(CompressedPayload::Decoded(raw))
        }
    }

    /// Second pass: what to do with one catalog record, given the
    /// directories of the first pass.
    pub fn file_action(&self, record: &BnodeRecordInfo<Vdfs4CatTreeKey>, folders: &Vec<FolderEntry>) -> (r: Result<
        FileAction,
        VdfsError,
    >)
        requires
            self.wf(),
        ensures
            record.key.data.parent_id == record.key.data.object_id ==> r matches Ok(FileAction::SelfReference),
            r matches Ok(FileAction::Write { path, data }) ==> exists|f: Vdfs4CatalogFileRecord|
                #![trigger f.decoded_from(self.img(), record.key.spec_value_position())]
                f.decoded_from(self.img(), record.key.spec_value_position()) && (self.spec_raw_read(
                    record.key.data.object_id,
                    f,
                    0,
                    f.data_fork.size_in_bytes as int,
                ) matches Ok(raw) && forall|d: Vdfs4CompressedFileDescr| #[trigger]
                    d.decoded_from(raw, raw.len() - 40) ==> Self::spec_unpacked(raw, f.common, d) == Ok::<
                        Option<Seq<u8>>,
                        VdfsError,
                    >(Some(data@))),
            record.key.data.parent_id != record.key.data.object_id ==> match record.key.data.spec_record_type() {
                Some(CatalogTreeRecordType::File) => (!(record.key.data.spec_value_offset()
                    <= VDFS4_KEY_MAX_LEN && in_bounds(
                    self.img(),
                    record.key.spec_value_position(),
                    312,
                )) ==> r is Err) && forall|f: Vdfs4CatalogFileRecord| #[trigger]
                    f.decoded_from(self.img(), record.key.spec_value_position())
                        && record.key.data.spec_value_offset() <= VDFS4_KEY_MAX_LEN && in_bounds(
                        self.img(),
                        record.key.spec_value_position(),
                        312,
                    ) ==> match spec_file_disposition(
                        f.common,
                    ) {
                        FileDisposition::NotRegular => r matches Ok(FileAction::NotRegular(t)) && t
                            == FileType::spec_from_u16(f.common.file_mode),
                        FileDisposition::Skip(flag) => r matches Ok(FileAction::Skip(g)) && g == flag,
                        _ => (record.key.data.parent_id != 0 && spec_folder_path(folders@, record.key.data.parent_id)
                            is None ==> r == Err::<FileAction, VdfsError>(VdfsError::CannotFindParentFolder))
                            && (r matches Ok(FileAction::Write { path, data }) ==> path@ == child_path(
                            if record.key.data.parent_id == 0 {
                                Seq::<u8>::empty()
                            } else {
                                spec_folder_path(folders@, record.key.data.parent_id)->Some_0
                            },
                            record.key.data.name_bytes(),
                        )),
                    },
                Some(CatalogTreeRecordType::UnpackInode) => r == Err::<FileAction, VdfsError>(VdfsError::NotImplemented),
                Some(CatalogTreeRecordType::HLink) => r is Ok ==> r matches Ok(FileAction::Ignore),
                _ => r matches Ok(FileAction::Ignore),
            },
    {
        let key = &record.key;
        if key.data.parent_id == key.data.object_id {
            return Ok(FileAction::SelfReference);
        }
        match key.data.get_record_type() {
            Some(CatalogTreeRecordType::File) => {
                let file: DataPointer<Vdfs4CatalogFileRecord> = match key.get_record_value(self.data_source) {
                    Ok(f) => f,
                    Err(e) => return Err(VdfsError::BtreeError(e)),
                };
                let ghost f0 = file.data;
                proof {
                    assert forall|f: Vdfs4CatalogFileRecord| #[trigger]
                        f.decoded_from(self.img(), key.spec_value_position()) implies f.common == f0.common by {
                    }
                }
                match classify_file_record(&file.data.common) {
                    FileDisposition::NotRegular => Ok(FileAction::NotRegular(file.data.common.get_file_type())),
                    FileDisposition::Skip(flag) => Ok(FileAction::Skip(flag)),
                    _ => {
                        let mut path: Vec<u8> = Vec::new();
                        let parent_id = key.data.parent_id;
                        if parent_id != VDFS4_INVALID_NODE_ID {
                            let parent = match find_folder(folders, parent_id) {
                                Some(p) => p,
                                None => return Err(VdfsError::CannotFindParentFolder),
                            };
                            append_bytes(&mut path, folders[parent].path.as_slice());
                            assert(path@ =~= folders@[parent as int].path@);
                        }
                        add_path_component(&mut path, key.data.get_name_bytes());
                        match self.unpack_file(key.data.object_id, &file.data)? {
                            CompressedPayload::Authenticated(auth) => Ok(FileAction::Authenticated(auth)),
                            CompressedPayload::Decoded(data) => {
                                proof {
                                    let f = file.data;
                                    assert(f.decoded_from(self.img(), record.key.spec_value_position()));
                                }
                                Ok(FileAction::Write { path, data })
                            },
                        }
                    },
                }
            },
            Some(CatalogTreeRecordType::HLink) => {
                match key.get_record_value::<Vdfs4CatalogHlinkRecord>(self.data_source) {
                    Ok(_) => Ok(FileAction::Ignore),
                    Err(e) => Err(VdfsError::BtreeError(e)),
                }
            },
            Some(CatalogTreeRecordType::UnpackInode) => Err(VdfsError::NotImplemented),
            _ => Ok(FileAction::Ignore),
        }
    }

    /// The catalog's records from the first child of the root to the end.
    pub fn catalog_records(&self) -> (r: Result<Vec<BnodeRecordInfo<Vdfs4CatTreeKey>>, VdfsError>)
        requires
            self.wf(),
        ensures
            self.catalog_btree is None ==> r == Err::<Vec<BnodeRecordInfo<Vdfs4CatTreeKey>>, VdfsError>(
                VdfsError::BaseTableIsMissing,
            ),
            self.catalog_btree matches Some(t) ==> exists|k: Vdfs4CatTreeKey|
                is_root_search_key(k) && match #[trigger] t.btree.spec_traverse(k, VDFS4_BTREE_LEAF_LVL) {
                    Err(e) => r == Err::<Vec<BnodeRecordInfo<Vdfs4CatTreeKey>>, VdfsError>(VdfsError::BtreeError(e)),
                    Ok((n, p, i)) => match t.btree.spec_collect::<Vdfs4CatTreeKey>(n, i as u16) {
                        Err(e) => r == Err::<Vec<BnodeRecordInfo<Vdfs4CatTreeKey>>, VdfsError>(VdfsError::BtreeError(e)),
                        Ok(s) => r matches Ok(v) && positions(v@) == s,
                    },
                },
            r matches Ok(v) ==> self.catalog_btree matches Some(t) && v@.len() >= 1 && (forall|i: int|
                0 <= i < v@.len() ==> #[trigger] record_at(&t.btree, v@[i])) && (forall|i: int|
                0 <= i < v@.len() - 1 ==> #[trigger] crate::btree::chain_step(v@[i], v@[i + 1]))
                && crate::btree::chain_end(v@[v@.len() - 1]),
    {
        match &self.catalog_btree {
            Some(t) => match t.all_records() {
                Ok(v) => Ok(v),
                Err(e) => Err(VdfsError::BtreeError(e)),
            },
            None => Err(VdfsError::BaseTableIsMissing),
        }
    }
}


impl<'a> Vdfs<'a> {
    /// Extent-tree records of object `oid` whose extents overlap are one
    /// and the same record.
    pub open spec fn extents_disjoint(&self, oid: u64) -> bool {
        &&& self.extent_btree matches Some(t)
        &&& forall|a: BnodeRecordInfo<Vdfs4ExtTreeKey>, va: Vdfs4ExtTreeRecord, b: BnodeRecordInfo<Vdfs4ExtTreeKey>, vb: Vdfs4ExtTreeRecord|
            #![trigger record_at(&t.btree, a), record_at(&t.btree, b), va.decoded_from(self.img(), a.key.spec_value_position()), vb.decoded_from(self.img(), b.key.spec_value_position())]
            record_at(&t.btree, a) && record_at(&t.btree, b) && a.key.data.object_id == oid && b.key.data.object_id
                == oid && va.decoded_from(self.img(), a.key.spec_value_position()) && vb.decoded_from(
                self.img(),
                b.key.spec_value_position(),
            ) && va.key.iblock < vb.key.iblock + vb.lextent.length && vb.key.iblock < va.key.iblock
                + va.lextent.length ==> a.key.position == b.key.position && a.key.data.spec_value_offset()
                == b.key.data.spec_value_offset()
    }

    /// Every extent-tree record of object `oid` that ends past `iblock`
    /// starts at or before it: the extents leave no hole up to `iblock`.
    pub open spec fn extents_start_by(&self, oid: u64, iblock: int) -> bool {
        &&& self.extent_btree matches Some(t)
        &&& forall|a: BnodeRecordInfo<Vdfs4ExtTreeKey>, va: Vdfs4ExtTreeRecord|
            #![trigger record_at(&t.btree, a), va.decoded_from(self.img(), a.key.spec_value_position())]
            record_at(&t.btree, a) && a.key.data.object_id == oid && va.decoded_from(
                self.img(),
                a.key.spec_value_position(),
            ) && va.key.iblock + va.lextent.length > iblock ==> va.key.iblock <= iblock
    }
}

/// The resolver is a function of the file and the block: through the fork
/// the first covering extent decides; through an extent tree whose records
/// for the file do not overlap, no two physical blocks can be given for
/// one logical block that the extents reach without a hole.
pub proof fn lemma_block_resolution_unique<'a>(
    vdfs: &Vdfs<'a>,
    oid: u64,
    rec: Vdfs4CatalogFileRecord,
    iblock: int,
    b1: int,
    b2: int,
)
    requires
        vdfs.block_resolves(oid, rec, iblock, b1),
        vdfs.block_resolves(oid, rec, iblock, b2),
        spec_fork_block(rec.data_fork.extents@, iblock) is Some || (vdfs.extents_disjoint(oid)
            && vdfs.extents_start_by(oid, iblock)),
    ensures
        b1 == b2,
{
    if spec_fork_block(rec.data_fork.extents@, iblock) is None {
        let t = vdfs.extent_btree->Some_0;
        let (a, va) = choose|a: BnodeRecordInfo<Vdfs4ExtTreeKey>, va: Vdfs4ExtTreeRecord|
            #![trigger record_at(&t.btree, a), va.decoded_from(vdfs.img(), a.key.spec_value_position())]
            record_at(&t.btree, a) && a.key.data.object_id == oid && va.decoded_from(
                vdfs.img(),
                a.key.spec_value_position(),
            ) && va.key.iblock + va.lextent.length > iblock && b1 == va.lextent.begin + (iblock - va.key.iblock);
        let (b, vb) = choose|b: BnodeRecordInfo<Vdfs4ExtTreeKey>, vb: Vdfs4ExtTreeRecord|
            #![trigger record_at(&t.btree, b), vb.decoded_from(vdfs.img(), b.key.spec_value_position())]
            record_at(&t.btree, b) && b.key.data.object_id == oid && vb.decoded_from(
                vdfs.img(),
                b.key.spec_value_position(),
            ) && vb.key.iblock + vb.lextent.length > iblock && b2 == vb.lextent.begin + (iblock - vb.key.iblock);
        assert(va.key.iblock <= iblock && vb.key.iblock <= iblock);
        assert(va.key.iblock + va.lextent.length > iblock);
        assert(vb.key.iblock + vb.lextent.length > iblock);
        assert(a.key.position == b.key.position);
    }
}

} // verus!
