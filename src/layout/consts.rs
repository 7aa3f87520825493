//! Constants and enumerations of the VDFS4 on-disk format.

use vstd::prelude::*;

verus! {

pub const CRC32_SIZE: usize = 4;

pub const VDFS4_FILE_NAME_LEN: usize = 255;

pub const VDFS4_FULL_PATH_LEN: usize = 1023;

pub const VDFS4_XATTR_NAME_MAX_LEN: usize = 200;

pub const VDFS4_XATTR_VAL_MAX_LEN: usize = 200;

/// In-memory size of a catalog key (281 bytes of fields, aligned to 8).
pub const VDFS4_CAT_KEY_SIZE: usize = 288;

/// In-memory size of an xattr key (217 bytes of fields, aligned to 8).
pub const VDFS4_XATTR_KEY_SIZE: usize = 224;

/// In-memory size of an extent-tree key.
pub const VDFS4_EXT_KEY_SIZE: usize = 24;

/// Size of a catalog file record value: folder part and data fork.
pub const VDFS4_CATALOG_FILE_RECORD_SIZE: usize = 312;

/// Size of an extent-tree record: key and extent.
pub const VDFS4_EXT_TREE_RECORD_SIZE: usize = 40;

pub const VDFS4_CAT_KEY_MAX_LEN: u64 = 288;

pub const VDFS4_XATTR_KEY_MAX_LEN: u64 = 224;

pub const VDFS4_EXT_KEY_MAX_LEN: u64 = 24;

/// The largest `key_len` any tree key may declare.
pub const VDFS4_KEY_MAX_LEN: u64 = 288;

pub const VDFS4_EXTENTS_COUNT_IN_FORK: usize = 9;

pub const VDFS4_MD5_HASH_LEN: usize = 16;

pub const VDFS4_SHA1_HASH_LEN: usize = 20;

pub const VDFS4_SHA256_HASH_LEN: usize = 32;

pub const VDFS4_MAX_CRYPTED_HASH_LEN: usize = 256;

pub const VDFS4_AES_NONCE_SIZE: usize = 8;

pub const VDFS4_SNAPSHOT_EXT_SIZE: usize = 4096;

pub const VDFS4_SNAPSHOT_EXT_TABLES: usize = 8;

/// Number of special files with a translation table (catalog to xattr tree).
pub const VDFS4_SF_NR: u32 = 5;

pub const VDFS4_META_BTREE_EXTENTS: usize = 96;

pub const VDFS4_INVALID_NODE_ID: u64 = 0;

pub const VDFS4_CHUNK_FLAG_UNCOMPR: u16 = 1;

pub const VDFS4_CHUNK_FLAG_ENCRYPTED: u16 = 2;

pub const BLOCK_SIZE_DEFAULT: u64 = 4096;

pub const SUPER_PAGE_SIZE_DEFAULT: u64 = 16384;

/// Bits of a file mode that give its POSIX type.
pub const FILE_TYPE_MASK: u16 = 0o170000;

pub open spec fn spec_max_u64(a: u64, b: u64) -> u64 {
    if a > b {
        a
    } else {
        b
    }
}

pub fn max_u64(a: u64, b: u64) -> (r: u64)
    ensures
        r == spec_max_u64(a, b),
        r >= a && r >= b,
        r == a || r == b,
{
    if a > b {
        a
    } else {
        b
    }
}

/// Object ids with a fixed meaning.
#[derive(Clone, Copy, Debug, PartialEq, Eq, Structural)]
pub enum SpecialInodeIds {
    RootDirObject,
    Root,
    CatTree,
    SpaceBitmap,
    ExtentsTree,
    FreeInodeBitmap,
    XattrTree,
    Snapshot,
    OrphanInodes,
    FirstFile,
}

/// Kinds of B+tree node owners, by inode id.
#[derive(Clone, Copy, Debug, PartialEq, Eq, Structural)]
pub enum BnodeType {
    CatalogTree,
    SpaceBitmap,
    ExtentsTree,
    FreeInodeBitmap,
    XAttrTree,
}

/// The three B+trees of an image.
#[derive(Clone, Copy, Debug, PartialEq, Eq, Structural)]
pub enum BtreeType {
    CatalogTree,
    ExtentsTree,
    XAttrTree,
}

#[derive(Clone, Copy, Debug, PartialEq, Eq, Structural)]
pub enum CatalogTreeRecordType {
    Dummy,
    Folder,
    File,
    HLink,
    ILink,
    UnpackInode,
}

/// File flags; `bit` gives each one's position in a record's `flags`.
#[derive(Clone, Copy, Debug, PartialEq, Eq, Structural)]
pub enum VdfsFileFlags {
    HasBlocksInExttree,
    Immutable,
    HardLink,
    OrphanInode,
    CompressedFile,
    AuthFile,
    ReadOnlyAuth,
    EncryptedFile,
    ProfiledFile,
}

#[derive(Clone, Copy, Debug, PartialEq, Eq, Structural)]
pub enum VdfsFileCompression {
    Zlib,
    Gzip,
    Lzo,
}

#[derive(Clone, Copy, Debug, PartialEq, Eq, Structural)]
pub enum VdfsFileAuth {
    Md5,
    Sha1,
    Sha256,
}

#[derive(Clone, Copy, Debug, PartialEq, Eq, Structural)]
pub enum VdfsFileSignatureType {
    Unsigned,
    Rsa1024,
    Rsa2048,
}

/// POSIX file types, as found in the top bits of a file mode.
#[derive(Clone, Copy, Debug, PartialEq, Eq, Structural)]
pub enum FileType {
    Directory,
    CharacterDevice,
    BlockDevice,
    Regular,
    Fifo,
    SymbolicLink,
    Socket,
}

/// Position of a tree's offset in a base table's translation-table array.
pub trait TranslationTableIndex {
    spec fn spec_index(self) -> usize;

    fn get_index(self) -> (r: usize)
        ensures
            r == self.spec_index(),
            r < VDFS4_SF_NR,
    ;
}

impl BnodeType {
    /// The inode id that owns this kind of node.
    pub open spec fn spec_inode(self) -> u32 {
        match self {
            BnodeType::CatalogTree => 2,
            BnodeType::SpaceBitmap => 3,
            BnodeType::ExtentsTree => 4,
            BnodeType::FreeInodeBitmap => 5,
            BnodeType::XAttrTree => 6,
        }
    }
}

impl TranslationTableIndex for BnodeType {
    open spec fn spec_index(self) -> usize {
        (self.spec_inode() - 2) as usize
    }

    fn get_index(self) -> (r: usize) {
        match self {
            BnodeType::CatalogTree => 0,
            BnodeType::SpaceBitmap => 1,
            BnodeType::ExtentsTree => 2,
            BnodeType::FreeInodeBitmap => 3,
            BnodeType::XAttrTree => 4,
        }
    }
}

impl BtreeType {
    /// The inode id of the tree: 2, 4 or 6.
    pub open spec fn spec_inode(self) -> u32 {
        match self {
            BtreeType::CatalogTree => 2,
            BtreeType::ExtentsTree => 4,
            BtreeType::XAttrTree => 6,
        }
    }

    pub open spec fn spec_max_record_len(self) -> u64 {
        match self {
            BtreeType::CatalogTree => (VDFS4_CAT_KEY_MAX_LEN + VDFS4_CATALOG_FILE_RECORD_SIZE) as u64,
            BtreeType::ExtentsTree => (VDFS4_EXT_KEY_MAX_LEN + VDFS4_EXT_TREE_RECORD_SIZE) as u64,
            BtreeType::XAttrTree => (VDFS4_XATTR_KEY_MAX_LEN + VDFS4_XATTR_VAL_MAX_LEN) as u64,
        }
    }

    /// Largest size of a record of this tree: its key and its value.
    pub fn get_max_record_len(self) -> (r: u64)
        ensures
            r == self.spec_max_record_len(),
    {
        match self {
            BtreeType::CatalogTree => VDFS4_CAT_KEY_MAX_LEN + VDFS4_CATALOG_FILE_RECORD_SIZE as u64,
            BtreeType::ExtentsTree => VDFS4_EXT_KEY_MAX_LEN + VDFS4_EXT_TREE_RECORD_SIZE as u64,
            BtreeType::XAttrTree => VDFS4_XATTR_KEY_MAX_LEN + VDFS4_XATTR_VAL_MAX_LEN as u64,
        }
    }
}

impl TranslationTableIndex for BtreeType {
    open spec fn spec_index(self) -> usize {
        (self.spec_inode() - 2) as usize
    }

    fn get_index(self) -> (r: usize) {
        match self {
            BtreeType::CatalogTree => 0,
            BtreeType::ExtentsTree => 2,
            BtreeType::XAttrTree => 4,
        }
    }
}

impl SpecialInodeIds {
    pub open spec fn spec_id(self) -> u32 {
        match self {
            SpecialInodeIds::RootDirObject => 0,
            SpecialInodeIds::Root => 1,
            SpecialInodeIds::CatTree => 2,
            SpecialInodeIds::SpaceBitmap => 3,
            SpecialInodeIds::ExtentsTree => 4,
            SpecialInodeIds::FreeInodeBitmap => 5,
            SpecialInodeIds::XattrTree => 6,
            SpecialInodeIds::Snapshot => 7,
            SpecialInodeIds::OrphanInodes => 8,
            SpecialInodeIds::FirstFile => 9,
        }
    }

    /// The special inode with id `index`, if there is one (ids 0 to 9).
    pub fn from_u32(index: u32) -> (r: Option<SpecialInodeIds>)
        ensures
            r is Some <==> index <= 9,
            r matches Some(id) ==> id.spec_id() == index,
    {
        match index {
            0 => Some(SpecialInodeIds::RootDirObject),
            1 => Some(SpecialInodeIds::Root),
            2 => Some(SpecialInodeIds::CatTree),
            3 => Some(SpecialInodeIds::SpaceBitmap),
            4 => Some(SpecialInodeIds::ExtentsTree),
            5 => Some(SpecialInodeIds::FreeInodeBitmap),
            6 => Some(SpecialInodeIds::XattrTree),
            7 => Some(SpecialInodeIds::Snapshot),
            8 => Some(SpecialInodeIds::OrphanInodes),
            9 => Some(SpecialInodeIds::FirstFile),
            _ => None,
        }
    }

    pub fn to_u32(self) -> (r: u32)
        ensures
            r == self.spec_id(),
    {
        match self {
            SpecialInodeIds::RootDirObject => 0,
            SpecialInodeIds::Root => 1,
            SpecialInodeIds::CatTree => 2,
            SpecialInodeIds::SpaceBitmap => 3,
            SpecialInodeIds::ExtentsTree => 4,
            SpecialInodeIds::FreeInodeBitmap => 5,
            SpecialInodeIds::XattrTree => 6,
            SpecialInodeIds::Snapshot => 7,
            SpecialInodeIds::OrphanInodes => 8,
            SpecialInodeIds::FirstFile => 9,
        }
    }
}

impl CatalogTreeRecordType {
    pub open spec fn spec_code(self) -> u8 {
        match self {
            CatalogTreeRecordType::Dummy => 0,
            CatalogTreeRecordType::Folder => 1,
            CatalogTreeRecordType::File => 2,
            CatalogTreeRecordType::HLink => 3,
            CatalogTreeRecordType::ILink => 5,
            CatalogTreeRecordType::UnpackInode => 10,
        }
    }

    pub open spec fn spec_from_u8(index: u8) -> Option<CatalogTreeRecordType> {
        match index {
            0 => Some(CatalogTreeRecordType::Dummy),
            1 => Some(CatalogTreeRecordType::Folder),
            2 => Some(CatalogTreeRecordType::File),
            3 => Some(CatalogTreeRecordType::HLink),
            5 => Some(CatalogTreeRecordType::ILink),
            10 => Some(CatalogTreeRecordType::UnpackInode),
            _ => None,
        }
    }

    /// The record type with code `index`: 0, 1, 2, 3, 5 or 10.
    pub fn from_u8(index: u8) -> (r: Option<CatalogTreeRecordType>)
        ensures
            r == Self::spec_from_u8(index),
            r matches Some(t) ==> t.spec_code() == index,
    {
        match index {
            0 => Some(CatalogTreeRecordType::Dummy),
            1 => Some(CatalogTreeRecordType::Folder),
            2 => Some(CatalogTreeRecordType::File),
            3 => Some(CatalogTreeRecordType::HLink),
            5 => Some(CatalogTreeRecordType::ILink),
            10 => Some(CatalogTreeRecordType::UnpackInode),
            _ => None,
        }
    }
}

impl VdfsFileFlags {
    /// Bit position of the flag in a record's `flags`.
    pub open spec fn spec_bit(self) -> u32 {
        match self {
            VdfsFileFlags::HasBlocksInExttree => 1,
            VdfsFileFlags::Immutable => 2,
            VdfsFileFlags::HardLink => 10,
            VdfsFileFlags::OrphanInode => 12,
            VdfsFileFlags::CompressedFile => 13,
            VdfsFileFlags::AuthFile => 15,
            VdfsFileFlags::ReadOnlyAuth => 16,
            VdfsFileFlags::EncryptedFile => 17,
            VdfsFileFlags::ProfiledFile => 18,
        }
    }

    pub fn bit(self) -> (r: u32)
        ensures
            r == self.spec_bit(),
            r < 32,
    {
        match self {
            VdfsFileFlags::HasBlocksInExttree => 1,
            VdfsFileFlags::Immutable => 2,
            VdfsFileFlags::HardLink => 10,
            VdfsFileFlags::OrphanInode => 12,
            VdfsFileFlags::CompressedFile => 13,
            VdfsFileFlags::AuthFile => 15,
            VdfsFileFlags::ReadOnlyAuth => 16,
            VdfsFileFlags::EncryptedFile => 17,
            VdfsFileFlags::ProfiledFile => 18,
        }
    }
}

/// Rounds `size` up to a multiple of `block_size`.
pub fn size_ceil_to_block(size: usize, block_size: usize) -> (r: usize)
    requires
        block_size > 0,
        size + block_size - 1 <= usize::MAX,
    ensures
        r == ((size + block_size - 1) / block_size as int) * block_size,
        r >= size,
        r < size + block_size,
        r as int % block_size as int == 0,
{
    let q = (size + (block_size - 1)) / block_size;
    proof {
        vstd::arithmetic::div_mod::lemma_fundamental_div_mod((size + block_size - 1) as int, block_size as int);
        vstd::arithmetic::div_mod::lemma_mod_multiples_basic(q as int, block_size as int);
        assert(q * block_size <= size + block_size - 1) by (nonlinear_arith)
            requires
                q == (size + block_size - 1) / block_size as int,
                block_size > 0,
        ;
        vstd::arithmetic::mul::lemma_mul_is_commutative(q as int, block_size as int);
    }
    q * block_size
}

impl VdfsFileSignatureType {
    pub open spec fn spec_signature_length(self) -> u64 {
        match self {
            VdfsFileSignatureType::Unsigned => 0,
            VdfsFileSignatureType::Rsa1024 => 128,
            VdfsFileSignatureType::Rsa2048 => 256,
        }
    }

    /// Bytes taken by a signature of this type: 0, 128 or 256.
    pub fn get_signature_length(&self) -> (r: u64)
        ensures
            r == self.spec_signature_length(),
    {
        match self {
            VdfsFileSignatureType::Unsigned => 0,
            VdfsFileSignatureType::Rsa1024 => 128,
            VdfsFileSignatureType::Rsa2048 => 256,
        }
    }

    pub open spec fn spec_from_u8(value: u8) -> Option<Self> {
        match value {
            0 => Some(VdfsFileSignatureType::Unsigned),
            1 => Some(VdfsFileSignatureType::Rsa1024),
            2 => Some(VdfsFileSignatureType::Rsa2048),
            _ => None,
        }
    }

    pub fn from_u8(value: u8) -> (r: Option<Self>)
        ensures
            r == Self::spec_from_u8(value),
    {
        match value {
            0 => Some(VdfsFileSignatureType::Unsigned),
            1 => Some(VdfsFileSignatureType::Rsa1024),
            2 => Some(VdfsFileSignatureType::Rsa2048),
            _ => None,
        }
    }
}

impl VdfsFileAuth {
    pub open spec fn spec_hash_len(self) -> u64 {
        match self {
            VdfsFileAuth::Md5 => 16,
            VdfsFileAuth::Sha1 => 20,
            VdfsFileAuth::Sha256 => 32,
        }
    }

    /// Bytes of one chunk hash: 16 for MD5, 20 for SHA-1, 32 for SHA-256.
    pub fn get_hash_len(&self) -> (r: u64)
        ensures
            r == self.spec_hash_len(),
    {
        match self {
            VdfsFileAuth::Md5 => VDFS4_MD5_HASH_LEN as u64,
            VdfsFileAuth::Sha1 => VDFS4_SHA1_HASH_LEN as u64,
            VdfsFileAuth::Sha256 => VDFS4_SHA256_HASH_LEN as u64,
        }
    }
}

impl FileType {
    pub open spec fn spec_code(self) -> u16 {
        match self {
            FileType::Directory => 0o040000,
            FileType::CharacterDevice => 0o020000,
            FileType::BlockDevice => 0o060000,
            FileType::Regular => 0o100000,
            FileType::Fifo => 0o010000,
            FileType::SymbolicLink => 0o120000,
            FileType::Socket => 0o140000,
        }
    }

    /// The type bits of this file type.
    pub fn to_u16(&self) -> (r: u16)
        ensures
            r == self.spec_code(),
    {
        match self {
            FileType::Directory => 0o040000,
            FileType::CharacterDevice => 0o020000,
            FileType::BlockDevice => 0o060000,
            FileType::Regular => 0o100000,
            FileType::Fifo => 0o010000,
            FileType::SymbolicLink => 0o120000,
            FileType::Socket => 0o140000,
        }
    }

    pub open spec fn spec_is_file_type(self, file_mode: u16) -> bool {
        (file_mode & FILE_TYPE_MASK) == self.spec_code()
    }

    /// The type bits of `file_mode` are this type's.
    pub fn is_file_type(&self, file_mode: u16) -> (r: bool)
        ensures
            r == self.spec_is_file_type(file_mode),
    {
        (file_mode & FILE_TYPE_MASK) == self.to_u16()
    }

    pub open spec fn spec_from_u16(file_mode: u16) -> Option<FileType> {
        let t = file_mode & FILE_TYPE_MASK;
        if t == 0o040000 {
            Some(FileType::Directory)
        } else if t == 0o020000 {
            Some(FileType::CharacterDevice)
        } else if t == 0o060000 {
            Some(FileType::BlockDevice)
        } else if t == 0o100000 {
            Some(FileType::Regular)
        } else if t == 0o010000 {
            Some(FileType::Fifo)
        } else if t == 0o120000 {
            Some(FileType::SymbolicLink)
        } else if t == 0o140000 {
            Some(FileType::Socket)
        } else {
            None
        }
    }

    /// The file type that the top bits of `file_mode` encode, if any.
    pub fn from_u16(file_mode: u16) -> (r: Option<FileType>)
        ensures
            r == Self::spec_from_u16(file_mode),
            r matches Some(t) ==> t.spec_is_file_type(file_mode),
    {
        if FileType::Directory.is_file_type(file_mode) {
            Some(FileType::Directory)
        } else if FileType::CharacterDevice.is_file_type(file_mode) {
            Some(FileType::CharacterDevice)
        } else if FileType::BlockDevice.is_file_type(file_mode) {
            Some(FileType::BlockDevice)
        } else if FileType::Regular.is_file_type(file_mode) {
            Some(FileType::Regular)
        } else if FileType::Fifo.is_file_type(file_mode) {
            Some(FileType::Fifo)
        } else if FileType::SymbolicLink.is_file_type(file_mode) {
            Some(FileType::SymbolicLink)
        } else if FileType::Socket.is_file_type(file_mode) {
            Some(FileType::Socket)
        } else {
            None
        }
    }
}

} // verus!
