use std::cmp::Ordering;

use vdfs_unpack::layout::consts::{
    max_u64, size_ceil_to_block, BtreeType, CatalogTreeRecordType, FileType, SpecialInodeIds, TranslationTableIndex,
    VdfsFileAuth, VdfsFileFlags, VdfsFileSignatureType,
};
use vdfs_unpack::layout::{
    cmp_bytes, FixedRecord, Vdfs4CatTreeKey, Vdfs4CatalogFolderRecord, Vdfs4CompressedExtent, Vdfs4CompressedFileDescr,
    Vdfs4ExtTreeKey, Vdfs4GenericKey, Vdfs4SnapshotDescriptor, VdfsBtreeKey,
};
use vdfs_unpack::unpack::{classify_file_record, FileDisposition};
use vdfs_unpack::vdfs_crc::{crc32, has_valid_crc32_trailer};

fn cat_key(parent: u64, object: u64, name: &[u8]) -> Vdfs4CatTreeKey {
    let mut k = Vdfs4CatTreeKey::child_of_root();
    k.parent_id = parent;
    k.object_id = object;
    k.name_len = name.len() as u8;
    k.name[..name.len()].copy_from_slice(name);
    k
}

fn folder(mode: u16, flags: u32, links: u64) -> Vdfs4CatalogFolderRecord {
    let mut v = vec![0u8; 80];
    v[0..4].copy_from_slice(&flags.to_le_bytes());
    v[16..24].copy_from_slice(&links.to_le_bytes());
    v[32..34].copy_from_slice(&mode.to_le_bytes());
    Vdfs4CatalogFolderRecord::decode(&v, 0)
}

#[test]
fn crc32_check_value() {
    assert_eq!(crc32(b"123456789"), 0x2dfd2d88);
    assert_eq!(crc32(b""), 0);
}

#[test]
fn crc32_trailer_round_trip() {
    for n in [0usize, 1, 17, 1024] {
        let mut bytes: Vec<u8> = (0..n).map(|i| (i * 31 % 251) as u8).collect();
        let crc = crc32(&bytes);
        bytes.extend(crc.to_le_bytes());
        assert!(has_valid_crc32_trailer(&bytes));
        let last = bytes.len() - 1;
        bytes[last] ^= 1;
        assert!(!has_valid_crc32_trailer(&bytes));
    }
    assert!(!has_valid_crc32_trailer(&[1, 2, 3]));
}

#[test]
fn catalog_key_order() {
    let a = cat_key(1, 5, b"abc");
    let b = cat_key(1, 4, b"abd");
    let c = cat_key(2, 1, b"a");
    let prefix = cat_key(1, 9, b"ab");
    let same_name = cat_key(1, 6, b"abc");
    assert_eq!(a.compare(&b), Ordering::Less);
    assert_eq!(b.compare(&a), Ordering::Greater);
    assert_eq!(b.compare(&c), Ordering::Less);
    assert_eq!(prefix.compare(&a), Ordering::Less);
    assert_eq!(a.compare(&same_name), Ordering::Less);
    assert_eq!(a.compare(&a.clone()), Ordering::Equal);
    let root_child = Vdfs4CatTreeKey::child_of_root();
    assert_eq!(root_child.compare(&cat_key(1, 0, b"")), Ordering::Equal);
    assert_eq!(root_child.compare(&a), Ordering::Less);
    assert_eq!(cat_key(0, 1, b"root").compare(&root_child), Ordering::Less);
}

#[test]
fn catalog_key_order_is_transitive_on_a_corpus() {
    let names: [&[u8]; 5] = [b"", b"a", b"ab", b"b", b"ba"];
    let mut keys = Vec::new();
    for parent in [0u64, 1, 2] {
        for name in names {
            for object in [0u64, 3] {
                keys.push(cat_key(parent, object, name));
            }
        }
    }
    for x in &keys {
        for y in &keys {
            assert_eq!(x.compare(y), y.compare(x).reverse());
            for z in &keys {
                if x.compare(y) != Ordering::Greater && y.compare(z) != Ordering::Greater {
                    assert_ne!(x.compare(z), Ordering::Greater);
                }
            }
        }
    }
}

#[test]
fn extent_key_order() {
    let a = Vdfs4ExtTreeKey::from_object_id(5);
    let mut b = Vdfs4ExtTreeKey::from_object_id(5);
    b.iblock = 3;
    let c = Vdfs4ExtTreeKey::from_object_id(6);
    assert_eq!(a.compare(&b), Ordering::Less);
    assert_eq!(b.compare(&c), Ordering::Less);
    assert_eq!(c.compare(&a), Ordering::Greater);
    assert_eq!(a.iblock, 0);
    assert_eq!(a.get_value_offset(), 0);
}

#[test]
fn byte_string_order() {
    assert_eq!(cmp_bytes(b"abc", b"abd"), Ordering::Less);
    assert_eq!(cmp_bytes(b"ab", b"abc"), Ordering::Less);
    assert_eq!(cmp_bytes(b"b", b"abc"), Ordering::Greater);
    assert_eq!(cmp_bytes(b"", b""), Ordering::Equal);
}

#[test]
fn flag_precedence() {
    let regular = 0o100644;
    let bit = |f: VdfsFileFlags| 1u32 << f.bit();
    assert_eq!(classify_file_record(&folder(regular, 0, 1)), FileDisposition::Raw);
    assert_eq!(
        classify_file_record(&folder(regular, bit(VdfsFileFlags::HasBlocksInExttree), 1)),
        FileDisposition::Raw
    );
    assert_eq!(
        classify_file_record(&folder(regular, bit(VdfsFileFlags::CompressedFile), 1)),
        FileDisposition::Compressed
    );
    assert_eq!(
        classify_file_record(&folder(regular, bit(VdfsFileFlags::EncryptedFile), 1)),
        FileDisposition::Compressed
    );
    let all = bit(VdfsFileFlags::AuthFile)
        | bit(VdfsFileFlags::Immutable)
        | bit(VdfsFileFlags::CompressedFile)
        | bit(VdfsFileFlags::ProfiledFile);
    assert_eq!(classify_file_record(&folder(regular, all, 1)), FileDisposition::Skip(VdfsFileFlags::AuthFile));
    assert_eq!(
        classify_file_record(&folder(regular, bit(VdfsFileFlags::CompressedFile) | bit(VdfsFileFlags::Immutable), 1)),
        FileDisposition::Skip(VdfsFileFlags::Immutable)
    );
    assert_eq!(
        classify_file_record(&folder(regular, bit(VdfsFileFlags::CompressedFile), 2)),
        FileDisposition::Skip(VdfsFileFlags::HardLink)
    );
    assert_eq!(
        classify_file_record(&folder(regular, bit(VdfsFileFlags::ReadOnlyAuth) | bit(VdfsFileFlags::OrphanInode), 1)),
        FileDisposition::Skip(VdfsFileFlags::OrphanInode)
    );
    assert_eq!(classify_file_record(&folder(0o120777, 0, 1)), FileDisposition::NotRegular);
    assert_eq!(classify_file_record(&folder(0o040755, 0, 1)), FileDisposition::NotRegular);
}

#[test]
fn file_types() {
    assert_eq!(FileType::from_u16(0o100644), Some(FileType::Regular));
    assert_eq!(FileType::from_u16(0o120777), Some(FileType::SymbolicLink));
    assert_eq!(FileType::from_u16(0o060600), Some(FileType::BlockDevice));
    assert_eq!(FileType::from_u16(0o000644), None);
    assert_eq!(FileType::Socket.to_u16(), 0o140000);
    assert!(FileType::Directory.is_file_type(0o040700));
    assert!(!FileType::Directory.is_file_type(0o100700));
    let f = folder(0o010600, 0, 1);
    assert_eq!(f.get_file_type(), Some(FileType::Fifo));
    assert!(f.is_file_type(FileType::Fifo));
}

#[test]
fn format_codes() {
    assert_eq!(SpecialInodeIds::from_u32(1), Some(SpecialInodeIds::Root));
    assert_eq!(SpecialInodeIds::from_u32(9), Some(SpecialInodeIds::FirstFile));
    assert_eq!(SpecialInodeIds::from_u32(10), None);
    assert_eq!(CatalogTreeRecordType::from_u8(10), Some(CatalogTreeRecordType::UnpackInode));
    assert_eq!(CatalogTreeRecordType::from_u8(4), None);
    assert_eq!(VdfsFileSignatureType::from_u8(2), Some(VdfsFileSignatureType::Rsa2048));
    assert_eq!(VdfsFileSignatureType::from_u8(3), None);
    assert_eq!(VdfsFileSignatureType::Rsa1024.get_signature_length(), 128);
    assert_eq!(VdfsFileSignatureType::Unsigned.get_signature_length(), 0);
    assert_eq!(VdfsFileAuth::Sha256.get_hash_len(), 32);
    assert_eq!(VdfsFileAuth::Md5.get_hash_len(), 16);
    assert_eq!(BtreeType::CatalogTree.get_index(), 0);
    assert_eq!(BtreeType::XAttrTree.get_index(), 4);
    assert_eq!(BtreeType::CatalogTree.get_max_record_len(), 600);
    assert_eq!(BtreeType::ExtentsTree.get_max_record_len(), 64);
    assert_eq!(size_ceil_to_block(281, 8), 288);
    assert_eq!(size_ceil_to_block(4096, 4096), 4096);
    assert_eq!(max_u64(3, 9), 9);
}

#[test]
fn snapshot_versions() {
    let mut bytes = vec![0u8; 24];
    bytes[0..4].copy_from_slice(b"CoWB");
    bytes[4..8].copy_from_slice(&7u32.to_le_bytes());
    bytes[8..16].copy_from_slice(&2u64.to_le_bytes());
    let d = Vdfs4SnapshotDescriptor::decode(&bytes, 0);
    assert!(d.is_base_table());
    assert_eq!(d.get_version(), (2u64 << 32) | 7);
    let mut newer = d;
    newer.sync_count = 8;
    assert!(d.is_older_than(&newer));
    assert!(!newer.is_older_than(&d));
    let mut remounted = d;
    remounted.mount_count = 3;
    remounted.sync_count = 0;
    assert!(newer.is_older_than(&remounted));
}

#[test]
fn compression_descriptor_fields() {
    let mut bytes = vec![0u8; 40];
    bytes[7] = 1;
    bytes[8..12].copy_from_slice(b"CGzp");
    bytes[12..14].copy_from_slice(&3u16.to_le_bytes());
    let d = Vdfs4CompressedFileDescr::decode(&bytes, 0);
    assert!(matches!(d.get_compression(), Some(vdfs_unpack::layout::consts::VdfsFileCompression::Gzip)));
    assert!(d.get_auth().is_none());
    assert_eq!(d.get_signature_type(), Some(VdfsFileSignatureType::Rsa1024));
    assert_eq!(d.extents_num, 3);
    bytes[8..12].copy_from_slice(b"hZip");
    let d = Vdfs4CompressedFileDescr::decode(&bytes, 0);
    assert!(d.get_compression().is_none());
    assert_eq!(d.get_auth(), Some(VdfsFileAuth::Sha256));

    let mut e = vec![0u8; 16];
    e[0..2].copy_from_slice(b"XT");
    e[2..4].copy_from_slice(&3u16.to_le_bytes());
    let x = Vdfs4CompressedExtent::decode(&e, 0);
    assert!(x.check_extent_signature());
    assert!(x.has_uncompressed_flag());
    assert!(x.has_encrypted_flag());
    e[1] = b'X';
    assert!(!Vdfs4CompressedExtent::decode(&e, 0).check_extent_signature());
}

#[test]
fn generic_key_and_hard_link_flag() {
    let k = Vdfs4GenericKey::new();
    assert_eq!(k.key_len, 0);
    assert_eq!(k.magic, [0u8; 4]);
    assert!(folder(0o100644, 0, 2).has_file_flag(VdfsFileFlags::HardLink));
    assert!(!folder(0o100644, 0, 1).has_file_flag(VdfsFileFlags::HardLink));
    assert!(folder(0o100644, 1 << 10, 1).has_file_flag(VdfsFileFlags::HardLink));
    assert!(!folder(0o100644, 1 << 10, 1).has_file_flag(VdfsFileFlags::Immutable));
}
