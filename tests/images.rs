use std::io::Write;

use vdfs_unpack::btree::BtreeError;
use vdfs_unpack::data_source::DataSource;
use vdfs_unpack::layout::consts::{VdfsFileAuth, VdfsFileFlags};
use vdfs_unpack::unpack::{FileAction, FolderEntry};
use vdfs_unpack::vdfs::{Vdfs, VdfsError};
use vdfs_unpack::vdfs_crc::crc32;

const BS: usize = 4096;
const NODE: usize = 16384;
const META_BEGIN: usize = 4;
const META_LEN: usize = 64;
const TABLE_SLOT_0: usize = 4096;
const TABLE_SLOT_1: usize = 8192;
const DIR_MODE: u16 = 0o040755;
const REG_MODE: u16 = 0o100644;

fn put_u16(b: &mut [u8], p: usize, v: u16) {
    b[p..p + 2].copy_from_slice(&v.to_le_bytes());
}

fn put_u32(b: &mut [u8], p: usize, v: u32) {
    b[p..p + 4].copy_from_slice(&v.to_le_bytes());
}

fn put_u64(b: &mut [u8], p: usize, v: u64) {
    b[p..p + 8].copy_from_slice(&v.to_le_bytes());
}

/// Byte position of a node stored at meta block `meta_iblock`.
fn node_pos(meta_iblock: usize) -> usize {
    (META_BEGIN + meta_iblock) * BS
}

/// Meta block of node `node` of the tree whose nodes start at `first`.
fn meta_of(first: usize, node: usize) -> usize {
    first + 4 * node
}

const CAT_FIRST: usize = 0;
const EXT_FIRST: usize = 12;
const XATTR_FIRST: usize = 24;

fn cat_key(parent: u64, object: u64, record_type: u8, name: &[u8]) -> Vec<u8> {
    let mut k = vec![0u8; 288];
    k[0..4].copy_from_slice(b"CATK");
    put_u16(&mut k, 4, 288);
    put_u64(&mut k, 8, parent);
    put_u64(&mut k, 16, object);
    k[24] = record_type;
    k[25] = name.len() as u8;
    k[26..26 + name.len()].copy_from_slice(name);
    k
}

fn folder_value(mode: u16) -> Vec<u8> {
    let mut v = vec![0u8; 80];
    put_u64(&mut v, 16, 1);
    put_u16(&mut v, 32, mode);
    v
}

fn folder_record(parent: u64, object: u64, name: &[u8]) -> Vec<u8> {
    let mut r = cat_key(parent, object, 1, name);
    r.extend(folder_value(DIR_MODE));
    r
}

/// A file record; `extents` are (begin, length, iblock) of the fork.
fn file_record(parent: u64, object: u64, name: &[u8], flags: u32, size: u64, total_blocks: u64, extents: &[(u64, u64, u64)]) -> Vec<u8> {
    let mut r = cat_key(parent, object, 2, name);
    let mut v = vec![0u8; 312];
    put_u32(&mut v, 0, flags);
    put_u64(&mut v, 16, 1);
    put_u16(&mut v, 32, REG_MODE);
    put_u64(&mut v, 80, size);
    put_u64(&mut v, 88, total_blocks);
    for (i, (begin, length, iblock)) in extents.iter().enumerate() {
        put_u64(&mut v, 96 + 24 * i, *begin);
        put_u64(&mut v, 104 + 24 * i, *length);
        put_u64(&mut v, 112 + 24 * i, *iblock);
    }
    r.extend(v);
    r
}

fn ext_key(object: u64, iblock: u64) -> Vec<u8> {
    let mut k = vec![0u8; 24];
    k[0..4].copy_from_slice(b"EXTK");
    put_u16(&mut k, 4, 24);
    put_u64(&mut k, 8, object);
    put_u64(&mut k, 16, iblock);
    k
}

fn ext_record(object: u64, iblock: u64, begin: u64, length: u64) -> Vec<u8> {
    let mut r = ext_key(object, iblock);
    r.extend(ext_key(object, iblock));
    let mut e = vec![0u8; 16];
    put_u64(&mut e, 0, begin);
    put_u64(&mut e, 8, length);
    r.extend(e);
    r
}

fn write_head(b: &mut [u8], pos: usize, root: u32, height: u16) {
    b[pos..pos + 4].copy_from_slice(b"eHND");
    put_u32(b, pos + 12, root);
    put_u16(b, pos + 16, height);
}

fn write_node(b: &mut [u8], pos: usize, node_id: u32, next: u32, records: &[Vec<u8>]) {
    b[pos..pos + 4].copy_from_slice(b"Nd\x01\x00");
    put_u16(b, pos + 14, records.len() as u16);
    put_u32(b, pos + 16, node_id);
    put_u32(b, pos + 24, next);
    let mut offset = 32;
    for (i, r) in records.iter().enumerate() {
        b[pos + offset..pos + offset + r.len()].copy_from_slice(r);
        put_u32(b, pos + NODE - 4 - 4 * (i + 1), offset as u32);
        offset += r.len();
    }
}

/// A base table at `pos` with translation tables for the three trees.
fn write_base_table(b: &mut [u8], pos: usize, mount: u64, sync: u32) {
    b[pos..pos + 4].copy_from_slice(b"CoWB");
    put_u32(b, pos + 4, sync);
    put_u64(b, pos + 8, mount);
    put_u64(b, pos + 16, 1024);
    put_u64(b, pos + 64, 256);
    put_u64(b, pos + 80, 512);
    put_u64(b, pos + 96, 768);
    for n in 0..3 {
        put_u64(b, pos + 256 + 16 * n, meta_of(CAT_FIRST, n) as u64);
        put_u64(b, pos + 512 + 16 * n, meta_of(EXT_FIRST, n) as u64);
    }
    put_u64(b, pos + 768, XATTR_FIRST as u64);
    let crc = crc32(&b[pos..pos + 1024]);
    put_u32(b, pos + 1024, crc);
}

/// An image whose catalog leaf holds `catalog` and whose extent-tree leaf
/// holds `extents`, with `data` written at the given blocks.
fn build(catalog: &[Vec<u8>], extents: &[Vec<u8>], data: &[(usize, Vec<u8>)]) -> Vec<u8> {
    let mut blocks = META_BEGIN + META_LEN;
    for (block, bytes) in data {
        blocks = blocks.max(block + (bytes.len() + BS - 1) / BS + 1);
    }
    let mut b = vec![0u8; blocks * BS];
    b[1024..1028].copy_from_slice(b"VDFS");
    b[1024 + 164] = 12;
    b[1024 + 165] = 14;
    let ext = 1536;
    put_u64(&mut b, ext + 72, 1);
    put_u64(&mut b, ext + 80, 2);
    put_u64(&mut b, ext + 88, META_BEGIN as u64);
    put_u64(&mut b, ext + 96, META_LEN as u64);
    write_base_table(&mut b, TABLE_SLOT_0, 1, 1);

    let mut cat_index = cat_key(0, 0, 0, b"");
    cat_index.extend(2u32.to_le_bytes());
    write_head(&mut b, node_pos(meta_of(CAT_FIRST, 0)), 1, 2);
    write_node(&mut b, node_pos(meta_of(CAT_FIRST, 1)), 1, 0, &[cat_index]);
    write_node(&mut b, node_pos(meta_of(CAT_FIRST, 2)), 2, 0, catalog);

    let mut ext_index = ext_key(0, 0);
    ext_index.extend(2u32.to_le_bytes());
    write_head(&mut b, node_pos(meta_of(EXT_FIRST, 0)), 1, 2);
    write_node(&mut b, node_pos(meta_of(EXT_FIRST, 1)), 1, 0, &[ext_index]);
    write_node(&mut b, node_pos(meta_of(EXT_FIRST, 2)), 2, 0, extents);

    write_head(&mut b, node_pos(XATTR_FIRST), 1, 2);

    for (block, bytes) in data {
        b[block * BS..block * BS + bytes.len()].copy_from_slice(bytes);
    }
    b
}

fn open(source: &DataSource) -> Vdfs<'_> {
    let mut vdfs = Vdfs::new(source).unwrap();
    vdfs.init_current_base_table().unwrap();
    vdfs.init_btrees().unwrap();
    vdfs
}

fn unpack(image: Vec<u8>) -> (Vec<FolderEntry>, Vec<Result<FileAction, VdfsError>>) {
    let source = DataSource::from_source(image);
    let vdfs = open(&source);
    let records = vdfs.catalog_records().unwrap();
    let folders = vdfs.collect_folders(&records).unwrap();
    let actions = records.iter().map(|r| vdfs.file_action(r, &folders)).collect();
    (folders, actions)
}

fn writes(actions: &[Result<FileAction, VdfsError>]) -> Vec<(Vec<u8>, Vec<u8>)> {
    actions
        .iter()
        .filter_map(|a| match a {
            Ok(FileAction::Write { path, data }) => Some((path.clone(), data.clone())),
            _ => None,
        })
        .collect()
}

fn pattern(len: usize, seed: u32) -> Vec<u8> {
    let mut x = seed;
    (0..len)
        .map(|_| {
            x = x.wrapping_mul(1103515245).wrapping_add(12345);
            ((x >> 16) % 7) as u8 + b'a'
        })
        .collect()
}

fn zlib(bytes: &[u8]) -> Vec<u8> {
    let mut encoder = libflate::zlib::Encoder::new(Vec::new()).unwrap();
    encoder.write_all(bytes).unwrap();
    encoder.finish().into_result().unwrap()
}

/// A compressed container: chunks, chunk table, descriptor.
fn container(chunks: &[(Vec<u8>, u16)], magic: &[u8; 4], unpacked: u64, crc: u32) -> Vec<u8> {
    let mut raw = Vec::new();
    let mut table = Vec::new();
    for (bytes, flags) in chunks {
        let mut e = vec![0u8; 16];
        e[0..2].copy_from_slice(b"XT");
        put_u16(&mut e, 2, *flags);
        put_u32(&mut e, 4, bytes.len() as u32);
        put_u64(&mut e, 8, raw.len() as u64);
        table.extend(e);
        raw.extend(bytes);
    }
    raw.extend(table);
    let mut d = vec![0u8; 40];
    d[8..12].copy_from_slice(magic);
    put_u16(&mut d, 12, chunks.len() as u16);
    put_u64(&mut d, 16, unpacked);
    put_u32(&mut d, 24, crc);
    put_u32(&mut d, 28, 12);
    raw.extend(d);
    raw
}

#[test]
fn empty_image_has_only_the_root() {
    let image = build(&[folder_record(0, 1, b"root")], &[], &[]);
    let (folders, actions) = unpack(image);
    assert_eq!(folders.len(), 1);
    assert_eq!(folders[0].object_id, 1);
    assert!(folders[0].path.is_empty());
    assert!(writes(&actions).is_empty());
    assert!(actions.iter().all(|a| matches!(a, Ok(FileAction::Ignore))));
}

#[test]
fn one_regular_file() {
    let content = b"hello, vdfs4 img!".to_vec();
    assert_eq!(content.len(), 17);
    let image = build(
        &[folder_record(0, 1, b"root"), file_record(1, 9, b"hello.txt", 0, 17, 1, &[(100, 1, 0)])],
        &[],
        &[(100, content.clone())],
    );
    let (_, actions) = unpack(image);
    assert_eq!(writes(&actions), vec![(b"/hello.txt".to_vec(), content)]);
}

#[test]
fn nested_directories() {
    let first = vec![b'x'; 4096];
    let second = vec![b'y'; 4096];
    let image = build(
        &[
            folder_record(0, 1, b"root"),
            folder_record(1, 10, b"a"),
            folder_record(10, 11, b"b"),
            file_record(11, 12, b"c.bin", 0, 8192, 2, &[(100, 1, 0), (200, 1, 1)]),
        ],
        &[],
        &[(100, first.clone()), (200, second.clone())],
    );
    let (folders, actions) = unpack(image);
    let paths: Vec<(u64, Vec<u8>)> = folders.iter().map(|f| (f.object_id, f.path.clone())).collect();
    assert_eq!(paths, vec![(1, b"".to_vec()), (10, b"/a".to_vec()), (11, b"/a/b".to_vec())]);
    let mut expected = first;
    expected.extend(second);
    assert_eq!(writes(&actions), vec![(b"/a/b/c.bin".to_vec(), expected)]);
}

#[test]
fn compressed_zlib_file() {
    let payload = pattern(10000, 7);
    let chunks = vec![
        (zlib(&payload[0..4096]), 0u16),
        (zlib(&payload[4096..8192]), 0u16),
        (payload[8192..].to_vec(), 1u16),
    ];
    let raw = container(&chunks, b"CZip", 10000, crc32(&payload));
    let blocks = ((raw.len() + BS - 1) / BS) as u64;
    let flags = 1u32 << 13;
    let image = build(
        &[folder_record(0, 1, b"root"), file_record(1, 9, b"packed.bin", flags, raw.len() as u64, blocks, &[(300, blocks, 0)])],
        &[],
        &[(300, raw.clone())],
    );
    let (_, actions) = unpack(image);
    let written = writes(&actions);
    assert_eq!(written.len(), 1);
    assert_eq!(written[0].0, b"/packed.bin".to_vec());
    assert_eq!(written[0].1, payload);
    assert_eq!(written[0].1.len() as u64, 10000);
    let stored_crc = u32::from_le_bytes(raw[raw.len() - 16..raw.len() - 12].try_into().unwrap());
    assert_eq!(stored_crc, crc32(&written[0].1));
}

#[test]
fn extent_overflow_resolves_every_block() {
    let fork: Vec<(u64, u64, u64)> = (0..9).map(|i| (400 + 2 * i, 1, i)).collect();
    let mut data = Vec::new();
    let mut expected = Vec::new();
    for i in 0..10usize {
        let block = if i < 9 { 400 + 2 * i } else { 500 };
        let bytes = vec![b'0' + i as u8; BS];
        expected.extend(bytes.clone());
        data.push((block, bytes));
    }
    let flags = 1u32 << 1;
    let image = build(
        &[folder_record(0, 1, b"root"), file_record(1, 9, b"big.bin", flags, 10 * BS as u64, 10, &fork)],
        &[ext_record(9, 9, 500, 1)],
        &data,
    );
    let source = DataSource::from_source(image);
    let vdfs = open(&source);
    let records = vdfs.catalog_records().unwrap();
    let file = records.iter().find(|r| r.key.data.object_id == 9).unwrap();
    let value: vdfs_unpack::data_source::DataPointer<vdfs_unpack::layout::Vdfs4CatalogFileRecord> =
        file.key.get_record_value(&source).unwrap();
    for iblock in (0..10u64).rev() {
        let expected_block = if iblock < 9 { 400 + 2 * iblock } else { 500 };
        assert_eq!(vdfs.get_file_iblock_position(9, &value.data, iblock).unwrap(), expected_block);
    }
    for iblock in 0..10u64 {
        let first = vdfs.get_file_iblock_position(9, &value.data, iblock).unwrap();
        let again = vdfs.get_file_iblock_position(9, &value.data, iblock).unwrap();
        assert_eq!(first, again);
    }
    let folders = vdfs.collect_folders(&records).unwrap();
    match vdfs.file_action(file, &folders).unwrap() {
        FileAction::Write { path, data } => {
            assert_eq!(path, b"/big.bin".to_vec());
            assert_eq!(data, expected);
        }
        other => panic!("unexpected action {:?}", other),
    }
}

#[test]
fn auth_file_is_skipped() {
    let raw = container(&[(b"abc".to_vec(), 1u16)], b"IZip", 3, 0);
    let flags = (1u32 << 15) | (1u32 << 13);
    let image = build(
        &[folder_record(0, 1, b"root"), file_record(1, 9, b"signed.bin", flags, raw.len() as u64, 1, &[(300, 1, 0)])],
        &[],
        &[(300, raw)],
    );
    let (_, actions) = unpack(image);
    assert!(writes(&actions).is_empty());
    assert!(actions.iter().all(|a| a.is_ok()));
    assert!(actions.iter().any(|a| matches!(a, Ok(FileAction::Skip(VdfsFileFlags::AuthFile)))));
}

#[test]
fn compressed_file_with_hashes_is_left_alone() {
    let raw = container(&[(b"abc".to_vec(), 1u16)], b"IZip", 3, 0);
    let flags = 1u32 << 13;
    let image = build(
        &[folder_record(0, 1, b"root"), file_record(1, 9, b"hashed.bin", flags, raw.len() as u64, 1, &[(300, 1, 0)])],
        &[],
        &[(300, raw)],
    );
    let (_, actions) = unpack(image);
    assert!(actions.iter().any(|a| matches!(a, Ok(FileAction::Authenticated(VdfsFileAuth::Md5)))));
}

#[test]
fn gzip_chunks_and_bad_chunk_signature() {
    let payload = pattern(3000, 3);
    let mut encoder = libflate::gzip::Encoder::new(Vec::new()).unwrap();
    encoder.write_all(&payload).unwrap();
    let gz = encoder.finish().into_result().unwrap();
    let raw = container(&[(gz, 0u16)], b"CGzp", 3000, 0);
    let source = DataSource::from_source(raw.clone());
    let folder = folder_with_flags(1 << 13);
    match vdfs_unpack::unpack::decode_compressed_payload(&source, &folder).unwrap() {
        vdfs_unpack::unpack::CompressedPayload::Decoded(v) => assert_eq!(v, payload),
        other => panic!("unexpected {:?}", other),
    }
    let mut broken = raw;
    let table = broken.len() - 40 - 16;
    broken[table] = b'Q';
    let source = DataSource::from_source(broken);
    assert!(matches!(
        vdfs_unpack::unpack::decode_compressed_payload(&source, &folder),
        Err(VdfsError::CompressedFileExtentWrongSignature)
    ));
}

fn folder_with_flags(flags: u32) -> vdfs_unpack::layout::Vdfs4CatalogFolderRecord {
    let mut v = folder_value(REG_MODE);
    put_u32(&mut v, 0, flags);
    <vdfs_unpack::layout::Vdfs4CatalogFolderRecord as vdfs_unpack::layout::FixedRecord>::decode(&v, 0)
}

#[test]
fn compressed_decoding_errors() {
    let folder = folder_with_flags(1 << 13);
    let short = DataSource::from_source(vec![0u8; 10]);
    assert!(matches!(
        vdfs_unpack::unpack::decode_compressed_payload(&short, &folder),
        Err(VdfsError::DataSourceError(_))
    ));
    let unknown = DataSource::from_source(container(&[(b"abc".to_vec(), 0u16)], b"CXyz", 3, 0));
    assert!(matches!(
        vdfs_unpack::unpack::decode_compressed_payload(&unknown, &folder),
        Err(VdfsError::CannotDecompressFileWithoutCompression)
    ));
    let garbage = DataSource::from_source(container(&[(b"not zlib".to_vec(), 0u16)], b"CZip", 3, 0));
    assert!(matches!(
        vdfs_unpack::unpack::decode_compressed_payload(&garbage, &folder),
        Err(VdfsError::DecompressionError)
    ));
    let lzo = DataSource::from_source(container(&[(b"abc".to_vec(), 0u16)], b"CLzo", 3, 0));
    assert!(matches!(vdfs_unpack::unpack::decode_compressed_payload(&lzo, &folder), Err(VdfsError::NotImplemented)));
    let encrypted = DataSource::from_source(container(&[(b"abc".to_vec(), 2u16)], b"CZip", 3, 0));
    assert!(matches!(
        vdfs_unpack::unpack::decode_compressed_payload(&encrypted, &folder),
        Err(VdfsError::NotImplemented)
    ));
}

#[test]
fn missing_parent_folder_fails_only_that_file() {
    let image = build(
        &[folder_record(0, 1, b"root"), file_record(1, 9, b"ok.txt", 0, 2, 1, &[(100, 1, 0)]), file_record(77, 78, b"lost", 0, 2, 1, &[(100, 1, 0)])],
        &[],
        &[(100, b"ok".to_vec())],
    );
    let (_, actions) = unpack(image);
    assert_eq!(writes(&actions), vec![(b"/ok.txt".to_vec(), b"ok".to_vec())]);
    let failure = actions.iter().find_map(|a| a.as_ref().err()).unwrap();
    assert!(matches!(failure, VdfsError::CannotFindParentFolder));
    assert!(failure.is_per_file());
}

#[test]
fn newer_base_table_is_selected() {
    let mut image = build(&[folder_record(0, 1, b"root")], &[], &[]);
    write_base_table(&mut image, TABLE_SLOT_1, 1, 5);
    let source = DataSource::from_source(image.clone());
    let mut vdfs = Vdfs::new(&source).unwrap();
    vdfs.init_current_base_table().unwrap();
    assert_eq!(vdfs.current_base_table.unwrap().position, TABLE_SLOT_1 as u64);

    write_base_table(&mut image, TABLE_SLOT_1, 0, 99);
    let source = DataSource::from_source(image.clone());
    let mut vdfs = Vdfs::new(&source).unwrap();
    vdfs.init_current_base_table().unwrap();
    assert_eq!(vdfs.current_base_table.unwrap().position, TABLE_SLOT_0 as u64);
}

#[test]
fn corrupt_base_table_is_passed_over() {
    let mut image = build(&[folder_record(0, 1, b"root")], &[], &[]);
    write_base_table(&mut image, TABLE_SLOT_1, 0, 1);
    image[TABLE_SLOT_0 + 200] ^= 0xff;
    let source = DataSource::from_source(image.clone());
    let mut vdfs = Vdfs::new(&source).unwrap();
    vdfs.init_current_base_table().unwrap();
    assert_eq!(vdfs.current_base_table.unwrap().position, TABLE_SLOT_1 as u64);

    image[TABLE_SLOT_1 + 200] ^= 0xff;
    let source = DataSource::from_source(image);
    let mut vdfs = Vdfs::new(&source).unwrap();
    assert!(matches!(vdfs.init_current_base_table(), Err(VdfsError::BaseTableIsMissing)));
    assert!(matches!(vdfs.init_btrees(), Err(VdfsError::BaseTableIsMissing)));
}

#[test]
fn too_short_image_is_refused() {
    let source = DataSource::from_source(vec![0u8; 100]);
    assert!(matches!(Vdfs::new(&source), Err(BtreeError::DataSourceError(_))));
}

#[test]
fn node_version_mismatch_is_reported() {
    let mut image = build(&[folder_record(0, 1, b"root")], &[], &[]);
    put_u32(&mut image, node_pos(meta_of(CAT_FIRST, 0)) + 4, 3);
    let source = DataSource::from_source(image);
    let mut vdfs = Vdfs::new(&source).unwrap();
    vdfs.init_current_base_table().unwrap();
    assert!(matches!(
        vdfs.init_btrees(),
        Err(VdfsError::BtreeError(BtreeError::NodeAndBaseTableVersionsMismatch(3, 0)))
    ));
}

#[test]
fn catalog_iteration_follows_siblings_in_key_order() {
    let mut image = build(&[folder_record(0, 1, b"root"), folder_record(1, 10, b"a")], &[], &[]);
    let third = 40;
    put_u64(&mut image, TABLE_SLOT_0 + 256 + 16 * 3, third as u64);
    let crc = crc32(&image[TABLE_SLOT_0..TABLE_SLOT_0 + 1024]);
    put_u32(&mut image, TABLE_SLOT_0 + 1024, crc);
    put_u32(&mut image, node_pos(meta_of(CAT_FIRST, 2)) + 24, 3);
    write_node(&mut image, node_pos(third), 3, 0, &[folder_record(1, 11, b"b"), folder_record(11, 12, b"c")]);
    let source = DataSource::from_source(image);
    let vdfs = open(&source);
    let records = vdfs.catalog_records().unwrap();
    let ids: Vec<u64> = records.iter().map(|r| r.key.data.object_id).collect();
    assert_eq!(ids, vec![1, 10, 11, 12]);
    for pair in records.windows(2) {
        assert_eq!(
            vdfs_unpack::layout::VdfsBtreeKey::compare(&pair[0].key.data, &pair[1].key.data),
            std::cmp::Ordering::Less
        );
    }
    let folders = vdfs.collect_folders(&records).unwrap();
    assert_eq!(folders.last().unwrap().path, b"/b/c".to_vec());
}

#[test]
fn bad_node_magic_is_reported() {
    let mut image = build(&[folder_record(0, 1, b"root")], &[], &[]);
    image[node_pos(meta_of(CAT_FIRST, 0))] = b'x';
    let source = DataSource::from_source(image);
    let mut vdfs = Vdfs::new(&source).unwrap();
    vdfs.init_current_base_table().unwrap();
    assert!(matches!(vdfs.init_btrees(), Err(VdfsError::BtreeError(BtreeError::InvalidNodeSignature))));
}

#[test]
fn search_level_must_be_below_height() {
    let mut image = build(&[folder_record(0, 1, b"root")], &[], &[]);
    put_u16(&mut image, node_pos(meta_of(CAT_FIRST, 0)) + 16, 1);
    let source = DataSource::from_source(image);
    let vdfs = open(&source);
    assert!(matches!(vdfs.catalog_records(), Err(VdfsError::BtreeError(BtreeError::LevelIsTooHigh(1, 1)))));
}

#[test]
fn first_key_above_search_key_is_reported() {
    let image = build(&[folder_record(5, 6, b"x"), folder_record(5, 7, b"y")], &[], &[]);
    let source = DataSource::from_source(image);
    let vdfs = open(&source);
    assert!(matches!(
        vdfs.catalog_records(),
        Err(VdfsError::BtreeError(BtreeError::LeftRecordKeyIsHigherThanSearchKey))
    ));
}

#[test]
fn zero_record_offset_is_reported() {
    let mut image = build(&[folder_record(0, 1, b"root"), folder_record(1, 2, b"a")], &[], &[]);
    put_u32(&mut image, node_pos(meta_of(CAT_FIRST, 2)) + NODE - 8, 0);
    let source = DataSource::from_source(image);
    let vdfs = open(&source);
    assert!(matches!(
        vdfs.catalog_records(),
        Err(VdfsError::BtreeError(BtreeError::BnodeRecordOffsetOutOfBounds(0)))
    ));
}

#[test]
fn block_in_neither_fork_nor_tree_is_not_found() {
    let image = build(
        &[folder_record(0, 1, b"root"), file_record(1, 9, b"gap.bin", 1 << 1, 2 * BS as u64, 2, &[(100, 1, 0)])],
        &[ext_record(50, 0, 300, 1)],
        &[(100, vec![1u8; BS])],
    );
    let (_, actions) = unpack(image);
    let failure = actions.iter().find_map(|a| a.as_ref().err()).unwrap();
    assert!(matches!(failure, VdfsError::FileBlockNotFound(1)));
    assert!(failure.is_per_file());
}

#[test]
fn binary_search_positions() {
    let keys: Vec<(u64, &[u8])> = vec![(0, b"root"), (1, b"b"), (1, b"d"), (1, b"f"), (2, b"a")];
    let records: Vec<Vec<u8>> = keys.iter().enumerate().map(|(i, (p, n))| folder_record(*p, 10 + i as u64, n)).collect();
    let image = build(&records, &[], &[]);
    let source = DataSource::from_source(image);
    let vdfs = open(&source);
    let tree = &vdfs.catalog_btree.as_ref().unwrap().btree;
    let node = tree.get_bnode(2).unwrap();
    let buffer = tree.read_bnode_buffer(&node).unwrap();
    let search = |parent: u64, object: u64, name: &[u8]| {
        let mut k = vdfs_unpack::layout::Vdfs4CatTreeKey::child_of_root();
        k.parent_id = parent;
        k.object_id = object;
        k.name_len = name.len() as u8;
        k.name[..name.len()].copy_from_slice(name);
        tree.binary_search_in_bnode(&buffer, &k, &node).map(|(i, _)| i)
    };
    assert_eq!(search(1, 11, b"b").unwrap(), 1);
    assert_eq!(search(1, 12, b"d").unwrap(), 2);
    assert_eq!(search(2, 14, b"a").unwrap(), 4);
    assert_eq!(search(0, 10, b"root").unwrap(), 0);
    assert_eq!(search(1, 0, b"c").unwrap(), 1);
    assert_eq!(search(1, 0, b"e").unwrap(), 2);
    assert_eq!(search(1, 0, b"").unwrap(), 0);
    assert_eq!(search(3, 0, b"").unwrap(), 4);
    assert_eq!(search(2, 99, b"z").unwrap(), 4);
    let mut low = vdfs_unpack::layout::Vdfs4CatTreeKey::child_of_root();
    low.parent_id = 0;
    assert!(matches!(
        tree.binary_search_in_bnode(&buffer, &low, &node),
        Err(BtreeError::LeftRecordKeyIsHigherThanSearchKey)
    ));
}

#[test]
fn head_node_and_bitmap_bits() {
    let mut image = build(&[folder_record(0, 1, b"root")], &[], &[]);
    let head_block = META_BEGIN + meta_of(CAT_FIRST, 0);
    image[head_block * BS + 20 + 1] = 0b0000_0100;
    let source = DataSource::from_source(image);
    let vdfs = Vdfs::new(&source).unwrap();
    assert_eq!(vdfs.get_super_blocks().super_block.log_block_size, 12);
    assert_eq!(vdfs.get_super_blocks().ext_super_block.meta[0].length, META_LEN as u64);
    let head = vdfs.read_btree_head(head_block as u64).unwrap();
    assert_eq!(head.position, (head_block * BS) as u64);
    assert_eq!(&head.data.magic, b"eHND");
    assert_eq!(head.data.root_bnode_id, 1);
    assert_eq!(head.data.btree_height, 2);
    assert!(head.data.check_node_signature());
    assert_eq!(vdfs.get_bitmap_size_in_bits(), 16360 * 8);
    assert!(vdfs.read_bitmap_bit(head_block as u64, 10).unwrap());
    assert!(!vdfs.read_bitmap_bit(head_block as u64, 9).unwrap());
    assert!(!vdfs.read_bitmap_bit(head_block as u64, 11).unwrap());
    assert_eq!(vdfs.blocks_to_bytes(3), Some(3 * 4096));
    assert_eq!(vdfs.blocks_to_bytes(u64::MAX), None);
    assert!(vdfs.read_btree_head(1 << 40).is_err());
}

#[test]
fn byte_source_bounds() {
    let source = DataSource::from_source(vec![1, 2, 3, 4, 5]);
    assert_eq!(source.read_bytes_at(1, 3).unwrap(), vec![2, 3, 4]);
    assert_eq!(source.read_bytes_at(5, 0).unwrap(), Vec::<u8>::new());
    assert!(source.read_bytes_at(3, 3).is_err());
    assert!(source.read_bytes_at(u64::MAX, 2).is_err());
    assert_eq!(source.read_u8_at(4).unwrap(), 5);
    assert!(source.read_u8_at(5).is_err());
    let extent: Result<vdfs_unpack::data_source::DataPointer<vdfs_unpack::layout::Vdfs4Extent>, _> = source.read_at(0);
    assert!(extent.is_err());
    let bytes: Vec<u8> = (1..=16).collect();
    let source = DataSource::from_source(bytes.clone());
    let extent: vdfs_unpack::data_source::DataPointer<vdfs_unpack::layout::Vdfs4Extent> = source.read_at(0).unwrap();
    assert_eq!(extent.data.begin, u64::from_le_bytes(bytes[0..8].try_into().unwrap()));
    assert_eq!(extent.data.length, u64::from_le_bytes(bytes[8..16].try_into().unwrap()));
    let short: Result<vdfs_unpack::layout::Vdfs4Extent, _> = vdfs_unpack::layout::deserialize(&bytes, 1);
    assert!(short.is_err());
}

#[test]
fn iterator_walks_to_the_end_and_stays_there() {
    let image = build(
        &[folder_record(0, 1, b"root"), folder_record(1, 10, b"a"), folder_record(1, 11, b"b")],
        &[ext_record(9, 0, 300, 2), ext_record(9, 2, 400, 1)],
        &[],
    );
    let source = DataSource::from_source(image);
    let vdfs = open(&source);
    let catalog = vdfs.catalog_btree.as_ref().unwrap();
    let mut it = catalog.all_records_iterator().unwrap();
    let mut ids = Vec::new();
    while let Some(record) = it.next::<vdfs_unpack::layout::Vdfs4CatTreeKey>().unwrap() {
        ids.push(record.data.object_id);
    }
    assert_eq!(ids, vec![1, 10, 11]);
    assert!(it.next::<vdfs_unpack::layout::Vdfs4CatTreeKey>().unwrap().is_none());

    let extents = vdfs.extent_btree.as_ref().unwrap();
    let mut it = extents.records_iterator(9).unwrap();
    let first = it.next::<vdfs_unpack::layout::Vdfs4ExtTreeKey>().unwrap().unwrap();
    assert_eq!((first.data.object_id, first.data.iblock), (9, 0));
    let second = it.next::<vdfs_unpack::layout::Vdfs4ExtTreeKey>().unwrap().unwrap();
    assert_eq!((second.data.object_id, second.data.iblock), (9, 2));
    assert!(it.next::<vdfs_unpack::layout::Vdfs4ExtTreeKey>().unwrap().is_none());
}

#[test]
fn block_past_the_fork_count_is_out_of_range() {
    let image = build(
        &[folder_record(0, 1, b"root"), file_record(1, 9, b"short.bin", 0, 2 * BS as u64, 0, &[(100, 2, 0)])],
        &[],
        &[(100, vec![3u8; 2 * BS])],
    );
    let (_, actions) = unpack(image);
    let failure = actions.iter().find_map(|a| a.as_ref().err()).unwrap();
    assert!(matches!(failure, VdfsError::FileBlockOutOfRange(1)));
}

#[test]
fn extended_tables_are_detected() {
    let mut image = build(&[folder_record(0, 1, b"root")], &[], &[]);
    let source = DataSource::from_source(image.clone());
    let mut vdfs = Vdfs::new(&source).unwrap();
    vdfs.init_current_base_table().unwrap();
    let base = vdfs.current_base_table.unwrap();
    assert_eq!(vdfs.read_extended_tables(&base).unwrap(), 0);

    let ext = TABLE_SLOT_0 + 4096;
    image[ext..ext + 4].copy_from_slice(b"CoWE");
    put_u64(&mut image, ext + 16, 100);
    let crc = crc32(&image[ext..ext + 100]);
    put_u32(&mut image, ext + 100, crc);
    let source = DataSource::from_source(image.clone());
    let mut vdfs = Vdfs::new(&source).unwrap();
    vdfs.init_current_base_table().unwrap();
    let base = vdfs.current_base_table.unwrap();
    assert_eq!(base.position, TABLE_SLOT_0 as u64);
    assert_eq!(vdfs.read_extended_tables(&base).unwrap(), 1);

    image[ext + 50] ^= 1;
    let source = DataSource::from_source(image);
    let mut vdfs = Vdfs::new(&source).unwrap();
    vdfs.init_current_base_table().unwrap();
    let base = vdfs.current_base_table.unwrap();
    assert_eq!(vdfs.read_extended_tables(&base).unwrap(), 0);
}

#[test]
fn block_size_comes_from_the_super_block() {
    let mut image = build(&[folder_record(0, 1, b"root")], &[], &[]);
    image[1024 + 164] = 70;
    let source = DataSource::from_source(image.clone());
    assert!(matches!(Vdfs::new(&source), Err(BtreeError::InvalidNodeGeometry(70, 14))));
    image[1024 + 164] = 12;
    let source = DataSource::from_source(image);
    assert_eq!(Vdfs::new(&source).unwrap().block_size, 4096);
}
