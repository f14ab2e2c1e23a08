use dig_block::constants::{EMPTY_ROOT, ZERO_HASH};
use dig_block::{Bytes32 as ChiaBytes32, L2Block, L2BlockHeader, Signature};
use dig_blockstore::snapshot::{export_manifest, SnapshotExport, SnapshotImport};
use dig_blockstore::store::BlockStore;
use dig_blockstore::{BlockStoreConfig, BlockStoreError, Bytes32, SnapshotManifest, SNAPSHOT_VERSION};

fn block_at(height: u64, parent: ChiaBytes32) -> L2Block {
    let header = L2BlockHeader::new(
        height, 0, parent, EMPTY_ROOT, EMPTY_ROOT, EMPTY_ROOT, EMPTY_ROOT, EMPTY_ROOT,
        height as u32, ZERO_HASH, 0, 0, 0, 0, 0, 0, 0, ZERO_HASH,
    );
    L2Block::new(header, vec![], vec![vec![height as u8; 40]], Signature::default())
}

fn chain(start: u64, n: u64) -> Vec<L2Block> {
    let mut out: Vec<L2Block> = Vec::new();
    let mut parent = ZERO_HASH;
    for h in start..start + n {
        let b = block_at(h, parent);
        parent = b.hash();
        out.push(b);
    }
    out
}

const EMPTY_SHA256: [u8; 32] = [
    0xe3, 0xb0, 0xc4, 0x42, 0x98, 0xfc, 0x1c, 0x14, 0x9a, 0xfb, 0xf4, 0xc8, 0x99, 0x6f, 0xb9, 0x24,
    0x27, 0xae, 0x41, 0xe4, 0x64, 0x9b, 0x93, 0x4c, 0xa4, 0x95, 0x99, 0x1b, 0x78, 0x52, 0xb8, 0x55,
];

const ABC_SHA256: [u8; 32] = [
    0xba, 0x78, 0x16, 0xbf, 0x8f, 0x01, 0xcf, 0xea, 0x41, 0x41, 0x40, 0xde, 0x5d, 0xae, 0x22, 0x23,
    0xb0, 0x03, 0x61, 0xa3, 0x96, 0x17, 0x7a, 0x9c, 0xb4, 0x10, 0xff, 0x61, 0xf2, 0x00, 0x15, 0xad,
];

#[test]
fn manifest_fields() {
    let m = export_manifest(10, 19, Bytes32::new([2; 32]));
    assert_eq!(m.version, SNAPSHOT_VERSION);
    assert_eq!(m.block_count, 10);
    assert_eq!(m.checksum, Bytes32::default());
    assert_eq!(export_manifest(5, 3, Bytes32::default()).block_count, 1);
}

#[test]
fn checksum_is_sha256_of_stream() {
    assert_eq!(SnapshotExport::begin(&[]).finish().to_bytes(), EMPTY_SHA256);
    assert_eq!(SnapshotExport::begin(b"abc").finish().to_bytes(), ABC_SHA256);
    let mut e = SnapshotExport::begin(b"a");
    let prefix = e.frame_block(b"");
    assert_eq!(prefix, [0, 0, 0, 0]);
    assert_ne!(e.finish().to_bytes(), ABC_SHA256);
}

fn export(manifest_bytes: &[u8], blocks: &[Vec<u8>]) -> Vec<u8> {
    let mut out = manifest_bytes.to_vec();
    let mut e = SnapshotExport::begin(manifest_bytes);
    for b in blocks {
        out.extend_from_slice(&e.frame_block(b));
        out.extend_from_slice(b);
    }
    out.extend_from_slice(&e.finish().to_bytes());
    out
}

fn manifest(start: u64, end: u64) -> SnapshotManifest {
    export_manifest(start, end, Bytes32::default())
}

#[test]
fn import_reads_back_export() {
    let store = BlockStore::from_config(&BlockStoreConfig::default(), false, None, 0, None);
    let mb = b"MANIFEST".to_vec();
    let chain = chain(0, 3);
    let blocks: Vec<Vec<u8>> = chain.iter().map(|b| store.serialize_block(b).unwrap()).collect();
    let stream = export(&mb, &blocks);
    assert_eq!(&stream[8..12], &(blocks[0].len() as u32).to_le_bytes());
    let mut imp = SnapshotImport::begin(&manifest(0, 2), &mb).unwrap();
    let mut pos = mb.len();
    for (h, want) in blocks.iter().enumerate() {
        let mut prefix = [0u8; 4];
        prefix.copy_from_slice(&stream[pos..pos + 4]);
        pos += 4;
        let len = imp.read_frame_len(&prefix);
        let payload = &stream[pos..pos + len];
        pos += len;
        imp.read_payload(payload);
        assert_eq!(payload, &want[..]);
        let block = store.deserialize_block(payload).unwrap();
        assert_eq!(block.hash(), chain[h].hash());
        imp.accept_block(h as u64, &block).unwrap();
    }
    let mut checksum = [0u8; 32];
    checksum.copy_from_slice(&stream[pos..]);
    imp.finish(&checksum).unwrap();
}

#[test]
fn import_rejects_bad_checksum_version_height_and_parent() {
    let mb = b"M".to_vec();
    let bad_version = SnapshotManifest { version: 2, ..manifest(0, 0) };
    match SnapshotImport::begin(&bad_version, &mb) {
        Err(BlockStoreError::Serialization(m)) => assert_eq!(m, "unsupported snapshot version: 2"),
        _ => panic!("version 2 must be refused"),
    }
    let imp = SnapshotImport::begin(&manifest(0, 0), &mb).unwrap();
    match imp.finish(&[0u8; 32]) {
        Err(BlockStoreError::Serialization(m)) => assert_eq!(m, "snapshot checksum mismatch"),
        _ => panic!("wrong checksum must be refused"),
    }
    let good = chain(5, 2);
    let mut imp = SnapshotImport::begin(&manifest(5, 6), &mb).unwrap();
    match imp.accept_block(5, &good[1]) {
        Err(BlockStoreError::Serialization(m)) => assert_eq!(m, "non-contiguous height: expected 5, got 6"),
        _ => panic!("height gap must be refused"),
    }
    imp.accept_block(5, &good[0]).unwrap();
    match imp.accept_block(6, &block_at(6, ChiaBytes32::new([7; 32]))) {
        Err(BlockStoreError::Serialization(m)) => assert_eq!(m, "broken parent link at height 6"),
        _ => panic!("broken link must be refused"),
    }
    imp.accept_block(6, &good[1]).unwrap();
}
