use dig_block::constants::{EMPTY_ROOT, ZERO_HASH};
use dig_block::{Bytes32 as ChiaBytes32, L2Block, L2BlockHeader, Signature};
use dig_blockstore::compression::{dict_from_stored, resolve_zstd_dictionary, TrainingAction, TrainingEvent};
use dig_blockstore::store::{load_tip, warm_start_height, BlockStore, ColumnFamilyId};
use dig_blockstore::{
    height_key, BlockStoreConfig, BlockStoreError, Bytes32, ChainTip, ERR_INIT_GENESIS_ALREADY_INITIALIZED,
    ERR_INIT_GENESIS_READ_ONLY, ERR_MUTATION_READ_ONLY,
};

fn store(read_only: bool, dict: Option<Vec<u8>>) -> BlockStore {
    let cfg = BlockStoreConfig {
        use_compression_dict: dict.is_some(),
        ..BlockStoreConfig::default()
    };
    BlockStore::from_config(&cfg, read_only, None, 0, dict)
}

fn body(n: usize) -> Vec<u8> {
    (0..n).map(|i| (i % 7) as u8).collect()
}

fn block_at(height: u64, parent: ChiaBytes32, payload: usize) -> L2Block {
    let header = L2BlockHeader::new(
        height, height / 32, parent, EMPTY_ROOT, EMPTY_ROOT, EMPTY_ROOT, EMPTY_ROOT, EMPTY_ROOT,
        height as u32, ZERO_HASH, 1, 0, 0, 0, 0, 0, 0, ZERO_HASH,
    );
    let slash = if payload == 0 { vec![] } else { vec![body(payload)] };
    L2Block::new(header, vec![], slash, Signature::default())
}

#[test]
fn payload_is_a_zstd_frame_and_round_trips() {
    let s = store(false, None);
    let raw = body(4096);
    let c = s.compress_payload(&raw).unwrap();
    assert_eq!(&c[..4], &[0x28, 0xb5, 0x2f, 0xfd], "zstd frame magic");
    assert_ne!(c, raw);
    assert!(c.len() < raw.len());
    assert_eq!(s.decompress_block_payload(&c).unwrap(), raw);
}

#[test]
fn block_payload_round_trips_with_the_same_hash() {
    let s = store(false, None);
    let b = block_at(7, ZERO_HASH, 3000);
    let c = s.serialize_block(&b).unwrap();
    assert_eq!(&c[..4], &[0x28, 0xb5, 0x2f, 0xfd]);
    assert_eq!(s.decompress_block_payload(&c).unwrap(), b.to_bytes(), "payload is the bincode body");
    let back = s.deserialize_block(&c).unwrap();
    assert_eq!(back.hash(), b.hash());
    assert_eq!(back.header, b.header);
    assert_eq!(back.slash_proposal_payloads, b.slash_proposal_payloads);
}

#[test]
fn header_bytes_are_plain_bincode_and_round_trip() {
    let b = block_at(3, ZERO_HASH, 0);
    let h = BlockStore::serialize_header(&b.header).unwrap();
    assert_eq!(h, b.header.to_bytes());
    assert_ne!(&h[..4], &[0x28, 0xb5, 0x2f, 0xfd]);
    assert_eq!(BlockStore::deserialize_header(&h).unwrap(), b.header);
    assert!(matches!(BlockStore::deserialize_header(&[1, 2, 3]), Err(BlockStoreError::Serialization(_))));
}

#[test]
fn garbage_payload_is_a_serialization_error() {
    let s = store(false, None);
    match s.deserialize_block(b"not a frame") {
        Err(BlockStoreError::Serialization(m)) => assert!(m.starts_with("deserialize_block: decompress failed: ")),
        other => panic!("unexpected {other:?}"),
    }
    let not_a_block = s.compress_payload(&[1, 2, 3]).unwrap();
    assert!(matches!(s.deserialize_block(&not_a_block), Err(BlockStoreError::Serialization(_))));
}

#[test]
fn dictionary_payload_round_trips_and_plain_payload_still_reads() {
    let dict: Vec<u8> = (0..2048u32).map(|i| (i * 31 % 251) as u8).collect();
    let plain = store(false, None);
    let with_dict = store(false, Some(dict.clone()));
    let raw = body(1000);
    let c = with_dict.compress_payload(&raw).unwrap();
    assert_eq!(with_dict.decompress_block_payload(&c).unwrap(), raw);
    let old = plain.compress_payload(&raw).unwrap();
    assert_eq!(with_dict.decompress_block_payload(&old).unwrap(), raw, "pre-dictionary payloads fall back");
    let b = block_at(9, ZERO_HASH, 500);
    let cb = with_dict.serialize_block(&b).unwrap();
    assert_eq!(with_dict.deserialize_block(&cb).unwrap().hash(), b.hash());
    let old_b = plain.serialize_block(&b).unwrap();
    assert_eq!(with_dict.deserialize_block(&old_b).unwrap().hash(), b.hash());
}

#[test]
fn put_plans() {
    let s = store(false, None);
    let b = block_at(5, ZERO_HASH, 64);
    let hash = b.hash().to_bytes();
    assert!(s.plan_put(true, &b, true).unwrap().is_none());
    let batch = s.plan_put(false, &b, true).unwrap().unwrap();
    assert_eq!(batch.len(), 3);
    assert_eq!(batch[0].cf, ColumnFamilyId::Blocks);
    assert_eq!(batch[0].key, hash.to_vec());
    assert_eq!(s.deserialize_block(&batch[0].value).unwrap().hash(), b.hash());
    assert_eq!(batch[1].cf, ColumnFamilyId::Headers);
    assert_eq!(batch[1].value, b.header.to_bytes());
    assert_eq!(batch[2].cf, ColumnFamilyId::Canonical);
    assert_eq!(batch[2].key, height_key(5).to_vec());
    assert_eq!(batch[2].value, hash.to_vec());
    let side = s.plan_put(false, &b, false).unwrap().unwrap();
    assert_eq!(side.len(), 2);
    match store(true, None).plan_put(false, &b, true) {
        Err(BlockStoreError::Serialization(m)) => assert_eq!(m, ERR_MUTATION_READ_ONLY),
        _ => panic!("read-only store must refuse"),
    }
}

#[test]
fn genesis_plans() {
    let mut s = store(false, None);
    let g = block_at(0, ZERO_HASH, 32);
    let hash = Bytes32::new(g.hash().to_bytes());
    match s.plan_init_genesis(true, false, &g) {
        Err(BlockStoreError::Serialization(m)) => assert_eq!(m, ERR_INIT_GENESIS_ALREADY_INITIALIZED),
        _ => panic!("initialized store must refuse"),
    }
    match s.plan_init_genesis(false, true, &g) {
        Err(BlockStoreError::Serialization(m)) => assert_eq!(m, ERR_INIT_GENESIS_ALREADY_INITIALIZED),
        _ => panic!("a stored genesis hash must refuse"),
    }
    match s.plan_init_genesis(false, false, &block_at(4, ZERO_HASH, 0)) {
        Err(BlockStoreError::Serialization(m)) => assert_eq!(m, "init_genesis: genesis block height must be 0, got 4"),
        _ => panic!("non-zero genesis height must be refused"),
    }
    match store(true, None).plan_init_genesis(false, false, &g) {
        Err(BlockStoreError::Serialization(m)) => assert_eq!(m, ERR_INIT_GENESIS_READ_ONLY),
        _ => panic!("read-only store must refuse"),
    }
    let batch = s.plan_init_genesis(false, false, &g).unwrap();
    assert_eq!(batch.len(), 5);
    assert_eq!(batch[0].key, hash.bytes.to_vec());
    assert_eq!(batch[1].value, g.header.to_bytes());
    assert_eq!(batch[2].key, height_key(0).to_vec());
    assert_eq!(batch[3].key, b"tip".to_vec());
    let tip = ChainTip::from_bytes(&batch[3].value).unwrap();
    assert_eq!(tip, ChainTip { hash, height: 0 });
    assert_eq!(batch[4].key, b"genesis_hash".to_vec());
    assert_eq!(batch[4].value, hash.bytes.to_vec());
    assert!(s.tip().is_none());
    s.commit_tip(tip);
    assert_eq!(s.tip(), Some(tip));
    assert_eq!(s.height(), Some(0));
}

#[test]
fn tip_loading_and_warm_range() {
    assert_eq!(load_tip(None).unwrap(), None);
    let t = ChainTip { hash: Bytes32::new([1; 32]), height: 77 };
    assert_eq!(load_tip(Some(&t.to_bytes())).unwrap(), Some(t));
    assert!(matches!(load_tip(Some(&[0u8; 3])), Err(BlockStoreError::InvalidData(_))));
    assert_eq!(warm_start_height(100, 64), Some(37));
    assert_eq!(warm_start_height(10, 64), Some(0));
    assert_eq!(warm_start_height(10, 0), None);
    assert_eq!(warm_start_height(10, 1), Some(10));
    assert_eq!(warm_start_height(0, 0), None);
}

#[test]
fn dictionary_resolution() {
    assert_eq!(dict_from_stored(false, Some(vec![1])), None);
    assert_eq!(dict_from_stored(true, Some(vec![])), None);
    assert_eq!(dict_from_stored(true, Some(vec![1])), Some(vec![1]));
    assert_eq!(resolve_zstd_dictionary(false, Some(vec![2]), Some(vec![1])), Some(vec![2]));
    assert_eq!(resolve_zstd_dictionary(true, Some(vec![]), Some(vec![1])), None);
    assert_eq!(resolve_zstd_dictionary(true, None, Some(vec![1])), Some(vec![1]));
    let mut s = store(false, None);
    assert!(!s.dictionary_missing());
    let mut d = store(false, Some(vec![1, 2, 3]));
    assert!(!d.dictionary_missing());
    d.init_dictionary(None);
    assert!(d.dictionary_missing());
    d.install_dictionary(vec![4, 5]);
    assert!(!d.dictionary_missing());
    s.init_dictionary(Some(vec![1]));
    assert!(!s.dictionary_missing());
    assert!(BlockStore::training_due(1000));
    assert!(!BlockStore::training_due(999));
}

#[test]
fn training_samples() {
    let s = store(false, None);
    match s.sample_block_bodies(vec![vec![1]], 2) {
        Err(BlockStoreError::Serialization(m)) => {
            assert_eq!(m, "dictionary training: need at least 2 blocks in blocks, have 1")
        }
        _ => panic!("too few payloads must be refused"),
    }
    let payloads: Vec<Vec<u8>> = (0..5u8).map(|i| s.compress_payload(&vec![i; 100]).unwrap()).collect();
    let samples = s.sample_block_bodies(payloads, 3).unwrap();
    assert_eq!(samples.len(), 3);
    for smp in samples {
        assert_eq!(smp.len(), 100);
        assert!(smp.iter().all(|&b| b == smp[0]));
    }
}

#[test]
fn dictionary_training() {
    let samples: Vec<Vec<u8>> = (0..200u32)
        .map(|i| format!("{{\"height\":{i},\"parent\":\"{:064x}\",\"fees\":{}}}", i * 7919, i % 13).into_bytes())
        .collect();
    match BlockStore::train_dictionary(&samples) {
        Ok(d) => {
            assert!(!d.is_empty());
            assert!(d.len() <= dig_blockstore::constants::DICT_TARGET_SIZE);
        }
        Err(BlockStoreError::Serialization(m)) => assert!(m.starts_with("dictionary training failed: ")),
        Err(e) => panic!("unexpected {e:?}"),
    }
    match BlockStore::train_dictionary(&Vec::new()) {
        Err(BlockStoreError::Serialization(m)) => assert!(m.starts_with("dictionary training failed: ")),
        other => panic!("training on nothing must fail, got {other:?}"),
    }
}

#[test]
fn training_steps() {
    let mut off = store(false, None);
    assert_eq!(off.training_step(TrainingEvent::Start), TrainingAction::Finish);
    let cfg = BlockStoreConfig { use_compression_dict: true, ..BlockStoreConfig::default() };
    let mut s = BlockStore::from_config(&cfg, false, None, 0, None);
    assert_eq!(s.training_step(TrainingEvent::Start), TrainingAction::ReadStoredDictionary);
    assert_eq!(s.training_step(TrainingEvent::StoredDictionary(Some(vec![]))), TrainingAction::CountBlocks);
    assert_eq!(s.training_step(TrainingEvent::StoredDictionary(None)), TrainingAction::CountBlocks);
    assert_eq!(s.training_step(TrainingEvent::BlockCount(999)), TrainingAction::Finish);
    assert_eq!(s.training_step(TrainingEvent::BlockCount(1000)), TrainingAction::TrainAndPersist);
    assert!(s.dictionary_missing());
    assert_eq!(s.training_step(TrainingEvent::Trained(vec![1, 2, 3])), TrainingAction::Finish);
    assert_eq!(s.zstd_dict, Some(vec![1, 2, 3]));
    assert_eq!(s.training_step(TrainingEvent::Start), TrainingAction::Finish);
    let mut t = BlockStore::from_config(&cfg, false, None, 0, None);
    assert_eq!(t.training_step(TrainingEvent::StoredDictionary(Some(vec![7]))), TrainingAction::Finish);
    assert_eq!(t.zstd_dict, Some(vec![7]));
}

#[test]
fn block_identity_and_height() {
    let b = block_at(21, ChiaBytes32::new([4; 32]), 10);
    assert_eq!(dig_blockstore::block::block_hash(&b).to_bytes(), b.hash().to_bytes());
    assert_eq!(dig_blockstore::block::block_height(&b), 21);
    let rec = dig_blockstore::BlockRecord::from_header(&b.header, dig_blockstore::BlockStatus::Pending);
    assert_eq!(rec.parent_hash, Bytes32::new([4; 32]));
    assert_eq!(rec.l1_height, 21);
}

#[test]
fn decode_samples_takes_the_prefix() {
    let s = store(false, None);
    let good: Vec<Vec<u8>> = (0..3u8).map(|i| s.compress_payload(&vec![i; 20]).unwrap()).collect();
    let samples = s.decode_samples(good.clone(), 2).unwrap();
    assert_eq!(samples, vec![vec![0u8; 20], vec![1u8; 20]]);
    assert_eq!(s.decode_samples(good.clone(), 9).unwrap().len(), 3);
    let mut bad = good.clone();
    bad.push(b"junk".to_vec());
    assert_eq!(s.decode_samples(bad.clone(), 3).unwrap().len(), 3, "junk beyond the prefix is not read");
    match s.decode_samples(bad.clone(), 4) {
        Err(BlockStoreError::Serialization(m)) => assert!(m.starts_with("dictionary training sample decompress: ")),
        other => panic!("unexpected {other:?}"),
    }
    assert!(s.sample_block_bodies(good, 3).is_ok());
    assert!(matches!(s.sample_block_bodies(vec![b"junk".to_vec()], 1), Err(BlockStoreError::Serialization(_))));
}

#[test]
fn plain_payload_reads_back_under_a_trained_dictionary() {
    let chain: Vec<L2Block> = (0..300u64).map(|h| block_at(h, ZERO_HASH, 200 + (h as usize % 50))).collect();
    let samples: Vec<Vec<u8>> = chain.iter().map(|b| b.to_bytes()).collect();
    let dict = BlockStore::train_dictionary(&samples).expect("training on block bodies");
    let plain = store(false, None);
    let trained = store(false, Some(dict));
    let b = block_at(8, ZERO_HASH, 700);
    let before = plain.serialize_block(&b).unwrap();
    let got = trained.deserialize_block(&before).unwrap();
    assert_eq!(got.hash(), b.hash());
    assert_eq!(got.header, b.header);
    let after = trained.serialize_block(&b).unwrap();
    assert_ne!(after, before, "new payloads use the dictionary");
    assert_eq!(trained.deserialize_block(&after).unwrap().hash(), b.hash());
}
