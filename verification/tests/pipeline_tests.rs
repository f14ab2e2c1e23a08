use dig_block::constants::{EMPTY_ROOT, ZERO_HASH};
use dig_block::{L2Block, L2BlockHeader, Signature};
use dig_blockstore::pipeline::{
    planned_reply, should_flush, staged_replies, FlushOutcome, JobAck, PipelineEvent, PipelineJob,
};
use dig_blockstore::store::{BlockStore, ColumnFamilyId};
use dig_blockstore::{height_key, BlockStoreConfig, BlockStoreError};

fn store(read_only: bool) -> BlockStore {
    let cfg = BlockStoreConfig { use_compression_dict: false, ..BlockStoreConfig::default() };
    BlockStore::from_config(&cfg, read_only, None, 0, None)
}

fn block(height: u64) -> L2Block {
    let header = L2BlockHeader::new(
        height, 0, ZERO_HASH, EMPTY_ROOT, EMPTY_ROOT, EMPTY_ROOT, EMPTY_ROOT, EMPTY_ROOT,
        height as u32, ZERO_HASH, 0, 0, 0, 0, 0, 0, 0, ZERO_HASH,
    );
    L2Block::new(header, vec![], vec![vec![height as u8; 50]], Signature::default())
}

fn job(height: u64, exists: bool, canonical: bool) -> PipelineJob {
    PipelineJob { block: block(height), canonical, exists: Ok(exists) }
}

#[test]
fn batch_acks_and_writes() {
    let s = store(false);
    let mut lookup_failed = job(4, false, true);
    lookup_failed.exists = Err(BlockStoreError::RocksDb("io".into()));
    let jobs = vec![job(1, false, true), job(1, false, true), job(2, true, true), lookup_failed, job(7, false, false)];
    let plan = s.plan_pipeline_batch(&jobs).unwrap();
    let kinds: Vec<&str> = plan
        .acks
        .iter()
        .map(|a| match a {
            JobAck::Staged => "staged",
            JobAck::DuplicateInBatch => "dup",
            JobAck::AlreadyStored => "stored",
            JobAck::LookupFailed => "lookup",
            JobAck::CompressFailed(_) => "compress",
        })
        .collect();
    assert_eq!(kinds, vec!["staged", "dup", "stored", "lookup", "staged"]);
    assert_eq!(plan.staged, vec![0, 4]);
    assert_eq!(plan.batch.len(), 5);
    let h1 = jobs[0].block.hash().to_bytes().to_vec();
    let h7 = jobs[4].block.hash().to_bytes().to_vec();
    assert_eq!(plan.batch[0].cf, ColumnFamilyId::Blocks);
    assert_eq!(plan.batch[0].key, h1);
    assert_eq!(s.deserialize_block(&plan.batch[0].value).unwrap().hash(), jobs[0].block.hash());
    assert_eq!(plan.batch[1].value, jobs[0].block.header.to_bytes());
    assert_eq!(plan.batch[2].cf, ColumnFamilyId::Canonical);
    assert_eq!(plan.batch[2].key, height_key(1).to_vec());
    assert_eq!(plan.batch[2].value, h1);
    assert_eq!(plan.batch[3].key, h7);
    assert_eq!(plan.batch[4].cf, ColumnFamilyId::Headers);
}

#[test]
fn read_only_batch_writes_nothing() {
    assert!(store(true).plan_pipeline_batch(&vec![job(1, false, true)]).is_none());
}

#[test]
fn flush_rule() {
    assert!(!should_flush(&PipelineEvent::JobArrived, 3, 4));
    assert!(should_flush(&PipelineEvent::JobArrived, 4, 4));
    assert!(!should_flush(&PipelineEvent::TimerFired, 0, 4));
    assert!(should_flush(&PipelineEvent::TimerFired, 1, 4));
    assert!(should_flush(&PipelineEvent::QueueClosed, 0, 4));
}

#[test]
fn all_duplicate_batch_writes_nothing() {
    let s = store(false);
    let jobs = vec![job(3, true, true), job(3, false, true), job(9, true, false)];
    let plan = s.plan_pipeline_batch(&jobs).unwrap();
    assert!(plan.batch.is_empty());
    assert!(plan.staged.is_empty());
    assert!(plan.acks.iter().all(|a| matches!(a, JobAck::AlreadyStored | JobAck::DuplicateInBatch)));
}

#[test]
fn single_new_block_batch_matches_put() {
    let s = store(false);
    let j = job(11, false, true);
    let expected = s.plan_put(false, &j.block, true).unwrap().unwrap();
    let plan = s.plan_pipeline_batch(&vec![j]).unwrap();
    assert_eq!(plan.batch.len(), expected.len());
    for (a, b) in plan.batch.iter().zip(expected.iter()) {
        assert_eq!((a.cf, &a.key, &a.value), (b.cf, &b.key, &b.value));
    }
}

#[test]
fn batch_writes_what_sequential_puts_write() {
    let s = store(false);
    let jobs = vec![job(1, false, true), job(2, false, false), job(1, false, true), job(3, false, true)];
    let plan = s.plan_pipeline_batch(&jobs).unwrap();
    let mut seen: Vec<Vec<u8>> = Vec::new();
    let mut expected = Vec::new();
    for j in &jobs {
        let h = j.block.hash().to_bytes().to_vec();
        let exists = seen.contains(&h);
        if let Some(rows) = s.plan_put(exists, &j.block, j.canonical).unwrap() {
            expected.extend(rows);
            seen.push(h);
        }
    }
    assert_eq!(plan.batch.len(), expected.len());
    for (a, b) in plan.batch.iter().zip(expected.iter()) {
        assert_eq!((a.cf, &a.key, &a.value), (b.cf, &b.key, &b.value));
    }
    assert_eq!(plan.staged, vec![0, 1, 3]);
}

#[test]
fn planned_replies_per_ack() {
    assert_eq!(planned_reply(JobAck::DuplicateInBatch, Ok(false)), Some(Ok(false)));
    assert_eq!(planned_reply(JobAck::AlreadyStored, Ok(true)), Some(Ok(false)));
    let io = BlockStoreError::RocksDb("io".into());
    assert_eq!(planned_reply(JobAck::LookupFailed, Err(io.clone())), Some(Err(io)));
    let c = BlockStoreError::Compression("bad".into());
    assert_eq!(planned_reply(JobAck::CompressFailed(c.clone()), Ok(false)), Some(Err(c)));
    assert_eq!(planned_reply(JobAck::Staged, Ok(false)), None);
}

#[test]
fn staged_replies_after_flush() {
    let w = staged_replies(2, FlushOutcome::WriteFailed("disk full".into()));
    assert_eq!(
        w,
        vec![
            Err(BlockStoreError::Serialization("write pipeline: rocksdb write failed: disk full".into())),
            Err(BlockStoreError::Serialization("write pipeline: rocksdb write failed: disk full".into())),
        ]
    );
    let i = staged_replies(1, FlushOutcome::IndexFailed("mmap".into()));
    assert_eq!(
        i,
        vec![Err(BlockStoreError::Serialization("write pipeline: canonical.bin mmap update failed: mmap".into()))]
    );
    let t = BlockStoreError::Serialization("dictionary training failed: x".into());
    let c = staged_replies(7, FlushOutcome::Committed(vec![Ok(()), Err(t.clone()), Ok(())]));
    assert_eq!(c, vec![Ok(true), Err(t), Ok(true)]);
    assert!(staged_replies(0, FlushOutcome::Committed(vec![])).is_empty());
}
