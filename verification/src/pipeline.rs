//! Batched ingestion: how a batch of queued blocks becomes one write batch and one
//! acknowledgement per block, and when the queue is flushed.
use vstd::prelude::*;

use crate::block::{
    block_bincode, block_hash_of, block_header, block_height_of, header_bincode, header_of,
    summarize_header,
};
use crate::bytes32::Bytes32;
use crate::error::BlockStoreError;
use crate::text::concat;
use crate::store::{
    apply_puts, block_puts, put_block_rows, puts_view, BatchPut, BlockStore, ColumnFamilyId,
    StoreContents,
};

verus! {

/// One queued block, as the write worker sees it before deciding: the block, its
/// canonical flag, and whether the store already holds its hash (or the lookup failed).
pub struct PipelineJob {
    pub block: dig_block::L2Block,
    pub canonical: bool,
    pub exists: Result<bool, BlockStoreError>,
}

/// How one queued block is answered.
pub enum JobAck {
    /// An earlier block in the same batch has the same hash: acknowledged "not new".
    DuplicateInBatch,
    /// The store already holds this hash: acknowledged "not new".
    AlreadyStored,
    /// The existence lookup failed: acknowledged with that lookup's error.
    LookupFailed,
    /// The block could not be compressed: acknowledged with this error.
    CompressFailed(BlockStoreError),
    /// Part of the write batch: acknowledged once the batch is committed.
    Staged,
}

/// The decisions for one batch: an answer per job, the staged jobs in order, and the
/// writes that store them.
pub struct PipelinePlan {
    pub acks: Vec<JobAck>,
    pub staged: Vec<usize>,
    pub batch: Vec<BatchPut>,
}

/// Whether job `i` repeats the hash of an earlier job in the batch.
pub open spec fn repeats_earlier(hashes: Seq<Seq<u8>>, i: int) -> bool {
    exists|j: int| 0 <= j < i && hashes[j] == hashes[i]
}

pub open spec fn job_hashes(jobs: Seq<PipelineJob>) -> Seq<Seq<u8>> {
    Seq::new(jobs.len(), |i: int| block_hash_of(jobs[i].block))
}

/// The answers of `JobAck` without the error they may carry.
pub enum AckClass {
    DuplicateInBatch,
    AlreadyStored,
    LookupFailed,
    CompressFailed,
    Staged,
}

/// The answer the batch rule gives job `i`: duplicates first, then the lookup, then
/// presence, then compression, in that order.
pub open spec fn ack_class_of(store: BlockStore, jobs: Seq<PipelineJob>, i: int) -> AckClass {
    let job = jobs[i];
    if repeats_earlier(job_hashes(jobs), i) {
        AckClass::DuplicateInBatch
    } else if job.exists is Err {
        AckClass::LookupFailed
    } else if job.exists == Ok::<bool, BlockStoreError>(true) {
        AckClass::AlreadyStored
    } else if store.compress_outcome(block_bincode(job.block)) is None {
        AckClass::CompressFailed
    } else {
        AckClass::Staged
    }
}

pub open spec fn ack_class(a: JobAck) -> AckClass {
    match a {
        JobAck::DuplicateInBatch => AckClass::DuplicateInBatch,
        JobAck::AlreadyStored => AckClass::AlreadyStored,
        JobAck::LookupFailed => AckClass::LookupFailed,
        JobAck::CompressFailed(_) => AckClass::CompressFailed,
        JobAck::Staged => AckClass::Staged,
    }
}

/// Writes for the staged jobs among the first `n`, in job order.
pub open spec fn staged_puts(store: BlockStore, jobs: Seq<PipelineJob>, n: int) -> Seq<
    (ColumnFamilyId, Seq<u8>, Seq<u8>),
>
    decreases n,
{
    if n <= 0 {
        Seq::empty()
    } else if ack_class_of(store, jobs, n - 1) is Staged {
        let job = jobs[n - 1];
        staged_puts(store, jobs, n - 1) + block_puts(
            block_hash_of(job.block),
            block_height_of(job.block),
            store.compress_outcome(block_bincode(job.block))->Some_0,
            header_bincode(header_of(job.block)),
            job.canonical,
        )
    } else {
        staged_puts(store, jobs, n - 1)
    }
}

/// Indices of the staged jobs among the first `n`, in order.
pub open spec fn staged_indices(store: BlockStore, jobs: Seq<PipelineJob>, n: int) -> Seq<usize>
    decreases n,
{
    if n <= 0 {
        Seq::empty()
    } else if ack_class_of(store, jobs, n - 1) is Staged {
        staged_indices(store, jobs, n - 1).push((n - 1) as usize)
    } else {
        staged_indices(store, jobs, n - 1)
    }
}

fn seen_before(seen: &Vec<Bytes32>, hash: &Bytes32) -> (r: bool)
    ensures
        r == exists|j: int| 0 <= j < seen@.len() && seen@[j]@ == hash@,
{
    let mut i: usize = 0;
    while i < seen.len()
        invariant
            0 <= i <= seen@.len(),
            forall|j: int| 0 <= j < i ==> seen@[j]@ != hash@,
        decreases seen@.len() - i,
    {
        if seen[i].same_as(hash) {
            return true;
        }
        i = i + 1;
    }
    false
}

impl BlockStore {
    /// Decide a batch of queued blocks. On a read-only store every job is answered with
    /// the read-only error and nothing is written (`None`). Otherwise each job gets the
    /// answer `ack_class_of` describes, the staged jobs are listed in order, and the batch
    /// holds, in the same order, the writes `put` would make for each staged block.
    pub fn plan_pipeline_batch(&self, jobs: &Vec<PipelineJob>) -> (r: Option<PipelinePlan>)
        ensures
            self.spec_read_only() <==> r is None,
            r matches Some(plan) ==> {
                &&& plan.acks@.len() == jobs@.len()
                &&& forall|i: int|
                    0 <= i < jobs@.len() ==> ack_class(#[trigger] plan.acks@[i]) == ack_class_of(
                        *self,
                        jobs@,
                        i,
                    )
                &&& forall|i: int|
                    0 <= i < jobs@.len() ==> (#[trigger] plan.acks@[i] matches JobAck::CompressFailed(
                        e,
                    ) ==> e is Compression)
                &&& plan.staged@ == staged_indices(*self, jobs@, jobs@.len() as int)
                &&& puts_view(plan.batch@) == staged_puts(*self, jobs@, jobs@.len() as int)
            },
    {
        if self.read_only {
            return None;
        }
        let mut seen: Vec<Bytes32> = Vec::new();
        let mut acks: Vec<JobAck> = Vec::new();
        let mut staged: Vec<usize> = Vec::new();
        let mut batch: Vec<BatchPut> = Vec::new();
        let mut i: usize = 0;
        while i < jobs.len()
            invariant
                0 <= i <= jobs@.len(),
                !self.spec_read_only(),
                seen@.len() == i,
                forall|j: int| 0 <= j < i ==> (#[trigger] seen@[j])@ == block_hash_of(jobs@[j].block),
                acks@.len() == i,
                forall|j: int| 0 <= j < i ==> ack_class(#[trigger] acks@[j]) == ack_class_of(*self, jobs@, j),
                forall|j: int|
                    0 <= j < i ==> (#[trigger] acks@[j] matches JobAck::CompressFailed(e) ==> e is Compression),
                staged@ == staged_indices(*self, jobs@, i as int),
                puts_view(batch@) == staged_puts(*self, jobs@, i as int),
            decreases jobs@.len() - i,
        {
            let job = &jobs[i];
            let header = block_header(&job.block);
            let summary = summarize_header(header);
            let hash = summary.hash;
            let dup = seen_before(&seen, &hash);
            proof {
                let hs = job_hashes(jobs@);
                if dup {
                    let j = choose|j: int| 0 <= j < seen@.len() && seen@[j]@ == hash@;
                    assert(hs[j] == hs[i as int]);
                    assert(repeats_earlier(hs, i as int));
                } else {
                    assert forall|j: int| 0 <= j < i implies hs[j] != hs[i as int] by {
                        assert(seen@[j]@ == block_hash_of(jobs@[j].block));
                    }
                }
            }
            seen.push(hash);
            let ack = if dup {
                JobAck::DuplicateInBatch
            } else {
                match &job.exists {
                    Err(_) => JobAck::LookupFailed,
                    Ok(true) => JobAck::AlreadyStored,
                    Ok(false) => match self.serialize_block(&job.block) {
                        Err(e) => JobAck::CompressFailed(e),
                        Ok(compressed) => {
                            let header_bytes = Self::serialize_header(header).unwrap();
                            put_block_rows(
                                &mut batch,
                                &hash,
                                summary.height,
                                compressed.as_slice(),
                                header_bytes.as_slice(),
                                job.canonical,
                            );
                            staged.push(i);
                            JobAck::Staged
                        },
                    },
                }
            };
            acks.push(ack);
            proof {
                assert(seen@[i as int]@ == block_hash_of(jobs@[i as int].block));
            }
            i = i + 1;
        }
        Some(PipelinePlan { acks, staged, batch })
    }
}

/// A batch in which no job is staged (every block repeats an earlier one, is already
/// stored, or failed) writes nothing.
pub proof fn lemma_unstaged_batch_writes_nothing(store: BlockStore, jobs: Seq<PipelineJob>, n: int)
    requires
        0 <= n <= jobs.len(),
        forall|i: int| 0 <= i < n ==> !(ack_class_of(store, jobs, i) is Staged),
    ensures
        staged_puts(store, jobs, n) == Seq::<(ColumnFamilyId, Seq<u8>, Seq<u8>)>::empty(),
        staged_indices(store, jobs, n) == Seq::<usize>::empty(),
    decreases n,
{
    if n > 0 {
        lemma_unstaged_batch_writes_nothing(store, jobs, n - 1);
    }
}

/// A block that repeats an earlier block of its batch is never staged, whatever the
/// store holds: within one batch each hash is written at most once.
pub proof fn lemma_repeat_in_batch_not_staged(store: BlockStore, jobs: Seq<PipelineJob>, i: int, j: int)
    requires
        0 <= j < i < jobs.len(),
        block_hash_of(jobs[i].block) == block_hash_of(jobs[j].block),
    ensures
        ack_class_of(store, jobs, i) is DuplicateInBatch,
{
    let hs = job_hashes(jobs);
    assert(hs[j] == hs[i]);
}

/// A batch of one new block writes exactly what `plan_put` writes for it.
pub proof fn lemma_single_job_batch_matches_put(store: BlockStore, job: PipelineJob)
    requires
        job.exists == Ok::<bool, BlockStoreError>(false),
        store.compress_outcome(block_bincode(job.block)) is Some,
    ensures
        ack_class_of(store, seq![job], 0) is Staged,
        staged_puts(store, seq![job], 1) == block_puts(
            block_hash_of(job.block),
            block_height_of(job.block),
            store.compress_outcome(block_bincode(job.block))->Some_0,
            header_bincode(header_of(job.block)),
            job.canonical,
        ),
{
    let jobs = seq![job];
    assert(!repeats_earlier(job_hashes(jobs), 0));
    assert(staged_puts(store, jobs, 0) == Seq::<(ColumnFamilyId, Seq<u8>, Seq<u8>)>::empty());
    assert(Seq::<(ColumnFamilyId, Seq<u8>, Seq<u8>)>::empty() + block_puts(
        block_hash_of(job.block),
        block_height_of(job.block),
        store.compress_outcome(block_bincode(job.block))->Some_0,
        header_bincode(header_of(job.block)),
        job.canonical,
    ) =~= block_puts(
        block_hash_of(job.block),
        block_height_of(job.block),
        store.compress_outcome(block_bincode(job.block))->Some_0,
        header_bincode(header_of(job.block)),
        job.canonical,
    ));
}

/// Contents after applying `(column family, key, value)` writes in order.
pub open spec fn apply_writes(db: StoreContents, w: Seq<(ColumnFamilyId, Seq<u8>, Seq<u8>)>) -> StoreContents
    decreases w.len(),
{
    if w.len() == 0 {
        db
    } else {
        apply_writes(db, w.drop_last()).insert((w.last().0, w.last().1), w.last().2)
    }
}

/// The writes made by putting the first `n` jobs one after another, each put finding
/// its block already stored or not in the contents the earlier puts left behind.
pub open spec fn sequential_puts(store: BlockStore, db: StoreContents, jobs: Seq<PipelineJob>, n: int) -> Seq<
    (ColumnFamilyId, Seq<u8>, Seq<u8>),
>
    decreases n,
{
    if n <= 0 {
        Seq::empty()
    } else {
        let w = sequential_puts(store, db, jobs, n - 1);
        let job = jobs[n - 1];
        if apply_writes(db, w).contains_key((ColumnFamilyId::Blocks, block_hash_of(job.block))) {
            w
        } else {
            w + block_puts(
                block_hash_of(job.block),
                block_height_of(job.block),
                store.compress_outcome(block_bincode(job.block))->Some_0,
                header_bincode(header_of(job.block)),
                job.canonical,
            )
        }
    }
}

/// Committing a batch is applying its writes in order.
pub proof fn lemma_apply_puts_is_apply_writes(db: StoreContents, puts: Seq<BatchPut>)
    ensures
        apply_puts(db, puts) == apply_writes(db, puts_view(puts)),
    decreases puts.len(),
{
    if puts.len() > 0 {
        lemma_apply_puts_is_apply_writes(db, puts.drop_last());
        assert(puts_view(puts).drop_last() =~= puts_view(puts.drop_last()));
    }
}

proof fn lemma_apply_writes_append(
    db: StoreContents,
    a: Seq<(ColumnFamilyId, Seq<u8>, Seq<u8>)>,
    b: Seq<(ColumnFamilyId, Seq<u8>, Seq<u8>)>,
)
    ensures
        apply_writes(db, a + b) == apply_writes(apply_writes(db, a), b),
    decreases b.len(),
{
    if b.len() == 0 {
        assert(a + b =~= a);
    } else {
        lemma_apply_writes_append(db, a, b.drop_last());
        assert((a + b).drop_last() =~= a + b.drop_last());
        assert((a + b).last() == b.last());
    }
}

proof fn lemma_block_puts_blocks_key(
    db: StoreContents,
    hash: Seq<u8>,
    height: u64,
    compressed: Seq<u8>,
    header: Seq<u8>,
    canonical: bool,
    k: Seq<u8>,
)
    ensures
        apply_writes(db, block_puts(hash, height, compressed, header, canonical)).contains_key(
            (ColumnFamilyId::Blocks, k),
        ) <==> db.contains_key((ColumnFamilyId::Blocks, k)) || k == hash,
{
    let w = block_puts(hash, height, compressed, header, canonical);
    let two = seq![(ColumnFamilyId::Blocks, hash, compressed), (ColumnFamilyId::Headers, hash, header)];
    let one = seq![(ColumnFamilyId::Blocks, hash, compressed)];
    assert(one.drop_last() =~= Seq::<(ColumnFamilyId, Seq<u8>, Seq<u8>)>::empty());
    assert(two.drop_last() =~= one);
    assert(apply_writes(db, one.drop_last()) == db);
    assert(one.last() == (ColumnFamilyId::Blocks, hash, compressed));
    assert(two.last() == (ColumnFamilyId::Headers, hash, header));
    assert(apply_writes(db, one) == db.insert((ColumnFamilyId::Blocks, hash), compressed));
    assert(apply_writes(db, two) == apply_writes(db, one).insert((ColumnFamilyId::Headers, hash), header));
    if canonical {
        assert(w.drop_last() =~= two);
        assert(apply_writes(db, w) == apply_writes(db, two).insert(
            (ColumnFamilyId::Canonical, crate::encoding::u64_key(height)),
            hash,
        ));
    } else {
        assert(w =~= two);
    }
}

/// Whether some job before `i` is staged with hash `h`.
pub open spec fn staged_before(store: BlockStore, jobs: Seq<PipelineJob>, i: int, h: Seq<u8>) -> bool {
    exists|j: int| 0 <= j < i && #[trigger] ack_class_of(store, jobs, j) is Staged && block_hash_of(jobs[j].block) == h
}

proof fn lemma_staged_blocks_keys(store: BlockStore, db: StoreContents, jobs: Seq<PipelineJob>, n: int, h: Seq<u8>)
    requires
        0 <= n <= jobs.len(),
    ensures
        apply_writes(db, staged_puts(store, jobs, n)).contains_key((ColumnFamilyId::Blocks, h))
            <==> db.contains_key((ColumnFamilyId::Blocks, h)) || staged_before(store, jobs, n, h),
    decreases n,
{
    if n > 0 {
        lemma_staged_blocks_keys(store, db, jobs, n - 1, h);
        let job = jobs[n - 1];
        if ack_class_of(store, jobs, n - 1) is Staged {
            let w = staged_puts(store, jobs, n - 1);
            let b = block_puts(
                block_hash_of(job.block),
                block_height_of(job.block),
                store.compress_outcome(block_bincode(job.block))->Some_0,
                header_bincode(header_of(job.block)),
                job.canonical,
            );
            lemma_apply_writes_append(db, w, b);
            lemma_block_puts_blocks_key(
                apply_writes(db, w),
                block_hash_of(job.block),
                block_height_of(job.block),
                store.compress_outcome(block_bincode(job.block))->Some_0,
                header_bincode(header_of(job.block)),
                job.canonical,
                h,
            );
            if staged_before(store, jobs, n, h) && !staged_before(store, jobs, n - 1, h) {
                let j = choose|j: int| 0 <= j < n && #[trigger] ack_class_of(store, jobs, j) is Staged
                    && block_hash_of(jobs[j].block) == h;
                assert(j == n - 1);
            }
            if staged_before(store, jobs, n - 1, h) {
                let j = choose|j: int| 0 <= j < n - 1 && #[trigger] ack_class_of(store, jobs, j) is Staged
                    && block_hash_of(jobs[j].block) == h;
                assert(staged_before(store, jobs, n, h));
            }
            if h == block_hash_of(job.block) {
                assert(ack_class_of(store, jobs, n - 1) is Staged);
                assert(staged_before(store, jobs, n, h));
            }
        } else {
            if staged_before(store, jobs, n, h) {
                let j = choose|j: int| 0 <= j < n && #[trigger] ack_class_of(store, jobs, j) is Staged
                    && block_hash_of(jobs[j].block) == h;
                assert(j < n - 1);
                assert(staged_before(store, jobs, n - 1, h));
            }
            if staged_before(store, jobs, n - 1, h) {
                let j = choose|j: int| 0 <= j < n - 1 && #[trigger] ack_class_of(store, jobs, j) is Staged
                    && block_hash_of(jobs[j].block) == h;
                assert(staged_before(store, jobs, n, h));
            }
        }
    }
}

/// Lookups made against `db` before the batch, and blocks that all compress.
pub open spec fn batch_lookups_from(store: BlockStore, db: StoreContents, jobs: Seq<PipelineJob>) -> bool {
    forall|i: int|
        0 <= i < jobs.len() ==> (#[trigger] jobs[i]).exists == Ok::<bool, BlockStoreError>(
            db.contains_key((ColumnFamilyId::Blocks, block_hash_of(jobs[i].block))),
        ) && store.compress_outcome(block_bincode(jobs[i].block)) is Some
}

proof fn lemma_earlier_copy_staged(store: BlockStore, db: StoreContents, jobs: Seq<PipelineJob>, i: int, j: int)
    requires
        batch_lookups_from(store, db, jobs),
        0 <= j < i < jobs.len(),
        block_hash_of(jobs[j].block) == block_hash_of(jobs[i].block),
        !db.contains_key((ColumnFamilyId::Blocks, block_hash_of(jobs[i].block))),
    ensures
        staged_before(store, jobs, i, block_hash_of(jobs[i].block)),
    decreases j,
{
    let hs = job_hashes(jobs);
    let _ = jobs[j];
    if repeats_earlier(hs, j) {
        let j2 = choose|j2: int| 0 <= j2 < j && hs[j2] == hs[j];
        lemma_earlier_copy_staged(store, db, jobs, i, j2);
    } else {
        assert(ack_class_of(store, jobs, j) is Staged);
    }
}

/// A batch whose lookups were made against `db` (and whose blocks all compress) writes
/// exactly what putting its blocks one after another, in order, would write; and a job
/// is staged exactly when its put would find the block not yet stored.
pub proof fn lemma_batch_equals_sequential_puts(store: BlockStore, db: StoreContents, jobs: Seq<PipelineJob>)
    requires
        batch_lookups_from(store, db, jobs),
    ensures
        staged_puts(store, jobs, jobs.len() as int) == sequential_puts(store, db, jobs, jobs.len() as int),
        forall|i: int|
            0 <= i < jobs.len() ==> ((#[trigger] ack_class_of(store, jobs, i) is Staged) <==> !apply_writes(
                db,
                sequential_puts(store, db, jobs, i),
            ).contains_key((ColumnFamilyId::Blocks, block_hash_of(jobs[i].block)))),
{
    lemma_batch_prefix(store, db, jobs, jobs.len() as int);
}

proof fn lemma_batch_prefix(store: BlockStore, db: StoreContents, jobs: Seq<PipelineJob>, n: int)
    requires
        batch_lookups_from(store, db, jobs),
        0 <= n <= jobs.len(),
    ensures
        staged_puts(store, jobs, n) == sequential_puts(store, db, jobs, n),
        forall|i: int|
            0 <= i < n ==> ((#[trigger] ack_class_of(store, jobs, i) is Staged) <==> !apply_writes(
                db,
                sequential_puts(store, db, jobs, i),
            ).contains_key((ColumnFamilyId::Blocks, block_hash_of(jobs[i].block)))),
    decreases n,
{
    if n > 0 {
        lemma_batch_prefix(store, db, jobs, n - 1);
        let i = n - 1;
        let job = jobs[i];
        let h = block_hash_of(job.block);
        lemma_staged_blocks_keys(store, db, jobs, i, h);
        let hs = job_hashes(jobs);
        if repeats_earlier(hs, i) && !db.contains_key((ColumnFamilyId::Blocks, h)) {
            let j = choose|j: int| 0 <= j < i && hs[j] == hs[i];
            lemma_earlier_copy_staged(store, db, jobs, i, j);
        }
        if staged_before(store, jobs, i, h) {
            let j = choose|j: int| 0 <= j < i && #[trigger] ack_class_of(store, jobs, j) is Staged
                && block_hash_of(jobs[j].block) == h;
            assert(hs[j] == hs[i]);
            assert(repeats_earlier(hs, i));
        }
        assert((ack_class_of(store, jobs, i) is Staged) <==> !apply_writes(
            db,
            sequential_puts(store, db, jobs, i),
        ).contains_key((ColumnFamilyId::Blocks, h)));
    }
}

/// Putting a block a second time writes nothing: the first put leaves it stored, so the
/// second finds it.
pub proof fn lemma_put_twice_same_as_once(store: BlockStore, db: StoreContents, job: PipelineJob)
    ensures
        sequential_puts(store, db, seq![job, job], 2) == sequential_puts(store, db, seq![job], 1),
{
    let two = seq![job, job];
    let one = seq![job];
    let h = block_hash_of(job.block);
    assert(sequential_puts(store, db, two, 0) == sequential_puts(store, db, one, 0));
    let w = sequential_puts(store, db, two, 1);
    assert(w == sequential_puts(store, db, one, 1));
    if !db.contains_key((ColumnFamilyId::Blocks, h)) {
        let b = block_puts(
            h,
            block_height_of(job.block),
            store.compress_outcome(block_bincode(job.block))->Some_0,
            header_bincode(header_of(job.block)),
            job.canonical,
        );
        assert(w =~= Seq::<(ColumnFamilyId, Seq<u8>, Seq<u8>)>::empty() + b);
        lemma_apply_writes_append(db, Seq::empty(), b);
        lemma_block_puts_blocks_key(
            db,
            h,
            block_height_of(job.block),
            store.compress_outcome(block_bincode(job.block))->Some_0,
            header_bincode(header_of(job.block)),
            job.canonical,
            h,
        );
    }
    assert(apply_writes(db, w).contains_key((ColumnFamilyId::Blocks, h)));
}

/// When the write worker flushes: as soon as `batch_size` jobs are buffered, or when
/// the flush timer fires with at least one job buffered, or when the queue closes.
pub enum PipelineEvent {
    JobArrived,
    TimerFired,
    QueueClosed,
}

/// The answer a job gets as soon as its batch is planned: "not new" (`Ok(false)`) for a
/// repeat within the batch or a stored hash, the lookup's error when the existence lookup
/// failed, the compression error when the block could not be compressed. A staged job
/// (and a lookup failure without an error to report) is answered later (`None`).
pub fn planned_reply(ack: JobAck, lookup: Result<bool, BlockStoreError>) -> (r: Option<Result<bool, BlockStoreError>>)
    ensures
        r == match ack {
            JobAck::DuplicateInBatch => Some(Ok::<bool, BlockStoreError>(false)),
            JobAck::AlreadyStored => Some(Ok::<bool, BlockStoreError>(false)),
            JobAck::LookupFailed => match lookup {
                Err(e) => Some(Err::<bool, BlockStoreError>(e)),
                Ok(_) => None,
            },
            JobAck::CompressFailed(e) => Some(Err::<bool, BlockStoreError>(e)),
            JobAck::Staged => None,
        },
{
    match ack {
        JobAck::DuplicateInBatch | JobAck::AlreadyStored => Some(Ok(false)),
        JobAck::LookupFailed => match lookup {
            Err(e) => Some(Err(e)),
            Ok(_) => None,
        },
        JobAck::CompressFailed(e) => Some(Err(e)),
        JobAck::Staged => None,
    }
}

/// Message prefix when the engine rejects a batch's write.
pub const ERR_PIPELINE_WRITE_PREFIX: &'static str = "write pipeline: rocksdb write failed: ";
/// Message prefix when the canonical index cannot take a committed batch's heights.
pub const ERR_PIPELINE_INDEX_PREFIX: &'static str = "write pipeline: canonical.bin mmap update failed: ";

/// What happened to a batch's staged writes once they were handed over.
pub enum FlushOutcome {
    /// The batch write failed, with the engine's message.
    WriteFailed(String),
    /// The write landed but the canonical index update failed, with its message.
    IndexFailed(String),
    /// Everything landed; for each staged job in order, the outcome of the dictionary
    /// training check made after it.
    Committed(Vec<Result<(), BlockStoreError>>),
}

/// Answers for the staged jobs of a batch, in staged order. A failed write or index
/// update answers every staged job with a `Serialization` error naming the step and
/// carrying its message; after a commit each job is answered "new" (`Ok(true)`), or with
/// the error of the training check that followed it.
pub fn staged_replies(staged_count: usize, outcome: FlushOutcome) -> (r: Vec<Result<bool, BlockStoreError>>)
    ensures
        match outcome {
            FlushOutcome::WriteFailed(d) => r@.len() == staged_count && forall|k: int|
                0 <= k < staged_count ==> (#[trigger] r@[k] matches Err(BlockStoreError::Serialization(m))
                    && m@ == ERR_PIPELINE_WRITE_PREFIX@ + d@),
            FlushOutcome::IndexFailed(d) => r@.len() == staged_count && forall|k: int|
                0 <= k < staged_count ==> (#[trigger] r@[k] matches Err(BlockStoreError::Serialization(m))
                    && m@ == ERR_PIPELINE_INDEX_PREFIX@ + d@),
            FlushOutcome::Committed(t) => r@.len() == t@.len() && forall|k: int|
                0 <= k < t@.len() ==> #[trigger] r@[k] == match t@[k] {
                    Ok(_) => Ok::<bool, BlockStoreError>(true),
                    Err(e) => Err::<bool, BlockStoreError>(e),
                },
        },
{
    let mut r: Vec<Result<bool, BlockStoreError>> = Vec::new();
    match outcome {
        FlushOutcome::Committed(t) => {
            let ghost orig = t@;
            let mut t = t;
            while t.len() > 0
                invariant
                    r@.len() + t@.len() == orig.len(),
                    t@ == orig.subrange(r@.len() as int, orig.len() as int),
                    forall|k: int| 0 <= k < r@.len() ==> #[trigger] r@[k] == match orig[k] {
                        Ok(_) => Ok::<bool, BlockStoreError>(true),
                        Err(e) => Err::<bool, BlockStoreError>(e),
                    },
                decreases t@.len(),
            {
                let x = t.remove(0);
                let reply = match x {
                    Ok(()) => Ok(true),
                    Err(e) => Err(e),
                };
                r.push(reply);
            }
        },
        FlushOutcome::WriteFailed(d) => {
            let mut k: usize = 0;
            while k < staged_count
                invariant
                    r@.len() == k,
                    k <= staged_count,
                    forall|j: int| 0 <= j < k ==> (#[trigger] r@[j] matches Err(BlockStoreError::Serialization(m))
                        && m@ == ERR_PIPELINE_WRITE_PREFIX@ + d@),
                decreases staged_count - k,
            {
                r.push(Err(BlockStoreError::Serialization(concat(ERR_PIPELINE_WRITE_PREFIX, d.as_str()))));
                k = k + 1;
            }
        },
        FlushOutcome::IndexFailed(d) => {
            let mut k: usize = 0;
            while k < staged_count
                invariant
                    r@.len() == k,
                    k <= staged_count,
                    forall|j: int| 0 <= j < k ==> (#[trigger] r@[j] matches Err(BlockStoreError::Serialization(m))
                        && m@ == ERR_PIPELINE_INDEX_PREFIX@ + d@),
                decreases staged_count - k,
            {
                r.push(Err(BlockStoreError::Serialization(concat(ERR_PIPELINE_INDEX_PREFIX, d.as_str()))));
                k = k + 1;
            }
        },
    }
    r
}

/// Whether the worker flushes its buffer after `event`, holding `buffered` jobs
/// (counting an arrived job).
pub fn should_flush(event: &PipelineEvent, buffered: usize, batch_size: usize) -> (r: bool)
    ensures
        r == (match event {
            PipelineEvent::JobArrived => buffered >= batch_size,
            PipelineEvent::TimerFired => buffered > 0,
            PipelineEvent::QueueClosed => true,
        }),
{
    match event {
        PipelineEvent::JobArrived => buffered >= batch_size,
        PipelineEvent::TimerFired => buffered > 0,
        PipelineEvent::QueueClosed => true,
    }
}

} // verus!
