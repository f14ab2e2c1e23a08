//! The block store's in-memory state and the writes it decides on.
//!
//! `BlockStore` here holds everything the store keeps in memory (mode, tip, warm-up
//! count, compression settings and dictionary) and turns each request into either an
//! error or the exact set of column-family writes to commit as one batch. The
//! storage engine that commits those batches and answers reads is driven by the caller.
use vstd::prelude::*;

use crate::block::{
    block_bincode, block_hash_of, block_header, block_height_of, header_bincode, header_of,
    summarize_header,
};
use crate::bytes32::{copy_bytes, Bytes32};
use crate::config::BlockStoreConfig;
use crate::constants::{META_GENESIS_HASH, META_TIP};
use crate::encoding::{height_key, u64_key};
use crate::error::{
    BlockStoreError, ERR_INIT_GENESIS_ALREADY_INITIALIZED, ERR_INIT_GENESIS_READ_ONLY,
    ERR_MUTATION_READ_ONLY,
};
use crate::text::{decimal, owned, with_number};
use crate::types::chain_tip::ChainTip;
use vstd::string::StringSliceAdditionalSpecFns;

verus! {

/// The column families of the store.
#[derive(Debug, Clone, Copy, PartialEq, Eq)]
pub enum ColumnFamilyId {
    Blocks,
    Headers,
    Attested,
    Canonical,
    Checkpoints,
    Metadata,
}

/// One write of a batch: `key -> value` in column family `cf`.
pub struct BatchPut {
    pub cf: ColumnFamilyId,
    pub key: Vec<u8>,
    pub value: Vec<u8>,
}

/// Contents of the store as seen through its writes: (column family, key) to value.
pub type StoreContents = Map<(ColumnFamilyId, Seq<u8>), Seq<u8>>;

/// Contents after committing the puts in order.
pub open spec fn apply_puts(db: StoreContents, puts: Seq<BatchPut>) -> StoreContents
    decreases puts.len(),
{
    if puts.len() == 0 {
        db
    } else {
        let p = puts.last();
        apply_puts(db, puts.drop_last()).insert((p.cf, p.key@), p.value@)
    }
}

/// `(cf, key, value)` triples of a batch.
pub open spec fn puts_view(puts: Seq<BatchPut>) -> Seq<(ColumnFamilyId, Seq<u8>, Seq<u8>)> {
    Seq::new(puts.len(), |i: int| (puts[i].cf, puts[i].key@, puts[i].value@))
}

/// The writes that store a block: body, header, and (when canonical) its height index row.
pub open spec fn block_puts(
    hash: Seq<u8>,
    height: u64,
    compressed: Seq<u8>,
    header: Seq<u8>,
    canonical: bool,
) -> Seq<(ColumnFamilyId, Seq<u8>, Seq<u8>)> {
    let base = seq![
        (ColumnFamilyId::Blocks, hash, compressed),
        (ColumnFamilyId::Headers, hash, header),
    ];
    if canonical {
        base.push((ColumnFamilyId::Canonical, u64_key(height), hash))
    } else {
        base
    }
}

/// The writes that install genesis: body, header, height-0 index row, tip and genesis hash.
pub open spec fn genesis_puts(hash: Seq<u8>, compressed: Seq<u8>, header: Seq<u8>) -> Seq<
    (ColumnFamilyId, Seq<u8>, Seq<u8>),
> {
    seq![
        (ColumnFamilyId::Blocks, hash, compressed),
        (ColumnFamilyId::Headers, hash, header),
        (ColumnFamilyId::Canonical, u64_key(0), hash),
        (ColumnFamilyId::Metadata, META_TIP.spec_bytes(), ChainTip { hash: Bytes32 { bytes: crate::types::chain_tip::array_from_seq32(hash) }, height: 0 }.encoded()),
        (ColumnFamilyId::Metadata, META_GENESIS_HASH.spec_bytes(), hash),
    ]
}

/// Committing a block's writes stores its body and header under its hash and, when
/// canonical, indexes its height to its hash; a non-canonical block leaves the height
/// index untouched.
pub proof fn lemma_put_stores_block(
    db: StoreContents,
    puts: Seq<BatchPut>,
    hash: Seq<u8>,
    height: u64,
    compressed: Seq<u8>,
    header: Seq<u8>,
    canonical: bool,
)
    requires
        puts_view(puts) == block_puts(hash, height, compressed, header, canonical),
    ensures
        apply_puts(db, puts)[(ColumnFamilyId::Blocks, hash)] == compressed,
        apply_puts(db, puts)[(ColumnFamilyId::Headers, hash)] == header,
        apply_puts(db, puts).contains_key((ColumnFamilyId::Blocks, hash)),
        apply_puts(db, puts).contains_key((ColumnFamilyId::Headers, hash)),
        canonical ==> apply_puts(db, puts)[(ColumnFamilyId::Canonical, u64_key(height))] == hash,
        !canonical ==> forall|k: Seq<u8>|
            #![trigger apply_puts(db, puts)[(ColumnFamilyId::Canonical, k)]]
            apply_puts(db, puts).contains_key((ColumnFamilyId::Canonical, k)) == db.contains_key(
                (ColumnFamilyId::Canonical, k),
            ) && apply_puts(db, puts)[(ColumnFamilyId::Canonical, k)] == db[(
                ColumnFamilyId::Canonical,
                k,
            )],
{
    let v = puts_view(puts);
    assert(puts.len() == v.len());
    assert(v[0] == (puts[0].cf, puts[0].key@, puts[0].value@));
    assert(v[1] == (puts[1].cf, puts[1].key@, puts[1].value@));
    let p0 = puts.subrange(0, 1);
    let p1 = puts.subrange(0, 2);
    assert(p0.drop_last() =~= Seq::<BatchPut>::empty());
    assert(p1.drop_last() =~= p0);
    assert(p0.last() == puts[0]);
    assert(p1.last() == puts[1]);
    assert(apply_puts(db, Seq::<BatchPut>::empty()) == db);
    assert(apply_puts(db, p0) == db.insert((ColumnFamilyId::Blocks, hash), compressed));
    assert(apply_puts(db, p1) == db.insert((ColumnFamilyId::Blocks, hash), compressed).insert(
        (ColumnFamilyId::Headers, hash),
        header,
    ));
    if canonical {
        assert(v[2] == (puts[2].cf, puts[2].key@, puts[2].value@));
        assert(puts.drop_last() =~= p1);
    } else {
        assert(puts =~= p1);
    }
}

/// Committing the genesis writes leaves a tip record that decodes to the genesis block
/// at height 0, indexes height 0 to the genesis hash, and records the genesis hash.
pub proof fn lemma_genesis_installs_tip(
    db: StoreContents,
    puts: Seq<BatchPut>,
    hash: Seq<u8>,
    compressed: Seq<u8>,
    header: Seq<u8>,
)
    requires
        puts_view(puts) == genesis_puts(hash, compressed, header),
        hash.len() == 32,
    ensures
        apply_puts(db, puts)[(ColumnFamilyId::Canonical, u64_key(0))] == hash,
        apply_puts(db, puts)[(ColumnFamilyId::Metadata, META_GENESIS_HASH.spec_bytes())] == hash,
        apply_puts(db, puts)[(ColumnFamilyId::Blocks, hash)] == compressed,
        apply_puts(db, puts)[(ColumnFamilyId::Headers, hash)] == header,
        ChainTip::decoded(apply_puts(db, puts)[(ColumnFamilyId::Metadata, META_TIP.spec_bytes())])
            == (ChainTip { hash: Bytes32 { bytes: crate::types::chain_tip::array_from_seq32(hash) }, height: 0 }),
{
    reveal_strlit("tip");
    reveal_strlit("genesis_hash");
    let v = puts_view(puts);
    assert(v.len() == 5);
    assert(puts.len() == 5);
    assert forall|i: int| 0 <= i < 5 implies #[trigger] v[i] == (puts[i].cf, puts[i].key@, puts[i].value@) by {}
    let a = apply_puts(db, puts);
    let p4 = puts.subrange(0, 4);
    let p3 = puts.subrange(0, 3);
    let p2 = puts.subrange(0, 2);
    let p1 = puts.subrange(0, 1);
    assert(puts.drop_last() =~= p4);
    assert(p4.drop_last() =~= p3);
    assert(p3.drop_last() =~= p2);
    assert(p2.drop_last() =~= p1);
    assert(p1.drop_last() =~= Seq::<BatchPut>::empty());
    let t = ChainTip { hash: Bytes32 { bytes: crate::types::chain_tip::array_from_seq32(hash) }, height: 0 };
    assert(META_TIP.spec_bytes() != META_GENESIS_HASH.spec_bytes()) by {
        vstd::string::is_ascii_spec_bytes(META_TIP);
        vstd::string::is_ascii_spec_bytes(META_GENESIS_HASH);
        assert(META_TIP.spec_bytes().len() != META_GENESIS_HASH.spec_bytes().len());
    }
    assert(apply_puts(db, Seq::<BatchPut>::empty()) == db);
    assert(p1.last() == puts[0]);
    assert(p2.last() == puts[1]);
    assert(p3.last() == puts[2]);
    assert(p4.last() == puts[3]);
    assert(puts.last() == puts[4]);
    let a0 = db.insert((ColumnFamilyId::Blocks, hash), compressed);
    let a1 = a0.insert((ColumnFamilyId::Headers, hash), header);
    let a2 = a1.insert((ColumnFamilyId::Canonical, u64_key(0)), hash);
    let a3 = a2.insert((ColumnFamilyId::Metadata, META_TIP.spec_bytes()), t.encoded());
    let a4 = a3.insert((ColumnFamilyId::Metadata, META_GENESIS_HASH.spec_bytes()), hash);
    assert(apply_puts(db, p1) == a0);
    assert(apply_puts(db, p2) == a1);
    assert(apply_puts(db, p3) == a2);
    assert(apply_puts(db, p4) == a3);
    assert(a == a4);
    crate::types::chain_tip::lemma_chain_tip_round_trip(t);
}

/// Append the writes that store a block (body, header, and height index when canonical).
pub fn put_block_rows(
    batch: &mut Vec<BatchPut>,
    hash: &Bytes32,
    height: u64,
    compressed: &[u8],
    header: &[u8],
    canonical: bool,
)
    ensures
        puts_view(final(batch)@) == puts_view(old(batch)@) + block_puts(
            hash@,
            height,
            compressed@,
            header@,
            canonical,
        ),
{
    let ghost before = batch@;
    batch.push(batch_put(ColumnFamilyId::Blocks, hash.bytes.as_slice(), compressed));
    batch.push(batch_put(ColumnFamilyId::Headers, hash.bytes.as_slice(), header));
    if canonical {
        let key = height_key(height);
        batch.push(batch_put(ColumnFamilyId::Canonical, key.as_slice(), hash.bytes.as_slice()));
    }
    assert(puts_view(batch@) =~= puts_view(before) + block_puts(hash@, height, compressed@, header@, canonical));
}

fn batch_put(cf: ColumnFamilyId, key: &[u8], value: &[u8]) -> (r: BatchPut)
    ensures
        r.cf == cf,
        r.key@ == key@,
        r.value@ == value@,
{
    BatchPut { cf, key: copy_bytes(key), value: copy_bytes(value) }
}

/// In-memory state of an open block store.
pub struct BlockStore {
    pub read_only: bool,
    pub tip: Option<ChainTip>,
    pub warm_blocks_loaded: usize,
    pub compression_level: i32,
    pub use_compression_dict: bool,
    pub max_decompressed_block_bytes: usize,
    pub zstd_dict: Option<Vec<u8>>,
}

/// Decode the stored tip record, if any.
pub fn load_tip(raw: Option<&[u8]>) -> (r: Result<Option<ChainTip>, BlockStoreError>)
    ensures
        raw is None ==> r == Ok::<Option<ChainTip>, BlockStoreError>(None),
        raw matches Some(b) ==> (b@.len() == 40 <==> r is Ok) && (b@.len() == 40 ==> r
            == Ok::<Option<ChainTip>, BlockStoreError>(Some(ChainTip::decoded(b@)))),
{
    match raw {
        None => Ok(None),
        Some(b) => match ChainTip::from_bytes(b) {
            Ok(t) => Ok(Some(t)),
            Err(e) => Err(e),
        },
    }
}

/// First height warmed on open. The warm depth is the number of trailing canonical heights,
/// ending at the tip, that are loaded into the cache: a depth of zero warms nothing (`None`),
/// and a depth reaching below genesis starts at height zero.
pub fn warm_start_height(tip_height: u64, depth: u64) -> (r: Option<u64>)
    ensures
        depth == 0 <==> r is None,
        r matches Some(s) ==> s == (if tip_height >= depth - 1 {
            (tip_height - (depth - 1)) as u64
        } else {
            0
        }),
{
    if depth == 0 {
        None
    } else {
        Some(tip_height.saturating_sub(depth - 1))
    }
}

impl BlockStore {
    pub open spec fn spec_read_only(&self) -> bool {
        self.read_only
    }

    pub open spec fn spec_tip(&self) -> Option<ChainTip> {
        self.tip
    }

    pub open spec fn spec_warm_blocks_loaded(&self) -> usize {
        self.warm_blocks_loaded
    }

    pub open spec fn spec_compression_level(&self) -> i32 {
        self.compression_level
    }

    pub open spec fn spec_use_compression_dict(&self) -> bool {
        self.use_compression_dict
    }

    pub open spec fn spec_max_decompressed_block_bytes(&self) -> usize {
        self.max_decompressed_block_bytes
    }

    pub open spec fn spec_zstd_dict(&self) -> Option<Seq<u8>> {
        match self.zstd_dict {
            Some(d) => Some(d@),
            None => None,
        }
    }

    /// The dictionary compression uses: present only when dictionaries are enabled.
    pub open spec fn active_dict(&self) -> Option<Seq<u8>> {
        if self.spec_use_compression_dict() {
            self.spec_zstd_dict()
        } else {
            None
        }
    }

    /// State of a store opened with `config`: mode, decoded tip, warm-up count, the
    /// config's compression settings and the resolved dictionary.
    pub fn from_config(
        config: &BlockStoreConfig,
        read_only: bool,
        tip: Option<ChainTip>,
        warm_blocks_loaded: usize,
        zstd_dict: Option<Vec<u8>>,
    ) -> (r: BlockStore)
        ensures
            r.spec_read_only() == read_only,
            r.spec_tip() == tip,
            r.spec_warm_blocks_loaded() == warm_blocks_loaded,
            r.spec_compression_level() == config.compression_level,
            r.spec_use_compression_dict() == config.use_compression_dict,
            r.spec_max_decompressed_block_bytes() == config.max_decompressed_block_bytes,
            r.spec_zstd_dict() == (match zstd_dict {
                Some(d) => Some(d@),
                None => None::<Seq<u8>>,
            }),
    {
        BlockStore {
            read_only,
            tip,
            warm_blocks_loaded,
            compression_level: config.compression_level,
            use_compression_dict: config.use_compression_dict,
            max_decompressed_block_bytes: config.max_decompressed_block_bytes,
            zstd_dict,
        }
    }

    /// Whether mutations are rejected.
    pub fn is_read_only(&self) -> (r: bool)
        ensures
            r == self.spec_read_only(),
    {
        self.read_only
    }

    /// Current chain tip (`None` before genesis).
    pub fn tip(&self) -> (r: Option<ChainTip>)
        ensures
            r == self.spec_tip(),
    {
        self.tip
    }

    /// Height of the current tip.
    pub fn height(&self) -> (r: Option<u64>)
        ensures
            r == (match self.spec_tip() {
                Some(t) => Some(t.height),
                None => None,
            }),
    {
        match self.tip {
            Some(t) => Some(t.height),
            None => None,
        }
    }

    /// Blocks found present while warming on open.
    pub fn warm_blocks_loaded_count(&self) -> (r: usize)
        ensures
            r == self.spec_warm_blocks_loaded(),
    {
        self.warm_blocks_loaded
    }

    /// Decide `init_genesis` for `block`: a read-only store, or one that already holds a
    /// tip or a genesis hash, is refused; a block at a height other than 0 is refused;
    /// otherwise the block is compressed and the five genesis writes are returned.
    pub fn plan_init_genesis(
        &self,
        tip_present: bool,
        genesis_present: bool,
        block: &dig_block::L2Block,
    ) -> (r: Result<Vec<BatchPut>, BlockStoreError>)
        ensures
            self.spec_read_only() ==> (r matches Err(BlockStoreError::Serialization(m)) && m@
                == ERR_INIT_GENESIS_READ_ONLY@),
            !self.spec_read_only() && (tip_present || genesis_present) ==> (r matches Err(
                BlockStoreError::Serialization(m),
            ) && m@ == ERR_INIT_GENESIS_ALREADY_INITIALIZED@),
            !self.spec_read_only() && !tip_present && !genesis_present && block_height_of(*block)
                != 0 ==> (r matches Err(BlockStoreError::Serialization(m)) && m@
                == "init_genesis: genesis block height must be 0, got "@ + decimal(
                block_height_of(*block) as nat,
            )),
            !self.spec_read_only() && !tip_present && !genesis_present && block_height_of(*block)
                == 0 ==> match self.compress_outcome(block_bincode(*block)) {
                Some(c) => r matches Ok(puts) && puts_view(puts@) == genesis_puts(
                    block_hash_of(*block),
                    c,
                    header_bincode(header_of(*block)),
                ),
                None => r matches Err(BlockStoreError::Compression(_)),
            },
    {
        if self.read_only {
            return Err(BlockStoreError::Serialization(owned(ERR_INIT_GENESIS_READ_ONLY)));
        }
        if tip_present || genesis_present {
            return Err(BlockStoreError::Serialization(owned(ERR_INIT_GENESIS_ALREADY_INITIALIZED)));
        }
        let header = block_header(block);
        let summary = summarize_header(header);
        let hash = summary.hash;
        if summary.height != 0 {
            return Err(
                BlockStoreError::Serialization(
                    with_number("init_genesis: genesis block height must be 0, got ", summary.height),
                ),
            );
        }
        let compressed = self.serialize_block(block)?;
        let header_bytes = Self::serialize_header(header)?;
        let tip = ChainTip { hash, height: 0 };
        let tip_bytes = tip.to_bytes();
        let key0 = height_key(0);
        let mut batch: Vec<BatchPut> = Vec::new();
        batch.push(batch_put(ColumnFamilyId::Blocks, hash.bytes.as_slice(), compressed.as_slice()));
        batch.push(batch_put(ColumnFamilyId::Headers, hash.bytes.as_slice(), header_bytes.as_slice()));
        batch.push(batch_put(ColumnFamilyId::Canonical, key0.as_slice(), hash.bytes.as_slice()));
        batch.push(batch_put(ColumnFamilyId::Metadata, META_TIP.as_bytes(), tip_bytes.as_slice()));
        batch.push(batch_put(ColumnFamilyId::Metadata, META_GENESIS_HASH.as_bytes(), hash.bytes.as_slice()));
        proof {
            assert(crate::types::chain_tip::array_from_seq32(hash@)@ == hash@);
            assert(crate::types::chain_tip::array_from_seq32(hash@) =~= hash.bytes);
            assert(puts_view(batch@) =~= genesis_puts(hash@, compressed@, header_bytes@));
        }
        Ok(batch)
    }

    /// Record the tip after the genesis batch (or a new tip) has been committed.
    pub fn commit_tip(&mut self, tip: ChainTip)
        ensures
            final(self).spec_tip() == Some(tip),
            final(self).spec_read_only() == old(self).spec_read_only(),
            final(self).spec_zstd_dict() == old(self).spec_zstd_dict(),
            final(self).spec_use_compression_dict() == old(self).spec_use_compression_dict(),
            final(self).spec_compression_level() == old(self).spec_compression_level(),
            final(self).spec_max_decompressed_block_bytes() == old(self).spec_max_decompressed_block_bytes(),
            final(self).spec_warm_blocks_loaded() == old(self).spec_warm_blocks_loaded(),
    {
        self.tip = Some(tip);
    }

    /// Decide `put` for `block`: a read-only store is refused; a block whose hash is
    /// already stored needs no writes (`Ok(None)`, reported as "not new"); otherwise the
    /// block is compressed and the body, header and (when `canonical`) height-index writes
    /// are returned. Without a dictionary in force a new block always gets its writes.
    pub fn plan_put(&self, exists: bool, block: &dig_block::L2Block, canonical: bool) -> (r: Result<
        Option<Vec<BatchPut>>,
        BlockStoreError,
    >)
        ensures
            self.spec_read_only() ==> (r matches Err(BlockStoreError::Serialization(m)) && m@
                == ERR_MUTATION_READ_ONLY@),
            !self.spec_read_only() && exists ==> r == Ok::<Option<Vec<BatchPut>>, BlockStoreError>(
                None,
            ),
            !self.spec_read_only() && !exists ==> match self.compress_outcome(block_bincode(*block)) {
                Some(c) => r matches Ok(Some(puts)) && puts_view(puts@) == block_puts(
                    block_hash_of(*block),
                    block_height_of(*block),
                    c,
                    header_bincode(header_of(*block)),
                    canonical,
                ),
                None => r matches Err(BlockStoreError::Compression(_)),
            },
            !self.spec_read_only() && !exists && self.active_dict() is None ==> r matches Ok(Some(_)),
    {
        if self.read_only {
            return Err(BlockStoreError::Serialization(owned(ERR_MUTATION_READ_ONLY)));
        }
        if exists {
            return Ok(None);
        }
        let header = block_header(block);
        let summary = summarize_header(header);
        let compressed = self.serialize_block(block)?;
        let header_bytes = Self::serialize_header(header)?;
        let mut batch: Vec<BatchPut> = Vec::new();
        put_block_rows(
            &mut batch,
            &summary.hash,
            summary.height,
            compressed.as_slice(),
            header_bytes.as_slice(),
            canonical,
        );
        assert(puts_view(Seq::<BatchPut>::empty()) =~= Seq::empty());
        assert(Seq::<(ColumnFamilyId, Seq<u8>, Seq<u8>)>::empty() + block_puts(
            summary.hash@,
            summary.height,
            compressed@,
            header_bytes@,
            canonical,
        ) =~= block_puts(summary.hash@, summary.height, compressed@, header_bytes@, canonical));
        Ok(Some(batch))
    }
}

} // verus!
