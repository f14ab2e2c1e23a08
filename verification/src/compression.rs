//! Block payload compression (zstd, optionally with a trained dictionary) and the
//! dictionary's life cycle: resolution on open, reload, training and installation.
use rand::seq::SliceRandom;
use vstd::prelude::*;

use crate::block::{
    block_bincode, block_from_bincode, block_hash_of, block_height_of, decode_block, decode_header,
    encode_block, encode_header, reencodes,
    header_bincode, header_from_bincode, header_of,
};
use crate::constants::{DICT_TARGET_SIZE, DICT_TRAINING_THRESHOLD};
use crate::error::BlockStoreError;
use crate::store::BlockStore;
use crate::text::{concat, decimal, with_number};
use crate::zstd_ops::{
    compress_with_dictionary, decode_all, decompress_with_dictionary, encode_all,
    samples_view, train_from_samples, zstd_decode_outcome, zstd_dict_decode_outcome,
    zstd_dict_encode_outcome, zstd_dict_loadable, zstd_encode_outcome, zstd_train_outcome,
    DictDecode,
};

verus! {

/// A dictionary value as stored: an empty blob means "no dictionary".
pub open spec fn nonempty_dict(stored: Option<Seq<u8>>) -> Option<Seq<u8>> {
    match stored {
        Some(d) => if d.len() == 0 { None } else { Some(d) },
        None => None,
    }
}

pub open spec fn opt_view(v: Option<Vec<u8>>) -> Option<Seq<u8>> {
    match v {
        Some(d) => Some(d@),
        None => None,
    }
}

/// Any non-empty dictionary, stored or given as an override, is used as it is, whatever
/// its size; only an empty blob means "no dictionary".
pub proof fn lemma_nonempty_dictionary_used_as_is(d: Seq<u8>)
    ensures
        d.len() > 0 ==> nonempty_dict(Some(d)) == Some(d),
        d.len() == 0 ==> nonempty_dict(Some(d)) is None,
        nonempty_dict(None) is None,
{
}

/// Dictionary loaded from metadata: none when dictionaries are disabled, when nothing
/// is stored, or when the stored blob is empty.
pub fn dict_from_stored(use_compression_dict: bool, stored: Option<Vec<u8>>) -> (r: Option<Vec<u8>>)
    ensures
        opt_view(r) == (if use_compression_dict { nonempty_dict(opt_view(stored)) } else { None }),
        use_compression_dict ==> (stored matches Some(b) ==> (b@.len() > 0 ==> opt_view(r) == Some(b@))),
        stored matches Some(b) ==> (b@.len() == 0 ==> r is None),
{
    if !use_compression_dict {
        return None;
    }
    match stored {
        None => None,
        Some(blob) => if blob.len() == 0 {
            None
        } else {
            Some(blob)
        },
    }
}

/// Dictionary in force on open: an override (even an empty one, meaning "none") wins
/// over what metadata holds.
pub fn resolve_zstd_dictionary(
    use_compression_dict: bool,
    override_bytes: Option<Vec<u8>>,
    stored: Option<Vec<u8>>,
) -> (r: Option<Vec<u8>>)
    ensures
        opt_view(r) == (match override_bytes {
            Some(o) => nonempty_dict(Some(o@)),
            None => if use_compression_dict { nonempty_dict(opt_view(stored)) } else { None },
        }),
        override_bytes matches Some(o) ==> (o@.len() > 0 ==> opt_view(r) == Some(o@)),
        override_bytes is None && use_compression_dict ==> (stored matches Some(b) ==> (b@.len() > 0
            ==> opt_view(r) == Some(b@))),
{
    match override_bytes {
        Some(bytes) => if bytes.len() == 0 {
            None
        } else {
            Some(bytes)
        },
        None => dict_from_stored(use_compression_dict, stored),
    }
}

/// Training starts once this many blocks are stored.
pub open spec fn training_threshold_reached(block_count: u64) -> bool {
    block_count >= DICT_TRAINING_THRESHOLD
}

/// Permutation of the stored block payloads, so training sees a representative slice.
///
/// Wraps `rand::seq::SliceRandom::shuffle` with `rand::thread_rng()`; the order that
/// comes out is random, so the contract only states that the payloads are the same ones.
#[verifier::external_body]
fn shuffle_payloads(v: &mut Vec<Vec<u8>>)
    ensures
        final(v)@.to_multiset() == old(v)@.to_multiset(),
        final(v)@.len() == old(v)@.len(),
{
    v.shuffle(&mut rand::thread_rng());
}

impl BlockStore {
    /// Outcome of compressing `raw` under the current settings.
    pub open spec fn compress_outcome(&self, raw: Seq<u8>) -> Option<Seq<u8>> {
        match self.active_dict() {
            Some(d) => zstd_dict_encode_outcome(raw, self.spec_compression_level(), d),
            None => zstd_encode_outcome(raw, self.spec_compression_level()),
        }
    }

    /// Outcome of decompressing `compressed` under the current settings: with a dictionary,
    /// a dictionary the decompressor rejects fails outright, and a payload the dictionary
    /// decode rejects is retried as a plain frame (payloads written before training).
    pub open spec fn decompress_outcome(&self, compressed: Seq<u8>) -> Option<Seq<u8>> {
        match self.active_dict() {
            Some(d) => if !zstd_dict_loadable(d) {
                None
            } else {
                match zstd_dict_decode_outcome(compressed, d, self.spec_max_decompressed_block_bytes()) {
                    Some(v) => Some(v),
                    None => zstd_decode_outcome(compressed),
                }
            },
            None => zstd_decode_outcome(compressed),
        }
    }

    /// Whether a payload compressed from `raw` under the current settings decompresses
    /// back: always for plain frames; with a dictionary, when the decompressor accepts the
    /// dictionary and `raw` fits the decompression cap.
    pub open spec fn payload_readable(&self, raw: Seq<u8>) -> bool {
        match self.active_dict() {
            Some(d) => zstd_dict_loadable(d) && raw.len() <= self.spec_max_decompressed_block_bytes(),
            None => true,
        }
    }

    /// Whether a plain zstd frame made from `raw` (a payload written while no dictionary
    /// was in force) reads back under the current settings: always without a dictionary;
    /// with one, when zstd trained it and `raw` fits the decompression cap.
    pub open spec fn reads_plain_frame(&self, raw: Seq<u8>) -> bool {
        match self.active_dict() {
            Some(d) => (exists|s: Seq<Seq<u8>>, m: usize| #[trigger] zstd_train_outcome(s, m) == Some(d))
                && raw.len() <= self.spec_max_decompressed_block_bytes(),
            None => true,
        }
    }

    /// Compress an encoded block body for the block column family: with the dictionary
    /// when dictionaries are enabled and one is loaded, as a plain frame otherwise; the
    /// plain frame never fails.
    pub fn compress_payload(&self, raw: &[u8]) -> (r: Result<Vec<u8>, BlockStoreError>)
        ensures
            self.active_dict() is None ==> self.compress_outcome(raw@) is Some,
            match self.compress_outcome(raw@) {
                Some(c) => r matches Ok(v) && v@ == c,
                None => r matches Err(BlockStoreError::Compression(_)),
            },
    {
        if self.use_compression_dict {
            match &self.zstd_dict {
                Some(dict) => {
                    return match compress_with_dictionary(raw, self.compression_level, dict.as_slice()) {
                        Ok(v) => Ok(v),
                        Err(e) => Err(BlockStoreError::compression_from_io(e)),
                    };
                },
                None => {},
            }
        }
        match encode_all(raw, self.compression_level) {
            Ok(v) => Ok(v),
            Err(e) => Err(BlockStoreError::compression_from_io(e)),
        }
    }

    /// Decompress a stored block payload back to its encoded body: dictionary first when
    /// one is in force, falling back to a plain frame. A payload `compress_payload` produced
    /// from `x` under the same settings decodes to `x` when `payload_readable` holds of `x`.
    pub fn decompress_block_payload(&self, compressed: &[u8]) -> (r: Result<Vec<u8>, String>)
        ensures
            match self.decompress_outcome(compressed@) {
                Some(v) => r matches Ok(w) && w@ == v,
                None => r is Err,
            },
            forall|x: Seq<u8>|
                #[trigger] self.compress_outcome(x) == Some(compressed@) && self.payload_readable(x)
                    ==> (r matches Ok(w) && w@ == x),
            forall|x: Seq<u8>, level: i32|
                #[trigger] zstd_encode_outcome(x, level) == Some(compressed@) && self.reads_plain_frame(x)
                    ==> (r matches Ok(w) && w@ == x),
    {
        if self.use_compression_dict {
            match &self.zstd_dict {
                Some(dict) => {
                    return match decompress_with_dictionary(
                        compressed,
                        dict.as_slice(),
                        self.max_decompressed_block_bytes,
                    ) {
                        DictDecode::SetupFailed(e) => Err(e),
                        DictDecode::Decoded(v) => Ok(v),
                        DictDecode::DecodeFailed(_) => decode_all(compressed),
                    };
                },
                None => {},
            }
        }
        decode_all(compressed)
    }

    /// bincode encoding of a header, as stored in the header column family (never
    /// compressed). It decodes back to the same header.
    pub fn serialize_header(header: &dig_block::L2BlockHeader) -> (r: Result<Vec<u8>, BlockStoreError>)
        ensures
            r matches Ok(v) && v@ == header_bincode(*header) && header_from_bincode(v@) == Some(
                *header,
            ),
    {
        match encode_header(header) {
            Ok(v) => Ok(v),
            Err(e) => Err(BlockStoreError::Serialization(e)),
        }
    }

    /// Header decoded from header column family bytes; bytes that are not a header's
    /// encoding are a `Serialization` error.
    pub fn deserialize_header(bytes: &[u8]) -> (r: Result<dig_block::L2BlockHeader, BlockStoreError>)
        ensures
            match header_from_bincode(bytes@) {
                Some(h) => r matches Ok(x) && x == h,
                None => r matches Err(BlockStoreError::Serialization(_)),
            },
    {
        match decode_header(bytes) {
            Ok(h) => Ok(h),
            Err(e) => Err(BlockStoreError::Serialization(e)),
        }
    }

    /// Payload stored for a block: its bincode encoding, compressed under the current
    /// settings; a compression failure is a `Compression` error. Without a dictionary in
    /// force it always succeeds.
    pub fn serialize_block(&self, block: &dig_block::L2Block) -> (r: Result<Vec<u8>, BlockStoreError>)
        ensures
            self.active_dict() is None ==> r is Ok,
            match self.compress_outcome(block_bincode(*block)) {
                Some(c) => r matches Ok(v) && v@ == c,
                None => r matches Err(BlockStoreError::Compression(_)),
            },
    {
        let raw = match encode_block(block) {
            Ok(v) => v,
            Err(e) => return Err(BlockStoreError::Serialization(e)),
        };
        self.compress_payload(raw.as_slice())
    }

    /// Block decoded from a stored payload: decompressed (dictionary first, plain frame as
    /// fallback), then bincode-decoded; either step failing is a `Serialization` error.
    /// A payload written for `b` as a plain frame, before any dictionary was in force,
    /// reads back to a block with `b`'s hash and height under a trained dictionary too.
    /// A payload `serialize_block` wrote for `b` under the same settings reads back as
    /// whatever bincode decodes from `b`'s encoding, when `payload_readable` holds of it;
    /// a block read back that way has `b`'s header, hence `b`'s hash and height.
    pub fn deserialize_block(&self, compressed: &[u8]) -> (r: Result<dig_block::L2Block, BlockStoreError>)
        ensures
            match self.decompress_outcome(compressed@) {
                Some(raw) => match block_from_bincode(raw) {
                    Some(b) => r matches Ok(x) && x == b,
                    None => r matches Err(BlockStoreError::Serialization(_)),
                },
                None => r matches Err(BlockStoreError::Serialization(_)),
            },
            forall|b: dig_block::L2Block|
                #[trigger] self.compress_outcome(block_bincode(b)) == Some(compressed@)
                    && self.payload_readable(block_bincode(b)) ==> match block_from_bincode(
                    block_bincode(b),
                ) {
                    Some(d) => r matches Ok(x) && x == d,
                    None => r is Err,
                },
            forall|b: dig_block::L2Block|
                #[trigger] self.compress_outcome(block_bincode(b)) == Some(compressed@)
                    && self.payload_readable(block_bincode(b)) && r is Ok ==> header_of(r->Ok_0)
                    == header_of(b),
            forall|b: dig_block::L2Block|
                #[trigger] self.compress_outcome(block_bincode(b)) == Some(compressed@)
                    && self.payload_readable(block_bincode(b)) && reencodes(b) ==> (r is Ok
                    && block_hash_of(r->Ok_0) == block_hash_of(b) && block_height_of(r->Ok_0)
                    == block_height_of(b)),
            forall|b: dig_block::L2Block, level: i32|
                #[trigger] zstd_encode_outcome(block_bincode(b), level) == Some(compressed@)
                    && self.reads_plain_frame(block_bincode(b)) && reencodes(b) ==> (r is Ok
                    && block_hash_of(r->Ok_0) == block_hash_of(b) && block_height_of(r->Ok_0)
                    == block_height_of(b)),
    {
        let raw = match self.decompress_block_payload(compressed) {
            Ok(v) => v,
            Err(e) => {
                return Err(
                    BlockStoreError::Serialization(
                        concat("deserialize_block: decompress failed: ", e.as_str()),
                    ),
                );
            },
        };
        match decode_block(raw.as_slice()) {
            Ok(b) => Ok(b),
            Err(e) => Err(BlockStoreError::Serialization(e)),
        }
    }

    /// Reload the dictionary from what metadata holds (`None` when dictionaries are off
    /// or nothing usable is stored).
    pub fn init_dictionary(&mut self, stored: Option<Vec<u8>>)
        ensures
            final(self).spec_zstd_dict() == (if old(self).spec_use_compression_dict() {
                nonempty_dict(opt_view(stored))
            } else {
                None
            }),
            final(self).spec_use_compression_dict() == old(self).spec_use_compression_dict(),
            final(self).spec_compression_level() == old(self).spec_compression_level(),
            final(self).spec_max_decompressed_block_bytes() == old(self).spec_max_decompressed_block_bytes(),
            final(self).spec_read_only() == old(self).spec_read_only(),
            final(self).spec_tip() == old(self).spec_tip(),
            final(self).spec_warm_blocks_loaded() == old(self).spec_warm_blocks_loaded(),
    {
        let loaded = dict_from_stored(self.use_compression_dict, stored);
        self.zstd_dict = loaded;
    }

    /// Whether a write should look at dictionary training at all: only when dictionaries
    /// are enabled and none is loaded yet.
    pub fn dictionary_missing(&self) -> (r: bool)
        ensures
            r == (self.spec_use_compression_dict() && self.spec_zstd_dict() is None),
    {
        self.use_compression_dict && self.zstd_dict.is_none()
    }

    /// Whether `block_count` stored blocks are enough to train.
    pub fn training_due(block_count: u64) -> (r: bool)
        ensures
            r <==> block_count >= DICT_TRAINING_THRESHOLD,
            r == training_threshold_reached(block_count),
    {
        block_count >= DICT_TRAINING_THRESHOLD
    }

    /// Install a freshly trained (or stored) dictionary.
    pub fn install_dictionary(&mut self, dict: Vec<u8>)
        ensures
            final(self).spec_zstd_dict() == Some(dict@),
            final(self).spec_use_compression_dict() == old(self).spec_use_compression_dict(),
            final(self).spec_compression_level() == old(self).spec_compression_level(),
            final(self).spec_max_decompressed_block_bytes() == old(self).spec_max_decompressed_block_bytes(),
            final(self).spec_read_only() == old(self).spec_read_only(),
            final(self).spec_tip() == old(self).spec_tip(),
            final(self).spec_warm_blocks_loaded() == old(self).spec_warm_blocks_loaded(),
    {
        self.zstd_dict = Some(dict);
    }

    /// Training samples from every stored block payload: fewer payloads than
    /// `sample_count` is a `Serialization` error; otherwise the payloads are shuffled at
    /// random and `decode_samples` takes the first `sample_count` of them. When every
    /// payload decompresses, sampling succeeds.
    pub fn sample_block_bodies(&self, payloads: Vec<Vec<u8>>, sample_count: usize) -> (r: Result<
        Vec<Vec<u8>>,
        BlockStoreError,
    >)
        ensures
            payloads@.len() < sample_count ==> (r matches Err(BlockStoreError::Serialization(m))
                && m@ == "dictionary training: need at least "@ + decimal(sample_count as nat)
                + " blocks in blocks, have "@ + decimal(payloads@.len())),
            payloads@.len() >= sample_count && (forall|i: int|
                0 <= i < payloads@.len() ==> self.decompress_outcome(#[trigger] payloads@[i]@) is Some)
                ==> r is Ok,
            r is Err ==> r matches Err(BlockStoreError::Serialization(_)),
            r matches Ok(samples) ==> {
                &&& payloads@.len() >= sample_count
                &&& samples@.len() == sample_count
                &&& exists|chosen: Seq<Vec<u8>>|
                    #![trigger chosen.len()]
                    chosen.to_multiset().subset_of(payloads@.to_multiset()) && chosen.len()
                        == sample_count && forall|i: int|
                        0 <= i < sample_count ==> self.decompress_outcome(#[trigger] chosen[i]@)
                            == Some(samples@[i]@)
            },
    {
        if payloads.len() < sample_count {
            let m1 = with_number("dictionary training: need at least ", sample_count as u64);
            let m2 = concat(m1.as_str(), " blocks in blocks, have ");
            return Err(BlockStoreError::Serialization(concat_number(m2.as_str(), payloads.len() as u64)));
        }
        let ghost all = payloads@;
        let mut blobs = payloads;
        shuffle_payloads(&mut blobs);
        let ghost shuffled = blobs@;
        let r = self.decode_samples(blobs, sample_count);
        proof {
            broadcast use vstd::seq_lib::group_to_multiset_ensures;
            let chosen = shuffled.subrange(0, sample_count as int);
            lemma_prefix_submultiset(shuffled, sample_count as int);
            assert forall|i: int| 0 <= i < sample_count implies #[trigger] chosen[i] == shuffled[i] by {}
            if forall|i: int| 0 <= i < all.len() ==> self.decompress_outcome(#[trigger] all[i]@) is Some {
                assert forall|i: int| 0 <= i < sample_count implies self.decompress_outcome(
                    #[trigger] shuffled[i]@,
                ) is Some by {
                    assert(shuffled.contains(shuffled[i]));
                    assert(shuffled.to_multiset().count(shuffled[i]) > 0);
                    assert(all.contains(shuffled[i]));
                    let j = choose|j: int| 0 <= j < all.len() && all[j] == shuffled[i];
                    assert(self.decompress_outcome(all[j]@) is Some);
                }
            }
            assert(chosen.len() == sample_count);
        }
        r
    }

    /// The first `sample_count` payloads of `shuffled` (all of them when there are fewer),
    /// each decompressed: `Ok` exactly when every one of them decompresses, and then each
    /// sample is that decompression; otherwise a `Serialization` error.
    pub fn decode_samples(&self, shuffled: Vec<Vec<u8>>, sample_count: usize) -> (r: Result<
        Vec<Vec<u8>>,
        BlockStoreError,
    >)
        ensures
            ({
                let m = if sample_count <= shuffled@.len() { sample_count as int } else { shuffled@.len() as int };
                &&& (r is Ok <==> forall|i: int|
                    0 <= i < m ==> self.decompress_outcome(#[trigger] shuffled@[i]@) is Some)
                &&& (r matches Ok(samples) ==> samples@.len() == m && forall|i: int|
                    0 <= i < m ==> self.decompress_outcome(#[trigger] shuffled@[i]@) == Some(
                        samples@[i]@,
                    ))
                &&& (r is Err ==> r matches Err(BlockStoreError::Serialization(_)))
            }),
    {
        let ghost all = shuffled@;
        let mut blobs = shuffled;
        blobs.truncate(sample_count);
        let ghost m: int = if sample_count <= all.len() { sample_count as int } else { all.len() as int };
        assert(blobs@ =~= all.subrange(0, m));
        let mut samples: Vec<Vec<u8>> = Vec::new();
        let mut i: usize = 0;
        while i < blobs.len()
            invariant
                0 <= i <= blobs@.len(),
                blobs@ == all.subrange(0, m),
                0 <= m <= all.len(),
                blobs@.len() == m,
                all == shuffled@,
                m == (if sample_count <= all.len() { sample_count as int } else { all.len() as int }),
                samples@.len() == i,
                forall|j: int| 0 <= j < i ==> self.decompress_outcome(#[trigger] all[j]@)
                    == Some(samples@[j]@),
            decreases blobs@.len() - i,
        {
            assert(blobs@[i as int] == all[i as int]);
            match self.decompress_block_payload(blobs[i].as_slice()) {
                Ok(raw) => samples.push(raw),
                Err(e) => {
                    assert(self.decompress_outcome(all[i as int]@) is None);
                    assert(i < m);
                    assert(!(forall|j: int| 0 <= j < m ==> self.decompress_outcome(#[trigger] all[j]@) is Some));
                    return Err(
                        BlockStoreError::Serialization(
                            concat("dictionary training sample decompress: ", e.as_str()),
                        ),
                    );
                },
            }
            i = i + 1;
        }
        Ok(samples)
    }

    /// Train a dictionary of at most `DICT_TARGET_SIZE` bytes from the samples; a
    /// training failure is a `Serialization` error.
    pub fn train_dictionary(samples: &Vec<Vec<u8>>) -> (r: Result<Vec<u8>, BlockStoreError>)
        ensures
            match zstd_train_outcome(samples_view(samples@), DICT_TARGET_SIZE) {
                Some(d) => r matches Ok(v) && v@ == d,
                None => r matches Err(BlockStoreError::Serialization(_)),
            },
    {
        match train_from_samples(samples, DICT_TARGET_SIZE) {
            Ok(d) => Ok(d),
            Err(e) => Err(
                BlockStoreError::Serialization(concat("dictionary training failed: ", e.as_str())),
            ),
        }
    }
}

/// What the store learns while deciding whether to train a dictionary after a write.
pub enum TrainingEvent {
    /// The decision starts (after a successful write).
    Start,
    /// The dictionary blob metadata holds, if any.
    StoredDictionary(Option<Vec<u8>>),
    /// How many blocks the block column family holds.
    BlockCount(u64),
    /// The dictionary trained (or found stored) and persisted.
    Trained(Vec<u8>),
}

/// What the caller does next.
#[derive(Debug, Clone, Copy, PartialEq, Eq)]
pub enum TrainingAction {
    /// Nothing more to do.
    Finish,
    /// Read the dictionary blob from metadata and report it.
    ReadStoredDictionary,
    /// Count the stored blocks and report the count.
    CountBlocks,
    /// Train from sampled stored payloads, persist the result, and report it.
    TrainAndPersist,
}

/// The dictionary and next action after one training step, from whether dictionaries
/// are enabled and the dictionary loaded before it.
pub open spec fn training_transition(use_dict: bool, dict: Option<Seq<u8>>, event: TrainingEvent) -> (
    Option<Seq<u8>>,
    TrainingAction,
) {
    match event {
        TrainingEvent::Start => (
            dict,
            if use_dict && dict is None {
                TrainingAction::ReadStoredDictionary
            } else {
                TrainingAction::Finish
            },
        ),
        TrainingEvent::StoredDictionary(stored) => match nonempty_dict(opt_view(stored)) {
            Some(d) => (Some(d), TrainingAction::Finish),
            None => (dict, TrainingAction::CountBlocks),
        },
        TrainingEvent::BlockCount(n) => (
            dict,
            if training_threshold_reached(n) {
                TrainingAction::TrainAndPersist
            } else {
                TrainingAction::Finish
            },
        ),
        TrainingEvent::Trained(d) => (Some(d@), TrainingAction::Finish),
    }
}

/// Training is due for every block count at or above the threshold and for none below
/// it: the training step answers a block count with "train and persist" exactly then,
/// whatever dictionary state it starts from. So a count that jumps past the threshold in
/// one batch still trains, and being due never stops as the count grows.
pub proof fn lemma_training_due_from_threshold_on(use_dict: bool, dict: Option<Seq<u8>>, n: u64, m: u64)
    ensures
        training_threshold_reached(n) <==> n >= DICT_TRAINING_THRESHOLD,
        training_transition(use_dict, dict, TrainingEvent::BlockCount(n)).1 == (if n >= DICT_TRAINING_THRESHOLD {
            TrainingAction::TrainAndPersist
        } else {
            TrainingAction::Finish
        }),
        training_transition(use_dict, dict, TrainingEvent::BlockCount(n)).0 == dict,
        n <= m && training_threshold_reached(n) ==> training_threshold_reached(m),
{
}

/// A dictionary is trained at most once: a round (which always opens with `Start`) ends
/// at its first step while a dictionary is loaded, and finding one stored or training one
/// leaves it loaded, so every later round ends at once.
pub proof fn lemma_dictionary_trained_once(
    use_dict: bool,
    dict: Option<Seq<u8>>,
    stored: Option<Vec<u8>>,
    trained: Vec<u8>,
)
    ensures
        dict is Some ==> training_transition(use_dict, dict, TrainingEvent::Start) == (
            dict,
            TrainingAction::Finish,
        ),
        ({
            let after = training_transition(use_dict, dict, TrainingEvent::Trained(trained)).0;
            after is Some && training_transition(use_dict, after, TrainingEvent::Start).1
                == TrainingAction::Finish
        }),
        ({
            let (after, action) = training_transition(use_dict, dict, TrainingEvent::StoredDictionary(stored));
            action == TrainingAction::Finish ==> after is Some && training_transition(
                use_dict,
                after,
                TrainingEvent::Start,
            ).1 == TrainingAction::Finish
        }),
{
}

impl BlockStore {
    /// One step of post-write dictionary training. Only a store with dictionaries enabled
    /// and none loaded looks further: a non-empty stored blob is loaded as is; otherwise,
    /// once `DICT_TRAINING_THRESHOLD` blocks are stored, a dictionary is trained and
    /// installed. Nothing but the dictionary changes.
    pub fn training_step(&mut self, event: TrainingEvent) -> (r: TrainingAction)
        ensures
            final(self).spec_use_compression_dict() == old(self).spec_use_compression_dict(),
            final(self).spec_compression_level() == old(self).spec_compression_level(),
            final(self).spec_max_decompressed_block_bytes() == old(self).spec_max_decompressed_block_bytes(),
            final(self).spec_read_only() == old(self).spec_read_only(),
            final(self).spec_tip() == old(self).spec_tip(),
            final(self).spec_warm_blocks_loaded() == old(self).spec_warm_blocks_loaded(),
            (final(self).spec_zstd_dict(), r) == training_transition(
                old(self).spec_use_compression_dict(),
                old(self).spec_zstd_dict(),
                event,
            ),
    {
        match event {
            TrainingEvent::Start => {
                if self.dictionary_missing() {
                    TrainingAction::ReadStoredDictionary
                } else {
                    TrainingAction::Finish
                }
            },
            TrainingEvent::StoredDictionary(stored) => {
                match dict_from_stored(true, stored) {
                    Some(d) => {
                        self.install_dictionary(d);
                        TrainingAction::Finish
                    },
                    None => TrainingAction::CountBlocks,
                }
            },
            TrainingEvent::BlockCount(n) => {
                if Self::training_due(n) {
                    TrainingAction::TrainAndPersist
                } else {
                    TrainingAction::Finish
                }
            },
            TrainingEvent::Trained(d) => {
                self.install_dictionary(d);
                TrainingAction::Finish
            },
        }
    }
}

fn concat_number(prefix: &str, n: u64) -> (r: String)
    ensures
        r@ == prefix@ + crate::text::decimal(n as nat),
{
    with_number(prefix, n)
}

proof fn lemma_prefix_submultiset(s: Seq<Vec<u8>>, n: int)
    requires
        0 <= n <= s.len(),
    ensures
        s.subrange(0, n).to_multiset().subset_of(s.to_multiset()),
    decreases s.len() - n,
{
    if n < s.len() {
        lemma_prefix_submultiset(s, n + 1);
        let a = s.subrange(0, n);
        let b = s.subrange(0, n + 1);
        assert(b =~= a.push(s[n]));
        vstd::seq_lib::lemma_multiset_commutative(a, seq![s[n]]);
        assert(a.push(s[n]) =~= a + seq![s[n]]);
        assert(a.to_multiset().subset_of(b.to_multiset()));
    } else {
        assert(s.subrange(0, n) =~= s);
    }
}

} // verus!
