//! Snapshot stream framing and checksums.
//!
//! Stream layout:
//! ```text
//! [ manifest bytes ]
//! [ block_0 length: u32 LE ][ block_0 stored payload ]
//! ...
//! [ SHA-256 of everything above: 32 bytes ]
//! ```
//! Export and import are driven block by block by the caller (which reads the store and
//! the stream); this module decides every byte that is written, every check on what is
//! read, and keeps the running checksum.
use vstd::prelude::*;

use crate::block::{block_hash_of, block_header, block_height_of, block_parent_of, summarize_header};
use crate::bytes32::Bytes32;
use crate::encoding::{lemma_pow256_8, pow256};
use crate::error::BlockStoreError;
use crate::sha::{sha256_absorbed, sha256_digest, sha256_finalize, sha256_new, sha256_update};
use crate::text::{concat, decimal, owned, with_number};
use crate::types::chain_tip::{le_bytes, le_value, lemma_le_bytes_len, lemma_le_value_of_bytes};

verus! {

/// Current snapshot schema version.
pub const SNAPSHOT_VERSION: u32 = 1;

/// Header of a snapshot stream.
#[derive(Debug, Clone, Copy, PartialEq, Eq)]
pub struct SnapshotManifest {
    /// Schema version; importers reject any other than `SNAPSHOT_VERSION`.
    pub version: u32,
    /// First height included.
    pub start_height: u64,
    /// Last height included.
    pub end_height: u64,
    /// Number of blocks: `end_height - start_height + 1`.
    pub block_count: u64,
    /// State root at `end_height`.
    pub state_root: Bytes32,
    /// SHA-256 of the stream before the checksum (zero until export finishes).
    pub checksum: Bytes32,
}

/// The length prefix of a framed payload: its length modulo 2^32, little-endian.
pub open spec fn frame_prefix(block: Seq<u8>) -> Seq<u8> {
    le_bytes(block.len() % 0x1_0000_0000, 4)
}

/// One framed payload.
pub open spec fn frame(block: Seq<u8>) -> Seq<u8> {
    frame_prefix(block) + block
}

/// All payloads framed, in order.
pub open spec fn frames(blocks: Seq<Seq<u8>>) -> Seq<u8>
    decreases blocks.len(),
{
    if blocks.len() == 0 {
        Seq::empty()
    } else {
        frames(blocks.drop_last()) + frame(blocks.last())
    }
}

/// The complete stream an export writes.
pub open spec fn export_stream(manifest_bytes: Seq<u8>, blocks: Seq<Seq<u8>>) -> Seq<u8> {
    let body = manifest_bytes + frames(blocks);
    body + sha256_digest(body)
}

/// How an import reads `n` framed payloads off the front of `data`: each time a 4-byte
/// little-endian length, then that many bytes. `None` when the data runs out.
pub open spec fn parse_frames(data: Seq<u8>, n: nat) -> Option<(Seq<Seq<u8>>, Seq<u8>)>
    decreases n,
{
    if n == 0 {
        Some((Seq::empty(), data))
    } else {
        match parse_frames(data, (n - 1) as nat) {
            None => None,
            Some((blocks, rest)) => if rest.len() < 4 {
                None
            } else {
                let len = le_value(rest.subrange(0, 4));
                if rest.len() < 4 + len {
                    None
                } else {
                    Some((blocks.push(rest.subrange(4, 4 + len as int)), rest.subrange(4 + len as int, rest.len() as int)))
                }
            },
        }
    }
}

/// Manifest for exporting heights `start..=end` with the end block's state root; the
/// checksum is zero until the export finishes.
pub fn export_manifest(start_height: u64, end_height: u64, state_root: Bytes32) -> (r: SnapshotManifest)
    requires
        !(start_height == 0 && end_height == u64::MAX),
    ensures
        r.version == SNAPSHOT_VERSION,
        r.start_height == start_height,
        r.end_height == end_height,
        r.block_count == (if end_height >= start_height { end_height - start_height } else { 0 }) + 1,
        r.state_root == state_root,
        r.checksum.spec_is_zero(),
{
    let block_count = end_height.saturating_sub(start_height) + 1;
    SnapshotManifest {
        version: SNAPSHOT_VERSION,
        start_height,
        end_height,
        block_count,
        state_root,
        checksum: Bytes32::zero(),
    }
}

fn le_u32_bytes(n: u32) -> (r: [u8; 4])
    ensures
        r@ == le_bytes(n as nat, 4),
{
    let b0 = (n % 256) as u8;
    let n1 = n / 256;
    let b1 = (n1 % 256) as u8;
    let n2 = n1 / 256;
    let b2 = (n2 % 256) as u8;
    let n3 = n2 / 256;
    let b3 = (n3 % 256) as u8;
    let r = [b0, b1, b2, b3];
    proof {
        reveal_with_fuel(le_bytes, 5);
        assert(r@ =~= le_bytes(n as nat, 4));
    }
    r
}

/// Running state of an export: the checksum over everything written so far.
pub struct SnapshotExport {
    hasher: chia_sha2::Sha256,
}

impl SnapshotExport {
    /// Bytes covered by the checksum so far.
    pub closed spec fn written(&self) -> Seq<u8> {
        sha256_absorbed(self.hasher)
    }

    /// Start an export whose manifest encodes to `manifest_bytes` (written first).
    pub fn begin(manifest_bytes: &[u8]) -> (r: SnapshotExport)
        ensures
            r.written() == manifest_bytes@,
    {
        let mut hasher = sha256_new();
        sha256_update(&mut hasher, manifest_bytes);
        assert(Seq::<u8>::empty() + manifest_bytes@ =~= manifest_bytes@);
        SnapshotExport { hasher }
    }

    /// Length prefix to write before `payload`; the prefix and the payload are both
    /// covered by the checksum from here on.
    pub fn frame_block(&mut self, payload: &[u8]) -> (r: [u8; 4])
        ensures
            r@ == frame_prefix(payload@),
            final(self).written() == old(self).written() + frame(payload@),
    {
        let len = (payload.len() as u64 % 0x1_0000_0000) as u32;
        let prefix = le_u32_bytes(len);
        sha256_update(&mut self.hasher, prefix.as_slice());
        sha256_update(&mut self.hasher, payload);
        assert(old(self).written() + prefix@ + payload@ =~= old(self).written() + frame(payload@));
        prefix
    }

    /// The checksum to append: SHA-256 of everything written.
    pub fn finish(self) -> (r: Bytes32)
        ensures
            r@ == sha256_digest(self.written()),
    {
        Bytes32::new(sha256_finalize(self.hasher))
    }
}

/// Running state of an import: the checksum over what has been read and the hash of the
/// last accepted block.
pub struct SnapshotImport {
    hasher: chia_sha2::Sha256,
    prev_hash: Option<Bytes32>,
}

impl SnapshotImport {
    /// Bytes covered by the checksum so far.
    pub closed spec fn read_so_far(&self) -> Seq<u8> {
        sha256_absorbed(self.hasher)
    }

    /// Hash of the last accepted block.
    pub closed spec fn last_hash(&self) -> Option<Bytes32> {
        self.prev_hash
    }

    /// Start an import from a manifest read off the stream as `manifest_bytes`: any
    /// version other than `SNAPSHOT_VERSION` is a `Serialization` error.
    pub fn begin(manifest: &SnapshotManifest, manifest_bytes: &[u8]) -> (r: Result<SnapshotImport, BlockStoreError>)
        ensures
            manifest.version != SNAPSHOT_VERSION ==> (r matches Err(BlockStoreError::Serialization(m))
                && m@ == "unsupported snapshot version: "@ + decimal(manifest.version as nat)),
            manifest.version == SNAPSHOT_VERSION ==> (r matches Ok(imp) && imp.read_so_far()
                == manifest_bytes@ && imp.last_hash() is None),
    {
        let mut hasher = sha256_new();
        sha256_update(&mut hasher, manifest_bytes);
        if manifest.version != SNAPSHOT_VERSION {
            return Err(
                BlockStoreError::Serialization(
                    with_number("unsupported snapshot version: ", manifest.version as u64),
                ),
            );
        }
        assert(Seq::<u8>::empty() + manifest_bytes@ =~= manifest_bytes@);
        Ok(SnapshotImport { hasher, prev_hash: None })
    }

    /// Take in a 4-byte length prefix; the payload length it announces.
    pub fn read_frame_len(&mut self, prefix: &[u8; 4]) -> (r: usize)
        ensures
            r as nat == le_value(prefix@),
            final(self).read_so_far() == old(self).read_so_far() + prefix@,
            final(self).last_hash() == old(self).last_hash(),
    {
        sha256_update(&mut self.hasher, prefix.as_slice());
        let v = prefix[0] as u32 + 256 * (prefix[1] as u32 + 256 * (prefix[2] as u32 + 256 * (
        prefix[3] as u32)));
        proof {
            reveal_with_fuel(le_value, 5);
            let s = prefix@;
            assert(s.drop_first().drop_first().drop_first().drop_first() =~= Seq::<u8>::empty());
        }
        v as usize
    }

    /// Take in a payload read off the stream.
    pub fn read_payload(&mut self, payload: &[u8])
        ensures
            final(self).read_so_far() == old(self).read_so_far() + payload@,
            final(self).last_hash() == old(self).last_hash(),
    {
        sha256_update(&mut self.hasher, payload);
    }

    /// Accept the decoded block expected at `expected_height`: its height must match and,
    /// after the first block, its parent must be the previous block.
    pub fn accept_block(&mut self, expected_height: u64, block: &dig_block::L2Block) -> (r: Result<
        (),
        BlockStoreError,
    >)
        ensures
            block_height_of(*block) != expected_height ==> (r matches Err(
                BlockStoreError::Serialization(m),
            ) && m@ == "non-contiguous height: expected "@ + decimal(expected_height as nat)
                + ", got "@ + decimal(block_height_of(*block) as nat)),
            block_height_of(*block) == expected_height && (old(self).last_hash() matches Some(p)
                && p@ != block_parent_of(*block)) ==> (r matches Err(
                BlockStoreError::Serialization(m),
            ) && m@ == "broken parent link at height "@ + decimal(expected_height as nat)),
            block_height_of(*block) == expected_height && !(old(self).last_hash() matches Some(p)
                && p@ != block_parent_of(*block)) ==> (r is Ok && (final(self).last_hash() matches Some(
                h,
            ) && h@ == block_hash_of(*block))),
            final(self).read_so_far() == old(self).read_so_far(),
    {
        let summary = summarize_header(block_header(block));
        let height = summary.height;
        if height != expected_height {
            let m1 = with_number("non-contiguous height: expected ", expected_height);
            let m2 = concat(m1.as_str(), ", got ");
            return Err(BlockStoreError::Serialization(with_number(m2.as_str(), height)));
        }
        match &self.prev_hash {
            Some(prev) => {
                if !prev.same_as(&summary.parent_hash) {
                    return Err(
                        BlockStoreError::Serialization(
                            with_number("broken parent link at height ", expected_height),
                        ),
                    );
                }
            },
            None => {},
        }
        self.prev_hash = Some(summary.hash);
        Ok(())
    }

    /// Compare the trailing checksum with SHA-256 of everything read; a mismatch is a
    /// `Serialization` error.
    pub fn finish(self, checksum: &[u8; 32]) -> (r: Result<(), BlockStoreError>)
        ensures
            checksum@ == sha256_digest(self.read_so_far()) ==> r is Ok,
            checksum@ != sha256_digest(self.read_so_far()) ==> (r matches Err(
                BlockStoreError::Serialization(m),
            ) && m@ == "snapshot checksum mismatch"@),
    {
        let computed = Bytes32::new(sha256_finalize(self.hasher));
        let expected = Bytes32::new(*checksum);
        if expected.same_as(&computed) {
            Ok(())
        } else {
            Err(BlockStoreError::Serialization(owned("snapshot checksum mismatch")))
        }
    }
}

proof fn lemma_frame_prefix(block: Seq<u8>)
    ensures
        frame_prefix(block).len() == 4,
        block.len() < 0x1_0000_0000 ==> le_value(frame_prefix(block)) == block.len(),
{
    lemma_le_bytes_len(block.len() % 0x1_0000_0000, 4);
    reveal_with_fuel(pow256, 5);
    if block.len() < 0x1_0000_0000 {
        lemma_le_value_of_bytes(block.len() % 0x1_0000_0000, 4);
    }
}

/// What export writes, import reads back: parsing `n` frames off the framed payloads
/// (followed by anything) gives the payloads and leaves what follows, as long as every
/// payload's length fits the 32-bit prefix.
pub proof fn lemma_frames_round_trip(blocks: Seq<Seq<u8>>, tail: Seq<u8>)
    requires
        forall|i: int| 0 <= i < blocks.len() ==> (#[trigger] blocks[i]).len() < 0x1_0000_0000,
    ensures
        parse_frames(frames(blocks) + tail, blocks.len()) == Some((blocks, tail)),
    decreases blocks.len(),
{
    if blocks.len() > 0 {
        let init = blocks.drop_last();
        let b = blocks.last();
        assert forall|i: int| 0 <= i < init.len() implies (#[trigger] init[i]).len() < 0x1_0000_0000 by {
            assert(init[i] == blocks[i]);
        }
        lemma_frame_prefix(b);
        let rest = frame(b) + tail;
        lemma_frames_round_trip(init, rest);
        assert(frames(init) + rest =~= frames(blocks) + tail);
        assert(rest.subrange(0, 4) =~= frame_prefix(b));
        assert(rest.subrange(4, 4 + b.len() as int) =~= b);
        assert(rest.subrange(4 + b.len() as int, rest.len() as int) =~= tail);
        assert(init.push(b) =~= blocks);
    } else {
        assert(frames(blocks) + tail =~= tail);
    }
}

/// An exported stream reads back to its manifest bytes, its payloads, and a trailing
/// checksum equal to SHA-256 of everything before it, which is exactly what an import
/// has hashed when it reaches the checksum.
pub proof fn lemma_export_import_round_trip(manifest_bytes: Seq<u8>, blocks: Seq<Seq<u8>>)
    requires
        forall|i: int| 0 <= i < blocks.len() ==> (#[trigger] blocks[i]).len() < 0x1_0000_0000,
    ensures
        ({
            let stream = export_stream(manifest_bytes, blocks);
            let body = manifest_bytes + frames(blocks);
            &&& stream.subrange(0, manifest_bytes.len() as int) == manifest_bytes
            &&& parse_frames(stream.subrange(manifest_bytes.len() as int, stream.len() as int), blocks.len())
                == Some((blocks, sha256_digest(body)))
        }),
{
    let body = manifest_bytes + frames(blocks);
    let stream = export_stream(manifest_bytes, blocks);
    assert(stream.subrange(0, manifest_bytes.len() as int) =~= manifest_bytes);
    assert(stream.subrange(manifest_bytes.len() as int, stream.len() as int) =~= frames(blocks)
        + sha256_digest(body));
    lemma_frames_round_trip(blocks, sha256_digest(body));
}

} // verus!
