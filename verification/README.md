# dig_blockstore

Persistent block storage for the DIG L2 network.

- `src/` is the library, verified with Verus: key encodings and their ordering, the
  chain-tip record, the dense canonical index, block payload compression with an
  optional trained zstd dictionary, write planning for `put`, genesis and batched
  ingestion, range scans, snapshot framing and checksums, and the sharded block cache.
  Calls into `zstd`, `bincode`, `dig-block`, `chia-sha2`, `lru` and `rand` go through
  small trusted wrappers whose contracts are stated in their doc comments.
- `app/` is the storage engine around it: RocksDB column families, the `canonical.bin`
  file, the asynchronous write queue, snapshot streams, and error and manifest types that
  need outside derives.
- `tests/` exercises the library on concrete values.

## Configuration defaults

`BlockStoreConfig::default()` gives the production settings: path `data/blockstore`,
block cache 1000 entries, header cache 2000, 16 shards, cache warming on with depth 64
(the last 64 canonical heights ending at the tip; depth 0 warms nothing), memtable 64 MiB,
engine block cache 128 MiB, 1000 open files, blob files on, zstd level 3 with a trained
dictionary, a 128 MiB decompression cap, pipeline batches of 64 blocks flushed after
100 ms with a channel depth of 256, no per-write sync, 2 MiB readahead, 10 000-entry
height and hash caches, and compaction pruning off. Tests that need cold caches set
`warm_cache_on_open` to false.
