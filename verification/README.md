# mudu_kernel (verified core)

The storage and transaction bookkeeping core of the mudu database kernel,
written in Verus. `src/` is the verified library; `app/` holds what needs
threads, locks, I/O or process-wide state around it.

- `storage::extent` — the two-bit page-state bitmap (`QuadBitmap`) with its
  searches, counts and iterator; extent headers (`ExtentMeta`), the page
  allocation state of an extent (`ExtentPayload`) and `Extent`.
- `storage::page_block`, `storage::constant` — page images, their header
  fields (big-endian `u64`s) and checksums, and the byte layout of pages.
- `storage::log_entry`, `storage::data_file` — log sequence numbers, log
  entries, data file ids, free extents (kept in a `roaring` bitmap) and the
  creation of new extents.
- `storage::bufer_manager`, `storage::frame_ctrl`, `storage::frame` — the free
  frame list, the decisions of fetching a page into the pool, the frame use
  count and swap-out protocol, page data reads and writes.
- `storage::table_space` — the decisions of allocating a page in a table
  space.
- `tx` — the lock queue of a key and the list of running transactions.
- `x_log::iou` — the io_uring log writer's arithmetic: sector alignment,
  which records fit in a buffer (by their sizes), the bytes a buffer is
  written from (the records, then zero padding), the planning of a batch
  of log writes over the buffers, the completion of a buffer's write, and
  the wait of the writer's event loop.
- `collection` — the decisions of get-or-create on concurrent maps, run by
  `app/` over `scc`'s maps.
- `server`, `wal`, `meta`, `contract`, `x_engine` — log batches of single-key
  changes, the decisions of a worker's commit, session transactions, catalog
  transaction ids, thread and session distribution, and small data types.
