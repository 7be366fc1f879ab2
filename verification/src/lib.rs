//! A record-stream processing core: a bounded, bidirectional,
//! concurrency-safe pipe (`bgop`) that lets a pipeline stage run on a
//! background thread while presenting the same synchronous push/close/reject
//! interface as an in-thread stage.
//!
//! Every queue transition of the pipe is specified exactly, and the pipe's
//! laws (FIFO delivery, the capacity bound, sentinel-once, monotonic
//! rejection, flush on close, and freedom from the two-bounded-buffer
//! deadlock) are stated and proved in `laws`.
//!
//! Around the pipe stand the small collaborators of the surrounding
//! pipeline: the stage interface and the standard-output stage
//! (`stream`), the option parser with trie-based alias matching (`opts`
//! and `trie`), and a two-variant utility type (`misc`).

pub mod bgop;
pub mod laws;
pub mod misc;
pub mod opts;
pub mod stream;
pub mod trie;
