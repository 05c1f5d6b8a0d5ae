//! Core of a two-tier telemetry pipeline: a host-local agent that buffers,
//! batches, compresses and ships events, and the collector-side intake path
//! that validates, decompresses, enriches and stores them.
//!
//! The agent side is `buffer` -> `batcher` -> `codec` -> `transport`; the
//! collector side is `auth` -> `intake` -> `codec` -> `storage`. The wire
//! format lives in `json` and `wire`.

pub mod buffer;
pub mod capture;
pub mod auth;
pub mod batcher;
pub mod codec;
pub mod compressor;
pub mod config;
pub mod events;
pub mod intake;
pub mod json;
pub mod retry;
pub mod storage;
pub mod testdata;
pub mod transport;
pub mod wire;
