//! The time-and-size-triggered batcher: drains the buffer, assembles an
//! uncompressed batch under a fresh identifier, and runs the codec.
//!
//! The interval timer and the handoff channel to the transport are runtime
//! concerns outside the library; `tick` is what one timer wake-up does,
//! from the drain through the codec.

use vstd::prelude::*;

use crate::buffer::RingBuffer;
use crate::codec::{enc_events, str_eq_str};
use crate::compressor::{compress_post, CodecError, Compressor};
use crate::config::{AgentSettings, BufferSettings};
use crate::events::{
    events_v_wf, Batch, CompressionType, Event, UncompressedBatch, UncompressedBatchV,
};

verus! {

/// Relies on uuid::Uuid::new_v4 and its hyphenated rendering: a fresh
/// random identifier, 36 characters long. Nothing links two calls.
#[verifier::external_body]
pub fn new_batch_id() -> (r: String)
    ensures
        r@.len() == 36,
{
    uuid::Uuid::new_v4().to_string()
}

/// Relies on chrono::Utc::now: the current wall-clock time in milliseconds
/// since the epoch. Nothing is promised of the value.
#[verifier::external_body]
pub fn now_millis() -> i64 {
    chrono::Utc::now().timestamp_millis()
}

pub struct Batcher {
    pub config: BufferSettings,
    pub agent: AgentSettings,
}

/// The compression scheme a configuration string selects; anything unknown
/// falls back to snappy.
pub open spec fn compression_of_name(name: Seq<char>) -> CompressionType {
    if name == "snappy"@ {
        CompressionType::Snappy
    } else if name == "lz4"@ {
        CompressionType::Lz4
    } else if name == "gzip"@ {
        CompressionType::Gzip
    } else if name == "none"@ {
        CompressionType::NoCompression
    } else {
        CompressionType::Snappy
    }
}

impl Batcher {
    pub fn new(config: BufferSettings, agent: AgentSettings) -> (r: Batcher)
        ensures
            r.config == config,
            r.agent == agent,
    {
        Batcher { config, agent }
    }

    /// The scheme selected by the configuration's `compression` string.
    pub fn parse_compression_type(&self) -> (r: CompressionType)
        ensures
            r == compression_of_name(self.config.compression@),
    {
        let name = self.config.compression.as_str();
        if str_eq_str(name, "snappy") {
            CompressionType::Snappy
        } else if str_eq_str(name, "lz4") {
            CompressionType::Lz4
        } else if str_eq_str(name, "gzip") {
            CompressionType::Gzip
        } else if str_eq_str(name, "none") {
            CompressionType::NoCompression
        } else {
            CompressionType::Snappy
        }
    }

    /// Assembles and compresses one batch from already-drained events,
    /// under the given fresh identifier and assembly time.
    pub fn assemble(&self, events: Vec<Event>, batch_id: String, now_ms: i64) -> (r: Result<
        Batch,
        CodecError,
    >)
        requires
            events_v_wf(events.deep_view()),
        ensures
            r matches Ok(b) ==> compress_post(
                UncompressedBatchV {
                    batch_id: batch_id@,
                    agent_id: self.agent.id@,
                    hostname: self.agent.hostname@,
                    timestamp: now_ms,
                    events: events.deep_view(),
                },
                compression_of_name(self.config.compression@),
                b.deep_view(),
            ),
            r matches Err(e) ==> e == CodecError::TooLarge && enc_events(
                events.deep_view(),
            ).len() > crate::compressor::SNAPPY_SAFE_INPUT_BYTES,
            enc_events(events.deep_view()).len()
                <= crate::compressor::SNAPPY_SAFE_INPUT_BYTES ==> r is Ok,
    {
        let compression = self.parse_compression_type();
        let uncompressed = UncompressedBatch {
            batch_id,
            agent_id: clone_string(&self.agent.id),
            hostname: clone_string(&self.agent.hostname),
            timestamp: now_ms,
            events,
        };
        Compressor::compress(uncompressed, compression)
    }

    /// One timer wake-up: nothing when the drained set is empty (an empty
    /// buffer, or a batch size of zero), otherwise a compressed batch built
    /// from up to `max_batch_size` drained events.
    pub fn tick(&self, buffer: &mut RingBuffer, batch_id: String, now_ms: i64) -> (r: Option<
        Result<Batch, CodecError>,
    >)
        requires
            old(buffer).inv(),
        ensures
            final(buffer).inv(),
            final(buffer).capacity_spec() == old(buffer).capacity_spec(),
            ({
                let drained = old(buffer).contents().take(
                    vstd::math::min(
                        self.config.max_batch_size as int,
                        old(buffer).contents().len() as int,
                    ),
                );
                if drained.len() == 0 {
                    r is None && final(buffer).contents() == old(buffer).contents()
                } else {
                    &&& final(buffer).contents() == old(buffer).contents().skip(
                        drained.len() as int,
                    )
                    &&& (r matches Some(res) && (res matches Ok(b) ==> compress_post(
                        UncompressedBatchV {
                            batch_id: batch_id@,
                            agent_id: self.agent.id@,
                            hostname: self.agent.hostname@,
                            timestamp: now_ms,
                            events: drained,
                        },
                        compression_of_name(self.config.compression@),
                        b.deep_view(),
                    )) && (res matches Err(e) ==> e == CodecError::TooLarge && enc_events(
                        drained,
                    ).len() > crate::compressor::SNAPPY_SAFE_INPUT_BYTES) && (enc_events(
                        drained,
                    ).len() <= crate::compressor::SNAPPY_SAFE_INPUT_BYTES ==> res is Ok))
                }
            }),
    {
        if buffer.is_empty() {
            return None;
        }
        let events = buffer.drain(self.config.max_batch_size);
        if events.is_empty() {
            proof {
                assert(old(buffer).contents().skip(0) =~= old(buffer).contents());
            }
            return None;
        }
        proof {
            let m = vstd::math::min(
                self.config.max_batch_size as int,
                old(buffer).contents().len() as int,
            );
            assert(events.deep_view() == old(buffer).contents().take(m));
            assert(events_v_wf(events.deep_view())) by {
                assert(forall|k: int|
                    0 <= k < events.deep_view().len() ==> #[trigger] events.deep_view()[k] == old(
                        buffer,
                    ).contents()[k]);
            }
        }
        Some(self.assemble(events, batch_id, now_ms))
    }
}

/// Character-for-character copy of a string.
pub fn clone_string(s: &String) -> (r: String)
    ensures
        r@ == s@,
{
    let out = String::new();
    let r = out.concat(s.as_str());
    proof {
        assert(Seq::<char>::empty() + s@ =~= s@);
    }
    r
}

} // verus!
