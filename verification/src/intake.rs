//! The collector's intake path: frame dispatch, batch processing, and
//! enrichment.
//!
//! Each accepted connection runs a receive loop outside the library; the
//! library decides what every inbound frame means, and turns one text frame
//! into events for the sink plus the reply to send back.

use vstd::prelude::*;

use crate::batcher::clone_string;
use crate::codec::str_eq_str;
use crate::codec::p_events_exact;
use crate::compressor::{
    checksum_matches, scheme_of, CodecError, Compressor, MAX_DECOMPRESSED_BYTES,
};
use crate::config::{ProcessorSettings, StorageSettings};
use crate::events::{
    Batch, BatchV, CompressionType, Event, EventV, IngestResponse, IngestStatus, LogEvent,
    MetricEvent, TrafficEvent,
};
use crate::storage::{create_backend, ConsoleBackend, StorageBackend};
use crate::wire::p_batch_exact;

verus! {

/// An inbound frame as the runtime hands it over.
#[derive(Debug, Clone)]
pub enum InboundFrame {
    Text(Vec<u8>),
    Binary(Vec<u8>),
    Ping(Vec<u8>),
    Pong(Vec<u8>),
    Close,
    /// A transport-level read error.
    Failure,
}

/// What the receive loop must do with one frame.
#[derive(Debug, Clone)]
pub enum FrameAction {
    /// Run the batch path over these bytes and send the reply.
    ProcessText(Vec<u8>),
    /// Answer with a pong carrying the same payload.
    ReplyPong(Vec<u8>),
    /// Log-and-ignore frames: binary (reserved) and pong.
    Ignore,
    /// Leave the receive loop: a close frame or a read error.
    Stop,
}

/// The dispatch rule of the receive loop: text is processed, ping answered
/// in kind, binary and pong ignored, close and errors end the loop.
pub fn dispatch_frame(frame: InboundFrame) -> (r: FrameAction)
    ensures
        frame matches InboundFrame::Text(t) ==> r matches FrameAction::ProcessText(p) && p@
            == t@,
        frame matches InboundFrame::Ping(d) ==> r matches FrameAction::ReplyPong(p) && p@ == d@,
        frame is Binary ==> r is Ignore,
        frame is Pong ==> r is Ignore,
        frame is Close ==> r is Stop,
        frame is Failure ==> r is Stop,
{
    match frame {
        InboundFrame::Text(t) => FrameAction::ProcessText(t),
        InboundFrame::Ping(d) => FrameAction::ReplyPong(d),
        InboundFrame::Binary(_) => FrameAction::Ignore,
        InboundFrame::Pong(_) => FrameAction::Ignore,
        InboundFrame::Close => FrameAction::Stop,
        InboundFrame::Failure => FrameAction::Stop,
    }
}

// ---------------------------------------------------------------------------
// Enrichment
// ---------------------------------------------------------------------------

/// A string map with every entry under `key` removed.
pub open spec fn assoc_remove(ps: Seq<(Seq<char>, Seq<char>)>, key: Seq<char>) -> Seq<
    (Seq<char>, Seq<char>),
>
    decreases ps.len(),
{
    if ps.len() == 0 {
        Seq::empty()
    } else if ps[0].0 == key {
        assoc_remove(ps.drop_first(), key)
    } else {
        seq![ps[0]] + assoc_remove(ps.drop_first(), key)
    }
}

/// Binding `key` to `value`: any previous binding goes, the new one stands
/// at the end.
pub open spec fn assoc_set(
    ps: Seq<(Seq<char>, Seq<char>)>,
    key: Seq<char>,
    value: Seq<char>,
) -> Seq<(Seq<char>, Seq<char>)> {
    assoc_remove(ps, key).push((key, value))
}

proof fn lemma_assoc_remove_snoc(
    ps: Seq<(Seq<char>, Seq<char>)>,
    p: (Seq<char>, Seq<char>),
    key: Seq<char>,
)
    ensures
        assoc_remove(ps.push(p), key) == if p.0 == key {
            assoc_remove(ps, key)
        } else {
            assoc_remove(ps, key).push(p)
        },
    decreases ps.len(),
{
    if ps.len() == 0 {
        assert(ps.push(p).drop_first() =~= Seq::<(Seq<char>, Seq<char>)>::empty());
        assert(ps =~= Seq::<(Seq<char>, Seq<char>)>::empty());
        assert(ps.push(p)[0] == p);
        if p.0 == key {
            assert(assoc_remove(ps.push(p), key) =~= assoc_remove(ps, key));
        } else {
            assert(assoc_remove(ps.push(p), key) =~= assoc_remove(ps, key).push(p));
        }
    } else {
        assert(ps.push(p).drop_first() =~= ps.drop_first().push(p));
        assert(ps.push(p)[0] == ps[0]);
        lemma_assoc_remove_snoc(ps.drop_first(), p, key);
        if p.0 == key {
            assert(assoc_remove(ps.push(p), key) =~= assoc_remove(ps, key));
        } else {
            assert(assoc_remove(ps.push(p), key) =~= assoc_remove(ps, key).push(p));
        }
    }
}

/// Rebinds `key` to `value` in a string map carried as ordered entries.
fn assoc_set_exec(ps: &Vec<(String, String)>, key: &str, value: String) -> (r: Vec<
    (String, String),
>)
    ensures
        r.deep_view() == assoc_set(ps.deep_view(), key@, value@),
{
    let mut out: Vec<(String, String)> = Vec::new();
    let n = ps.len();
    let mut k: usize = 0;
    while k < n
        invariant
            n == ps@.len(),
            k <= n,
            out.deep_view() == assoc_remove(ps.deep_view().take(k as int), key@),
        decreases n - k,
    {
        let keep = !str_eq_str(ps[k].0.as_str(), key);
        proof {
            assert(ps.deep_view().take(k + 1) =~= ps.deep_view().take(k as int).push(
                ps.deep_view()[k as int],
            ));
            lemma_assoc_remove_snoc(
                ps.deep_view().take(k as int),
                ps.deep_view()[k as int],
                key@,
            );
            assert(ps.deep_view()[k as int] == (ps@[k as int].0@, ps@[k as int].1@));
        }
        if keep {
            let entry = (clone_string(&ps[k].0), clone_string(&ps[k].1));
            out.push(entry);
            proof {
                assert(out.deep_view() =~= assoc_remove(ps.deep_view().take(k + 1), key@));
            }
        } else {
            proof {
                assert(out.deep_view() =~= assoc_remove(ps.deep_view().take(k + 1), key@));
            }
        }
        k = k + 1;
    }
    proof {
        assert(ps.deep_view().take(n as int) =~= ps.deep_view());
    }
    let keyed = String::new();
    let keyed = keyed.concat(key);
    out.push((keyed, value));
    proof {
        assert(Seq::<char>::empty() + key@ =~= key@);
        assert(out.deep_view() =~= assoc_set(ps.deep_view(), key@, value@));
    }
    out
}

/// One event with the batch's identity attached: log events grow two tags,
/// metric and traffic events two map entries.
pub open spec fn enriched_event(e: EventV, agent_id: Seq<char>, hostname: Seq<char>) -> EventV {
    match e {
        EventV::Log(l) => EventV::Log(
            crate::events::LogEventV {
                tags: l.tags + seq!["agent_id:"@ + agent_id, "hostname:"@ + hostname],
                ..l
            },
        ),
        EventV::Metric(m) => EventV::Metric(
            crate::events::MetricEventV {
                tags: assoc_set(
                    assoc_set(m.tags, "agent_id"@, agent_id),
                    "hostname"@,
                    hostname,
                ),
                ..m
            },
        ),
        EventV::Traffic(t) => EventV::Traffic(
            crate::events::TrafficEventV {
                metadata: assoc_set(
                    assoc_set(t.metadata, "agent_id"@, agent_id),
                    "hostname"@,
                    hostname,
                ),
                ..t
            },
        ),
    }
}

/// Attaches the batch identity to one event.
fn enrich_event(e: Event, agent_id: &str, hostname: &str) -> (r: Event)
    ensures
        r.deep_view() == enriched_event(e.deep_view(), agent_id@, hostname@),
{
    match e {
        Event::Log(mut l) => {
            let tag1 = String::new();
            let tag1 = tag1.concat("agent_id:");
            let tag1 = tag1.concat(agent_id);
            let tag2 = String::new();
            let tag2 = tag2.concat("hostname:");
            let tag2 = tag2.concat(hostname);
            let ghost pre = l.tags.deep_view();
            l.tags.push(tag1);
            l.tags.push(tag2);
            proof {
                assert(Seq::<char>::empty() + "agent_id:"@ =~= "agent_id:"@);
                assert(Seq::<char>::empty() + "hostname:"@ =~= "hostname:"@);
                assert(l.tags.deep_view() =~= pre + seq![
                    "agent_id:"@ + agent_id@,
                    "hostname:"@ + hostname@,
                ]);
            }
            Event::Log(l)
        },
        Event::Metric(mut m) => {
            let aid = String::new();
            let aid = aid.concat(agent_id);
            let host = String::new();
            let host = host.concat(hostname);
            proof {
                assert(Seq::<char>::empty() + agent_id@ =~= agent_id@);
                assert(Seq::<char>::empty() + hostname@ =~= hostname@);
            }
            let step1 = assoc_set_exec(&m.tags, "agent_id", aid);
            let step2 = assoc_set_exec(&step1, "hostname", host);
            m.tags = step2;
            Event::Metric(m)
        },
        Event::Traffic(mut t) => {
            let aid = String::new();
            let aid = aid.concat(agent_id);
            let host = String::new();
            let host = host.concat(hostname);
            proof {
                assert(Seq::<char>::empty() + agent_id@ =~= agent_id@);
                assert(Seq::<char>::empty() + hostname@ =~= hostname@);
            }
            let step1 = assoc_set_exec(&t.metadata, "agent_id", aid);
            let step2 = assoc_set_exec(&step1, "hostname", host);
            t.metadata = step2;
            Event::Traffic(t)
        },
    }
}

/// All events of a batch with its identity attached, order kept.
pub fn enrich_events(events: Vec<Event>, agent_id: &str, hostname: &str) -> (r: Vec<Event>)
    ensures
        r.deep_view().len() == events.deep_view().len(),
        forall|k: int|
            0 <= k < events.deep_view().len() ==> #[trigger] r.deep_view()[k] == enriched_event(
                events.deep_view()[k],
                agent_id@,
                hostname@,
            ),
{
    let mut out: Vec<Event> = Vec::new();
    let n = events.len();
    let mut src = events;
    let mut k: usize = 0;
    let ghost evs = src.deep_view();
    while k < n
        invariant
            evs == src.deep_view(),
            n == src@.len(),
            k <= n,
            out.deep_view().len() == k,
            forall|m: int|
                0 <= m < k ==> #[trigger] out.deep_view()[m] == enriched_event(
                    evs[m],
                    agent_id@,
                    hostname@,
                ),
        decreases n - k,
    {
        let e = clone_event(&src[k]);
        let enriched = enrich_event(e, agent_id, hostname);
        let ghost pre_out = out.deep_view();
        let ghost ev = enriched.deep_view();
        out.push(enriched);
        proof {
            assert(evs[k as int] == src@[k as int].deep_view());
            assert(out.deep_view() =~= pre_out.push(ev));
        }
        k = k + 1;
    }
    out
}

/// Structural copy of one event.
fn clone_event(e: &Event) -> (r: Event)
    ensures
        r.deep_view() == e.deep_view(),
{
    match e {
        Event::Log(l) => Event::Log(
            LogEvent {
                timestamp: l.timestamp,
                source: clone_string(&l.source),
                level: l.level,
                message: clone_string(&l.message),
                fields: clone_pairs(&l.fields),
                tags: clone_strings(&l.tags),
            },
        ),
        Event::Metric(m) => Event::Metric(
            MetricEvent {
                timestamp: m.timestamp,
                name: clone_string(&m.name),
                value: clone_string(&m.value),
                metric_type: m.metric_type,
                tags: clone_pairs(&m.tags),
                unit: match &m.unit {
                    Some(u) => Some(clone_string(u)),
                    None => None,
                },
            },
        ),
        Event::Traffic(t) => Event::Traffic(
            TrafficEvent {
                timestamp: t.timestamp,
                protocol: match &t.protocol {
                    crate::events::Protocol::HTTP => crate::events::Protocol::HTTP,
                    crate::events::Protocol::HTTPS => crate::events::Protocol::HTTPS,
                    crate::events::Protocol::TCP => crate::events::Protocol::TCP,
                    crate::events::Protocol::UDP => crate::events::Protocol::UDP,
                    crate::events::Protocol::ICMP => crate::events::Protocol::ICMP,
                    crate::events::Protocol::Other(s) => crate::events::Protocol::Other(
                        clone_string(s),
                    ),
                },
                src_ip: clone_string(&t.src_ip),
                dst_ip: clone_string(&t.dst_ip),
                src_port: t.src_port,
                dst_port: t.dst_port,
                bytes: t.bytes,
                packets: t.packets,
                metadata: clone_pairs(&t.metadata),
            },
        ),
    }
}

fn clone_pairs(ps: &Vec<(String, String)>) -> (r: Vec<(String, String)>)
    ensures
        r.deep_view() == ps.deep_view(),
{
    let mut out: Vec<(String, String)> = Vec::new();
    let n = ps.len();
    let mut k: usize = 0;
    while k < n
        invariant
            n == ps@.len(),
            k <= n,
            out.deep_view() == ps.deep_view().take(k as int),
        decreases n - k,
    {
        let entry = (clone_string(&ps[k].0), clone_string(&ps[k].1));
        let ghost ev = (entry.0@, entry.1@);
        let ghost pre = out.deep_view();
        out.push(entry);
        proof {
            assert(out.deep_view() =~= pre.push(ev));
            assert(ps.deep_view()[k as int] == (ps@[k as int].0@, ps@[k as int].1@));
            assert(out.deep_view() =~= ps.deep_view().take(k + 1));
        }
        k = k + 1;
    }
    proof {
        assert(ps.deep_view().take(n as int) =~= ps.deep_view());
    }
    out
}

fn clone_strings(ts: &Vec<String>) -> (r: Vec<String>)
    ensures
        r.deep_view() == ts.deep_view(),
{
    let mut out: Vec<String> = Vec::new();
    let n = ts.len();
    let mut k: usize = 0;
    while k < n
        invariant
            n == ts@.len(),
            k <= n,
            out.deep_view() == ts.deep_view().take(k as int),
        decreases n - k,
    {
        let entry = clone_string(&ts[k]);
        let ghost ev = entry@;
        let ghost pre = out.deep_view();
        out.push(entry);
        proof {
            assert(out.deep_view() =~= pre.push(ev));
            assert(ts.deep_view()[k as int] == ts@[k as int]@);
            assert(out.deep_view() =~= ts.deep_view().take(k + 1));
        }
        k = k + 1;
    }
    proof {
        assert(ts.deep_view().take(n as int) =~= ts.deep_view());
    }
    out
}

// ---------------------------------------------------------------------------
// The batch processor
// ---------------------------------------------------------------------------

/// A processing failure: the codec refused the batch, or the sink did.
#[derive(Debug, Clone)]
pub enum ProcessError {
    Codec(CodecError),
    Sink(String),
}

/// A batch the codec can accept: truthful checksum, a supported scheme,
/// and a payload that is the scheme's image, under the ceiling, of bytes
/// that parse back to events.
pub open spec fn batch_decodable(bv: BatchV) -> bool {
    &&& checksum_matches(bv)
    &&& bv.compression != CompressionType::Lz4
    &&& exists|orig: Seq<u8>|
        orig.len() <= MAX_DECOMPRESSED_BYTES && bv.compressed_data == #[trigger] scheme_of(
            bv.compression,
            orig,
        ) && p_events_exact(orig) is Some
}

/// Decompresses, enriches and stores batches for one connection.
pub struct BatchProcessor<S: StorageBackend> {
    pub config: ProcessorSettings,
    pub storage: S,
}

impl BatchProcessor<ConsoleBackend> {
    /// A processor over the backend the storage settings select.
    pub fn new(config: ProcessorSettings, storage_config: StorageSettings) -> (r: BatchProcessor<
        ConsoleBackend,
    >)
        ensures
            r.config == config,
    {
        BatchProcessor { config, storage: create_backend(storage_config) }
    }
}

impl<S: StorageBackend> BatchProcessor<S> {
    /// Decompress, enrich with the batch identity, and hand to the sink.
    /// A checksum mismatch is rejected exactly when the envelope checksum
    /// is untrue of the payload; codec errors are never retried.
    pub fn process(&self, batch: Batch) -> (r: Result<(), ProcessError>)
        ensures
            (!checksum_matches(batch.deep_view())) <==> (r matches Err(e) && e matches
                ProcessError::Codec(c) && c == CodecError::ChecksumMismatch),
            (checksum_matches(batch.deep_view()) && batch.compression == CompressionType::Lz4)
                <==> (r matches Err(e) && e matches ProcessError::Codec(c) && c
                == CodecError::UnsupportedCompression),
            r is Ok ==> checksum_matches(batch.deep_view()),
            // A batch the codec can accept never fails on the codec side:
            // the result is Ok, or a sink error.
            batch_decodable(batch.deep_view()) ==> !(r matches Err(e) && e is Codec),
            // With a sink that cannot fail, acceptance is owed outright.
            (batch_decodable(batch.deep_view()) && self.storage.store_always_succeeds()) ==> r
                is Ok,
    {
        let events = match Compressor::decompress(&batch) {
            Ok(evs) => evs,
            Err(e) => {
                proof {
                    if batch_decodable(batch.deep_view()) {
                        let orig = choose|orig: Seq<u8>|
                            orig.len() <= MAX_DECOMPRESSED_BYTES && batch.deep_view().compressed_data
                                == #[trigger] scheme_of(batch.deep_view().compression, orig)
                                && p_events_exact(orig) is Some;
                        assert(false);
                    }
                }
                return Err(ProcessError::Codec(e));
            },
        };
        let enriched = enrich_events(events, batch.agent_id.as_str(), batch.hostname.as_str());
        match self.storage.store_events(enriched) {
            Ok(()) => Ok(()),
            Err(msg) => {
                proof {
                    assert(!self.storage.store_always_succeeds());
                }
                Err(ProcessError::Sink(msg))
            },
        }
    }

    /// One text frame end to end: parse the envelope, process, and build
    /// the reply. An unparsable frame is rejected under the id `unknown`
    /// with a diagnostic; codec failures (a stale checksum, the unsupported
    /// lz4 scheme, a bad payload) are rejected with a message naming the
    /// checksum check; and a batch the codec can accept is never rejected —
    /// with an infallible sink it is accepted outright, otherwise the
    /// sink's failure comes back as `Failed` with the sink's text.
    pub fn handle_text(&self, text: Vec<u8>, now_ms: i64) -> (r: IngestResponse)
        ensures
            p_batch_exact(text@) is None ==> r.deep_view().batch_id == "unknown"@
                && r.deep_view().status == IngestStatus::Rejected
                && r.deep_view().error_message == Some("invalid batch format"@),
            p_batch_exact(text@) matches Some(bv) ==> {
                &&& r.deep_view().batch_id == bv.batch_id
                &&& (!checksum_matches(bv) ==> r.deep_view().status == IngestStatus::Rejected)
                &&& (r.deep_view().status == IngestStatus::Success ==> checksum_matches(bv))
                &&& (r.deep_view().status == IngestStatus::Rejected ==> r.deep_view().error_message
                    == Some("batch rejected: checksum or payload invalid"@))
                &&& (batch_decodable(bv) ==> r.deep_view().status != IngestStatus::Rejected)
                &&& (r.deep_view().status == IngestStatus::Failed
                    ==> r.deep_view().error_message is Some)
                &&& ((checksum_matches(bv) && bv.compression == CompressionType::Lz4)
                    ==> r.deep_view().status == IngestStatus::Rejected)
                &&& ((batch_decodable(bv) && self.storage.store_always_succeeds())
                    ==> r.deep_view().status == IngestStatus::Success)
            },
            r.deep_view().received_at == now_ms,
    {
        let batch = match crate::wire::batch_from_json(&text) {
            Some(b) => b,
            None => {
                let unknown = String::new();
                let unknown = unknown.concat("unknown");
                let msg = String::new();
                let msg = msg.concat("invalid batch format");
                proof {
                    assert(Seq::<char>::empty() + "unknown"@ =~= "unknown"@);
                    assert(Seq::<char>::empty() + "invalid batch format"@ =~= "invalid batch format"@);
                }
                return IngestResponse {
                    batch_id: unknown,
                    status: IngestStatus::Rejected,
                    error_message: Some(msg),
                    received_at: now_ms,
                };
            },
        };
        let batch_id = clone_string(&batch.batch_id);
        proof {
            assert(batch.deep_view() == p_batch_exact(text@)->Some_0);
        }
        match self.process(batch) {
            Ok(()) => IngestResponse {
                batch_id,
                status: IngestStatus::Success,
                error_message: None,
                received_at: now_ms,
            },
            Err(ProcessError::Codec(_)) => {
                let msg = String::new();
                let msg = msg.concat("batch rejected: checksum or payload invalid");
                proof {
                    assert(Seq::<char>::empty() + "batch rejected: checksum or payload invalid"@
                        =~= "batch rejected: checksum or payload invalid"@);
                }
                IngestResponse {
                    batch_id,
                    status: IngestStatus::Rejected,
                    error_message: Some(msg),
                    received_at: now_ms,
                }
            },
            Err(ProcessError::Sink(detail)) => IngestResponse {
                batch_id,
                status: IngestStatus::Failed,
                error_message: Some(detail),
                received_at: now_ms,
            },
        }
    }
}

} // verus!
