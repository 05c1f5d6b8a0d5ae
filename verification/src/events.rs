//! The event model: log, metric and traffic records, their shared batch
//! envelope, and the collector's response.
//!
//! Each executable type has a spec-level image under [`DeepView`], used by
//! every contract that speaks about the contents of events: strings become
//! character sequences, vectors become sequences, and integers widen. A
//! metric value travels as decimal text (see `json::is_number_text`), so the
//! core never computes with floating point; producers render the number,
//! consumers re-parse it.

use vstd::prelude::*;

use crate::json::is_number_text;

verus! {

#[derive(Debug, Clone, Copy, PartialEq, Eq, Structural)]
pub enum LogLevel {
    Trace,
    Debug,
    Info,
    Warning,
    Error,
    Critical,
}

#[derive(Debug, Clone, Copy, PartialEq, Eq, Structural)]
pub enum MetricType {
    Counter,
    Gauge,
    Histogram,
    Summary,
}

#[derive(Debug, Clone)]
pub enum Protocol {
    HTTP,
    HTTPS,
    TCP,
    UDP,
    ICMP,
    Other(String),
}

#[derive(Debug, Clone, Copy, PartialEq, Eq, Structural)]
pub enum CompressionType {
    NoCompression,
    Snappy,
    Lz4,
    Gzip,
}

#[derive(Debug, Clone, Copy, PartialEq, Eq, Structural)]
pub enum IngestStatus {
    Success,
    PartialSuccess,
    Failed,
    Rejected,
}

/// A log record from file tailing or journald. Field maps and tag lists
/// keep their insertion order.
#[derive(Debug, Clone)]
pub struct LogEvent {
    pub timestamp: i64,
    pub source: String,
    pub level: LogLevel,
    pub message: String,
    pub fields: Vec<(String, String)>,
    pub tags: Vec<String>,
}

/// A metric sample; `value` is the decimal text of the sampled number.
#[derive(Debug, Clone)]
pub struct MetricEvent {
    pub timestamp: i64,
    pub name: String,
    pub value: String,
    pub metric_type: MetricType,
    pub tags: Vec<(String, String)>,
    pub unit: Option<String>,
}

/// A traffic observation from packet capture.
#[derive(Debug, Clone)]
pub struct TrafficEvent {
    pub timestamp: i64,
    pub protocol: Protocol,
    pub src_ip: String,
    pub dst_ip: String,
    pub src_port: u16,
    pub dst_port: u16,
    pub bytes: u64,
    pub packets: u64,
    pub metadata: Vec<(String, String)>,
}

/// The tagged union over the three record shapes.
#[derive(Debug, Clone)]
pub enum Event {
    Log(LogEvent),
    Metric(MetricEvent),
    Traffic(TrafficEvent),
}

/// A compressed batch as it travels on the wire.
#[derive(Debug, Clone)]
pub struct Batch {
    pub batch_id: String,
    pub agent_id: String,
    pub hostname: String,
    pub timestamp: i64,
    pub event_count: usize,
    pub compression: CompressionType,
    pub compressed_data: Vec<u8>,
    pub checksum: String,
}

/// A batch before the codec has run.
#[derive(Debug, Clone)]
pub struct UncompressedBatch {
    pub batch_id: String,
    pub agent_id: String,
    pub hostname: String,
    pub timestamp: i64,
    pub events: Vec<Event>,
}

/// The collector's reply to one batch.
#[derive(Debug, Clone)]
pub struct IngestResponse {
    pub batch_id: String,
    pub status: IngestStatus,
    pub error_message: Option<String>,
    pub received_at: i64,
}

// ---------------------------------------------------------------------------
// Spec-level images
// ---------------------------------------------------------------------------

#[verifier::ext_equal]
pub enum ProtocolV {
    HTTP,
    HTTPS,
    TCP,
    UDP,
    ICMP,
    Other(Seq<char>),
}

#[verifier::ext_equal]
pub struct LogEventV {
    pub timestamp: i64,
    pub source: Seq<char>,
    pub level: LogLevel,
    pub message: Seq<char>,
    pub fields: Seq<(Seq<char>, Seq<char>)>,
    pub tags: Seq<Seq<char>>,
}

#[verifier::ext_equal]
pub struct MetricEventV {
    pub timestamp: i64,
    pub name: Seq<char>,
    pub value: Seq<char>,
    pub metric_type: MetricType,
    pub tags: Seq<(Seq<char>, Seq<char>)>,
    pub unit: Option<Seq<char>>,
}

#[verifier::ext_equal]
pub struct TrafficEventV {
    pub timestamp: i64,
    pub protocol: ProtocolV,
    pub src_ip: Seq<char>,
    pub dst_ip: Seq<char>,
    pub src_port: u16,
    pub dst_port: u16,
    pub bytes: u64,
    pub packets: u64,
    pub metadata: Seq<(Seq<char>, Seq<char>)>,
}

#[verifier::ext_equal]
pub enum EventV {
    Log(LogEventV),
    Metric(MetricEventV),
    Traffic(TrafficEventV),
}

#[verifier::ext_equal]
pub struct BatchV {
    pub batch_id: Seq<char>,
    pub agent_id: Seq<char>,
    pub hostname: Seq<char>,
    pub timestamp: i64,
    pub event_count: usize,
    pub compression: CompressionType,
    pub compressed_data: Seq<u8>,
    pub checksum: Seq<char>,
}

#[verifier::ext_equal]
pub struct UncompressedBatchV {
    pub batch_id: Seq<char>,
    pub agent_id: Seq<char>,
    pub hostname: Seq<char>,
    pub timestamp: i64,
    pub events: Seq<EventV>,
}

#[verifier::ext_equal]
pub struct IngestResponseV {
    pub batch_id: Seq<char>,
    pub status: IngestStatus,
    pub error_message: Option<Seq<char>>,
    pub received_at: i64,
}

impl DeepView for Protocol {
    type V = ProtocolV;

    open spec fn deep_view(&self) -> ProtocolV {
        match self {
            Protocol::HTTP => ProtocolV::HTTP,
            Protocol::HTTPS => ProtocolV::HTTPS,
            Protocol::TCP => ProtocolV::TCP,
            Protocol::UDP => ProtocolV::UDP,
            Protocol::ICMP => ProtocolV::ICMP,
            Protocol::Other(s) => ProtocolV::Other(s@),
        }
    }
}

impl DeepView for LogEvent {
    type V = LogEventV;

    open spec fn deep_view(&self) -> LogEventV {
        LogEventV {
            timestamp: self.timestamp,
            source: self.source@,
            level: self.level,
            message: self.message@,
            fields: self.fields.deep_view(),
            tags: self.tags.deep_view(),
        }
    }
}

impl DeepView for MetricEvent {
    type V = MetricEventV;

    open spec fn deep_view(&self) -> MetricEventV {
        MetricEventV {
            timestamp: self.timestamp,
            name: self.name@,
            value: self.value@,
            metric_type: self.metric_type,
            tags: self.tags.deep_view(),
            unit: self.unit.deep_view(),
        }
    }
}

impl DeepView for TrafficEvent {
    type V = TrafficEventV;

    open spec fn deep_view(&self) -> TrafficEventV {
        TrafficEventV {
            timestamp: self.timestamp,
            protocol: self.protocol.deep_view(),
            src_ip: self.src_ip@,
            dst_ip: self.dst_ip@,
            src_port: self.src_port,
            dst_port: self.dst_port,
            bytes: self.bytes,
            packets: self.packets,
            metadata: self.metadata.deep_view(),
        }
    }
}

impl DeepView for Event {
    type V = EventV;

    open spec fn deep_view(&self) -> EventV {
        match self {
            Event::Log(e) => EventV::Log(e.deep_view()),
            Event::Metric(e) => EventV::Metric(e.deep_view()),
            Event::Traffic(e) => EventV::Traffic(e.deep_view()),
        }
    }
}

impl DeepView for Batch {
    type V = BatchV;

    open spec fn deep_view(&self) -> BatchV {
        BatchV {
            batch_id: self.batch_id@,
            agent_id: self.agent_id@,
            hostname: self.hostname@,
            timestamp: self.timestamp,
            event_count: self.event_count,
            compression: self.compression,
            compressed_data: self.compressed_data@,
            checksum: self.checksum@,
        }
    }
}

impl DeepView for UncompressedBatch {
    type V = UncompressedBatchV;

    open spec fn deep_view(&self) -> UncompressedBatchV {
        UncompressedBatchV {
            batch_id: self.batch_id@,
            agent_id: self.agent_id@,
            hostname: self.hostname@,
            timestamp: self.timestamp,
            events: self.events.deep_view(),
        }
    }
}

impl DeepView for IngestResponse {
    type V = IngestResponseV;

    open spec fn deep_view(&self) -> IngestResponseV {
        IngestResponseV {
            batch_id: self.batch_id@,
            status: self.status,
            error_message: self.error_message.deep_view(),
            received_at: self.received_at,
        }
    }
}

// ---------------------------------------------------------------------------
// Well-formedness
// ---------------------------------------------------------------------------

/// A metric value must be number text; nothing else in an event is
/// constrained.
pub open spec fn event_v_wf(e: EventV) -> bool {
    match e {
        EventV::Metric(m) => is_number_text(m.value),
        _ => true,
    }
}

pub open spec fn events_v_wf(events: Seq<EventV>) -> bool {
    forall|k: int| 0 <= k < events.len() ==> event_v_wf(#[trigger] events[k])
}

impl Event {
    /// The record's timestamp, readable without discriminating the shape.
    pub fn timestamp(&self) -> (r: i64)
        ensures
            r == self.deep_view().timestamp_of(),
    {
        match self {
            Event::Log(e) => e.timestamp,
            Event::Metric(e) => e.timestamp,
            Event::Traffic(e) => e.timestamp,
        }
    }

    /// A short name for the record's shape.
    pub fn event_type(&self) -> (r: &'static str)
        ensures
            self.deep_view() is Log ==> r@ == "log"@,
            self.deep_view() is Metric ==> r@ == "metric"@,
            self.deep_view() is Traffic ==> r@ == "traffic"@,
    {
        match self {
            Event::Log(_) => "log",
            Event::Metric(_) => "metric",
            Event::Traffic(_) => "traffic",
        }
    }
}

impl EventV {
    pub open spec fn timestamp_of(self) -> i64 {
        match self {
            EventV::Log(e) => e.timestamp,
            EventV::Metric(e) => e.timestamp,
            EventV::Traffic(e) => e.timestamp,
        }
    }
}

} // verus!
