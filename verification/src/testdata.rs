//! Sample event generators for development and testing.
//!
//! The shapes mirror realistic collector output: rotating log sources and
//! messages, a trio of system metrics per step, and synthetic traffic
//! flows. Timestamps start at the clock now and step forward; additions
//! saturate instead of wrapping.

use vstd::prelude::*;

use crate::batcher::now_millis;
use crate::events::{
    events_v_wf, Event, EventV, LogEvent, LogLevel, MetricEvent, MetricType, Protocol,
    TrafficEvent,
};
use crate::json::{bytes_chars, dec_u64, u64_string};

verus! {

/// `base + step * k`, capped at the top of the range.
fn offset_ts(base: i64, step: u64, k: usize) -> (r: i64)
    requires
        step > 0,
{
    let scaled: u64 = if (k as u64) > u64::MAX / step {
        u64::MAX
    } else {
        proof {
            assert((k as u64) * step <= u64::MAX) by (nonlinear_arith)
                requires
                    (k as u64) <= u64::MAX / step,
                    step > 0,
            ;
        }
        (k as u64) * step
    };
    let off: i64 = if scaled > i64::MAX as u64 {
        i64::MAX
    } else {
        scaled as i64
    };
    if base >= 0 && off > i64::MAX - base {
        i64::MAX
    } else if base < 0 {
        base
    } else {
        base + off
    }
}

fn lit_string(s: &str) -> (r: String)
    ensures
        r@ == s@,
{
    let out = String::new();
    let r = out.concat(s);
    proof {
        assert(Seq::<char>::empty() + s@ =~= s@);
    }
    r
}

/// Sample log events: rotating sources, messages and levels, two request
/// fields and two tags each.
pub fn generate_log_events(count: usize) -> (r: Vec<Event>)
    ensures
        r.deep_view().len() == count,
        forall|k: int|
            0 <= k < count ==> ((#[trigger] r.deep_view()[k]) matches EventV::Log(l)
                && l.source.len() > 0 && l.message.len() > 0),
        events_v_wf(r.deep_view()),
{
    let base = now_millis();
    let mut events: Vec<Event> = Vec::new();
    let mut i: usize = 0;
    while i < count
        invariant
            i <= count,
            events.deep_view().len() == i,
            forall|k: int|
                0 <= k < i ==> ((#[trigger] events.deep_view()[k]) matches EventV::Log(l)
                    && l.source.len() > 0 && l.message.len() > 0),
        decreases count - i,
    {
        let source = match i % 3 {
            0 => lit_string("/var/log/nginx/access.log"),
            1 => lit_string("/var/log/app/application.log"),
            _ => lit_string("/var/log/syslog"),
        };
        let message_base = match i % 5 {
            0 => lit_string("User login successful"),
            1 => lit_string("API request completed in 45ms"),
            2 => lit_string("Database query executed"),
            3 => lit_string("Cache hit for key: user_123"),
            _ => lit_string("Started processing job"),
        };
        let message = message_base.concat(" (").concat(
            u64_string(i as u64).as_str(),
        ).concat(")");
        let level = match i % 5 {
            0 => LogLevel::Debug,
            1 => LogLevel::Info,
            2 => LogLevel::Info,
            3 => LogLevel::Warning,
            _ => LogLevel::Error,
        };
        let mut fields: Vec<(String, String)> = Vec::new();
        fields.push((lit_string("request_id"), lit_string("req_").concat(
            u64_string(i as u64).as_str(),
        )));
        fields.push((lit_string("user_id"), lit_string("user_").concat(
            u64_string((i % 100) as u64).as_str(),
        )));
        let mut tags: Vec<String> = Vec::new();
        tags.push(lit_string("env:test"));
        tags.push(lit_string("instance:").concat(u64_string((i % 3) as u64).as_str()));
        let e = Event::Log(
            LogEvent {
                timestamp: offset_ts(base, 1000, i),
                source,
                level,
                message,
                fields,
                tags,
            },
        );
        let ghost pre = events.deep_view();
        let ghost ev = e.deep_view();
        events.push(e);
        proof {
            reveal_strlit("/var/log/nginx/access.log");
            reveal_strlit("/var/log/app/application.log");
            reveal_strlit("/var/log/syslog");
            reveal_strlit(" (");
            assert(ev matches EventV::Log(l) && l.source.len() > 0 && l.message.len() > 0);
            assert(events.deep_view() =~= pre.push(ev));
        }
        i = i + 1;
    }
    events
}

/// Sample metric events: a CPU gauge, a memory gauge and a request counter
/// per step, all with valid decimal value text.
pub fn generate_metric_events(count: usize) -> (r: Vec<Event>)
    requires
        count <= usize::MAX / 3,
    ensures
        r.deep_view().len() == count * 3,
        forall|k: int|
            0 <= k < count * 3 ==> ((#[trigger] r.deep_view()[k]) matches EventV::Metric(m)
                && m.name.len() > 0 && (exists|n: u64| m.value == bytes_chars(
                dec_u64(n as nat),
            ))),
        events_v_wf(r.deep_view()),
{
    let mut events: Vec<Event> = Vec::new();
    let base = now_millis();
    let mut i: usize = 0;
    while i < count
        invariant
            count <= usize::MAX / 3,
            i <= count,
            events.deep_view().len() == i * 3,
            forall|k: int|
                0 <= k < i * 3 ==> ((#[trigger] events.deep_view()[k]) matches EventV::Metric(m)
                    && m.name.len() > 0 && (exists|n: u64| m.value == bytes_chars(
                    dec_u64(n as nat),
                ))),
            events_v_wf(events.deep_view()),
        decreases count - i,
    {
        let ts = offset_ts(base, 10000, i);
        let mut host_tags: Vec<(String, String)> = Vec::new();
        host_tags.push((lit_string("host"), lit_string("host-").concat(
            u64_string((i % 5) as u64).as_str(),
        )));
        let cpu = Event::Metric(
            MetricEvent {
                timestamp: ts,
                name: lit_string("system.cpu.usage"),
                value: u64_string(20 + ((i % 60) as u64)),
                metric_type: MetricType::Gauge,
                tags: host_tags,
                unit: Some(lit_string("%")),
            },
        );
        let mut host_tags2: Vec<(String, String)> = Vec::new();
        host_tags2.push((lit_string("host"), lit_string("host-").concat(
            u64_string((i % 5) as u64).as_str(),
        )));
        let mem = Event::Metric(
            MetricEvent {
                timestamp: ts,
                name: lit_string("system.mem.usage"),
                value: u64_string(50 + ((i % 40) as u64)),
                metric_type: MetricType::Gauge,
                tags: host_tags2,
                unit: Some(lit_string("%")),
            },
        );
        let mut req_tags: Vec<(String, String)> = Vec::new();
        req_tags.push((lit_string("method"), lit_string("GET")));
        req_tags.push((lit_string("status"), lit_string("200")));
        let req = Event::Metric(
            MetricEvent {
                timestamp: ts,
                name: lit_string("http.requests.total"),
                value: u64_string(i as u64),
                metric_type: MetricType::Counter,
                tags: req_tags,
                unit: None,
            },
        );
        let ghost pre = events.deep_view();
        let ghost e1 = cpu.deep_view();
        let ghost e2 = mem.deep_view();
        let ghost e3 = req.deep_view();
        events.push(cpu);
        events.push(mem);
        events.push(req);
        proof {
            reveal_strlit("system.cpu.usage");
            reveal_strlit("system.mem.usage");
            reveal_strlit("http.requests.total");
            // each value renders a concrete u64, so it denotes a
            // non-negative number
            assert(e1 matches EventV::Metric(m) && m.name.len() > 0 && (exists|n: u64| m.value
                == bytes_chars(dec_u64(n as nat)))) by {
                assert(e1->Metric_0.value == bytes_chars(
                    dec_u64((20 + ((i % 60) as u64)) as nat),
                ));
            }
            assert(e2 matches EventV::Metric(m) && m.name.len() > 0 && (exists|n: u64| m.value
                == bytes_chars(dec_u64(n as nat)))) by {
                assert(e2->Metric_0.value == bytes_chars(
                    dec_u64((50 + ((i % 40) as u64)) as nat),
                ));
            }
            assert(e3 matches EventV::Metric(m) && m.name.len() > 0 && (exists|n: u64| m.value
                == bytes_chars(dec_u64(n as nat)))) by {
                assert(e3->Metric_0.value == bytes_chars(dec_u64((i as u64) as nat)));
            }
            assert(events.deep_view() =~= pre.push(e1).push(e2).push(e3));
        }
        i = i + 1;
    }
    events
}

/// Sample traffic events: rotating protocols, private address pairs, and
/// nonzero byte and packet counts.
pub fn generate_traffic_events(count: usize) -> (r: Vec<Event>)
    ensures
        r.deep_view().len() == count,
        forall|k: int|
            0 <= k < count ==> ((#[trigger] r.deep_view()[k]) matches EventV::Traffic(t)
                && t.src_ip.len() > 0 && t.dst_ip.len() > 0 && t.bytes > 0 && t.packets > 0),
        events_v_wf(r.deep_view()),
{
    let mut events: Vec<Event> = Vec::new();
    let base = now_millis();
    let mut i: usize = 0;
    while i < count
        invariant
            i <= count,
            events.deep_view().len() == i,
            forall|k: int|
                0 <= k < i ==> ((#[trigger] events.deep_view()[k]) matches EventV::Traffic(t)
                    && t.src_ip.len() > 0 && t.dst_ip.len() > 0 && t.bytes > 0 && t.packets > 0),
        decreases count - i,
    {
        let protocol = match i % 4 {
            0 => Protocol::HTTP,
            1 => Protocol::HTTPS,
            2 => Protocol::TCP,
            _ => Protocol::UDP,
        };
        let src_ip = lit_string("192.168.1.").concat(
            u64_string(((i % 254) + 1) as u64).as_str(),
        );
        let dst_ip = lit_string("10.0.0.").concat(u64_string(((i % 254) + 1) as u64).as_str());
        let dst_port: u16 = match i % 4 {
            0 => 80,
            1 => 443,
            2 => 3306,
            _ => 5432,
        };
        let e = Event::Traffic(
            TrafficEvent {
                timestamp: offset_ts(base, 100, i),
                protocol,
                src_ip,
                dst_ip,
                src_port: 50000 + ((i % 5000) as u16),
                dst_port,
                bytes: (((i % 1000) + 100) as u64) * 1024,
                packets: ((i % 50) + 1) as u64,
                metadata: Vec::new(),
            },
        );
        let ghost pre = events.deep_view();
        let ghost ev = e.deep_view();
        events.push(e);
        proof {
            reveal_strlit("192.168.1.");
            reveal_strlit("10.0.0.");
            assert(ev matches EventV::Traffic(t) && t.src_ip.len() > 0 && t.dst_ip.len() > 0
                && t.bytes > 0 && t.packets > 0);
            assert(events.deep_view() =~= pre.push(ev));
        }
        i = i + 1;
    }
    events
}

} // verus!
