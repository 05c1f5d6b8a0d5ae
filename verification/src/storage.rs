//! The storage sink contract and the console backend.
//!
//! A sink stores a sequence of events and may fail; implementations beyond
//! the console are external collaborators. The console backend renders each
//! event on one line — a human-readable timestamp and the identifying
//! fields of its shape — and writes it to standard output.

use vstd::prelude::*;

use std::io::Write;

use crate::codec::{level_name, protocol_other_name, str_eq_str};
use crate::config::StorageSettings;
use crate::events::{Event, EventV};
use crate::json::{bytes_chars, dec_u64, u64_string};

verus! {

/// A pluggable destination for events; implementations must tolerate
/// concurrent calls. A backend that cannot fail says so through
/// `store_always_succeeds`, and its stores are then owed `Ok`; fallible
/// backends leave it false and promise nothing.
pub trait StorageBackend {
    spec fn store_always_succeeds(&self) -> bool;

    fn store_events(&self, events: Vec<Event>) -> (r: Result<(), String>)
        ensures
            self.store_always_succeeds() ==> r is Ok,
    ;
}

/// What chrono renders for a millisecond timestamp under UTC with the
/// format `%Y-%m-%d %H:%M:%S`, or `unknown` when out of range.
pub uninterp spec fn civil_text_of(ms: i64) -> Seq<char>;

/// Relies on chrono::DateTime::from_timestamp_millis and its UTC
/// formatting: the text depends on the millisecond value alone.
#[verifier::external_body]
fn format_timestamp(ms: i64) -> (r: String)
    ensures
        r@ == civil_text_of(ms),
{
    match chrono::DateTime::from_timestamp_millis(ms) {
        Some(dt) => dt.format("%Y-%m-%d %H:%M:%S").to_string(),
        None => "unknown".to_string(),
    }
}

/// Relies on std::io::Stdout: writes one line to standard output; a write
/// failure is ignored, as a console is best-effort.
#[verifier::external_body]
fn print_line(s: &String) {
    let mut out = std::io::stdout();
    let _ = writeln!(out, "{}", s.as_str());
}

/// The console line for one event.
pub open spec fn console_line_of(e: EventV) -> Seq<char> {
    match e {
        EventV::Log(l) => "[LOG] "@ + civil_text_of(l.timestamp) + " | "@ + l.source + " | "@
            + level_name(l.level) + " | "@ + l.message,
        EventV::Metric(m) => "[METRIC] "@ + civil_text_of(m.timestamp) + " | "@ + m.name + " = "@
            + m.value + (match m.unit {
            Some(u) => " "@ + u,
            None => Seq::<char>::empty(),
        }),
        EventV::Traffic(t) => "[TRAFFIC] "@ + civil_text_of(t.timestamp) + " | "@
            + protocol_other_name(t.protocol) + " | "@ + t.src_ip + ":"@ + bytes_chars(
            dec_u64(t.src_port as nat),
        ) + " -> "@ + t.dst_ip + ":"@ + bytes_chars(dec_u64(t.dst_port as nat)),
    }
}

/// Renders one event for the console.
pub fn console_line(e: &Event) -> (r: String)
    ensures
        r@ == console_line_of(e.deep_view()),
{
    match e {
        Event::Log(l) => {
            let mut out = String::new();
            out = out.concat("[LOG] ");
            out = out.concat(format_timestamp(l.timestamp).as_str());
            out = out.concat(" | ");
            out = out.concat(l.source.as_str());
            out = out.concat(" | ");
            out = match l.level {
                crate::events::LogLevel::Trace => out.concat("trace"),
                crate::events::LogLevel::Debug => out.concat("debug"),
                crate::events::LogLevel::Info => out.concat("info"),
                crate::events::LogLevel::Warning => out.concat("warning"),
                crate::events::LogLevel::Error => out.concat("error"),
                crate::events::LogLevel::Critical => out.concat("critical"),
            };
            out = out.concat(" | ");
            out = out.concat(l.message.as_str());
            proof {
                assert(out@ =~= console_line_of(e.deep_view()));
            }
            out
        },
        Event::Metric(m) => {
            let mut out = String::new();
            out = out.concat("[METRIC] ");
            out = out.concat(format_timestamp(m.timestamp).as_str());
            out = out.concat(" | ");
            out = out.concat(m.name.as_str());
            out = out.concat(" = ");
            out = out.concat(m.value.as_str());
            match &m.unit {
                Some(u) => {
                    out = out.concat(" ");
                    out = out.concat(u.as_str());
                },
                None => {},
            }
            proof {
                assert(out@ =~= console_line_of(e.deep_view()));
            }
            out
        },
        Event::Traffic(t) => {
            let mut out = String::new();
            out = out.concat("[TRAFFIC] ");
            out = out.concat(format_timestamp(t.timestamp).as_str());
            out = out.concat(" | ");
            out = match &t.protocol {
                crate::events::Protocol::HTTP => out.concat("HTTP"),
                crate::events::Protocol::HTTPS => out.concat("HTTPS"),
                crate::events::Protocol::TCP => out.concat("TCP"),
                crate::events::Protocol::UDP => out.concat("UDP"),
                crate::events::Protocol::ICMP => out.concat("ICMP"),
                crate::events::Protocol::Other(name) => out.concat(name.as_str()),
            };
            out = out.concat(" | ");
            out = out.concat(t.src_ip.as_str());
            out = out.concat(":");
            out = out.concat(u64_string(t.src_port as u64).as_str());
            out = out.concat(" -> ");
            out = out.concat(t.dst_ip.as_str());
            out = out.concat(":");
            out = out.concat(u64_string(t.dst_port as u64).as_str());
            proof {
                assert(out@ =~= console_line_of(e.deep_view()));
            }
            out
        },
    }
}

/// The console lines for a whole batch of events, in order.
pub fn console_lines(events: &Vec<Event>) -> (r: Vec<String>)
    ensures
        r.deep_view().len() == events.deep_view().len(),
        forall|k: int|
            0 <= k < events.deep_view().len() ==> #[trigger] r.deep_view()[k] == console_line_of(
                events.deep_view()[k],
            ),
{
    let mut out: Vec<String> = Vec::new();
    let n = events.len();
    let mut k: usize = 0;
    while k < n
        invariant
            n == events@.len(),
            k <= n,
            out.deep_view().len() == k,
            forall|m: int|
                0 <= m < k ==> #[trigger] out.deep_view()[m] == console_line_of(
                    events.deep_view()[m],
                ),
        decreases n - k,
    {
        let line = console_line(&events[k]);
        let ghost pre_out = out.deep_view();
        let ghost lv = line@;
        out.push(line);
        proof {
            assert(events.deep_view()[k as int] == events@[k as int].deep_view());
            assert(out.deep_view() =~= pre_out.push(lv));
        }
        k = k + 1;
    }
    out
}

/// Development backend: prints every event to standard output.
pub struct ConsoleBackend;

impl ConsoleBackend {
    pub fn new() -> (r: ConsoleBackend)
    {
        ConsoleBackend
    }
}

impl StorageBackend for ConsoleBackend {
    /// The console cannot fail: a write error on stdout is ignored.
    open spec fn store_always_succeeds(&self) -> bool {
        true
    }

    /// Renders and prints each event; the rendering's exact contract is on
    /// `console_lines`, which this body only walks.
    fn store_events(&self, events: Vec<Event>) -> (r: Result<(), String>) {
        let lines = console_lines(&events);
        let n = lines.len();
        let mut k: usize = 0;
        while k < n
            invariant
                n == lines@.len(),
                k <= n,
            decreases n - k,
        {
            print_line(&lines[k]);
            k = k + 1;
        }
        Ok(())
    }
}

/// Selects a backend by name; only the console backend is built in, and
/// unknown names fall back to it with a warning.
pub fn create_backend(config: StorageSettings) -> (r: ConsoleBackend) {
    if !str_eq_str(config.backend.as_str(), "console") {
        let note = String::new();
        let note = note.concat("unknown storage backend, using console: ");
        let note = note.concat(config.backend.as_str());
        print_line(&note);
    }
    ConsoleBackend::new()
}

} // verus!
