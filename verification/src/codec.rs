//! The event wire codec: events to canonical JSON bytes and back.
//!
//! Every encoder has a spec counterpart (`enc_*`), every parser a spec
//! counterpart (`p_*`), and for each form a lemma shows that the parser
//! recovers exactly what the encoder wrote. The top-level round trip over
//! whole event sequences is [`lemma_events_round_trip`].

use vstd::prelude::*;

use crate::events::{
    event_v_wf, events_v_wf, CompressionType, Event, EventV, IngestStatus, LogEvent, LogEventV,
    LogLevel, MetricEvent, MetricEventV, MetricType, Protocol, ProtocolV, TrafficEvent,
    TrafficEventV,
};
use crate::json::{
    bytes_chars, dec_u64, enc_i64, enc_str, esc_chars, is_digit, is_num_delim, is_number_text,
    lemma_dec_u64_shape, lemma_p_digits_pos, lemma_p_i64_enc, lemma_p_num_enc, lemma_p_str_enc,
    lemma_p_u64_enc,
    lit_bytes, p_i64, p_num, p_str, p_u64, parse_i64, parse_number, parse_string, parse_u64,
    push_i64, push_lit, push_quoted, push_u64,
};

verus! {

// ---------------------------------------------------------------------------
// Literal keys
// ---------------------------------------------------------------------------

/// Matches an exact byte sequence at `i`.
pub open spec fn p_lit(s: Seq<u8>, i: int, lit: Seq<u8>) -> Option<int> {
    if 0 <= i && i + lit.len() <= s.len() && s.subrange(i, i + lit.len() as int) == lit {
        Some(i + lit.len() as int)
    } else {
        None
    }
}

pub proof fn lemma_p_lit_enc(s: Seq<u8>, i: int, lit: Seq<u8>)
    requires
        0 <= i,
        i + lit.len() <= s.len(),
        s.subrange(i, i + lit.len() as int) == lit,
    ensures
        p_lit(s, i, lit) == Some(i + lit.len() as int),
{
}

/// Exec counterpart of `p_lit` for an ASCII literal.
pub fn parse_lit(s: &Vec<u8>, i: usize, lit: &str) -> (r: Option<usize>)
    requires
        i <= s@.len(),
        lit.is_ascii(),
    ensures
        match r {
            Some(j) => p_lit(s@, i as int, lit_bytes(lit@)) == Some(j as int) && i <= j
                <= s@.len(),
            None => p_lit(s@, i as int, lit_bytes(lit@)) is None,
        },
{
    let n = lit.unicode_len();
    if s.len() - i < n {
        proof {
            assert(p_lit(s@, i as int, lit_bytes(lit@)) is None);
        }
        return None;
    }
    let mut k: usize = 0;
    while k < n
        invariant
            lit.is_ascii(),
            n == lit@.len(),
            i + n <= s@.len(),
            s@.len() <= usize::MAX,
            k <= n,
            forall|m: int| 0 <= m < k ==> s@[i + m] == lit_bytes(lit@)[m],
        decreases n - k,
    {
        let b = lit.get_ascii(k);
        if s[i + k] != b {
            proof {
                assert(s@.subrange(i as int, i + n) != lit_bytes(lit@)) by {
                    assert(s@.subrange(i as int, i + n)[k as int] != lit_bytes(lit@)[k as int]);
                }
            }
            return None;
        }
        k = k + 1;
    }
    proof {
        assert(s@.subrange(i as int, i + n) =~= lit_bytes(lit@));
    }
    Some(i + n)
}

// ---------------------------------------------------------------------------
// Enum tokens
// ---------------------------------------------------------------------------

pub open spec fn level_name(lv: LogLevel) -> Seq<char> {
    match lv {
        LogLevel::Trace => "trace"@,
        LogLevel::Debug => "debug"@,
        LogLevel::Info => "info"@,
        LogLevel::Warning => "warning"@,
        LogLevel::Error => "error"@,
        LogLevel::Critical => "critical"@,
    }
}

pub open spec fn enc_level(lv: LogLevel) -> Seq<u8> {
    enc_str(level_name(lv))
}

#[verifier::opaque]
pub open spec fn p_level(s: Seq<u8>, i: int) -> Option<(LogLevel, int)> {
    match p_str(s, i) {
        Some((t, j)) => {
            if t == "trace"@ {
                Some((LogLevel::Trace, j))
            } else if t == "debug"@ {
                Some((LogLevel::Debug, j))
            } else if t == "info"@ {
                Some((LogLevel::Info, j))
            } else if t == "warning"@ {
                Some((LogLevel::Warning, j))
            } else if t == "error"@ {
                Some((LogLevel::Error, j))
            } else if t == "critical"@ {
                Some((LogLevel::Critical, j))
            } else {
                None
            }
        },
        None => None,
    }
}

proof fn reveal_level_names()
    ensures
        "trace"@ != "debug"@,
        "trace"@ != "info"@,
        "trace"@ != "warning"@,
        "trace"@ != "error"@,
        "trace"@ != "critical"@,
        "debug"@ != "info"@,
        "debug"@ != "warning"@,
        "debug"@ != "error"@,
        "debug"@ != "critical"@,
        "info"@ != "warning"@,
        "info"@ != "error"@,
        "info"@ != "critical"@,
        "warning"@ != "error"@,
        "warning"@ != "critical"@,
        "error"@ != "critical"@,
{
    reveal_strlit("trace");
    reveal_strlit("debug");
    reveal_strlit("info");
    reveal_strlit("warning");
    reveal_strlit("error");
    reveal_strlit("critical");
    assert("trace"@[0] != "debug"@[0]);
    assert("trace"@[0] != "info"@[0]);
    assert("trace"@[0] != "warning"@[0]);
    assert("trace"@[0] != "error"@[0]);
    assert("trace"@[0] != "critical"@[0]);
    assert("debug"@[0] != "info"@[0]);
    assert("debug"@[0] != "warning"@[0]);
    assert("debug"@[0] != "error"@[0]);
    assert("debug"@[0] != "critical"@[0]);
    assert("info"@[0] != "warning"@[0]);
    assert("info"@[0] != "error"@[0]);
    assert("info"@[0] != "critical"@[0]);
    assert("warning"@[0] != "error"@[0]);
    assert("warning"@[0] != "critical"@[0]);
    assert("error"@[0] != "critical"@[0]);
}

pub proof fn lemma_p_level_enc(s: Seq<u8>, i: int, lv: LogLevel)
    requires
        0 <= i,
        i + enc_level(lv).len() <= s.len(),
        s.subrange(i, i + enc_level(lv).len() as int) == enc_level(lv),
    ensures
        p_level(s, i) == Some((lv, i + enc_level(lv).len() as int)),
{
    reveal(p_level);
    lemma_p_str_enc(s, i, level_name(lv));
    reveal_level_names();
}

pub open spec fn mtype_name(m: MetricType) -> Seq<char> {
    match m {
        MetricType::Counter => "counter"@,
        MetricType::Gauge => "gauge"@,
        MetricType::Histogram => "histogram"@,
        MetricType::Summary => "summary"@,
    }
}

pub open spec fn enc_mtype(m: MetricType) -> Seq<u8> {
    enc_str(mtype_name(m))
}

#[verifier::opaque]
pub open spec fn p_mtype(s: Seq<u8>, i: int) -> Option<(MetricType, int)> {
    match p_str(s, i) {
        Some((t, j)) => {
            if t == "counter"@ {
                Some((MetricType::Counter, j))
            } else if t == "gauge"@ {
                Some((MetricType::Gauge, j))
            } else if t == "histogram"@ {
                Some((MetricType::Histogram, j))
            } else if t == "summary"@ {
                Some((MetricType::Summary, j))
            } else {
                None
            }
        },
        None => None,
    }
}

pub proof fn lemma_p_mtype_enc(s: Seq<u8>, i: int, m: MetricType)
    requires
        0 <= i,
        i + enc_mtype(m).len() <= s.len(),
        s.subrange(i, i + enc_mtype(m).len() as int) == enc_mtype(m),
    ensures
        p_mtype(s, i) == Some((m, i + enc_mtype(m).len() as int)),
{
    reveal(p_mtype);
    lemma_p_str_enc(s, i, mtype_name(m));
    reveal_strlit("counter");
    reveal_strlit("gauge");
    reveal_strlit("histogram");
    reveal_strlit("summary");
    assert("counter"@ != "summary"@) by {
        assert("counter"@[0] != "summary"@[0]);
    }
}

pub open spec fn status_name(st: IngestStatus) -> Seq<char> {
    match st {
        IngestStatus::Success => "success"@,
        IngestStatus::PartialSuccess => "partial_success"@,
        IngestStatus::Failed => "failed"@,
        IngestStatus::Rejected => "rejected"@,
    }
}

pub open spec fn enc_status(st: IngestStatus) -> Seq<u8> {
    enc_str(status_name(st))
}

pub open spec fn p_status(s: Seq<u8>, i: int) -> Option<(IngestStatus, int)> {
    match p_str(s, i) {
        Some((t, j)) => {
            if t == "success"@ {
                Some((IngestStatus::Success, j))
            } else if t == "partial_success"@ {
                Some((IngestStatus::PartialSuccess, j))
            } else if t == "failed"@ {
                Some((IngestStatus::Failed, j))
            } else if t == "rejected"@ {
                Some((IngestStatus::Rejected, j))
            } else {
                None
            }
        },
        None => None,
    }
}

pub proof fn lemma_p_status_enc(s: Seq<u8>, i: int, st: IngestStatus)
    requires
        0 <= i,
        i + enc_status(st).len() <= s.len(),
        s.subrange(i, i + enc_status(st).len() as int) == enc_status(st),
    ensures
        p_status(s, i) == Some((st, i + enc_status(st).len() as int)),
{
    lemma_p_str_enc(s, i, status_name(st));
    reveal_strlit("success");
    reveal_strlit("partial_success");
    reveal_strlit("failed");
    reveal_strlit("rejected");
}

pub open spec fn compression_name(c: CompressionType) -> Seq<char> {
    match c {
        CompressionType::NoCompression => "none"@,
        CompressionType::Snappy => "snappy"@,
        CompressionType::Lz4 => "lz4"@,
        CompressionType::Gzip => "gzip"@,
    }
}

pub open spec fn enc_compression(c: CompressionType) -> Seq<u8> {
    enc_str(compression_name(c))
}

pub open spec fn p_compression(s: Seq<u8>, i: int) -> Option<(CompressionType, int)> {
    match p_str(s, i) {
        Some((t, j)) => {
            if t == "none"@ {
                Some((CompressionType::NoCompression, j))
            } else if t == "snappy"@ {
                Some((CompressionType::Snappy, j))
            } else if t == "lz4"@ {
                Some((CompressionType::Lz4, j))
            } else if t == "gzip"@ {
                Some((CompressionType::Gzip, j))
            } else {
                None
            }
        },
        None => None,
    }
}

pub proof fn lemma_p_compression_enc(s: Seq<u8>, i: int, c: CompressionType)
    requires
        0 <= i,
        i + enc_compression(c).len() <= s.len(),
        s.subrange(i, i + enc_compression(c).len() as int) == enc_compression(c),
    ensures
        p_compression(s, i) == Some((c, i + enc_compression(c).len() as int)),
{
    lemma_p_str_enc(s, i, compression_name(c));
    reveal_strlit("none");
    reveal_strlit("snappy");
    reveal_strlit("lz4");
    reveal_strlit("gzip");
    assert("none"@ != "gzip"@) by {
        assert("none"@[0] != "gzip"@[0]);
    }
}

pub open spec fn protocol_other_name(p: ProtocolV) -> Seq<char> {
    match p {
        ProtocolV::HTTP => "HTTP"@,
        ProtocolV::HTTPS => "HTTPS"@,
        ProtocolV::TCP => "TCP"@,
        ProtocolV::UDP => "UDP"@,
        ProtocolV::ICMP => "ICMP"@,
        ProtocolV::Other(s) => s,
    }
}

/// A protocol is a quoted name; an unknown protocol is an object
/// `{"other":...}` so it can never collide with the named forms.
pub open spec fn enc_protocol(p: ProtocolV) -> Seq<u8> {
    match p {
        ProtocolV::Other(s) => lit_bytes("{\"other\":"@) + enc_str(s) + lit_bytes("}"@),
        _ => enc_str(protocol_other_name(p)),
    }
}

#[verifier::opaque]
pub open spec fn p_protocol(s: Seq<u8>, i: int) -> Option<(ProtocolV, int)> {
    if 0 <= i < s.len() && s[i] == 0x7B {
        match p_lit(s, i, lit_bytes("{\"other\":"@)) {
            Some(i1) => match p_str(s, i1) {
                Some((t, i2)) => match p_lit(s, i2, lit_bytes("}"@)) {
                    Some(i3) => Some((ProtocolV::Other(t), i3)),
                    None => None,
                },
                None => None,
            },
            None => None,
        }
    } else {
        match p_str(s, i) {
            Some((t, j)) => {
                if t == "HTTP"@ {
                    Some((ProtocolV::HTTP, j))
                } else if t == "HTTPS"@ {
                    Some((ProtocolV::HTTPS, j))
                } else if t == "TCP"@ {
                    Some((ProtocolV::TCP, j))
                } else if t == "UDP"@ {
                    Some((ProtocolV::UDP, j))
                } else if t == "ICMP"@ {
                    Some((ProtocolV::ICMP, j))
                } else {
                    None
                }
            },
            None => None,
        }
    }
}

pub proof fn lemma_p_protocol_enc(s: Seq<u8>, i: int, p: ProtocolV)
    requires
        0 <= i,
        i + enc_protocol(p).len() <= s.len(),
        s.subrange(i, i + enc_protocol(p).len() as int) == enc_protocol(p),
    ensures
        p_protocol(s, i) == Some((p, i + enc_protocol(p).len() as int)),
{
    reveal(p_protocol);
    let e = enc_protocol(p);
    assert(forall|k: int| 0 <= k < e.len() ==> s[i + k] == e[k]) by {
        assert(forall|k: int| 0 <= k < e.len() ==> s.subrange(i, i + e.len() as int)[k] == e[k]);
    }
    reveal_strlit("HTTP");
    reveal_strlit("HTTPS");
    reveal_strlit("TCP");
    reveal_strlit("UDP");
    reveal_strlit("ICMP");
    match p {
        ProtocolV::Other(t) => {
            reveal_strlit("{\"other\":");
            reveal_strlit("}");
            let k1 = lit_bytes("{\"other\":"@);
            let k2 = lit_bytes("}"@);
            assert(e == k1 + enc_str(t) + k2);
            assert(e[0] == k1[0] && k1[0] == 0x7B);
            assert(s[i] == 0x7B);
            assert(s.subrange(i, i + k1.len() as int) =~= k1);
            let i1 = i + k1.len() as int;
            assert(s.subrange(i1, i1 + enc_str(t).len() as int) =~= enc_str(t)) by {
                assert forall|k: int| 0 <= k < enc_str(t).len() implies s.subrange(
                    i1,
                    i1 + enc_str(t).len() as int,
                )[k] == enc_str(t)[k] by {
                    assert(s[i1 + k] == e[k1.len() + k]);
                }
            }
            lemma_p_str_enc(s, i1, t);
            let i2 = i1 + enc_str(t).len() as int;
            assert(s.subrange(i2, i2 + 1) =~= k2) by {
                assert(s[i2] == e[e.len() - 1]);
                assert(e[e.len() - 1] == k2[0]);
            }
            assert(k2.len() == 1);
        },
        _ => {
            let t = protocol_other_name(p);
            assert(e == enc_str(t));
            assert(e[0] == 0x22);
            assert(s[i] == 0x22);
            assert(s[i] != 0x7B);
            lemma_p_str_enc(s, i, t);
            assert("HTTPS"@ != "HTTP"@) by {
                assert("HTTPS"@.len() != "HTTP"@.len());
            }
        },
    }
}

/// An optional string: `null` or a quoted string.
pub open spec fn enc_opt_str(o: Option<Seq<char>>) -> Seq<u8> {
    match o {
        Some(t) => enc_str(t),
        None => lit_bytes("null"@),
    }
}

#[verifier::opaque]
pub open spec fn p_opt_str(s: Seq<u8>, i: int) -> Option<(Option<Seq<char>>, int)> {
    if 0 <= i < s.len() && s[i] == 0x22 {
        match p_str(s, i) {
            Some((t, j)) => Some((Some(t), j)),
            None => None,
        }
    } else {
        match p_lit(s, i, lit_bytes("null"@)) {
            Some(j) => Some((None, j)),
            None => None,
        }
    }
}

pub proof fn lemma_p_opt_str_enc(s: Seq<u8>, i: int, o: Option<Seq<char>>)
    requires
        0 <= i,
        i + enc_opt_str(o).len() <= s.len(),
        s.subrange(i, i + enc_opt_str(o).len() as int) == enc_opt_str(o),
    ensures
        p_opt_str(s, i) == Some((o, i + enc_opt_str(o).len() as int)),
{
    reveal(p_opt_str);
    let e = enc_opt_str(o);
    assert(forall|k: int| 0 <= k < e.len() ==> s[i + k] == e[k]) by {
        assert(forall|k: int| 0 <= k < e.len() ==> s.subrange(i, i + e.len() as int)[k] == e[k]);
    }
    reveal_strlit("null");
    match o {
        Some(t) => {
            assert(e == enc_str(t));
            assert(e[0] == 0x22);
            assert(s[i] == 0x22);
            lemma_p_str_enc(s, i, t);
        },
        None => {
            assert(e == lit_bytes("null"@));
            assert(s[i] == e[0]);
            assert(e[0] == ("null"@[0] as u8));
            assert("null"@[0] == 'n');
            assert(s[i] != 0x22);
        },
    }
}


// ---------------------------------------------------------------------------
// Lists: string maps, string arrays, byte arrays
// ---------------------------------------------------------------------------
// Each list form has a head/rest split: the head element stands right after
// the opening bracket, every further element after a comma, and the rest
// parser also consumes the closing bracket.

pub open spec fn enc_pair(p: (Seq<char>, Seq<char>)) -> Seq<u8> {
    enc_str(p.0) + seq![0x3Au8] + enc_str(p.1)
}

pub open spec fn enc_pairs_rest(ps: Seq<(Seq<char>, Seq<char>)>) -> Seq<u8>
    decreases ps.len(),
{
    if ps.len() == 0 {
        Seq::empty()
    } else {
        seq![0x2Cu8] + enc_pair(ps[0]) + enc_pairs_rest(ps.drop_first())
    }
}

/// A string-to-string map as a JSON object, insertion order kept.
pub open spec fn enc_pairs(ps: Seq<(Seq<char>, Seq<char>)>) -> Seq<u8> {
    if ps.len() == 0 {
        seq![0x7Bu8, 0x7Du8]
    } else {
        seq![0x7Bu8] + enc_pair(ps[0]) + enc_pairs_rest(ps.drop_first()) + seq![0x7Du8]
    }
}

pub open spec fn p_pair(s: Seq<u8>, i: int) -> Option<((Seq<char>, Seq<char>), int)> {
    match p_str(s, i) {
        Some((k, j)) => {
            if 0 <= j < s.len() && s[j] == 0x3A {
                match p_str(s, j + 1) {
                    Some((v, j2)) => Some(((k, v), j2)),
                    None => None,
                }
            } else {
                None
            }
        },
        None => None,
    }
}

#[verifier::opaque]
pub open spec fn p_pairs_rest(s: Seq<u8>, i: int) -> Option<(Seq<(Seq<char>, Seq<char>)>, int)>
    decreases s.len() - i,
{
    if !(0 <= i < s.len()) {
        None
    } else if s[i] == 0x7D {
        Some((Seq::empty(), i + 1))
    } else if s[i] == 0x2C {
        match p_pair(s, i + 1) {
            Some((p, j)) => {
                if j > i && j <= s.len() {
                    match p_pairs_rest(s, j) {
                        Some((ps, k)) => Some((seq![p] + ps, k)),
                        None => None,
                    }
                } else {
                    None
                }
            },
            None => None,
        }
    } else {
        None
    }
}

#[verifier::opaque]
pub open spec fn p_pairs(s: Seq<u8>, i: int) -> Option<(Seq<(Seq<char>, Seq<char>)>, int)> {
    if 0 <= i < s.len() && s[i] == 0x7B {
        if i + 1 < s.len() && s[i + 1] == 0x7D {
            Some((Seq::empty(), i + 2))
        } else {
            match p_pair(s, i + 1) {
                Some((p, j)) => {
                    if j > i && j <= s.len() {
                        match p_pairs_rest(s, j) {
                            Some((ps, k)) => Some((seq![p] + ps, k)),
                            None => None,
                        }
                    } else {
                        None
                    }
                },
                None => None,
            }
        }
    } else {
        None
    }
}

/// Every byte of a quoted string form; used to see bracket bytes apart from
/// element bytes.
proof fn lemma_enc_str_head(t: Seq<char>)
    ensures
        enc_str(t).len() >= 2,
        enc_str(t)[0] == 0x22,
{
}

pub proof fn lemma_p_pair_enc(s: Seq<u8>, i: int, p: (Seq<char>, Seq<char>))
    requires
        0 <= i,
        i + enc_pair(p).len() <= s.len(),
        s.subrange(i, i + enc_pair(p).len() as int) == enc_pair(p),
    ensures
        p_pair(s, i) == Some((p, i + enc_pair(p).len() as int)),
{
    let e = enc_pair(p);
    let e0 = enc_str(p.0);
    let e1 = enc_str(p.1);
    assert(forall|k: int| 0 <= k < e.len() ==> s[i + k] == e[k]) by {
        assert(forall|k: int| 0 <= k < e.len() ==> s.subrange(i, i + e.len() as int)[k] == e[k]);
    }
    assert(s.subrange(i, i + e0.len() as int) =~= e0) by {
        assert(forall|k: int| 0 <= k < e0.len() ==> e[k] == e0[k]);
    }
    lemma_p_str_enc(s, i, p.0);
    let j = i + e0.len() as int;
    assert(s[j] == e[e0.len() as int]);
    assert(e[e0.len() as int] == 0x3A);
    assert(s.subrange(j + 1, j + 1 + e1.len() as int) =~= e1) by {
        assert(forall|k: int| 0 <= k < e1.len() ==> e[e0.len() + 1 + k] == #[trigger] e1[k]);
        assert(forall|k: int| 0 <= k < e1.len() ==> #[trigger] s.subrange(
            j + 1,
            j + 1 + e1.len() as int,
        )[k] == s[j + 1 + k]);
    }
    lemma_p_str_enc(s, j + 1, p.1);
}

pub proof fn lemma_p_pairs_rest_enc(s: Seq<u8>, i: int, ps: Seq<(Seq<char>, Seq<char>)>)
    requires
        0 <= i,
        i + enc_pairs_rest(ps).len() + 1 <= s.len(),
        s.subrange(i, i + enc_pairs_rest(ps).len() + 1) == enc_pairs_rest(ps) + seq![0x7Du8],
    ensures
        p_pairs_rest(s, i) == Some((ps, i + enc_pairs_rest(ps).len() + 1)),
    decreases ps.len(),
{
    reveal(p_pairs_rest);
    let e = enc_pairs_rest(ps);
    let whole = e + seq![0x7Du8];
    assert(forall|k: int| 0 <= k < whole.len() ==> s[i + k] == whole[k]) by {
        assert(forall|k: int| 0 <= k < whole.len() ==> s.subrange(i, i + whole.len() as int)[k]
            == whole[k]);
    }
    if ps.len() == 0 {
        assert(s[i] == whole[0]);
        assert(ps =~= Seq::<(Seq<char>, Seq<char>)>::empty());
    } else {
        let p = ps[0];
        let rest = ps.drop_first();
        let ep = enc_pair(p);
        let er = enc_pairs_rest(rest);
        assert(e == seq![0x2Cu8] + ep + er);
        assert(s[i] == whole[0] && whole[0] == 0x2C);
        assert(s[i] != 0x7D);
        assert(s.subrange(i + 1, i + 1 + ep.len() as int) =~= ep) by {
            assert(forall|k: int| 0 <= k < ep.len() ==> whole[1 + k] == #[trigger] ep[k]);
            assert(forall|k: int| 0 <= k < ep.len() ==> #[trigger] s.subrange(
                i + 1,
                i + 1 + ep.len() as int,
            )[k] == s[i + 1 + k]);
        }
        lemma_p_pair_enc(s, i + 1, p);
        let j = i + 1 + ep.len() as int;
        assert(s.subrange(j, j + er.len() + 1) =~= er + seq![0x7Du8]) by {
            assert(forall|k: int| 0 <= k < er.len() + 1 ==> whole[1 + ep.len() + k]
                == #[trigger] (er + seq![0x7Du8])[k]);
            assert(forall|k: int| 0 <= k < er.len() + 1 ==> #[trigger] s.subrange(
                j,
                j + er.len() + 1,
            )[k] == s[j + k]);
        }
        lemma_p_pairs_rest_enc(s, j, rest);
        assert(seq![p] + rest =~= ps);
    }
}

pub proof fn lemma_p_pairs_enc(s: Seq<u8>, i: int, ps: Seq<(Seq<char>, Seq<char>)>)
    requires
        0 <= i,
        i + enc_pairs(ps).len() <= s.len(),
        s.subrange(i, i + enc_pairs(ps).len() as int) == enc_pairs(ps),
    ensures
        p_pairs(s, i) == Some((ps, i + enc_pairs(ps).len() as int)),
{
    reveal(p_pairs);
    reveal(p_pairs_rest);
    let e = enc_pairs(ps);
    assert(forall|k: int| 0 <= k < e.len() ==> s[i + k] == e[k]) by {
        assert(forall|k: int| 0 <= k < e.len() ==> s.subrange(i, i + e.len() as int)[k] == e[k]);
    }
    if ps.len() == 0 {
        assert(s[i] == e[0] && s[i + 1] == e[1]);
        assert(ps =~= Seq::<(Seq<char>, Seq<char>)>::empty());
    } else {
        let p = ps[0];
        let rest = ps.drop_first();
        let ep = enc_pair(p);
        let er = enc_pairs_rest(rest);
        assert(e == seq![0x7Bu8] + ep + er + seq![0x7Du8]);
        assert(s[i] == e[0] && e[0] == 0x7B);
        assert(s[i + 1] == e[1]);
        assert(e[1] == ep[0]);
        lemma_enc_str_head(p.0);
        assert(ep[0] == 0x22);
        assert(s[i + 1] != 0x7D);
        assert(s.subrange(i + 1, i + 1 + ep.len() as int) =~= ep) by {
            assert(forall|k: int| 0 <= k < ep.len() ==> e[1 + k] == #[trigger] ep[k]);
            assert(forall|k: int| 0 <= k < ep.len() ==> #[trigger] s.subrange(
                i + 1,
                i + 1 + ep.len() as int,
            )[k] == s[i + 1 + k]);
        }
        lemma_p_pair_enc(s, i + 1, p);
        let j = i + 1 + ep.len() as int;
        assert(s.subrange(j, j + er.len() + 1) =~= er + seq![0x7Du8]) by {
            assert(forall|k: int| 0 <= k < er.len() + 1 ==> e[1 + ep.len() + k]
                == #[trigger] (er + seq![0x7Du8])[k]);
            assert(forall|k: int| 0 <= k < er.len() + 1 ==> #[trigger] s.subrange(
                j,
                j + er.len() + 1,
            )[k] == s[j + k]);
        }
        lemma_p_pairs_rest_enc(s, j, rest);
        assert(seq![p] + rest =~= ps);
    }
}



pub open spec fn enc_strs_rest(ts: Seq<Seq<char>>) -> Seq<u8>
    decreases ts.len(),
{
    if ts.len() == 0 {
        Seq::empty()
    } else {
        seq![0x2Cu8] + enc_str(ts[0]) + enc_strs_rest(ts.drop_first())
    }
}

/// A string list as a JSON array.
pub open spec fn enc_strs(ts: Seq<Seq<char>>) -> Seq<u8> {
    if ts.len() == 0 {
        seq![0x5Bu8, 0x5Du8]
    } else {
        seq![0x5Bu8] + enc_str(ts[0]) + enc_strs_rest(ts.drop_first()) + seq![0x5Du8]
    }
}

#[verifier::opaque]
pub open spec fn p_strs_rest(s: Seq<u8>, i: int) -> Option<(Seq<Seq<char>>, int)>
    decreases s.len() - i,
{
    if !(0 <= i < s.len()) {
        None
    } else if s[i] == 0x5D {
        Some((Seq::empty(), i + 1))
    } else if s[i] == 0x2C {
        match p_str(s, i + 1) {
            Some((t, j)) => {
                if j > i && j <= s.len() {
                    match p_strs_rest(s, j) {
                        Some((ts, k)) => Some((seq![t] + ts, k)),
                        None => None,
                    }
                } else {
                    None
                }
            },
            None => None,
        }
    } else {
        None
    }
}

#[verifier::opaque]
pub open spec fn p_strs(s: Seq<u8>, i: int) -> Option<(Seq<Seq<char>>, int)> {
    if 0 <= i < s.len() && s[i] == 0x5B {
        if i + 1 < s.len() && s[i + 1] == 0x5D {
            Some((Seq::empty(), i + 2))
        } else {
            match p_str(s, i + 1) {
                Some((t, j)) => {
                    if j > i && j <= s.len() {
                        match p_strs_rest(s, j) {
                            Some((ts, k)) => Some((seq![t] + ts, k)),
                            None => None,
                        }
                    } else {
                        None
                    }
                },
                None => None,
            }
        }
    } else {
        None
    }
}

pub proof fn lemma_p_strs_rest_enc(s: Seq<u8>, i: int, ts: Seq<Seq<char>>)
    requires
        0 <= i,
        i + enc_strs_rest(ts).len() + 1 <= s.len(),
        s.subrange(i, i + enc_strs_rest(ts).len() + 1) == enc_strs_rest(ts) + seq![0x5Du8],
    ensures
        p_strs_rest(s, i) == Some((ts, i + enc_strs_rest(ts).len() + 1)),
    decreases ts.len(),
{
    reveal(p_strs_rest);
    let e = enc_strs_rest(ts);
    let whole = e + seq![0x5Du8];
    assert(forall|k: int| 0 <= k < whole.len() ==> s[i + k] == whole[k]) by {
        assert(forall|k: int| 0 <= k < whole.len() ==> s.subrange(i, i + whole.len() as int)[k]
            == whole[k]);
    }
    if ts.len() == 0 {
        assert(s[i] == whole[0]);
        assert(ts =~= Seq::<Seq<char>>::empty());
    } else {
        let t = ts[0];
        let rest = ts.drop_first();
        let ep = enc_str(t);
        let er = enc_strs_rest(rest);
        assert(e == seq![0x2Cu8] + ep + er);
        assert(s[i] == whole[0] && whole[0] == 0x2C);
        assert(s[i] != 0x5D);
        assert(s.subrange(i + 1, i + 1 + ep.len() as int) =~= ep) by {
            assert(forall|k: int| 0 <= k < ep.len() ==> whole[1 + k] == #[trigger] ep[k]);
            assert(forall|k: int| 0 <= k < ep.len() ==> #[trigger] s.subrange(
                i + 1,
                i + 1 + ep.len() as int,
            )[k] == s[i + 1 + k]);
        }
        lemma_p_str_enc(s, i + 1, t);
        let j = i + 1 + ep.len() as int;
        assert(s.subrange(j, j + er.len() + 1) =~= er + seq![0x5Du8]) by {
            assert(forall|k: int| 0 <= k < er.len() + 1 ==> whole[1 + ep.len() + k]
                == #[trigger] (er + seq![0x5Du8])[k]);
            assert(forall|k: int| 0 <= k < er.len() + 1 ==> #[trigger] s.subrange(
                j,
                j + er.len() + 1,
            )[k] == s[j + k]);
        }
        lemma_p_strs_rest_enc(s, j, rest);
        assert(seq![t] + rest =~= ts);
    }
}

pub proof fn lemma_p_strs_enc(s: Seq<u8>, i: int, ts: Seq<Seq<char>>)
    requires
        0 <= i,
        i + enc_strs(ts).len() <= s.len(),
        s.subrange(i, i + enc_strs(ts).len() as int) == enc_strs(ts),
    ensures
        p_strs(s, i) == Some((ts, i + enc_strs(ts).len() as int)),
{
    reveal(p_strs);
    reveal(p_strs_rest);
    let e = enc_strs(ts);
    assert(forall|k: int| 0 <= k < e.len() ==> s[i + k] == e[k]) by {
        assert(forall|k: int| 0 <= k < e.len() ==> s.subrange(i, i + e.len() as int)[k] == e[k]);
    }
    if ts.len() == 0 {
        assert(s[i] == e[0] && s[i + 1] == e[1]);
        assert(ts =~= Seq::<Seq<char>>::empty());
    } else {
        let t = ts[0];
        let rest = ts.drop_first();
        let ep = enc_str(t);
        let er = enc_strs_rest(rest);
        assert(e == seq![0x5Bu8] + ep + er + seq![0x5Du8]);
        assert(s[i] == e[0] && e[0] == 0x5B);
        assert(s[i + 1] == e[1]);
        assert(e[1] == ep[0]);
        lemma_enc_str_head(t);
        assert(s[i + 1] != 0x5D);
        assert(s.subrange(i + 1, i + 1 + ep.len() as int) =~= ep) by {
            assert(forall|k: int| 0 <= k < ep.len() ==> e[1 + k] == #[trigger] ep[k]);
            assert(forall|k: int| 0 <= k < ep.len() ==> #[trigger] s.subrange(
                i + 1,
                i + 1 + ep.len() as int,
            )[k] == s[i + 1 + k]);
        }
        lemma_p_str_enc(s, i + 1, t);
        let j = i + 1 + ep.len() as int;
        assert(s.subrange(j, j + er.len() + 1) =~= er + seq![0x5Du8]) by {
            assert(forall|k: int| 0 <= k < er.len() + 1 ==> e[1 + ep.len() + k]
                == #[trigger] (er + seq![0x5Du8])[k]);
            assert(forall|k: int| 0 <= k < er.len() + 1 ==> #[trigger] s.subrange(
                j,
                j + er.len() + 1,
            )[k] == s[j + k]);
        }
        lemma_p_strs_rest_enc(s, j, rest);
        assert(seq![t] + rest =~= ts);
    }
}

pub open spec fn enc_bytes_rest(bs: Seq<u8>) -> Seq<u8>
    decreases bs.len(),
{
    if bs.len() == 0 {
        Seq::empty()
    } else {
        seq![0x2Cu8] + dec_u64(bs[0] as nat) + enc_bytes_rest(bs.drop_first())
    }
}

/// A byte sequence as a JSON array of small integers.
pub open spec fn enc_bytes(bs: Seq<u8>) -> Seq<u8> {
    if bs.len() == 0 {
        seq![0x5Bu8, 0x5Du8]
    } else {
        seq![0x5Bu8] + dec_u64(bs[0] as nat) + enc_bytes_rest(bs.drop_first()) + seq![0x5Du8]
    }
}

pub open spec fn p_byte(s: Seq<u8>, i: int) -> Option<(u8, int)> {
    match p_u64(s, i) {
        Some((v, j)) => {
            if v <= 255 {
                Some((v as u8, j))
            } else {
                None
            }
        },
        None => None,
    }
}

#[verifier::opaque]
pub open spec fn p_bytes_rest(s: Seq<u8>, i: int) -> Option<(Seq<u8>, int)>
    decreases s.len() - i,
{
    if !(0 <= i < s.len()) {
        None
    } else if s[i] == 0x5D {
        Some((Seq::empty(), i + 1))
    } else if s[i] == 0x2C {
        match p_byte(s, i + 1) {
            Some((b, j)) => {
                if j > i && j <= s.len() {
                    match p_bytes_rest(s, j) {
                        Some((bs, k)) => Some((seq![b] + bs, k)),
                        None => None,
                    }
                } else {
                    None
                }
            },
            None => None,
        }
    } else {
        None
    }
}

#[verifier::opaque]
pub open spec fn p_bytes(s: Seq<u8>, i: int) -> Option<(Seq<u8>, int)> {
    if 0 <= i < s.len() && s[i] == 0x5B {
        if i + 1 < s.len() && s[i + 1] == 0x5D {
            Some((Seq::empty(), i + 2))
        } else {
            match p_byte(s, i + 1) {
                Some((b, j)) => {
                    if j > i && j <= s.len() {
                        match p_bytes_rest(s, j) {
                            Some((bs, k)) => Some((seq![b] + bs, k)),
                            None => None,
                        }
                    } else {
                        None
                    }
                },
                None => None,
            }
        }
    } else {
        None
    }
}

pub proof fn lemma_p_byte_enc(s: Seq<u8>, i: int, b: u8)
    requires
        0 <= i,
        i + dec_u64(b as nat).len() <= s.len(),
        s.subrange(i, i + dec_u64(b as nat).len() as int) == dec_u64(b as nat),
        i + dec_u64(b as nat).len() < s.len() ==> !is_digit(s[i + dec_u64(b as nat).len() as int]),
    ensures
        p_byte(s, i) == Some((b, i + dec_u64(b as nat).len() as int)),
{
    lemma_p_u64_enc(s, i, b as u64);
}

pub proof fn lemma_p_bytes_rest_enc(s: Seq<u8>, i: int, bs: Seq<u8>)
    requires
        0 <= i,
        i + enc_bytes_rest(bs).len() + 1 <= s.len(),
        s.subrange(i, i + enc_bytes_rest(bs).len() + 1) == enc_bytes_rest(bs) + seq![0x5Du8],
    ensures
        p_bytes_rest(s, i) == Some((bs, i + enc_bytes_rest(bs).len() + 1)),
    decreases bs.len(),
{
    reveal(p_bytes_rest);
    let e = enc_bytes_rest(bs);
    let whole = e + seq![0x5Du8];
    assert(forall|k: int| 0 <= k < whole.len() ==> s[i + k] == whole[k]) by {
        assert(forall|k: int| 0 <= k < whole.len() ==> s.subrange(i, i + whole.len() as int)[k]
            == whole[k]);
    }
    if bs.len() == 0 {
        assert(s[i] == whole[0]);
        assert(bs =~= Seq::<u8>::empty());
    } else {
        let b = bs[0];
        let rest = bs.drop_first();
        let ep = dec_u64(b as nat);
        let er = enc_bytes_rest(rest);
        lemma_dec_u64_shape(b as nat);
        assert(e == seq![0x2Cu8] + ep + er);
        assert(s[i] == whole[0] && whole[0] == 0x2C);
        assert(s[i] != 0x5D);
        assert(s.subrange(i + 1, i + 1 + ep.len() as int) =~= ep) by {
            assert(forall|k: int| 0 <= k < ep.len() ==> whole[1 + k] == #[trigger] ep[k]);
            assert(forall|k: int| 0 <= k < ep.len() ==> #[trigger] s.subrange(
                i + 1,
                i + 1 + ep.len() as int,
            )[k] == s[i + 1 + k]);
        }
        let j = i + 1 + ep.len() as int;
        // The byte after the digits opens the rest: a comma or the bracket.
        assert(s[j] == whole[1 + ep.len() as int]);
        assert(er + seq![0x5Du8] == (er + seq![0x5Du8]));
        assert(whole[1 + ep.len() as int] == (er + seq![0x5Du8])[0]) by {
            assert(forall|k: int| 0 <= k < er.len() + 1 ==> whole[1 + ep.len() + k]
                == #[trigger] (er + seq![0x5Du8])[k]);
        }
        assert(!is_digit(s[j])) by {
            if rest.len() == 0 {
                assert((er + seq![0x5Du8])[0] == 0x5D);
            } else {
                assert(er[0] == 0x2C);
                assert((er + seq![0x5Du8])[0] == 0x2C);
            }
        }
        lemma_p_byte_enc(s, i + 1, b);
        assert(s.subrange(j, j + er.len() + 1) =~= er + seq![0x5Du8]) by {
            assert(forall|k: int| 0 <= k < er.len() + 1 ==> whole[1 + ep.len() + k]
                == #[trigger] (er + seq![0x5Du8])[k]);
            assert(forall|k: int| 0 <= k < er.len() + 1 ==> #[trigger] s.subrange(
                j,
                j + er.len() + 1,
            )[k] == s[j + k]);
        }
        lemma_p_bytes_rest_enc(s, j, rest);
        assert(seq![b] + rest =~= bs);
    }
}

pub proof fn lemma_p_bytes_enc(s: Seq<u8>, i: int, bs: Seq<u8>)
    requires
        0 <= i,
        i + enc_bytes(bs).len() <= s.len(),
        s.subrange(i, i + enc_bytes(bs).len() as int) == enc_bytes(bs),
    ensures
        p_bytes(s, i) == Some((bs, i + enc_bytes(bs).len() as int)),
{
    reveal(p_bytes);
    reveal(p_bytes_rest);
    let e = enc_bytes(bs);
    assert(forall|k: int| 0 <= k < e.len() ==> s[i + k] == e[k]) by {
        assert(forall|k: int| 0 <= k < e.len() ==> s.subrange(i, i + e.len() as int)[k] == e[k]);
    }
    if bs.len() == 0 {
        assert(s[i] == e[0] && s[i + 1] == e[1]);
        assert(bs =~= Seq::<u8>::empty());
    } else {
        let b = bs[0];
        let rest = bs.drop_first();
        let ep = dec_u64(b as nat);
        let er = enc_bytes_rest(rest);
        lemma_dec_u64_shape(b as nat);
        assert(e == seq![0x5Bu8] + ep + er + seq![0x5Du8]);
        assert(s[i] == e[0] && e[0] == 0x5B);
        assert(s[i + 1] == e[1]);
        assert(e[1] == ep[0]);
        assert(s[i + 1] != 0x5D);
        assert(s.subrange(i + 1, i + 1 + ep.len() as int) =~= ep) by {
            assert(forall|k: int| 0 <= k < ep.len() ==> e[1 + k] == #[trigger] ep[k]);
            assert(forall|k: int| 0 <= k < ep.len() ==> #[trigger] s.subrange(
                i + 1,
                i + 1 + ep.len() as int,
            )[k] == s[i + 1 + k]);
        }
        let j = i + 1 + ep.len() as int;
        assert(s[j] == e[1 + ep.len() as int]);
        assert(e[1 + ep.len() as int] == (er + seq![0x5Du8])[0]) by {
            assert(forall|k: int| 0 <= k < er.len() + 1 ==> e[1 + ep.len() + k]
                == #[trigger] (er + seq![0x5Du8])[k]);
        }
        assert(!is_digit(s[j])) by {
            if rest.len() == 0 {
                assert((er + seq![0x5Du8])[0] == 0x5D);
            } else {
                assert(er[0] == 0x2C);
                assert((er + seq![0x5Du8])[0] == 0x2C);
            }
        }
        lemma_p_byte_enc(s, i + 1, b);
        assert(s.subrange(j, j + er.len() + 1) =~= er + seq![0x5Du8]) by {
            assert(forall|k: int| 0 <= k < er.len() + 1 ==> e[1 + ep.len() + k]
                == #[trigger] (er + seq![0x5Du8])[k]);
            assert(forall|k: int| 0 <= k < er.len() + 1 ==> #[trigger] s.subrange(
                j,
                j + er.len() + 1,
            )[k] == s[j + k]);
        }
        lemma_p_bytes_rest_enc(s, j, rest);
        assert(seq![b] + rest =~= bs);
    }
}






// ---------------------------------------------------------------------------
// Events
// ---------------------------------------------------------------------------
// An event is a JSON object with a leading "type" tag and a fixed field
// order per shape. The encodings below nest to the right so that a prefix
// can be split off piece by piece.

/// Splits knowledge of a concatenated range into its two parts.
pub proof fn lemma_split(s: Seq<u8>, a: int, b: int, x: Seq<u8>, y: Seq<u8>)
    requires
        0 <= a <= b <= s.len(),
        s.subrange(a, b) == x + y,
    ensures
        a + x.len() <= b,
        s.subrange(a, a + x.len() as int) == x,
        s.subrange(a + x.len() as int, b) == y,
{
    assert((x + y).len() == b - a);
    assert(s.subrange(a, a + x.len() as int) =~= x) by {
        assert forall|k: int| 0 <= k < x.len() implies s.subrange(a, a + x.len() as int)[k]
            == x[k] by {
            assert(s.subrange(a, b)[k] == (x + y)[k]);
        }
    }
    assert(s.subrange(a + x.len() as int, b) =~= y) by {
        assert forall|k: int| 0 <= k < y.len() implies s.subrange(a + x.len() as int, b)[k]
            == y[k] by {
            assert(s.subrange(a + x.len() as int, b)[k] == s[a + x.len() + k]);
            assert(s.subrange(a, b)[x.len() as int + k] == s[a + x.len() + k]);
            assert((x + y)[x.len() as int + k] == y[k]);
        }
    }
}

/// The first byte of a range known to open with a non-empty piece.
pub proof fn lemma_head_byte(s: Seq<u8>, a: int, b: int, x: Seq<u8>, y: Seq<u8>)
    requires
        0 <= a <= b <= s.len(),
        s.subrange(a, b) == x + y,
        x.len() > 0,
    ensures
        s[a] == x[0],
{
    assert((x + y).len() == b - a);
    assert(s.subrange(a, b)[0] == s[a]);
    assert((x + y)[0] == x[0]);
}

pub open spec fn enc_log(l: LogEventV) -> Seq<u8> {
    lit_bytes("{\"type\":"@) + (enc_str("log"@) + (lit_bytes(",\"timestamp\":"@) + (enc_i64(
        l.timestamp as int,
    ) + (lit_bytes(",\"source\":"@) + (enc_str(l.source) + (lit_bytes(",\"level\":"@) + (enc_level(
        l.level,
    ) + (lit_bytes(",\"message\":"@) + (enc_str(l.message) + (lit_bytes(",\"fields\":"@) + (
    enc_pairs(l.fields) + (lit_bytes(",\"tags\":"@) + (enc_strs(l.tags) + lit_bytes(
        "}"@,
    ))))))))))))))
}

pub open spec fn enc_metric(m: MetricEventV) -> Seq<u8> {
    lit_bytes("{\"type\":"@) + (enc_str("metric"@) + (lit_bytes(",\"timestamp\":"@) + (enc_i64(
        m.timestamp as int,
    ) + (lit_bytes(",\"name\":"@) + (enc_str(m.name) + (lit_bytes(",\"value\":"@) + (lit_bytes(
        m.value,
    ) + (lit_bytes(",\"metric_type\":"@) + (enc_mtype(m.metric_type) + (lit_bytes(",\"tags\":"@) + (
    enc_pairs(m.tags) + (lit_bytes(",\"unit\":"@) + (enc_opt_str(m.unit) + lit_bytes(
        "}"@,
    ))))))))))))))
}

pub open spec fn enc_traffic(t: TrafficEventV) -> Seq<u8> {
    lit_bytes("{\"type\":"@) + (enc_str("traffic"@) + (lit_bytes(",\"timestamp\":"@) + (enc_i64(
        t.timestamp as int,
    ) + (lit_bytes(",\"protocol\":"@) + (enc_protocol(t.protocol) + (lit_bytes(",\"src_ip\":"@) + (
    enc_str(t.src_ip) + (lit_bytes(",\"dst_ip\":"@) + (enc_str(t.dst_ip) + (lit_bytes(
        ",\"src_port\":"@,
    ) + (dec_u64(t.src_port as nat) + (lit_bytes(",\"dst_port\":"@) + (dec_u64(t.dst_port as nat)
        + (lit_bytes(",\"bytes\":"@) + (dec_u64(t.bytes as nat) + (lit_bytes(",\"packets\":"@) + (
    dec_u64(t.packets as nat) + (lit_bytes(",\"metadata\":"@) + (enc_pairs(t.metadata) + lit_bytes(
        "}"@,
    ))))))))))))))))))))
}

pub open spec fn enc_event(e: EventV) -> Seq<u8> {
    match e {
        EventV::Log(l) => enc_log(l),
        EventV::Metric(m) => enc_metric(m),
        EventV::Traffic(t) => enc_traffic(t),
    }
}

#[verifier::opaque]
pub open spec fn p_log_body(s: Seq<u8>, i: int) -> Option<(EventV, int)> {
    match p_lit(s, i, lit_bytes(",\"timestamp\":"@)) {
        Some(i1) => match p_i64(s, i1) {
            Some((ts, i2)) => match p_lit(s, i2, lit_bytes(",\"source\":"@)) {
                Some(i3) => match p_str(s, i3) {
                    Some((source, i4)) => match p_lit(s, i4, lit_bytes(",\"level\":"@)) {
                        Some(i5) => match p_level(s, i5) {
                            Some((level, i6)) => match p_lit(s, i6, lit_bytes(",\"message\":"@)) {
                                Some(i7) => match p_str(s, i7) {
                                    Some((message, i8)) => match p_lit(
                                        s,
                                        i8,
                                        lit_bytes(",\"fields\":"@),
                                    ) {
                                        Some(i9) => match p_pairs(s, i9) {
                                            Some((fields, i10)) => match p_lit(
                                                s,
                                                i10,
                                                lit_bytes(",\"tags\":"@),
                                            ) {
                                                Some(i11) => match p_strs(s, i11) {
                                                    Some((tags, i12)) => match p_lit(
                                                        s,
                                                        i12,
                                                        lit_bytes("}"@),
                                                    ) {
                                                        Some(i13) => Some(
                                                            (
                                                                EventV::Log(
                                                                    LogEventV {
                                                                        timestamp: ts,
                                                                        source,
                                                                        level,
                                                                        message,
                                                                        fields,
                                                                        tags,
                                                                    },
                                                                ),
                                                                i13,
                                                            ),
                                                        ),
                                                        None => None,
                                                    },
                                                    None => None,
                                                },
                                                None => None,
                                            },
                                            None => None,
                                        },
                                        None => None,
                                    },
                                    None => None,
                                },
                                None => None,
                            },
                            None => None,
                        },
                        None => None,
                    },
                    None => None,
                },
                None => None,
            },
            None => None,
        },
        None => None,
    }
}

#[verifier::opaque]
pub open spec fn p_metric_body(s: Seq<u8>, i: int) -> Option<(EventV, int)> {
    match p_lit(s, i, lit_bytes(",\"timestamp\":"@)) {
        Some(i1) => match p_i64(s, i1) {
            Some((ts, i2)) => match p_lit(s, i2, lit_bytes(",\"name\":"@)) {
                Some(i3) => match p_str(s, i3) {
                    Some((name, i4)) => match p_lit(s, i4, lit_bytes(",\"value\":"@)) {
                        Some(i5) => match p_num(s, i5) {
                            Some((value, i6)) => match p_lit(
                                s,
                                i6,
                                lit_bytes(",\"metric_type\":"@),
                            ) {
                                Some(i7) => match p_mtype(s, i7) {
                                    Some((mt, i8)) => match p_lit(s, i8, lit_bytes(",\"tags\":"@)) {
                                        Some(i9) => match p_pairs(s, i9) {
                                            Some((tags, i10)) => match p_lit(
                                                s,
                                                i10,
                                                lit_bytes(",\"unit\":"@),
                                            ) {
                                                Some(i11) => match p_opt_str(s, i11) {
                                                    Some((unit, i12)) => match p_lit(
                                                        s,
                                                        i12,
                                                        lit_bytes("}"@),
                                                    ) {
                                                        Some(i13) => Some(
                                                            (
                                                                EventV::Metric(
                                                                    MetricEventV {
                                                                        timestamp: ts,
                                                                        name,
                                                                        value,
                                                                        metric_type: mt,
                                                                        tags,
                                                                        unit,
                                                                    },
                                                                ),
                                                                i13,
                                                            ),
                                                        ),
                                                        None => None,
                                                    },
                                                    None => None,
                                                },
                                                None => None,
                                            },
                                            None => None,
                                        },
                                        None => None,
                                    },
                                    None => None,
                                },
                                None => None,
                            },
                            None => None,
                        },
                        None => None,
                    },
                    None => None,
                },
                None => None,
            },
            None => None,
        },
        None => None,
    }
}

pub open spec fn p_port(s: Seq<u8>, i: int) -> Option<(u16, int)> {
    match p_u64(s, i) {
        Some((v, j)) => {
            if v <= 65535 {
                Some((v as u16, j))
            } else {
                None
            }
        },
        None => None,
    }
}

#[verifier::opaque]
pub open spec fn p_traffic_body(s: Seq<u8>, i: int) -> Option<(EventV, int)> {
    match p_lit(s, i, lit_bytes(",\"timestamp\":"@)) {
        Some(i1) => match p_i64(s, i1) {
            Some((ts, i2)) => match p_lit(s, i2, lit_bytes(",\"protocol\":"@)) {
                Some(i3) => match p_protocol(s, i3) {
                    Some((proto, i4)) => match p_lit(s, i4, lit_bytes(",\"src_ip\":"@)) {
                        Some(i5) => match p_str(s, i5) {
                            Some((sip, i6)) => match p_lit(s, i6, lit_bytes(",\"dst_ip\":"@)) {
                                Some(i7) => match p_str(s, i7) {
                                    Some((dip, i8)) => match p_lit(
                                        s,
                                        i8,
                                        lit_bytes(",\"src_port\":"@),
                                    ) {
                                        Some(i9) => match p_port(s, i9) {
                                            Some((sport, i10)) => match p_lit(
                                                s,
                                                i10,
                                                lit_bytes(",\"dst_port\":"@),
                                            ) {
                                                Some(i11) => match p_port(s, i11) {
                                                    Some((dport, i12)) => match p_lit(
                                                        s,
                                                        i12,
                                                        lit_bytes(",\"bytes\":"@),
                                                    ) {
                                                        Some(i13) => match p_u64(s, i13) {
                                                            Some((bytes, i14)) => match p_lit(
                                                                s,
                                                                i14,
                                                                lit_bytes(",\"packets\":"@),
                                                            ) {
                                                                Some(i15) => match p_u64(s, i15) {
                                                                    Some((packets, i16)) => match
                                                                        p_lit(
                                                                        s,
                                                                        i16,
                                                                        lit_bytes(",\"metadata\":"@),
                                                                    ) {
                                                                        Some(i17) => match p_pairs(
                                                                            s,
                                                                            i17,
                                                                        ) {
                                                                            Some((meta, i18)) => match
                                                                                p_lit(
                                                                                s,
                                                                                i18,
                                                                                lit_bytes("}"@),
                                                                            ) {
                                                                                Some(i19) => Some(
                                                                                    (
                                                                                        EventV::Traffic(
                                                                                            TrafficEventV {
                                                                                                timestamp: ts,
                                                                                                protocol: proto,
                                                                                                src_ip: sip,
                                                                                                dst_ip: dip,
                                                                                                src_port: sport,
                                                                                                dst_port: dport,
                                                                                                bytes,
                                                                                                packets,
                                                                                                metadata: meta,
                                                                                            },
                                                                                        ),
                                                                                        i19,
                                                                                    ),
                                                                                ),
                                                                                None => None,
                                                                            },
                                                                            None => None,
                                                                        },
                                                                        None => None,
                                                                    },
                                                                    None => None,
                                                                },
                                                                None => None,
                                                            },
                                                            None => None,
                                                        },
                                                        None => None,
                                                    },
                                                    None => None,
                                                },
                                                None => None,
                                            },
                                            None => None,
                                        },
                                        None => None,
                                    },
                                    None => None,
                                },
                                None => None,
                            },
                            None => None,
                        },
                        None => None,
                    },
                    None => None,
                },
                None => None,
            },
            None => None,
        },
        None => None,
    }
}

#[verifier::opaque]
pub open spec fn p_event(s: Seq<u8>, i: int) -> Option<(EventV, int)> {
    match p_lit(s, i, lit_bytes("{\"type\":"@)) {
        Some(i1) => match p_str(s, i1) {
            Some((tag, i2)) => {
                if tag == "log"@ {
                    p_log_body(s, i2)
                } else if tag == "metric"@ {
                    p_metric_body(s, i2)
                } else if tag == "traffic"@ {
                    p_traffic_body(s, i2)
                } else {
                    None
                }
            },
            None => None,
        },
        None => None,
    }
}



#[verifier::rlimit(100)]
proof fn lemma_p_log_enc(s: Seq<u8>, i: int, l: LogEventV)
    requires
        0 <= i,
        i + enc_log(l).len() <= s.len(),
        s.subrange(i, i + enc_log(l).len() as int) == enc_log(l),
    ensures
        p_event(s, i) == Some((EventV::Log(l), i + enc_log(l).len() as int)),
{
    reveal(p_event);
    reveal(p_log_body);
    let e = enc_log(l);
    let b = i + e.len() as int;
    reveal_strlit(",\"fields\":");
    reveal_strlit(",\"level\":");
    reveal_strlit(",\"message\":");
    reveal_strlit(",\"source\":");
    reveal_strlit(",\"tags\":");
    reveal_strlit(",\"timestamp\":");
    reveal_strlit("log");
    reveal_strlit("{\"type\":");
    reveal_strlit("}");
    reveal_strlit("log");
    reveal_strlit("metric");
    reveal_strlit("traffic");
    assert(s.subrange(i, b) == e);
    // piece 0: lit
    let p0 = lit_bytes("{\"type\":"@);
    let r0 = enc_str("log"@) + (lit_bytes(",\"timestamp\":"@) + (enc_i64(l.timestamp as int) + (lit_bytes(",\"source\":"@) + (enc_str(l.source) + (lit_bytes(",\"level\":"@) + (enc_level(l.level) + (lit_bytes(",\"message\":"@) + (enc_str(l.message) + (lit_bytes(",\"fields\":"@) + (enc_pairs(l.fields) + (lit_bytes(",\"tags\":"@) + (enc_strs(l.tags) + (lit_bytes("}"@))))))))))))));
    assert(s.subrange(i, b) == p0 + r0);
    lemma_split(s, i, b, p0, r0);
    let c0 = i + p0.len() as int;
    lemma_p_lit_enc(s, i, p0);
    // piece 1: tag
    let p1 = enc_str("log"@);
    let r1 = lit_bytes(",\"timestamp\":"@) + (enc_i64(l.timestamp as int) + (lit_bytes(",\"source\":"@) + (enc_str(l.source) + (lit_bytes(",\"level\":"@) + (enc_level(l.level) + (lit_bytes(",\"message\":"@) + (enc_str(l.message) + (lit_bytes(",\"fields\":"@) + (enc_pairs(l.fields) + (lit_bytes(",\"tags\":"@) + (enc_strs(l.tags) + (lit_bytes("}"@)))))))))))));
    assert(s.subrange(c0, b) == p1 + r1);
    lemma_split(s, c0, b, p1, r1);
    let c1 = c0 + p1.len() as int;
    lemma_p_str_enc(s, c0, "log"@);
    // piece 2: lit
    let p2 = lit_bytes(",\"timestamp\":"@);
    let r2 = enc_i64(l.timestamp as int) + (lit_bytes(",\"source\":"@) + (enc_str(l.source) + (lit_bytes(",\"level\":"@) + (enc_level(l.level) + (lit_bytes(",\"message\":"@) + (enc_str(l.message) + (lit_bytes(",\"fields\":"@) + (enc_pairs(l.fields) + (lit_bytes(",\"tags\":"@) + (enc_strs(l.tags) + (lit_bytes("}"@))))))))))));
    assert(s.subrange(c1, b) == p2 + r2);
    lemma_split(s, c1, b, p2, r2);
    let c2 = c1 + p2.len() as int;
    lemma_p_lit_enc(s, c1, p2);
    // piece 3: i64
    let p3 = enc_i64(l.timestamp as int);
    let r3 = lit_bytes(",\"source\":"@) + (enc_str(l.source) + (lit_bytes(",\"level\":"@) + (enc_level(l.level) + (lit_bytes(",\"message\":"@) + (enc_str(l.message) + (lit_bytes(",\"fields\":"@) + (enc_pairs(l.fields) + (lit_bytes(",\"tags\":"@) + (enc_strs(l.tags) + (lit_bytes("}"@)))))))))));
    assert(s.subrange(c2, b) == p3 + r3);
    lemma_split(s, c2, b, p3, r3);
    let c3 = c2 + p3.len() as int;
    assert(s.subrange(c3, b) == r3);
    assert(r3 == lit_bytes(",\"source\":"@) + (enc_str(l.source) + (lit_bytes(",\"level\":"@) + (enc_level(l.level) + (lit_bytes(",\"message\":"@) + (enc_str(l.message) + (lit_bytes(",\"fields\":"@) + (enc_pairs(l.fields) + (lit_bytes(",\"tags\":"@) + (enc_strs(l.tags) + (lit_bytes("}"@)))))))))))) by {
        assert(r3 =~= lit_bytes(",\"source\":"@) + (enc_str(l.source) + (lit_bytes(",\"level\":"@) + (enc_level(l.level) + (lit_bytes(",\"message\":"@) + (enc_str(l.message) + (lit_bytes(",\"fields\":"@) + (enc_pairs(l.fields) + (lit_bytes(",\"tags\":"@) + (enc_strs(l.tags) + (lit_bytes("}"@))))))))))));
    }
    lemma_head_byte(s, c3, b, lit_bytes(",\"source\":"@), enc_str(l.source) + (lit_bytes(",\"level\":"@) + (enc_level(l.level) + (lit_bytes(",\"message\":"@) + (enc_str(l.message) + (lit_bytes(",\"fields\":"@) + (enc_pairs(l.fields) + (lit_bytes(",\"tags\":"@) + (enc_strs(l.tags) + (lit_bytes("}"@)))))))))));
    assert(s[c3] == lit_bytes(",\"source\":"@)[0]);
    assert(",\"source\":"@[0] == ',');
    assert(s[c3] == 0x2C);
    lemma_p_i64_enc(s, c2, l.timestamp);
    // piece 4: lit
    let p4 = lit_bytes(",\"source\":"@);
    let r4 = enc_str(l.source) + (lit_bytes(",\"level\":"@) + (enc_level(l.level) + (lit_bytes(",\"message\":"@) + (enc_str(l.message) + (lit_bytes(",\"fields\":"@) + (enc_pairs(l.fields) + (lit_bytes(",\"tags\":"@) + (enc_strs(l.tags) + (lit_bytes("}"@))))))))));
    assert(s.subrange(c3, b) == p4 + r4);
    lemma_split(s, c3, b, p4, r4);
    let c4 = c3 + p4.len() as int;
    lemma_p_lit_enc(s, c3, p4);
    // piece 5: str
    let p5 = enc_str(l.source);
    let r5 = lit_bytes(",\"level\":"@) + (enc_level(l.level) + (lit_bytes(",\"message\":"@) + (enc_str(l.message) + (lit_bytes(",\"fields\":"@) + (enc_pairs(l.fields) + (lit_bytes(",\"tags\":"@) + (enc_strs(l.tags) + (lit_bytes("}"@)))))))));
    assert(s.subrange(c4, b) == p5 + r5);
    lemma_split(s, c4, b, p5, r5);
    let c5 = c4 + p5.len() as int;
    lemma_p_str_enc(s, c4, l.source);
    // piece 6: lit
    let p6 = lit_bytes(",\"level\":"@);
    let r6 = enc_level(l.level) + (lit_bytes(",\"message\":"@) + (enc_str(l.message) + (lit_bytes(",\"fields\":"@) + (enc_pairs(l.fields) + (lit_bytes(",\"tags\":"@) + (enc_strs(l.tags) + (lit_bytes("}"@))))))));
    assert(s.subrange(c5, b) == p6 + r6);
    lemma_split(s, c5, b, p6, r6);
    let c6 = c5 + p6.len() as int;
    lemma_p_lit_enc(s, c5, p6);
    // piece 7: level
    let p7 = enc_level(l.level);
    let r7 = lit_bytes(",\"message\":"@) + (enc_str(l.message) + (lit_bytes(",\"fields\":"@) + (enc_pairs(l.fields) + (lit_bytes(",\"tags\":"@) + (enc_strs(l.tags) + (lit_bytes("}"@)))))));
    assert(s.subrange(c6, b) == p7 + r7);
    lemma_split(s, c6, b, p7, r7);
    let c7 = c6 + p7.len() as int;
    lemma_p_level_enc(s, c6, l.level);
    // piece 8: lit
    let p8 = lit_bytes(",\"message\":"@);
    let r8 = enc_str(l.message) + (lit_bytes(",\"fields\":"@) + (enc_pairs(l.fields) + (lit_bytes(",\"tags\":"@) + (enc_strs(l.tags) + (lit_bytes("}"@))))));
    assert(s.subrange(c7, b) == p8 + r8);
    lemma_split(s, c7, b, p8, r8);
    let c8 = c7 + p8.len() as int;
    lemma_p_lit_enc(s, c7, p8);
    // piece 9: str
    let p9 = enc_str(l.message);
    let r9 = lit_bytes(",\"fields\":"@) + (enc_pairs(l.fields) + (lit_bytes(",\"tags\":"@) + (enc_strs(l.tags) + (lit_bytes("}"@)))));
    assert(s.subrange(c8, b) == p9 + r9);
    lemma_split(s, c8, b, p9, r9);
    let c9 = c8 + p9.len() as int;
    lemma_p_str_enc(s, c8, l.message);
    // piece 10: lit
    let p10 = lit_bytes(",\"fields\":"@);
    let r10 = enc_pairs(l.fields) + (lit_bytes(",\"tags\":"@) + (enc_strs(l.tags) + (lit_bytes("}"@))));
    assert(s.subrange(c9, b) == p10 + r10);
    lemma_split(s, c9, b, p10, r10);
    let c10 = c9 + p10.len() as int;
    lemma_p_lit_enc(s, c9, p10);
    // piece 11: pairs
    let p11 = enc_pairs(l.fields);
    let r11 = lit_bytes(",\"tags\":"@) + (enc_strs(l.tags) + (lit_bytes("}"@)));
    assert(s.subrange(c10, b) == p11 + r11);
    lemma_split(s, c10, b, p11, r11);
    let c11 = c10 + p11.len() as int;
    lemma_p_pairs_enc(s, c10, l.fields);
    // piece 12: lit
    let p12 = lit_bytes(",\"tags\":"@);
    let r12 = enc_strs(l.tags) + (lit_bytes("}"@));
    assert(s.subrange(c11, b) == p12 + r12);
    lemma_split(s, c11, b, p12, r12);
    let c12 = c11 + p12.len() as int;
    lemma_p_lit_enc(s, c11, p12);
    // piece 13: strs
    let p13 = enc_strs(l.tags);
    let r13 = lit_bytes("}"@);
    assert(s.subrange(c12, b) == p13 + r13);
    lemma_split(s, c12, b, p13, r13);
    let c13 = c12 + p13.len() as int;
    lemma_p_strs_enc(s, c12, l.tags);
    // piece 14: lit
    let p14 = lit_bytes("}"@);
    assert(s.subrange(c13, b) == p14 + Seq::<u8>::empty()) by {
        assert(p14 + Seq::<u8>::empty() =~= p14);
    }
    lemma_split(s, c13, b, p14, Seq::<u8>::empty());
    let c14 = c13 + p14.len() as int;
    lemma_p_lit_enc(s, c13, p14);
    assert(c14 == b);
}

#[verifier::rlimit(100)]
proof fn lemma_p_metric_enc(s: Seq<u8>, i: int, m: MetricEventV)
    requires
        is_number_text(m.value),
        0 <= i,
        i + enc_metric(m).len() <= s.len(),
        s.subrange(i, i + enc_metric(m).len() as int) == enc_metric(m),
    ensures
        p_event(s, i) == Some((EventV::Metric(m), i + enc_metric(m).len() as int)),
{
    reveal(p_event);
    reveal(p_metric_body);
    let e = enc_metric(m);
    let b = i + e.len() as int;
    reveal_strlit(",\"metric_type\":");
    reveal_strlit(",\"name\":");
    reveal_strlit(",\"tags\":");
    reveal_strlit(",\"timestamp\":");
    reveal_strlit(",\"unit\":");
    reveal_strlit(",\"value\":");
    reveal_strlit("metric");
    reveal_strlit("{\"type\":");
    reveal_strlit("}");
    reveal_strlit("log");
    reveal_strlit("metric");
    reveal_strlit("traffic");
    assert(s.subrange(i, b) == e);
    // piece 0: lit
    let p0 = lit_bytes("{\"type\":"@);
    let r0 = enc_str("metric"@) + (lit_bytes(",\"timestamp\":"@) + (enc_i64(m.timestamp as int) + (lit_bytes(",\"name\":"@) + (enc_str(m.name) + (lit_bytes(",\"value\":"@) + (lit_bytes(m.value) + (lit_bytes(",\"metric_type\":"@) + (enc_mtype(m.metric_type) + (lit_bytes(",\"tags\":"@) + (enc_pairs(m.tags) + (lit_bytes(",\"unit\":"@) + (enc_opt_str(m.unit) + (lit_bytes("}"@))))))))))))));
    assert(s.subrange(i, b) == p0 + r0);
    lemma_split(s, i, b, p0, r0);
    let c0 = i + p0.len() as int;
    lemma_p_lit_enc(s, i, p0);
    // piece 1: tag
    let p1 = enc_str("metric"@);
    let r1 = lit_bytes(",\"timestamp\":"@) + (enc_i64(m.timestamp as int) + (lit_bytes(",\"name\":"@) + (enc_str(m.name) + (lit_bytes(",\"value\":"@) + (lit_bytes(m.value) + (lit_bytes(",\"metric_type\":"@) + (enc_mtype(m.metric_type) + (lit_bytes(",\"tags\":"@) + (enc_pairs(m.tags) + (lit_bytes(",\"unit\":"@) + (enc_opt_str(m.unit) + (lit_bytes("}"@)))))))))))));
    assert(s.subrange(c0, b) == p1 + r1);
    lemma_split(s, c0, b, p1, r1);
    let c1 = c0 + p1.len() as int;
    lemma_p_str_enc(s, c0, "metric"@);
    // piece 2: lit
    let p2 = lit_bytes(",\"timestamp\":"@);
    let r2 = enc_i64(m.timestamp as int) + (lit_bytes(",\"name\":"@) + (enc_str(m.name) + (lit_bytes(",\"value\":"@) + (lit_bytes(m.value) + (lit_bytes(",\"metric_type\":"@) + (enc_mtype(m.metric_type) + (lit_bytes(",\"tags\":"@) + (enc_pairs(m.tags) + (lit_bytes(",\"unit\":"@) + (enc_opt_str(m.unit) + (lit_bytes("}"@))))))))))));
    assert(s.subrange(c1, b) == p2 + r2);
    lemma_split(s, c1, b, p2, r2);
    let c2 = c1 + p2.len() as int;
    lemma_p_lit_enc(s, c1, p2);
    // piece 3: i64
    let p3 = enc_i64(m.timestamp as int);
    let r3 = lit_bytes(",\"name\":"@) + (enc_str(m.name) + (lit_bytes(",\"value\":"@) + (lit_bytes(m.value) + (lit_bytes(",\"metric_type\":"@) + (enc_mtype(m.metric_type) + (lit_bytes(",\"tags\":"@) + (enc_pairs(m.tags) + (lit_bytes(",\"unit\":"@) + (enc_opt_str(m.unit) + (lit_bytes("}"@)))))))))));
    assert(s.subrange(c2, b) == p3 + r3);
    lemma_split(s, c2, b, p3, r3);
    let c3 = c2 + p3.len() as int;
    assert(s.subrange(c3, b) == r3);
    assert(r3 == lit_bytes(",\"name\":"@) + (enc_str(m.name) + (lit_bytes(",\"value\":"@) + (lit_bytes(m.value) + (lit_bytes(",\"metric_type\":"@) + (enc_mtype(m.metric_type) + (lit_bytes(",\"tags\":"@) + (enc_pairs(m.tags) + (lit_bytes(",\"unit\":"@) + (enc_opt_str(m.unit) + (lit_bytes("}"@)))))))))))) by {
        assert(r3 =~= lit_bytes(",\"name\":"@) + (enc_str(m.name) + (lit_bytes(",\"value\":"@) + (lit_bytes(m.value) + (lit_bytes(",\"metric_type\":"@) + (enc_mtype(m.metric_type) + (lit_bytes(",\"tags\":"@) + (enc_pairs(m.tags) + (lit_bytes(",\"unit\":"@) + (enc_opt_str(m.unit) + (lit_bytes("}"@))))))))))));
    }
    lemma_head_byte(s, c3, b, lit_bytes(",\"name\":"@), enc_str(m.name) + (lit_bytes(",\"value\":"@) + (lit_bytes(m.value) + (lit_bytes(",\"metric_type\":"@) + (enc_mtype(m.metric_type) + (lit_bytes(",\"tags\":"@) + (enc_pairs(m.tags) + (lit_bytes(",\"unit\":"@) + (enc_opt_str(m.unit) + (lit_bytes("}"@)))))))))));
    assert(s[c3] == lit_bytes(",\"name\":"@)[0]);
    assert(",\"name\":"@[0] == ',');
    assert(s[c3] == 0x2C);
    lemma_p_i64_enc(s, c2, m.timestamp);
    // piece 4: lit
    let p4 = lit_bytes(",\"name\":"@);
    let r4 = enc_str(m.name) + (lit_bytes(",\"value\":"@) + (lit_bytes(m.value) + (lit_bytes(",\"metric_type\":"@) + (enc_mtype(m.metric_type) + (lit_bytes(",\"tags\":"@) + (enc_pairs(m.tags) + (lit_bytes(",\"unit\":"@) + (enc_opt_str(m.unit) + (lit_bytes("}"@))))))))));
    assert(s.subrange(c3, b) == p4 + r4);
    lemma_split(s, c3, b, p4, r4);
    let c4 = c3 + p4.len() as int;
    lemma_p_lit_enc(s, c3, p4);
    // piece 5: str
    let p5 = enc_str(m.name);
    let r5 = lit_bytes(",\"value\":"@) + (lit_bytes(m.value) + (lit_bytes(",\"metric_type\":"@) + (enc_mtype(m.metric_type) + (lit_bytes(",\"tags\":"@) + (enc_pairs(m.tags) + (lit_bytes(",\"unit\":"@) + (enc_opt_str(m.unit) + (lit_bytes("}"@)))))))));
    assert(s.subrange(c4, b) == p5 + r5);
    lemma_split(s, c4, b, p5, r5);
    let c5 = c4 + p5.len() as int;
    lemma_p_str_enc(s, c4, m.name);
    // piece 6: lit
    let p6 = lit_bytes(",\"value\":"@);
    let r6 = lit_bytes(m.value) + (lit_bytes(",\"metric_type\":"@) + (enc_mtype(m.metric_type) + (lit_bytes(",\"tags\":"@) + (enc_pairs(m.tags) + (lit_bytes(",\"unit\":"@) + (enc_opt_str(m.unit) + (lit_bytes("}"@))))))));
    assert(s.subrange(c5, b) == p6 + r6);
    lemma_split(s, c5, b, p6, r6);
    let c6 = c5 + p6.len() as int;
    lemma_p_lit_enc(s, c5, p6);
    // piece 7: num
    let p7 = lit_bytes(m.value);
    let r7 = lit_bytes(",\"metric_type\":"@) + (enc_mtype(m.metric_type) + (lit_bytes(",\"tags\":"@) + (enc_pairs(m.tags) + (lit_bytes(",\"unit\":"@) + (enc_opt_str(m.unit) + (lit_bytes("}"@)))))));
    assert(s.subrange(c6, b) == p7 + r7);
    lemma_split(s, c6, b, p7, r7);
    let c7 = c6 + p7.len() as int;
    assert(s.subrange(c7, b) == r7);
    assert(r7 == lit_bytes(",\"metric_type\":"@) + (enc_mtype(m.metric_type) + (lit_bytes(",\"tags\":"@) + (enc_pairs(m.tags) + (lit_bytes(",\"unit\":"@) + (enc_opt_str(m.unit) + (lit_bytes("}"@)))))))) by {
        assert(r7 =~= lit_bytes(",\"metric_type\":"@) + (enc_mtype(m.metric_type) + (lit_bytes(",\"tags\":"@) + (enc_pairs(m.tags) + (lit_bytes(",\"unit\":"@) + (enc_opt_str(m.unit) + (lit_bytes("}"@))))))));
    }
    lemma_head_byte(s, c7, b, lit_bytes(",\"metric_type\":"@), enc_mtype(m.metric_type) + (lit_bytes(",\"tags\":"@) + (enc_pairs(m.tags) + (lit_bytes(",\"unit\":"@) + (enc_opt_str(m.unit) + (lit_bytes("}"@)))))));
    assert(s[c7] == lit_bytes(",\"metric_type\":"@)[0]);
    assert(",\"metric_type\":"@[0] == ',');
    assert(s[c7] == 0x2C);
    lemma_p_num_enc(s, c6, m.value);
    // piece 8: lit
    let p8 = lit_bytes(",\"metric_type\":"@);
    let r8 = enc_mtype(m.metric_type) + (lit_bytes(",\"tags\":"@) + (enc_pairs(m.tags) + (lit_bytes(",\"unit\":"@) + (enc_opt_str(m.unit) + (lit_bytes("}"@))))));
    assert(s.subrange(c7, b) == p8 + r8);
    lemma_split(s, c7, b, p8, r8);
    let c8 = c7 + p8.len() as int;
    lemma_p_lit_enc(s, c7, p8);
    // piece 9: mtype
    let p9 = enc_mtype(m.metric_type);
    let r9 = lit_bytes(",\"tags\":"@) + (enc_pairs(m.tags) + (lit_bytes(",\"unit\":"@) + (enc_opt_str(m.unit) + (lit_bytes("}"@)))));
    assert(s.subrange(c8, b) == p9 + r9);
    lemma_split(s, c8, b, p9, r9);
    let c9 = c8 + p9.len() as int;
    lemma_p_mtype_enc(s, c8, m.metric_type);
    // piece 10: lit
    let p10 = lit_bytes(",\"tags\":"@);
    let r10 = enc_pairs(m.tags) + (lit_bytes(",\"unit\":"@) + (enc_opt_str(m.unit) + (lit_bytes("}"@))));
    assert(s.subrange(c9, b) == p10 + r10);
    lemma_split(s, c9, b, p10, r10);
    let c10 = c9 + p10.len() as int;
    lemma_p_lit_enc(s, c9, p10);
    // piece 11: pairs
    let p11 = enc_pairs(m.tags);
    let r11 = lit_bytes(",\"unit\":"@) + (enc_opt_str(m.unit) + (lit_bytes("}"@)));
    assert(s.subrange(c10, b) == p11 + r11);
    lemma_split(s, c10, b, p11, r11);
    let c11 = c10 + p11.len() as int;
    lemma_p_pairs_enc(s, c10, m.tags);
    // piece 12: lit
    let p12 = lit_bytes(",\"unit\":"@);
    let r12 = enc_opt_str(m.unit) + (lit_bytes("}"@));
    assert(s.subrange(c11, b) == p12 + r12);
    lemma_split(s, c11, b, p12, r12);
    let c12 = c11 + p12.len() as int;
    lemma_p_lit_enc(s, c11, p12);
    // piece 13: optstr
    let p13 = enc_opt_str(m.unit);
    let r13 = lit_bytes("}"@);
    assert(s.subrange(c12, b) == p13 + r13);
    lemma_split(s, c12, b, p13, r13);
    let c13 = c12 + p13.len() as int;
    lemma_p_opt_str_enc(s, c12, m.unit);
    // piece 14: lit
    let p14 = lit_bytes("}"@);
    assert(s.subrange(c13, b) == p14 + Seq::<u8>::empty()) by {
        assert(p14 + Seq::<u8>::empty() =~= p14);
    }
    lemma_split(s, c13, b, p14, Seq::<u8>::empty());
    let c14 = c13 + p14.len() as int;
    lemma_p_lit_enc(s, c13, p14);
    assert(c14 == b);
}

#[verifier::rlimit(100)]
proof fn lemma_p_traffic_enc(s: Seq<u8>, i: int, t: TrafficEventV)
    requires
        0 <= i,
        i + enc_traffic(t).len() <= s.len(),
        s.subrange(i, i + enc_traffic(t).len() as int) == enc_traffic(t),
    ensures
        p_event(s, i) == Some((EventV::Traffic(t), i + enc_traffic(t).len() as int)),
{
    reveal(p_event);
    reveal(p_traffic_body);
    let e = enc_traffic(t);
    let b = i + e.len() as int;
    reveal_strlit(",\"bytes\":");
    reveal_strlit(",\"dst_ip\":");
    reveal_strlit(",\"dst_port\":");
    reveal_strlit(",\"metadata\":");
    reveal_strlit(",\"packets\":");
    reveal_strlit(",\"protocol\":");
    reveal_strlit(",\"src_ip\":");
    reveal_strlit(",\"src_port\":");
    reveal_strlit(",\"timestamp\":");
    reveal_strlit("traffic");
    reveal_strlit("{\"type\":");
    reveal_strlit("}");
    reveal_strlit("log");
    reveal_strlit("metric");
    reveal_strlit("traffic");
    assert(s.subrange(i, b) == e);
    // piece 0: lit
    let p0 = lit_bytes("{\"type\":"@);
    let r0 = enc_str("traffic"@) + (lit_bytes(",\"timestamp\":"@) + (enc_i64(t.timestamp as int) + (lit_bytes(",\"protocol\":"@) + (enc_protocol(t.protocol) + (lit_bytes(",\"src_ip\":"@) + (enc_str(t.src_ip) + (lit_bytes(",\"dst_ip\":"@) + (enc_str(t.dst_ip) + (lit_bytes(",\"src_port\":"@) + (dec_u64(t.src_port as nat) + (lit_bytes(",\"dst_port\":"@) + (dec_u64(t.dst_port as nat) + (lit_bytes(",\"bytes\":"@) + (dec_u64(t.bytes as nat) + (lit_bytes(",\"packets\":"@) + (dec_u64(t.packets as nat) + (lit_bytes(",\"metadata\":"@) + (enc_pairs(t.metadata) + (lit_bytes("}"@))))))))))))))))))));
    assert(s.subrange(i, b) == p0 + r0);
    lemma_split(s, i, b, p0, r0);
    let c0 = i + p0.len() as int;
    lemma_p_lit_enc(s, i, p0);
    // piece 1: tag
    let p1 = enc_str("traffic"@);
    let r1 = lit_bytes(",\"timestamp\":"@) + (enc_i64(t.timestamp as int) + (lit_bytes(",\"protocol\":"@) + (enc_protocol(t.protocol) + (lit_bytes(",\"src_ip\":"@) + (enc_str(t.src_ip) + (lit_bytes(",\"dst_ip\":"@) + (enc_str(t.dst_ip) + (lit_bytes(",\"src_port\":"@) + (dec_u64(t.src_port as nat) + (lit_bytes(",\"dst_port\":"@) + (dec_u64(t.dst_port as nat) + (lit_bytes(",\"bytes\":"@) + (dec_u64(t.bytes as nat) + (lit_bytes(",\"packets\":"@) + (dec_u64(t.packets as nat) + (lit_bytes(",\"metadata\":"@) + (enc_pairs(t.metadata) + (lit_bytes("}"@)))))))))))))))))));
    assert(s.subrange(c0, b) == p1 + r1);
    lemma_split(s, c0, b, p1, r1);
    let c1 = c0 + p1.len() as int;
    lemma_p_str_enc(s, c0, "traffic"@);
    // piece 2: lit
    let p2 = lit_bytes(",\"timestamp\":"@);
    let r2 = enc_i64(t.timestamp as int) + (lit_bytes(",\"protocol\":"@) + (enc_protocol(t.protocol) + (lit_bytes(",\"src_ip\":"@) + (enc_str(t.src_ip) + (lit_bytes(",\"dst_ip\":"@) + (enc_str(t.dst_ip) + (lit_bytes(",\"src_port\":"@) + (dec_u64(t.src_port as nat) + (lit_bytes(",\"dst_port\":"@) + (dec_u64(t.dst_port as nat) + (lit_bytes(",\"bytes\":"@) + (dec_u64(t.bytes as nat) + (lit_bytes(",\"packets\":"@) + (dec_u64(t.packets as nat) + (lit_bytes(",\"metadata\":"@) + (enc_pairs(t.metadata) + (lit_bytes("}"@))))))))))))))))));
    assert(s.subrange(c1, b) == p2 + r2);
    lemma_split(s, c1, b, p2, r2);
    let c2 = c1 + p2.len() as int;
    lemma_p_lit_enc(s, c1, p2);
    // piece 3: i64
    let p3 = enc_i64(t.timestamp as int);
    let r3 = lit_bytes(",\"protocol\":"@) + (enc_protocol(t.protocol) + (lit_bytes(",\"src_ip\":"@) + (enc_str(t.src_ip) + (lit_bytes(",\"dst_ip\":"@) + (enc_str(t.dst_ip) + (lit_bytes(",\"src_port\":"@) + (dec_u64(t.src_port as nat) + (lit_bytes(",\"dst_port\":"@) + (dec_u64(t.dst_port as nat) + (lit_bytes(",\"bytes\":"@) + (dec_u64(t.bytes as nat) + (lit_bytes(",\"packets\":"@) + (dec_u64(t.packets as nat) + (lit_bytes(",\"metadata\":"@) + (enc_pairs(t.metadata) + (lit_bytes("}"@)))))))))))))))));
    assert(s.subrange(c2, b) == p3 + r3);
    lemma_split(s, c2, b, p3, r3);
    let c3 = c2 + p3.len() as int;
    assert(s.subrange(c3, b) == r3);
    assert(r3 == lit_bytes(",\"protocol\":"@) + (enc_protocol(t.protocol) + (lit_bytes(",\"src_ip\":"@) + (enc_str(t.src_ip) + (lit_bytes(",\"dst_ip\":"@) + (enc_str(t.dst_ip) + (lit_bytes(",\"src_port\":"@) + (dec_u64(t.src_port as nat) + (lit_bytes(",\"dst_port\":"@) + (dec_u64(t.dst_port as nat) + (lit_bytes(",\"bytes\":"@) + (dec_u64(t.bytes as nat) + (lit_bytes(",\"packets\":"@) + (dec_u64(t.packets as nat) + (lit_bytes(",\"metadata\":"@) + (enc_pairs(t.metadata) + (lit_bytes("}"@)))))))))))))))))) by {
        assert(r3 =~= lit_bytes(",\"protocol\":"@) + (enc_protocol(t.protocol) + (lit_bytes(",\"src_ip\":"@) + (enc_str(t.src_ip) + (lit_bytes(",\"dst_ip\":"@) + (enc_str(t.dst_ip) + (lit_bytes(",\"src_port\":"@) + (dec_u64(t.src_port as nat) + (lit_bytes(",\"dst_port\":"@) + (dec_u64(t.dst_port as nat) + (lit_bytes(",\"bytes\":"@) + (dec_u64(t.bytes as nat) + (lit_bytes(",\"packets\":"@) + (dec_u64(t.packets as nat) + (lit_bytes(",\"metadata\":"@) + (enc_pairs(t.metadata) + (lit_bytes("}"@))))))))))))))))));
    }
    lemma_head_byte(s, c3, b, lit_bytes(",\"protocol\":"@), enc_protocol(t.protocol) + (lit_bytes(",\"src_ip\":"@) + (enc_str(t.src_ip) + (lit_bytes(",\"dst_ip\":"@) + (enc_str(t.dst_ip) + (lit_bytes(",\"src_port\":"@) + (dec_u64(t.src_port as nat) + (lit_bytes(",\"dst_port\":"@) + (dec_u64(t.dst_port as nat) + (lit_bytes(",\"bytes\":"@) + (dec_u64(t.bytes as nat) + (lit_bytes(",\"packets\":"@) + (dec_u64(t.packets as nat) + (lit_bytes(",\"metadata\":"@) + (enc_pairs(t.metadata) + (lit_bytes("}"@)))))))))))))))));
    assert(s[c3] == lit_bytes(",\"protocol\":"@)[0]);
    assert(",\"protocol\":"@[0] == ',');
    assert(s[c3] == 0x2C);
    lemma_p_i64_enc(s, c2, t.timestamp);
    // piece 4: lit
    let p4 = lit_bytes(",\"protocol\":"@);
    let r4 = enc_protocol(t.protocol) + (lit_bytes(",\"src_ip\":"@) + (enc_str(t.src_ip) + (lit_bytes(",\"dst_ip\":"@) + (enc_str(t.dst_ip) + (lit_bytes(",\"src_port\":"@) + (dec_u64(t.src_port as nat) + (lit_bytes(",\"dst_port\":"@) + (dec_u64(t.dst_port as nat) + (lit_bytes(",\"bytes\":"@) + (dec_u64(t.bytes as nat) + (lit_bytes(",\"packets\":"@) + (dec_u64(t.packets as nat) + (lit_bytes(",\"metadata\":"@) + (enc_pairs(t.metadata) + (lit_bytes("}"@))))))))))))))));
    assert(s.subrange(c3, b) == p4 + r4);
    lemma_split(s, c3, b, p4, r4);
    let c4 = c3 + p4.len() as int;
    lemma_p_lit_enc(s, c3, p4);
    // piece 5: protocol
    let p5 = enc_protocol(t.protocol);
    let r5 = lit_bytes(",\"src_ip\":"@) + (enc_str(t.src_ip) + (lit_bytes(",\"dst_ip\":"@) + (enc_str(t.dst_ip) + (lit_bytes(",\"src_port\":"@) + (dec_u64(t.src_port as nat) + (lit_bytes(",\"dst_port\":"@) + (dec_u64(t.dst_port as nat) + (lit_bytes(",\"bytes\":"@) + (dec_u64(t.bytes as nat) + (lit_bytes(",\"packets\":"@) + (dec_u64(t.packets as nat) + (lit_bytes(",\"metadata\":"@) + (enc_pairs(t.metadata) + (lit_bytes("}"@)))))))))))))));
    assert(s.subrange(c4, b) == p5 + r5);
    lemma_split(s, c4, b, p5, r5);
    let c5 = c4 + p5.len() as int;
    lemma_p_protocol_enc(s, c4, t.protocol);
    // piece 6: lit
    let p6 = lit_bytes(",\"src_ip\":"@);
    let r6 = enc_str(t.src_ip) + (lit_bytes(",\"dst_ip\":"@) + (enc_str(t.dst_ip) + (lit_bytes(",\"src_port\":"@) + (dec_u64(t.src_port as nat) + (lit_bytes(",\"dst_port\":"@) + (dec_u64(t.dst_port as nat) + (lit_bytes(",\"bytes\":"@) + (dec_u64(t.bytes as nat) + (lit_bytes(",\"packets\":"@) + (dec_u64(t.packets as nat) + (lit_bytes(",\"metadata\":"@) + (enc_pairs(t.metadata) + (lit_bytes("}"@))))))))))))));
    assert(s.subrange(c5, b) == p6 + r6);
    lemma_split(s, c5, b, p6, r6);
    let c6 = c5 + p6.len() as int;
    lemma_p_lit_enc(s, c5, p6);
    // piece 7: str
    let p7 = enc_str(t.src_ip);
    let r7 = lit_bytes(",\"dst_ip\":"@) + (enc_str(t.dst_ip) + (lit_bytes(",\"src_port\":"@) + (dec_u64(t.src_port as nat) + (lit_bytes(",\"dst_port\":"@) + (dec_u64(t.dst_port as nat) + (lit_bytes(",\"bytes\":"@) + (dec_u64(t.bytes as nat) + (lit_bytes(",\"packets\":"@) + (dec_u64(t.packets as nat) + (lit_bytes(",\"metadata\":"@) + (enc_pairs(t.metadata) + (lit_bytes("}"@)))))))))))));
    assert(s.subrange(c6, b) == p7 + r7);
    lemma_split(s, c6, b, p7, r7);
    let c7 = c6 + p7.len() as int;
    lemma_p_str_enc(s, c6, t.src_ip);
    // piece 8: lit
    let p8 = lit_bytes(",\"dst_ip\":"@);
    let r8 = enc_str(t.dst_ip) + (lit_bytes(",\"src_port\":"@) + (dec_u64(t.src_port as nat) + (lit_bytes(",\"dst_port\":"@) + (dec_u64(t.dst_port as nat) + (lit_bytes(",\"bytes\":"@) + (dec_u64(t.bytes as nat) + (lit_bytes(",\"packets\":"@) + (dec_u64(t.packets as nat) + (lit_bytes(",\"metadata\":"@) + (enc_pairs(t.metadata) + (lit_bytes("}"@))))))))))));
    assert(s.subrange(c7, b) == p8 + r8);
    lemma_split(s, c7, b, p8, r8);
    let c8 = c7 + p8.len() as int;
    lemma_p_lit_enc(s, c7, p8);
    // piece 9: str
    let p9 = enc_str(t.dst_ip);
    let r9 = lit_bytes(",\"src_port\":"@) + (dec_u64(t.src_port as nat) + (lit_bytes(",\"dst_port\":"@) + (dec_u64(t.dst_port as nat) + (lit_bytes(",\"bytes\":"@) + (dec_u64(t.bytes as nat) + (lit_bytes(",\"packets\":"@) + (dec_u64(t.packets as nat) + (lit_bytes(",\"metadata\":"@) + (enc_pairs(t.metadata) + (lit_bytes("}"@)))))))))));
    assert(s.subrange(c8, b) == p9 + r9);
    lemma_split(s, c8, b, p9, r9);
    let c9 = c8 + p9.len() as int;
    lemma_p_str_enc(s, c8, t.dst_ip);
    // piece 10: lit
    let p10 = lit_bytes(",\"src_port\":"@);
    let r10 = dec_u64(t.src_port as nat) + (lit_bytes(",\"dst_port\":"@) + (dec_u64(t.dst_port as nat) + (lit_bytes(",\"bytes\":"@) + (dec_u64(t.bytes as nat) + (lit_bytes(",\"packets\":"@) + (dec_u64(t.packets as nat) + (lit_bytes(",\"metadata\":"@) + (enc_pairs(t.metadata) + (lit_bytes("}"@))))))))));
    assert(s.subrange(c9, b) == p10 + r10);
    lemma_split(s, c9, b, p10, r10);
    let c10 = c9 + p10.len() as int;
    lemma_p_lit_enc(s, c9, p10);
    // piece 11: port
    let p11 = dec_u64(t.src_port as nat);
    let r11 = lit_bytes(",\"dst_port\":"@) + (dec_u64(t.dst_port as nat) + (lit_bytes(",\"bytes\":"@) + (dec_u64(t.bytes as nat) + (lit_bytes(",\"packets\":"@) + (dec_u64(t.packets as nat) + (lit_bytes(",\"metadata\":"@) + (enc_pairs(t.metadata) + (lit_bytes("}"@)))))))));
    assert(s.subrange(c10, b) == p11 + r11);
    lemma_split(s, c10, b, p11, r11);
    let c11 = c10 + p11.len() as int;
    assert(s.subrange(c11, b) == r11);
    assert(r11 == lit_bytes(",\"dst_port\":"@) + (dec_u64(t.dst_port as nat) + (lit_bytes(",\"bytes\":"@) + (dec_u64(t.bytes as nat) + (lit_bytes(",\"packets\":"@) + (dec_u64(t.packets as nat) + (lit_bytes(",\"metadata\":"@) + (enc_pairs(t.metadata) + (lit_bytes("}"@)))))))))) by {
        assert(r11 =~= lit_bytes(",\"dst_port\":"@) + (dec_u64(t.dst_port as nat) + (lit_bytes(",\"bytes\":"@) + (dec_u64(t.bytes as nat) + (lit_bytes(",\"packets\":"@) + (dec_u64(t.packets as nat) + (lit_bytes(",\"metadata\":"@) + (enc_pairs(t.metadata) + (lit_bytes("}"@))))))))));
    }
    lemma_head_byte(s, c11, b, lit_bytes(",\"dst_port\":"@), dec_u64(t.dst_port as nat) + (lit_bytes(",\"bytes\":"@) + (dec_u64(t.bytes as nat) + (lit_bytes(",\"packets\":"@) + (dec_u64(t.packets as nat) + (lit_bytes(",\"metadata\":"@) + (enc_pairs(t.metadata) + (lit_bytes("}"@)))))))));
    assert(s[c11] == lit_bytes(",\"dst_port\":"@)[0]);
    assert(",\"dst_port\":"@[0] == ',');
    assert(s[c11] == 0x2C);
    lemma_p_u64_enc(s, c10, t.src_port as u64);
    assert((t.src_port as u64) <= 65535);
    // piece 12: lit
    let p12 = lit_bytes(",\"dst_port\":"@);
    let r12 = dec_u64(t.dst_port as nat) + (lit_bytes(",\"bytes\":"@) + (dec_u64(t.bytes as nat) + (lit_bytes(",\"packets\":"@) + (dec_u64(t.packets as nat) + (lit_bytes(",\"metadata\":"@) + (enc_pairs(t.metadata) + (lit_bytes("}"@))))))));
    assert(s.subrange(c11, b) == p12 + r12);
    lemma_split(s, c11, b, p12, r12);
    let c12 = c11 + p12.len() as int;
    lemma_p_lit_enc(s, c11, p12);
    // piece 13: port
    let p13 = dec_u64(t.dst_port as nat);
    let r13 = lit_bytes(",\"bytes\":"@) + (dec_u64(t.bytes as nat) + (lit_bytes(",\"packets\":"@) + (dec_u64(t.packets as nat) + (lit_bytes(",\"metadata\":"@) + (enc_pairs(t.metadata) + (lit_bytes("}"@)))))));
    assert(s.subrange(c12, b) == p13 + r13);
    lemma_split(s, c12, b, p13, r13);
    let c13 = c12 + p13.len() as int;
    assert(s.subrange(c13, b) == r13);
    assert(r13 == lit_bytes(",\"bytes\":"@) + (dec_u64(t.bytes as nat) + (lit_bytes(",\"packets\":"@) + (dec_u64(t.packets as nat) + (lit_bytes(",\"metadata\":"@) + (enc_pairs(t.metadata) + (lit_bytes("}"@)))))))) by {
        assert(r13 =~= lit_bytes(",\"bytes\":"@) + (dec_u64(t.bytes as nat) + (lit_bytes(",\"packets\":"@) + (dec_u64(t.packets as nat) + (lit_bytes(",\"metadata\":"@) + (enc_pairs(t.metadata) + (lit_bytes("}"@))))))));
    }
    lemma_head_byte(s, c13, b, lit_bytes(",\"bytes\":"@), dec_u64(t.bytes as nat) + (lit_bytes(",\"packets\":"@) + (dec_u64(t.packets as nat) + (lit_bytes(",\"metadata\":"@) + (enc_pairs(t.metadata) + (lit_bytes("}"@)))))));
    assert(s[c13] == lit_bytes(",\"bytes\":"@)[0]);
    assert(",\"bytes\":"@[0] == ',');
    assert(s[c13] == 0x2C);
    lemma_p_u64_enc(s, c12, t.dst_port as u64);
    assert((t.dst_port as u64) <= 65535);
    // piece 14: lit
    let p14 = lit_bytes(",\"bytes\":"@);
    let r14 = dec_u64(t.bytes as nat) + (lit_bytes(",\"packets\":"@) + (dec_u64(t.packets as nat) + (lit_bytes(",\"metadata\":"@) + (enc_pairs(t.metadata) + (lit_bytes("}"@))))));
    assert(s.subrange(c13, b) == p14 + r14);
    lemma_split(s, c13, b, p14, r14);
    let c14 = c13 + p14.len() as int;
    lemma_p_lit_enc(s, c13, p14);
    // piece 15: u64
    let p15 = dec_u64(t.bytes as nat);
    let r15 = lit_bytes(",\"packets\":"@) + (dec_u64(t.packets as nat) + (lit_bytes(",\"metadata\":"@) + (enc_pairs(t.metadata) + (lit_bytes("}"@)))));
    assert(s.subrange(c14, b) == p15 + r15);
    lemma_split(s, c14, b, p15, r15);
    let c15 = c14 + p15.len() as int;
    assert(s.subrange(c15, b) == r15);
    assert(r15 == lit_bytes(",\"packets\":"@) + (dec_u64(t.packets as nat) + (lit_bytes(",\"metadata\":"@) + (enc_pairs(t.metadata) + (lit_bytes("}"@)))))) by {
        assert(r15 =~= lit_bytes(",\"packets\":"@) + (dec_u64(t.packets as nat) + (lit_bytes(",\"metadata\":"@) + (enc_pairs(t.metadata) + (lit_bytes("}"@))))));
    }
    lemma_head_byte(s, c15, b, lit_bytes(",\"packets\":"@), dec_u64(t.packets as nat) + (lit_bytes(",\"metadata\":"@) + (enc_pairs(t.metadata) + (lit_bytes("}"@)))));
    assert(s[c15] == lit_bytes(",\"packets\":"@)[0]);
    assert(",\"packets\":"@[0] == ',');
    assert(s[c15] == 0x2C);
    lemma_p_u64_enc(s, c14, t.bytes);
    // piece 16: lit
    let p16 = lit_bytes(",\"packets\":"@);
    let r16 = dec_u64(t.packets as nat) + (lit_bytes(",\"metadata\":"@) + (enc_pairs(t.metadata) + (lit_bytes("}"@))));
    assert(s.subrange(c15, b) == p16 + r16);
    lemma_split(s, c15, b, p16, r16);
    let c16 = c15 + p16.len() as int;
    lemma_p_lit_enc(s, c15, p16);
    // piece 17: u64
    let p17 = dec_u64(t.packets as nat);
    let r17 = lit_bytes(",\"metadata\":"@) + (enc_pairs(t.metadata) + (lit_bytes("}"@)));
    assert(s.subrange(c16, b) == p17 + r17);
    lemma_split(s, c16, b, p17, r17);
    let c17 = c16 + p17.len() as int;
    assert(s.subrange(c17, b) == r17);
    assert(r17 == lit_bytes(",\"metadata\":"@) + (enc_pairs(t.metadata) + (lit_bytes("}"@)))) by {
        assert(r17 =~= lit_bytes(",\"metadata\":"@) + (enc_pairs(t.metadata) + (lit_bytes("}"@))));
    }
    lemma_head_byte(s, c17, b, lit_bytes(",\"metadata\":"@), enc_pairs(t.metadata) + (lit_bytes("}"@)));
    assert(s[c17] == lit_bytes(",\"metadata\":"@)[0]);
    assert(",\"metadata\":"@[0] == ',');
    assert(s[c17] == 0x2C);
    lemma_p_u64_enc(s, c16, t.packets);
    // piece 18: lit
    let p18 = lit_bytes(",\"metadata\":"@);
    let r18 = enc_pairs(t.metadata) + (lit_bytes("}"@));
    assert(s.subrange(c17, b) == p18 + r18);
    lemma_split(s, c17, b, p18, r18);
    let c18 = c17 + p18.len() as int;
    lemma_p_lit_enc(s, c17, p18);
    // piece 19: pairs
    let p19 = enc_pairs(t.metadata);
    let r19 = lit_bytes("}"@);
    assert(s.subrange(c18, b) == p19 + r19);
    lemma_split(s, c18, b, p19, r19);
    let c19 = c18 + p19.len() as int;
    lemma_p_pairs_enc(s, c18, t.metadata);
    // piece 20: lit
    let p20 = lit_bytes("}"@);
    assert(s.subrange(c19, b) == p20 + Seq::<u8>::empty()) by {
        assert(p20 + Seq::<u8>::empty() =~= p20);
    }
    lemma_split(s, c19, b, p20, Seq::<u8>::empty());
    let c20 = c19 + p20.len() as int;
    lemma_p_lit_enc(s, c19, p20);
    assert(c20 == b);
}

/// Parsing an encoded event recovers it exactly.
pub proof fn lemma_p_event_enc(s: Seq<u8>, i: int, e: EventV)
    requires
        event_v_wf(e),
        0 <= i,
        i + enc_event(e).len() <= s.len(),
        s.subrange(i, i + enc_event(e).len() as int) == enc_event(e),
    ensures
        p_event(s, i) == Some((e, i + enc_event(e).len() as int)),
{
    match e {
        EventV::Log(l) => {
            lemma_p_log_enc(s, i, l);
        },
        EventV::Metric(m) => {
            lemma_p_metric_enc(s, i, m);
        },
        EventV::Traffic(t) => {
            lemma_p_traffic_enc(s, i, t);
        },
    }
}



// ---------------------------------------------------------------------------
// Event sequences
// ---------------------------------------------------------------------------

pub open spec fn enc_events_rest(evs: Seq<EventV>) -> Seq<u8>
    decreases evs.len(),
{
    if evs.len() == 0 {
        Seq::empty()
    } else {
        seq![0x2Cu8] + enc_event(evs[0]) + enc_events_rest(evs.drop_first())
    }
}

/// A whole event sequence as a canonical JSON array.
pub open spec fn enc_events(evs: Seq<EventV>) -> Seq<u8> {
    if evs.len() == 0 {
        seq![0x5Bu8, 0x5Du8]
    } else {
        seq![0x5Bu8] + enc_event(evs[0]) + enc_events_rest(evs.drop_first()) + seq![0x5Du8]
    }
}

pub open spec fn p_events_rest(s: Seq<u8>, i: int) -> Option<(Seq<EventV>, int)>
    decreases s.len() - i,
{
    if !(0 <= i < s.len()) {
        None
    } else if s[i] == 0x5D {
        Some((Seq::empty(), i + 1))
    } else if s[i] == 0x2C {
        match p_event(s, i + 1) {
            Some((e, j)) => {
                if j > i && j <= s.len() {
                    match p_events_rest(s, j) {
                        Some((evs, k)) => Some((seq![e] + evs, k)),
                        None => None,
                    }
                } else {
                    None
                }
            },
            None => None,
        }
    } else {
        None
    }
}

pub open spec fn p_events(s: Seq<u8>, i: int) -> Option<(Seq<EventV>, int)> {
    if 0 <= i < s.len() && s[i] == 0x5B {
        if i + 1 < s.len() && s[i + 1] == 0x5D {
            Some((Seq::empty(), i + 2))
        } else {
            match p_event(s, i + 1) {
                Some((e, j)) => {
                    if j > i && j <= s.len() {
                        match p_events_rest(s, j) {
                            Some((evs, k)) => Some((seq![e] + evs, k)),
                            None => None,
                        }
                    } else {
                        None
                    }
                },
                None => None,
            }
        }
    } else {
        None
    }
}

/// A whole buffer that is exactly one event array.
pub open spec fn p_events_exact(s: Seq<u8>) -> Option<Seq<EventV>> {
    match p_events(s, 0) {
        Some((evs, j)) => {
            if j == s.len() {
                Some(evs)
            } else {
                None
            }
        },
        None => None,
    }
}

proof fn lemma_enc_event_head(e: EventV)
    ensures
        enc_event(e).len() > 0,
        enc_event(e)[0] == 0x7B,
{
    reveal_strlit("{\"type\":");
    match e {
        EventV::Log(l) => {
            assert(enc_event(e)[0] == lit_bytes("{\"type\":"@)[0]);
        },
        EventV::Metric(m) => {
            assert(enc_event(e)[0] == lit_bytes("{\"type\":"@)[0]);
        },
        EventV::Traffic(t) => {
            assert(enc_event(e)[0] == lit_bytes("{\"type\":"@)[0]);
        },
    }
    assert("{\"type\":"@[0] == '{');
}

#[verifier::rlimit(100)]
pub proof fn lemma_p_events_rest_enc(s: Seq<u8>, i: int, evs: Seq<EventV>)
    requires
        events_v_wf(evs),
        0 <= i,
        i + enc_events_rest(evs).len() + 1 <= s.len(),
        s.subrange(i, i + enc_events_rest(evs).len() + 1) == enc_events_rest(evs) + seq![0x5Du8],
    ensures
        p_events_rest(s, i) == Some((evs, i + enc_events_rest(evs).len() + 1)),
    decreases evs.len(),
{
    let e = enc_events_rest(evs);
    let whole = e + seq![0x5Du8];
    assert(forall|k: int| 0 <= k < whole.len() ==> s[i + k] == whole[k]) by {
        assert(forall|k: int| 0 <= k < whole.len() ==> s.subrange(i, i + whole.len() as int)[k]
            == whole[k]);
    }
    if evs.len() == 0 {
        assert(s[i] == whole[0]);
        assert(evs =~= Seq::<EventV>::empty());
    } else {
        let ev = evs[0];
        let rest = evs.drop_first();
        let ep = enc_event(ev);
        let er = enc_events_rest(rest);
        lemma_enc_event_head(ev);
        assert(e == seq![0x2Cu8] + ep + er);
        assert(s[i] == whole[0] && whole[0] == 0x2C);
        assert(s[i] != 0x5D);
        assert(s.subrange(i + 1, i + 1 + ep.len() as int) =~= ep) by {
            assert(forall|k: int| 0 <= k < ep.len() ==> whole[1 + k] == #[trigger] ep[k]);
            assert(forall|k: int| 0 <= k < ep.len() ==> #[trigger] s.subrange(
                i + 1,
                i + 1 + ep.len() as int,
            )[k] == s[i + 1 + k]);
        }
        assert(event_v_wf(ev));
        lemma_p_event_enc(s, i + 1, ev);
        let j = i + 1 + ep.len() as int;
        assert(s.subrange(j, j + er.len() + 1) =~= er + seq![0x5Du8]) by {
            assert(forall|k: int| 0 <= k < er.len() + 1 ==> whole[1 + ep.len() + k]
                == #[trigger] (er + seq![0x5Du8])[k]);
            assert(forall|k: int| 0 <= k < er.len() + 1 ==> #[trigger] s.subrange(
                j,
                j + er.len() + 1,
            )[k] == s[j + k]);
        }
        assert(events_v_wf(rest)) by {
            assert(forall|k: int| 0 <= k < rest.len() ==> rest[k] == #[trigger] evs[k + 1]);
        }
        lemma_p_events_rest_enc(s, j, rest);
        assert(seq![ev] + rest =~= evs);
    }
}

#[verifier::rlimit(100)]
pub proof fn lemma_p_events_enc(s: Seq<u8>, i: int, evs: Seq<EventV>)
    requires
        events_v_wf(evs),
        0 <= i,
        i + enc_events(evs).len() <= s.len(),
        s.subrange(i, i + enc_events(evs).len() as int) == enc_events(evs),
    ensures
        p_events(s, i) == Some((evs, i + enc_events(evs).len() as int)),
{
    let e = enc_events(evs);
    assert(forall|k: int| 0 <= k < e.len() ==> s[i + k] == e[k]) by {
        assert(forall|k: int| 0 <= k < e.len() ==> s.subrange(i, i + e.len() as int)[k] == e[k]);
    }
    if evs.len() == 0 {
        assert(s[i] == e[0] && s[i + 1] == e[1]);
        assert(evs =~= Seq::<EventV>::empty());
    } else {
        let ev = evs[0];
        let rest = evs.drop_first();
        let ep = enc_event(ev);
        let er = enc_events_rest(rest);
        lemma_enc_event_head(ev);
        assert(e == seq![0x5Bu8] + ep + er + seq![0x5Du8]);
        assert(s[i] == e[0] && e[0] == 0x5B);
        assert(s[i + 1] == e[1]);
        assert(e[1] == ep[0]);
        assert(s[i + 1] != 0x5D);
        assert(s.subrange(i + 1, i + 1 + ep.len() as int) =~= ep) by {
            assert(forall|k: int| 0 <= k < ep.len() ==> e[1 + k] == #[trigger] ep[k]);
            assert(forall|k: int| 0 <= k < ep.len() ==> #[trigger] s.subrange(
                i + 1,
                i + 1 + ep.len() as int,
            )[k] == s[i + 1 + k]);
        }
        assert(event_v_wf(ev));
        lemma_p_event_enc(s, i + 1, ev);
        let j = i + 1 + ep.len() as int;
        assert(s.subrange(j, j + er.len() + 1) =~= er + seq![0x5Du8]) by {
            assert(forall|k: int| 0 <= k < er.len() + 1 ==> e[1 + ep.len() + k]
                == #[trigger] (er + seq![0x5Du8])[k]);
            assert(forall|k: int| 0 <= k < er.len() + 1 ==> #[trigger] s.subrange(
                j,
                j + er.len() + 1,
            )[k] == s[j + k]);
        }
        assert(events_v_wf(rest)) by {
            assert(forall|k: int| 0 <= k < rest.len() ==> rest[k] == #[trigger] evs[k + 1]);
        }
        lemma_p_events_rest_enc(s, j, rest);
        assert(seq![ev] + rest =~= evs);
    }
}

/// The serializer round trip: parsing an encoded event sequence gives back
/// exactly that sequence.
pub proof fn lemma_events_round_trip(evs: Seq<EventV>)
    requires
        events_v_wf(evs),
    ensures
        p_events_exact(enc_events(evs)) == Some(evs),
{
    let s = enc_events(evs);
    assert(s.subrange(0, s.len() as int) =~= s);
    lemma_p_events_enc(s, 0, evs);
}



// ---------------------------------------------------------------------------
// Exec emitters
// ---------------------------------------------------------------------------

/// Character-wise string equality.
pub fn str_eq_str(a: &str, b: &str) -> (r: bool)
    ensures
        r == (a@ == b@),
{
    let na = a.unicode_len();
    let nb = b.unicode_len();
    if na != nb {
        proof {
            assert(a@ != b@);
        }
        return false;
    }
    let mut k: usize = 0;
    while k < na
        invariant
            na == a@.len(),
            na == b@.len(),
            k <= na,
            forall|m: int| 0 <= m < k ==> a@[m] == b@[m],
        decreases na - k,
    {
        if a.get_char(k) != b.get_char(k) {
            proof {
                assert(a@ != b@);
            }
            return false;
        }
        k = k + 1;
    }
    proof {
        assert(a@ =~= b@);
    }
    true
}

fn push_level(out: &mut Vec<u8>, lv: &LogLevel)
    ensures
        final(out)@ == old(out)@ + enc_level(*lv),
{
    match lv {
        LogLevel::Trace => push_quoted(out, "trace"),
        LogLevel::Debug => push_quoted(out, "debug"),
        LogLevel::Info => push_quoted(out, "info"),
        LogLevel::Warning => push_quoted(out, "warning"),
        LogLevel::Error => push_quoted(out, "error"),
        LogLevel::Critical => push_quoted(out, "critical"),
    }
}

fn push_mtype(out: &mut Vec<u8>, m: &MetricType)
    ensures
        final(out)@ == old(out)@ + enc_mtype(*m),
{
    match m {
        MetricType::Counter => push_quoted(out, "counter"),
        MetricType::Gauge => push_quoted(out, "gauge"),
        MetricType::Histogram => push_quoted(out, "histogram"),
        MetricType::Summary => push_quoted(out, "summary"),
    }
}

pub fn push_status(out: &mut Vec<u8>, st: &IngestStatus)
    ensures
        final(out)@ == old(out)@ + enc_status(*st),
{
    match st {
        IngestStatus::Success => push_quoted(out, "success"),
        IngestStatus::PartialSuccess => push_quoted(out, "partial_success"),
        IngestStatus::Failed => push_quoted(out, "failed"),
        IngestStatus::Rejected => push_quoted(out, "rejected"),
    }
}

pub fn push_compression(out: &mut Vec<u8>, c: &CompressionType)
    ensures
        final(out)@ == old(out)@ + enc_compression(*c),
{
    match c {
        CompressionType::NoCompression => push_quoted(out, "none"),
        CompressionType::Snappy => push_quoted(out, "snappy"),
        CompressionType::Lz4 => push_quoted(out, "lz4"),
        CompressionType::Gzip => push_quoted(out, "gzip"),
    }
}

fn push_protocol(out: &mut Vec<u8>, p: &Protocol)
    ensures
        final(out)@ == old(out)@ + enc_protocol(p.deep_view()),
{
    match p {
        Protocol::HTTP => push_quoted(out, "HTTP"),
        Protocol::HTTPS => push_quoted(out, "HTTPS"),
        Protocol::TCP => push_quoted(out, "TCP"),
        Protocol::UDP => push_quoted(out, "UDP"),
        Protocol::ICMP => push_quoted(out, "ICMP"),
        Protocol::Other(name) => {
            proof {
                reveal_strlit("{\"other\":");
                reveal_strlit("}");
            }
            push_lit(out, "{\"other\":");
            push_quoted(out, name.as_str());
            push_lit(out, "}");
            assert(out@ =~= old(out)@ + enc_protocol(p.deep_view()));
        },
    }
}

pub fn push_opt_str(out: &mut Vec<u8>, o: &Option<String>)
    ensures
        final(out)@ == old(out)@ + enc_opt_str(o.deep_view()),
{
    match o {
        Some(t) => push_quoted(out, t.as_str()),
        None => {
            proof {
                reveal_strlit("null");
            }
            push_lit(out, "null");
        },
    }
}

proof fn lemma_enc_pairs_rest_snoc(ps: Seq<(Seq<char>, Seq<char>)>, p: (Seq<char>, Seq<char>))
    ensures
        enc_pairs_rest(ps.push(p)) == enc_pairs_rest(ps) + (seq![0x2Cu8] + enc_pair(p)),
    decreases ps.len(),
{
    if ps.len() == 0 {
        assert(ps.push(p).drop_first() =~= Seq::<(Seq<char>, Seq<char>)>::empty());
        assert(ps =~= Seq::<(Seq<char>, Seq<char>)>::empty());
        assert(ps.push(p)[0] == p);
        assert(enc_pairs_rest(ps.push(p)) =~= enc_pairs_rest(ps) + (seq![0x2Cu8] + enc_pair(p)));
    } else {
        assert(ps.push(p).drop_first() =~= ps.drop_first().push(p));
        assert(ps.push(p)[0] == ps[0]);
        lemma_enc_pairs_rest_snoc(ps.drop_first(), p);
        assert(enc_pairs_rest(ps.push(p)) =~= enc_pairs_rest(ps) + (seq![0x2Cu8] + enc_pair(p)));
    }
}

pub fn push_pairs(out: &mut Vec<u8>, ps: &Vec<(String, String)>)
    ensures
        final(out)@ == old(out)@ + enc_pairs(ps.deep_view()),
{
    let ghost psv = ps.deep_view();
    let n = ps.len();
    if n == 0 {
        out.push(0x7B);
        out.push(0x7D);
        assert(out@ =~= old(out)@ + enc_pairs(psv));
        return ;
    }
    out.push(0x7B);
    push_quoted(out, ps[0].0.as_str());
    out.push(0x3A);
    push_quoted(out, ps[0].1.as_str());
    assert(psv[0] == (ps@[0].0@, ps@[0].1@));
    assert(out@ =~= old(out)@ + seq![0x7Bu8] + enc_pair(psv[0]));
    let mut k: usize = 1;
    while k < n
        invariant
            n == ps@.len(),
            psv == ps.deep_view(),
            1 <= k <= n,
            out@ == old(out)@ + seq![0x7Bu8] + enc_pair(psv[0]) + enc_pairs_rest(
                psv.subrange(1, k as int),
            ),
        decreases n - k,
    {
        out.push(0x2C);
        push_quoted(out, ps[k].0.as_str());
        out.push(0x3A);
        push_quoted(out, ps[k].1.as_str());
        proof {
            assert(psv[k as int] == (ps@[k as int].0@, ps@[k as int].1@));
            assert(psv.subrange(1, k + 1) =~= psv.subrange(1, k as int).push(psv[k as int]));
            lemma_enc_pairs_rest_snoc(psv.subrange(1, k as int), psv[k as int]);
            assert(out@ =~= old(out)@ + seq![0x7Bu8] + enc_pair(psv[0]) + enc_pairs_rest(
                psv.subrange(1, k + 1),
            ));
        }
        k = k + 1;
    }
    out.push(0x7D);
    proof {
        assert(psv.subrange(1, n as int) =~= psv.drop_first());
        assert(out@ =~= old(out)@ + enc_pairs(psv));
    }
}

proof fn lemma_enc_strs_rest_snoc(ts: Seq<Seq<char>>, t: Seq<char>)
    ensures
        enc_strs_rest(ts.push(t)) == enc_strs_rest(ts) + (seq![0x2Cu8] + enc_str(t)),
    decreases ts.len(),
{
    if ts.len() == 0 {
        assert(ts.push(t).drop_first() =~= Seq::<Seq<char>>::empty());
        assert(ts =~= Seq::<Seq<char>>::empty());
        assert(ts.push(t)[0] == t);
        assert(enc_strs_rest(ts.push(t)) =~= enc_strs_rest(ts) + (seq![0x2Cu8] + enc_str(t)));
    } else {
        assert(ts.push(t).drop_first() =~= ts.drop_first().push(t));
        assert(ts.push(t)[0] == ts[0]);
        lemma_enc_strs_rest_snoc(ts.drop_first(), t);
        assert(enc_strs_rest(ts.push(t)) =~= enc_strs_rest(ts) + (seq![0x2Cu8] + enc_str(t)));
    }
}

pub fn push_strs(out: &mut Vec<u8>, ts: &Vec<String>)
    ensures
        final(out)@ == old(out)@ + enc_strs(ts.deep_view()),
{
    let ghost tsv = ts.deep_view();
    let n = ts.len();
    if n == 0 {
        out.push(0x5B);
        out.push(0x5D);
        assert(out@ =~= old(out)@ + enc_strs(tsv));
        return ;
    }
    out.push(0x5B);
    push_quoted(out, ts[0].as_str());
    assert(tsv[0] == ts@[0]@);
    assert(out@ =~= old(out)@ + seq![0x5Bu8] + enc_str(tsv[0]));
    let mut k: usize = 1;
    while k < n
        invariant
            n == ts@.len(),
            tsv == ts.deep_view(),
            1 <= k <= n,
            out@ == old(out)@ + seq![0x5Bu8] + enc_str(tsv[0]) + enc_strs_rest(
                tsv.subrange(1, k as int),
            ),
        decreases n - k,
    {
        out.push(0x2C);
        push_quoted(out, ts[k].as_str());
        proof {
            assert(tsv[k as int] == ts@[k as int]@);
            assert(tsv.subrange(1, k + 1) =~= tsv.subrange(1, k as int).push(tsv[k as int]));
            lemma_enc_strs_rest_snoc(tsv.subrange(1, k as int), tsv[k as int]);
            assert(out@ =~= old(out)@ + seq![0x5Bu8] + enc_str(tsv[0]) + enc_strs_rest(
                tsv.subrange(1, k + 1),
            ));
        }
        k = k + 1;
    }
    out.push(0x5D);
    proof {
        assert(tsv.subrange(1, n as int) =~= tsv.drop_first());
        assert(out@ =~= old(out)@ + enc_strs(tsv));
    }
}

proof fn lemma_enc_bytes_rest_snoc(bs: Seq<u8>, b: u8)
    ensures
        enc_bytes_rest(bs.push(b)) == enc_bytes_rest(bs) + (seq![0x2Cu8] + dec_u64(b as nat)),
    decreases bs.len(),
{
    if bs.len() == 0 {
        assert(bs.push(b).drop_first() =~= Seq::<u8>::empty());
        assert(bs =~= Seq::<u8>::empty());
        assert(bs.push(b)[0] == b);
        assert(enc_bytes_rest(bs.push(b)) =~= enc_bytes_rest(bs) + (seq![0x2Cu8] + dec_u64(
            b as nat,
        )));
    } else {
        assert(bs.push(b).drop_first() =~= bs.drop_first().push(b));
        assert(bs.push(b)[0] == bs[0]);
        lemma_enc_bytes_rest_snoc(bs.drop_first(), b);
        assert(enc_bytes_rest(bs.push(b)) =~= enc_bytes_rest(bs) + (seq![0x2Cu8] + dec_u64(
            b as nat,
        )));
    }
}

pub fn push_bytes_arr(out: &mut Vec<u8>, bs: &Vec<u8>)
    ensures
        final(out)@ == old(out)@ + enc_bytes(bs@),
{
    let n = bs.len();
    if n == 0 {
        out.push(0x5B);
        out.push(0x5D);
        assert(out@ =~= old(out)@ + enc_bytes(bs@));
        return ;
    }
    out.push(0x5B);
    push_u64(out, bs[0] as u64);
    assert(out@ =~= old(out)@ + seq![0x5Bu8] + dec_u64(bs@[0] as nat));
    let mut k: usize = 1;
    while k < n
        invariant
            n == bs@.len(),
            1 <= k <= n,
            out@ == old(out)@ + seq![0x5Bu8] + dec_u64(bs@[0] as nat) + enc_bytes_rest(
                bs@.subrange(1, k as int),
            ),
        decreases n - k,
    {
        out.push(0x2C);
        push_u64(out, bs[k] as u64);
        proof {
            assert(bs@.subrange(1, k + 1) =~= bs@.subrange(1, k as int).push(bs@[k as int]));
            lemma_enc_bytes_rest_snoc(bs@.subrange(1, k as int), bs@[k as int]);
            assert(out@ =~= old(out)@ + seq![0x5Bu8] + dec_u64(bs@[0] as nat) + enc_bytes_rest(
                bs@.subrange(1, k + 1),
            ));
        }
        k = k + 1;
    }
    out.push(0x5D);
    proof {
        assert(bs@.subrange(1, n as int) =~= bs@.drop_first());
        assert(out@ =~= old(out)@ + enc_bytes(bs@));
    }
}

/// Appends one encoded log event.
#[verifier::rlimit(100)]
fn push_log_event(out: &mut Vec<u8>, l: &LogEvent)
    ensures
        final(out)@ == old(out)@ + enc_log(l.deep_view()),
{
    proof {
        reveal_strlit("{\"type\":");
        reveal_strlit(",\"timestamp\":");
        reveal_strlit("}");
    }
        proof {
            reveal_strlit(",\"source\":");
            reveal_strlit(",\"level\":");
            reveal_strlit(",\"message\":");
            reveal_strlit(",\"fields\":");
            reveal_strlit(",\"tags\":");
        }
        push_lit(out, "{\"type\":");
        push_quoted(out, "log");
        push_lit(out, ",\"timestamp\":");
        push_i64(out, l.timestamp);
        push_lit(out, ",\"source\":");
        push_quoted(out, l.source.as_str());
        push_lit(out, ",\"level\":");
        push_level(out, &l.level);
        push_lit(out, ",\"message\":");
        push_quoted(out, l.message.as_str());
        push_lit(out, ",\"fields\":");
        push_pairs(out, &l.fields);
        push_lit(out, ",\"tags\":");
        push_strs(out, &l.tags);
        push_lit(out, "}");
        proof {
        let o = old(out)@;
        let p1 = lit_bytes("{\"type\":"@);
        let p2 = enc_str("log"@);
        let p3 = lit_bytes(",\"timestamp\":"@);
        let p4 = enc_i64(l.timestamp as int);
        let p5 = lit_bytes(",\"source\":"@);
        let p6 = enc_str(l.source@);
        let p7 = lit_bytes(",\"level\":"@);
        let p8 = enc_level(l.level);
        let p9 = lit_bytes(",\"message\":"@);
        let p10 = enc_str(l.message@);
        let p11 = lit_bytes(",\"fields\":"@);
        let p12 = enc_pairs(l.fields.deep_view());
        let p13 = lit_bytes(",\"tags\":"@);
        let p14 = enc_strs(l.tags.deep_view());
        let p15 = lit_bytes("}"@);
        let r15 = p15;
        let r14 = p14 + r15;
        let r13 = p13 + r14;
        let r12 = p12 + r13;
        let r11 = p11 + r12;
        let r10 = p10 + r11;
        let r9 = p9 + r10;
        let r8 = p8 + r9;
        let r7 = p7 + r8;
        let r6 = p6 + r7;
        let r5 = p5 + r6;
        let r4 = p4 + r5;
        let r3 = p3 + r4;
        let r2 = p2 + r3;
        let r1 = p1 + r2;
        let acc1 = o + p1;
        let acc2 = acc1 + p2;
        let acc3 = acc2 + p3;
        let acc4 = acc3 + p4;
        let acc5 = acc4 + p5;
        let acc6 = acc5 + p6;
        let acc7 = acc6 + p7;
        let acc8 = acc7 + p8;
        let acc9 = acc8 + p9;
        let acc10 = acc9 + p10;
        let acc11 = acc10 + p11;
        let acc12 = acc11 + p12;
        let acc13 = acc12 + p13;
        let acc14 = acc13 + p14;
        let acc15 = acc14 + p15;
        assert(out@ == acc15);
        assert(enc_log(l.deep_view()) == r1);
        vstd::seq_lib::lemma_concat_associative(acc13, p14, r15);
        vstd::seq_lib::lemma_concat_associative(acc12, p13, r14);
        vstd::seq_lib::lemma_concat_associative(acc11, p12, r13);
        vstd::seq_lib::lemma_concat_associative(acc10, p11, r12);
        vstd::seq_lib::lemma_concat_associative(acc9, p10, r11);
        vstd::seq_lib::lemma_concat_associative(acc8, p9, r10);
        vstd::seq_lib::lemma_concat_associative(acc7, p8, r9);
        vstd::seq_lib::lemma_concat_associative(acc6, p7, r8);
        vstd::seq_lib::lemma_concat_associative(acc5, p6, r7);
        vstd::seq_lib::lemma_concat_associative(acc4, p5, r6);
        vstd::seq_lib::lemma_concat_associative(acc3, p4, r5);
        vstd::seq_lib::lemma_concat_associative(acc2, p3, r4);
        vstd::seq_lib::lemma_concat_associative(acc1, p2, r3);
        vstd::seq_lib::lemma_concat_associative(o, p1, r2);
        assert(out@ == o + r1);
    }

}

/// Appends one encoded metric event.
#[verifier::rlimit(100)]
fn push_metric_event(out: &mut Vec<u8>, m: &MetricEvent)
    requires
        is_number_text(m.value@),
    ensures
        final(out)@ == old(out)@ + enc_metric(m.deep_view()),
{
    proof {
        reveal_strlit("{\"type\":");
        reveal_strlit(",\"timestamp\":");
        reveal_strlit("}");
    }
        proof {
            reveal_strlit(",\"name\":");
            reveal_strlit(",\"value\":");
            reveal_strlit(",\"metric_type\":");
            reveal_strlit(",\"tags\":");
            reveal_strlit(",\"unit\":");
        }
        push_lit(out, "{\"type\":");
        push_quoted(out, "metric");
        push_lit(out, ",\"timestamp\":");
        push_i64(out, m.timestamp);
        push_lit(out, ",\"name\":");
        push_quoted(out, m.name.as_str());
        push_lit(out, ",\"value\":");
        push_value_text(out, &m.value);
        push_lit(out, ",\"metric_type\":");
        push_mtype(out, &m.metric_type);
        push_lit(out, ",\"tags\":");
        push_pairs(out, &m.tags);
        push_lit(out, ",\"unit\":");
        push_opt_str(out, &m.unit);
        push_lit(out, "}");
        proof {
        let o = old(out)@;
        let p1 = lit_bytes("{\"type\":"@);
        let p2 = enc_str("metric"@);
        let p3 = lit_bytes(",\"timestamp\":"@);
        let p4 = enc_i64(m.timestamp as int);
        let p5 = lit_bytes(",\"name\":"@);
        let p6 = enc_str(m.name@);
        let p7 = lit_bytes(",\"value\":"@);
        let p8 = lit_bytes(m.value@);
        let p9 = lit_bytes(",\"metric_type\":"@);
        let p10 = enc_mtype(m.metric_type);
        let p11 = lit_bytes(",\"tags\":"@);
        let p12 = enc_pairs(m.tags.deep_view());
        let p13 = lit_bytes(",\"unit\":"@);
        let p14 = enc_opt_str(m.unit.deep_view());
        let p15 = lit_bytes("}"@);
        let r15 = p15;
        let r14 = p14 + r15;
        let r13 = p13 + r14;
        let r12 = p12 + r13;
        let r11 = p11 + r12;
        let r10 = p10 + r11;
        let r9 = p9 + r10;
        let r8 = p8 + r9;
        let r7 = p7 + r8;
        let r6 = p6 + r7;
        let r5 = p5 + r6;
        let r4 = p4 + r5;
        let r3 = p3 + r4;
        let r2 = p2 + r3;
        let r1 = p1 + r2;
        let acc1 = o + p1;
        let acc2 = acc1 + p2;
        let acc3 = acc2 + p3;
        let acc4 = acc3 + p4;
        let acc5 = acc4 + p5;
        let acc6 = acc5 + p6;
        let acc7 = acc6 + p7;
        let acc8 = acc7 + p8;
        let acc9 = acc8 + p9;
        let acc10 = acc9 + p10;
        let acc11 = acc10 + p11;
        let acc12 = acc11 + p12;
        let acc13 = acc12 + p13;
        let acc14 = acc13 + p14;
        let acc15 = acc14 + p15;
        assert(out@ == acc15);
        assert(enc_metric(m.deep_view()) == r1);
        vstd::seq_lib::lemma_concat_associative(acc13, p14, r15);
        vstd::seq_lib::lemma_concat_associative(acc12, p13, r14);
        vstd::seq_lib::lemma_concat_associative(acc11, p12, r13);
        vstd::seq_lib::lemma_concat_associative(acc10, p11, r12);
        vstd::seq_lib::lemma_concat_associative(acc9, p10, r11);
        vstd::seq_lib::lemma_concat_associative(acc8, p9, r10);
        vstd::seq_lib::lemma_concat_associative(acc7, p8, r9);
        vstd::seq_lib::lemma_concat_associative(acc6, p7, r8);
        vstd::seq_lib::lemma_concat_associative(acc5, p6, r7);
        vstd::seq_lib::lemma_concat_associative(acc4, p5, r6);
        vstd::seq_lib::lemma_concat_associative(acc3, p4, r5);
        vstd::seq_lib::lemma_concat_associative(acc2, p3, r4);
        vstd::seq_lib::lemma_concat_associative(acc1, p2, r3);
        vstd::seq_lib::lemma_concat_associative(o, p1, r2);
        assert(out@ == o + r1);
    }

}

/// Appends one encoded traffic event.
#[verifier::rlimit(100)]
fn push_traffic_event(out: &mut Vec<u8>, t: &TrafficEvent)
    ensures
        final(out)@ == old(out)@ + enc_traffic(t.deep_view()),
{
    proof {
        reveal_strlit("{\"type\":");
        reveal_strlit(",\"timestamp\":");
        reveal_strlit("}");
    }
        proof {
            reveal_strlit(",\"protocol\":");
            reveal_strlit(",\"src_ip\":");
            reveal_strlit(",\"dst_ip\":");
            reveal_strlit(",\"src_port\":");
            reveal_strlit(",\"dst_port\":");
            reveal_strlit(",\"bytes\":");
            reveal_strlit(",\"packets\":");
            reveal_strlit(",\"metadata\":");
        }
        push_lit(out, "{\"type\":");
        push_quoted(out, "traffic");
        push_lit(out, ",\"timestamp\":");
        push_i64(out, t.timestamp);
        push_lit(out, ",\"protocol\":");
        push_protocol(out, &t.protocol);
        push_lit(out, ",\"src_ip\":");
        push_quoted(out, t.src_ip.as_str());
        push_lit(out, ",\"dst_ip\":");
        push_quoted(out, t.dst_ip.as_str());
        push_lit(out, ",\"src_port\":");
        push_u64(out, t.src_port as u64);
        push_lit(out, ",\"dst_port\":");
        push_u64(out, t.dst_port as u64);
        push_lit(out, ",\"bytes\":");
        push_u64(out, t.bytes);
        push_lit(out, ",\"packets\":");
        push_u64(out, t.packets);
        push_lit(out, ",\"metadata\":");
        push_pairs(out, &t.metadata);
        push_lit(out, "}");
        proof {
        let o = old(out)@;
        let p1 = lit_bytes("{\"type\":"@);
        let p2 = enc_str("traffic"@);
        let p3 = lit_bytes(",\"timestamp\":"@);
        let p4 = enc_i64(t.timestamp as int);
        let p5 = lit_bytes(",\"protocol\":"@);
        let p6 = enc_protocol(t.protocol.deep_view());
        let p7 = lit_bytes(",\"src_ip\":"@);
        let p8 = enc_str(t.src_ip@);
        let p9 = lit_bytes(",\"dst_ip\":"@);
        let p10 = enc_str(t.dst_ip@);
        let p11 = lit_bytes(",\"src_port\":"@);
        let p12 = dec_u64(t.src_port as nat);
        let p13 = lit_bytes(",\"dst_port\":"@);
        let p14 = dec_u64(t.dst_port as nat);
        let p15 = lit_bytes(",\"bytes\":"@);
        let p16 = dec_u64(t.bytes as nat);
        let p17 = lit_bytes(",\"packets\":"@);
        let p18 = dec_u64(t.packets as nat);
        let p19 = lit_bytes(",\"metadata\":"@);
        let p20 = enc_pairs(t.metadata.deep_view());
        let p21 = lit_bytes("}"@);
        let r21 = p21;
        let r20 = p20 + r21;
        let r19 = p19 + r20;
        let r18 = p18 + r19;
        let r17 = p17 + r18;
        let r16 = p16 + r17;
        let r15 = p15 + r16;
        let r14 = p14 + r15;
        let r13 = p13 + r14;
        let r12 = p12 + r13;
        let r11 = p11 + r12;
        let r10 = p10 + r11;
        let r9 = p9 + r10;
        let r8 = p8 + r9;
        let r7 = p7 + r8;
        let r6 = p6 + r7;
        let r5 = p5 + r6;
        let r4 = p4 + r5;
        let r3 = p3 + r4;
        let r2 = p2 + r3;
        let r1 = p1 + r2;
        let acc1 = o + p1;
        let acc2 = acc1 + p2;
        let acc3 = acc2 + p3;
        let acc4 = acc3 + p4;
        let acc5 = acc4 + p5;
        let acc6 = acc5 + p6;
        let acc7 = acc6 + p7;
        let acc8 = acc7 + p8;
        let acc9 = acc8 + p9;
        let acc10 = acc9 + p10;
        let acc11 = acc10 + p11;
        let acc12 = acc11 + p12;
        let acc13 = acc12 + p13;
        let acc14 = acc13 + p14;
        let acc15 = acc14 + p15;
        let acc16 = acc15 + p16;
        let acc17 = acc16 + p17;
        let acc18 = acc17 + p18;
        let acc19 = acc18 + p19;
        let acc20 = acc19 + p20;
        let acc21 = acc20 + p21;
        assert(out@ == acc21);
        assert(enc_traffic(t.deep_view()) == r1);
        vstd::seq_lib::lemma_concat_associative(acc19, p20, r21);
        vstd::seq_lib::lemma_concat_associative(acc18, p19, r20);
        vstd::seq_lib::lemma_concat_associative(acc17, p18, r19);
        vstd::seq_lib::lemma_concat_associative(acc16, p17, r18);
        vstd::seq_lib::lemma_concat_associative(acc15, p16, r17);
        vstd::seq_lib::lemma_concat_associative(acc14, p15, r16);
        vstd::seq_lib::lemma_concat_associative(acc13, p14, r15);
        vstd::seq_lib::lemma_concat_associative(acc12, p13, r14);
        vstd::seq_lib::lemma_concat_associative(acc11, p12, r13);
        vstd::seq_lib::lemma_concat_associative(acc10, p11, r12);
        vstd::seq_lib::lemma_concat_associative(acc9, p10, r11);
        vstd::seq_lib::lemma_concat_associative(acc8, p9, r10);
        vstd::seq_lib::lemma_concat_associative(acc7, p8, r9);
        vstd::seq_lib::lemma_concat_associative(acc6, p7, r8);
        vstd::seq_lib::lemma_concat_associative(acc5, p6, r7);
        vstd::seq_lib::lemma_concat_associative(acc4, p5, r6);
        vstd::seq_lib::lemma_concat_associative(acc3, p4, r5);
        vstd::seq_lib::lemma_concat_associative(acc2, p3, r4);
        vstd::seq_lib::lemma_concat_associative(acc1, p2, r3);
        vstd::seq_lib::lemma_concat_associative(o, p1, r2);
        assert(out@ == o + r1);
    }

}

/// Appends one encoded event.
pub fn push_event(out: &mut Vec<u8>, e: &Event)
    requires
        event_v_wf(e.deep_view()),
    ensures
        final(out)@ == old(out)@ + enc_event(e.deep_view()),
{
    match e {
        Event::Log(l) => push_log_event(out, l),
        Event::Metric(m) => push_metric_event(out, m),
        Event::Traffic(t) => push_traffic_event(out, t),
    }
}


/// Splices the raw bytes of ASCII value text.
fn push_value_text(out: &mut Vec<u8>, t: &String)
    requires
        forall|k: int| 0 <= k < t@.len() ==> (#[trigger] t@[k] as u32) < 0x80,
    ensures
        final(out)@ == old(out)@ + lit_bytes(t@),
{
    let s = t.as_str();
    proof {
        assert(vstd::utf8::is_ascii_chars(t@)) by {
            assert forall|k: int| 0 <= k < t@.len() implies '\0' <= #[trigger] t@[k]
                <= '\u{7f}' by {
                assert((t@[k] as u32) < 0x80);
                lemma_char_ascii_range(t@[k]);
            }
        }
        vstd::string::is_ascii_spec_bytes(s);
    }
    let mut bv = s.as_bytes_vec();
    assert(bv@ =~= lit_bytes(t@));
    out.append(&mut bv);
}

proof fn lemma_enc_events_rest_snoc(evs: Seq<EventV>, e: EventV)
    ensures
        enc_events_rest(evs.push(e)) == enc_events_rest(evs) + (seq![0x2Cu8] + enc_event(e)),
    decreases evs.len(),
{
    if evs.len() == 0 {
        assert(evs.push(e).drop_first() =~= Seq::<EventV>::empty());
        assert(evs =~= Seq::<EventV>::empty());
        assert(evs.push(e)[0] == e);
        assert(enc_events_rest(evs.push(e)) =~= enc_events_rest(evs) + (seq![0x2Cu8] + enc_event(
            e,
        )));
    } else {
        assert(evs.push(e).drop_first() =~= evs.drop_first().push(e));
        assert(evs.push(e)[0] == evs[0]);
        lemma_enc_events_rest_snoc(evs.drop_first(), e);
        assert(enc_events_rest(evs.push(e)) =~= enc_events_rest(evs) + (seq![0x2Cu8] + enc_event(
            e,
        )));
    }
}

/// Serializes a whole event sequence to canonical JSON bytes.
pub fn emit_events(events: &Vec<Event>) -> (r: Vec<u8>)
    requires
        events_v_wf(events.deep_view()),
    ensures
        r@ == enc_events(events.deep_view()),
{
    let ghost evs = events.deep_view();
    let mut out: Vec<u8> = Vec::new();
    let n = events.len();
    if n == 0 {
        out.push(0x5B);
        out.push(0x5D);
        assert(out@ =~= enc_events(evs));
        return out;
    }
    out.push(0x5B);
    assert(event_v_wf(evs[0]));
    assert(evs[0] == events@[0].deep_view());
    push_event(&mut out, &events[0]);
    assert(out@ =~= seq![0x5Bu8] + enc_event(evs[0]));
    let mut k: usize = 1;
    while k < n
        invariant
            events_v_wf(evs),
            n == events@.len(),
            evs == events.deep_view(),
            1 <= k <= n,
            out@ == seq![0x5Bu8] + enc_event(evs[0]) + enc_events_rest(evs.subrange(1, k as int)),
        decreases n - k,
    {
        out.push(0x2C);
        proof {
            assert(event_v_wf(evs[k as int]));
            assert(evs[k as int] == events@[k as int].deep_view());
        }
        push_event(&mut out, &events[k]);
        proof {
            assert(evs[k as int] == events@[k as int].deep_view());
            assert(evs.subrange(1, k + 1) =~= evs.subrange(1, k as int).push(evs[k as int]));
            lemma_enc_events_rest_snoc(evs.subrange(1, k as int), evs[k as int]);
            assert(out@ =~= seq![0x5Bu8] + enc_event(evs[0]) + enc_events_rest(
                evs.subrange(1, k + 1),
            ));
        }
        k = k + 1;
    }
    out.push(0x5D);
    proof {
        assert(evs.subrange(1, n as int) =~= evs.drop_first());
        assert(out@ =~= enc_events(evs));
    }
    out
}



/// An ASCII code point bounds its character between NUL and DEL.
proof fn lemma_char_ascii_range(c: char)
    requires
        (c as u32) < 0x80,
    ensures
        '\0' <= c <= '\u{7f}',
{
    assert(('\u{7f}' as u32) == 0x7f);
    assert(('\0' as u32) == 0);
    assert(c <= '\u{7f}');
    assert('\0' <= c);
}



// ---------------------------------------------------------------------------
// Exec parsers
// ---------------------------------------------------------------------------

fn parse_level(s: &Vec<u8>, i: usize) -> (r: Option<(LogLevel, usize)>)
    requires
        i <= s@.len(),
    ensures
        match r {
            Some((lv, j)) => p_level(s@, i as int) == Some((lv, j as int)) && i < j <= s@.len(),
            None => p_level(s@, i as int) is None,
        },
{
    proof {
        reveal(p_level);
    }
    match parse_string(s, i) {
        Some((tag, j)) => {
            if str_eq_str(tag.as_str(), "trace") {
                Some((LogLevel::Trace, j))
            } else if str_eq_str(tag.as_str(), "debug") {
                Some((LogLevel::Debug, j))
            } else if str_eq_str(tag.as_str(), "info") {
                Some((LogLevel::Info, j))
            } else if str_eq_str(tag.as_str(), "warning") {
                Some((LogLevel::Warning, j))
            } else if str_eq_str(tag.as_str(), "error") {
                Some((LogLevel::Error, j))
            } else if str_eq_str(tag.as_str(), "critical") {
                Some((LogLevel::Critical, j))
            } else {
                None
            }
        },
        None => None,
    }
}

fn parse_mtype(s: &Vec<u8>, i: usize) -> (r: Option<(MetricType, usize)>)
    requires
        i <= s@.len(),
    ensures
        match r {
            Some((m, j)) => p_mtype(s@, i as int) == Some((m, j as int)) && i < j <= s@.len(),
            None => p_mtype(s@, i as int) is None,
        },
{
    proof {
        reveal(p_mtype);
    }
    match parse_string(s, i) {
        Some((tag, j)) => {
            if str_eq_str(tag.as_str(), "counter") {
                Some((MetricType::Counter, j))
            } else if str_eq_str(tag.as_str(), "gauge") {
                Some((MetricType::Gauge, j))
            } else if str_eq_str(tag.as_str(), "histogram") {
                Some((MetricType::Histogram, j))
            } else if str_eq_str(tag.as_str(), "summary") {
                Some((MetricType::Summary, j))
            } else {
                None
            }
        },
        None => None,
    }
}

pub fn parse_status(s: &Vec<u8>, i: usize) -> (r: Option<(IngestStatus, usize)>)
    requires
        i <= s@.len(),
    ensures
        match r {
            Some((st, j)) => p_status(s@, i as int) == Some((st, j as int)) && i < j <= s@.len(),
            None => p_status(s@, i as int) is None,
        },
{
    match parse_string(s, i) {
        Some((tag, j)) => {
            if str_eq_str(tag.as_str(), "success") {
                Some((IngestStatus::Success, j))
            } else if str_eq_str(tag.as_str(), "partial_success") {
                Some((IngestStatus::PartialSuccess, j))
            } else if str_eq_str(tag.as_str(), "failed") {
                Some((IngestStatus::Failed, j))
            } else if str_eq_str(tag.as_str(), "rejected") {
                Some((IngestStatus::Rejected, j))
            } else {
                None
            }
        },
        None => None,
    }
}

pub fn parse_compression(s: &Vec<u8>, i: usize) -> (r: Option<(CompressionType, usize)>)
    requires
        i <= s@.len(),
    ensures
        match r {
            Some((c, j)) => p_compression(s@, i as int) == Some((c, j as int)) && i < j
                <= s@.len(),
            None => p_compression(s@, i as int) is None,
        },
{
    match parse_string(s, i) {
        Some((tag, j)) => {
            if str_eq_str(tag.as_str(), "none") {
                Some((CompressionType::NoCompression, j))
            } else if str_eq_str(tag.as_str(), "snappy") {
                Some((CompressionType::Snappy, j))
            } else if str_eq_str(tag.as_str(), "lz4") {
                Some((CompressionType::Lz4, j))
            } else if str_eq_str(tag.as_str(), "gzip") {
                Some((CompressionType::Gzip, j))
            } else {
                None
            }
        },
        None => None,
    }
}

fn parse_protocol(s: &Vec<u8>, i: usize) -> (r: Option<(Protocol, usize)>)
    requires
        i <= s@.len(),
    ensures
        match r {
            Some((p, j)) => p_protocol(s@, i as int) == Some((p.deep_view(), j as int)) && i < j
                <= s@.len(),
            None => p_protocol(s@, i as int) is None,
        },
{
    proof {
        reveal(p_protocol);
    }
    if i < s.len() && s[i] == 0x7B {
        proof {
            reveal_strlit("{\"other\":");
            reveal_strlit("}");
        }
        match parse_lit(s, i, "{\"other\":") {
            Some(i1) => match parse_string(s, i1) {
                Some((name, i2)) => match parse_lit(s, i2, "}") {
                    Some(i3) => Some((Protocol::Other(name), i3)),
                    None => None,
                },
                None => None,
            },
            None => None,
        }
    } else {
        match parse_string(s, i) {
            Some((tag, j)) => {
                if str_eq_str(tag.as_str(), "HTTP") {
                    Some((Protocol::HTTP, j))
                } else if str_eq_str(tag.as_str(), "HTTPS") {
                    Some((Protocol::HTTPS, j))
                } else if str_eq_str(tag.as_str(), "TCP") {
                    Some((Protocol::TCP, j))
                } else if str_eq_str(tag.as_str(), "UDP") {
                    Some((Protocol::UDP, j))
                } else if str_eq_str(tag.as_str(), "ICMP") {
                    Some((Protocol::ICMP, j))
                } else {
                    None
                }
            },
            None => None,
        }
    }
}

pub fn parse_opt_str(s: &Vec<u8>, i: usize) -> (r: Option<(Option<String>, usize)>)
    requires
        i <= s@.len(),
    ensures
        match r {
            Some((o, j)) => p_opt_str(s@, i as int) == Some((o.deep_view(), j as int)) && i < j
                <= s@.len(),
            None => p_opt_str(s@, i as int) is None,
        },
{
    proof {
        reveal(p_opt_str);
    }
    if i < s.len() && s[i] == 0x22 {
        match parse_string(s, i) {
            Some((t, j)) => Some((Some(t), j)),
            None => None,
        }
    } else {
        proof {
            reveal_strlit("null");
        }
        match parse_lit(s, i, "null") {
            Some(j) => {
                proof {
                    reveal_strlit("null");
                    assert(lit_bytes("null"@).len() == 4);
                }
                Some((None, j))
            },
            None => None,
        }
    }
}

fn parse_pair(s: &Vec<u8>, i: usize) -> (r: Option<((String, String), usize)>)
    requires
        i <= s@.len(),
    ensures
        match r {
            Some((p, j)) => p_pair(s@, i as int) == Some(((p.0@, p.1@), j as int)) && i < j
                <= s@.len(),
            None => p_pair(s@, i as int) is None,
        },
{
    match parse_string(s, i) {
        Some((k, j)) => {
            if j < s.len() && s[j] == 0x3A {
                match parse_string(s, j + 1) {
                    Some((v, j2)) => Some(((k, v), j2)),
                    None => None,
                }
            } else {
                None
            }
        },
        None => None,
    }
}

pub fn parse_pairs(s: &Vec<u8>, i: usize) -> (r: Option<(Vec<(String, String)>, usize)>)
    requires
        i <= s@.len(),
    ensures
        match r {
            Some((v, j)) => p_pairs(s@, i as int) == Some((v.deep_view(), j as int)) && i < j
                <= s@.len(),
            None => p_pairs(s@, i as int) is None,
        },
{
    proof {
        reveal(p_pairs);
        reveal(p_pairs_rest);
    }
    if !(i < s.len() && s[i] == 0x7B) {
        return None;
    }
    if i + 1 < s.len() && s[i + 1] == 0x7D {
        let v: Vec<(String, String)> = Vec::new();
        assert(v.deep_view() =~= Seq::<(Seq<char>, Seq<char>)>::empty());
        return Some((v, i + 2));
    }
    match parse_pair(s, i + 1) {
        None => None,
        Some((p, j)) => {
            let mut acc: Vec<(String, String)> = Vec::new();
            let ghost pv = (p.0@, p.1@);
            acc.push(p);
            assert(acc.deep_view() =~= seq![pv]);
            let mut pos = j;
            loop
                invariant
                    i < pos <= s@.len(),
                    s@.len() <= usize::MAX,
                    p_pairs(s@, i as int) == (match p_pairs_rest(s@, pos as int) {
                        Some((t, k)) => Some((acc.deep_view() + t, k)),
                        None => None::<(Seq<(Seq<char>, Seq<char>)>, int)>,
                    }),
                decreases s@.len() - pos,
            {
                proof {
                    reveal(p_pairs_rest);
                }
                if pos >= s.len() {
                    return None;
                }
                if s[pos] == 0x7D {
                    assert(acc.deep_view() + Seq::<(Seq<char>, Seq<char>)>::empty()
                        =~= acc.deep_view());
                    return Some((acc, pos + 1));
                }
                if s[pos] != 0x2C {
                    return None;
                }
                match parse_pair(s, pos + 1) {
                    None => {
                        return None;
                    },
                    Some((p2, j2)) => {
                        let ghost accv = acc.deep_view();
                        let ghost p2v = (p2.0@, p2.1@);
                        acc.push(p2);
                        proof {
                            reveal(p_pairs_rest);
                            assert(acc.deep_view() =~= accv.push(p2v));
                            if let Some((t, k)) = p_pairs_rest(s@, j2 as int) {
                                assert(accv + (seq![p2v] + t) =~= acc.deep_view() + t);
                            }
                        }
                        pos = j2;
                    },
                }
            }
        },
    }
}

pub fn parse_strs(s: &Vec<u8>, i: usize) -> (r: Option<(Vec<String>, usize)>)
    requires
        i <= s@.len(),
    ensures
        match r {
            Some((v, j)) => p_strs(s@, i as int) == Some((v.deep_view(), j as int)) && i < j
                <= s@.len(),
            None => p_strs(s@, i as int) is None,
        },
{
    proof {
        reveal(p_strs);
        reveal(p_strs_rest);
    }
    if !(i < s.len() && s[i] == 0x5B) {
        return None;
    }
    if i + 1 < s.len() && s[i + 1] == 0x5D {
        let v: Vec<String> = Vec::new();
        assert(v.deep_view() =~= Seq::<Seq<char>>::empty());
        return Some((v, i + 2));
    }
    match parse_string(s, i + 1) {
        None => None,
        Some((t0, j)) => {
            let mut acc: Vec<String> = Vec::new();
            let ghost t0v = t0@;
            acc.push(t0);
            assert(acc.deep_view() =~= seq![t0v]);
            let mut pos = j;
            loop
                invariant
                    i < pos <= s@.len(),
                    s@.len() <= usize::MAX,
                    p_strs(s@, i as int) == (match p_strs_rest(s@, pos as int) {
                        Some((t, k)) => Some((acc.deep_view() + t, k)),
                        None => None::<(Seq<Seq<char>>, int)>,
                    }),
                decreases s@.len() - pos,
            {
                proof {
                    reveal(p_strs_rest);
                }
                if pos >= s.len() {
                    return None;
                }
                if s[pos] == 0x5D {
                    assert(acc.deep_view() + Seq::<Seq<char>>::empty() =~= acc.deep_view());
                    return Some((acc, pos + 1));
                }
                if s[pos] != 0x2C {
                    return None;
                }
                match parse_string(s, pos + 1) {
                    None => {
                        return None;
                    },
                    Some((t2, j2)) => {
                        let ghost accv = acc.deep_view();
                        let ghost t2v = t2@;
                        acc.push(t2);
                        proof {
                            reveal(p_strs_rest);
                            assert(acc.deep_view() =~= accv.push(t2v));
                            if let Some((t, k)) = p_strs_rest(s@, j2 as int) {
                                assert(accv + (seq![t2v] + t) =~= acc.deep_view() + t);
                            }
                        }
                        pos = j2;
                    },
                }
            }
        },
    }
}

fn parse_byte(s: &Vec<u8>, i: usize) -> (r: Option<(u8, usize)>)
    requires
        i <= s@.len(),
    ensures
        match r {
            Some((b, j)) => p_byte(s@, i as int) == Some((b, j as int)) && i < j <= s@.len(),
            None => p_byte(s@, i as int) is None,
        },
{
    match parse_u64(s, i) {
        Some((v, j)) => {
            if v <= 255 {
                assert(j > i) by {
                    assert(p_u64(s@, i as int) is Some);
                    lemma_p_digits_pos(s@, i + 1, (s@[i as int] - 0x30) as nat);
                }
                Some((v as u8, j))
            } else {
                None
            }
        },
        None => None,
    }
}

pub fn parse_bytes_arr(s: &Vec<u8>, i: usize) -> (r: Option<(Vec<u8>, usize)>)
    requires
        i <= s@.len(),
    ensures
        match r {
            Some((v, j)) => p_bytes(s@, i as int) == Some((v@, j as int)) && i < j <= s@.len(),
            None => p_bytes(s@, i as int) is None,
        },
{
    proof {
        reveal(p_bytes);
        reveal(p_bytes_rest);
    }
    if !(i < s.len() && s[i] == 0x5B) {
        return None;
    }
    if i + 1 < s.len() && s[i + 1] == 0x5D {
        let v: Vec<u8> = Vec::new();
        assert(v@ =~= Seq::<u8>::empty());
        return Some((v, i + 2));
    }
    match parse_byte(s, i + 1) {
        None => None,
        Some((b0, j)) => {
            let mut acc: Vec<u8> = Vec::new();
            acc.push(b0);
            assert(acc@ =~= seq![b0]);
            let mut pos = j;
            loop
                invariant
                    i < pos <= s@.len(),
                    s@.len() <= usize::MAX,
                    p_bytes(s@, i as int) == (match p_bytes_rest(s@, pos as int) {
                        Some((t, k)) => Some((acc@ + t, k)),
                        None => None::<(Seq<u8>, int)>,
                    }),
                decreases s@.len() - pos,
            {
                proof {
                    reveal(p_bytes_rest);
                }
                if pos >= s.len() {
                    return None;
                }
                if s[pos] == 0x5D {
                    assert(acc@ + Seq::<u8>::empty() =~= acc@);
                    return Some((acc, pos + 1));
                }
                if s[pos] != 0x2C {
                    return None;
                }
                match parse_byte(s, pos + 1) {
                    None => {
                        return None;
                    },
                    Some((b2, j2)) => {
                        let ghost accv = acc@;
                        acc.push(b2);
                        proof {
                            reveal(p_bytes_rest);
                            if let Some((t, k)) = p_bytes_rest(s@, j2 as int) {
                                assert(accv + (seq![b2] + t) =~= acc@ + t);
                            }
                        }
                        pos = j2;
                    },
                }
            }
        },
    }
}



proof fn lemma_log_body_stop0(s: Seq<u8>, i: int)
    requires
        p_lit(s, i, lit_bytes(",\"timestamp\":"@)) is None,
    ensures
        p_log_body(s, i) is None,
{
    reveal(p_log_body);
}

proof fn lemma_log_body_stop1(s: Seq<u8>, i: int, c1: int)
    requires
        p_lit(s, i, lit_bytes(",\"timestamp\":"@)) == Some(c1),
        p_i64(s, c1) is None,
    ensures
        p_log_body(s, i) is None,
{
    reveal(p_log_body);
}

proof fn lemma_log_body_stop2(s: Seq<u8>, i: int, c1: int, c2: int, ts: i64)
    requires
        p_lit(s, i, lit_bytes(",\"timestamp\":"@)) == Some(c1),
        p_i64(s, c1) == Some((ts, c2)),
        p_lit(s, c2, lit_bytes(",\"source\":"@)) is None,
    ensures
        p_log_body(s, i) is None,
{
    reveal(p_log_body);
}

proof fn lemma_log_body_stop3(s: Seq<u8>, i: int, c1: int, c2: int, ts: i64, c3: int)
    requires
        p_lit(s, i, lit_bytes(",\"timestamp\":"@)) == Some(c1),
        p_i64(s, c1) == Some((ts, c2)),
        p_lit(s, c2, lit_bytes(",\"source\":"@)) == Some(c3),
        p_str(s, c3) is None,
    ensures
        p_log_body(s, i) is None,
{
    reveal(p_log_body);
}

proof fn lemma_log_body_stop4(s: Seq<u8>, i: int, c1: int, c2: int, ts: i64, c3: int, c4: int, source: Seq<char>)
    requires
        p_lit(s, i, lit_bytes(",\"timestamp\":"@)) == Some(c1),
        p_i64(s, c1) == Some((ts, c2)),
        p_lit(s, c2, lit_bytes(",\"source\":"@)) == Some(c3),
        p_str(s, c3) == Some((source, c4)),
        p_lit(s, c4, lit_bytes(",\"level\":"@)) is None,
    ensures
        p_log_body(s, i) is None,
{
    reveal(p_log_body);
}

proof fn lemma_log_body_stop5(s: Seq<u8>, i: int, c1: int, c2: int, ts: i64, c3: int, c4: int, source: Seq<char>, c5: int)
    requires
        p_lit(s, i, lit_bytes(",\"timestamp\":"@)) == Some(c1),
        p_i64(s, c1) == Some((ts, c2)),
        p_lit(s, c2, lit_bytes(",\"source\":"@)) == Some(c3),
        p_str(s, c3) == Some((source, c4)),
        p_lit(s, c4, lit_bytes(",\"level\":"@)) == Some(c5),
        p_level(s, c5) is None,
    ensures
        p_log_body(s, i) is None,
{
    reveal(p_log_body);
}

proof fn lemma_log_body_stop6(s: Seq<u8>, i: int, c1: int, c2: int, ts: i64, c3: int, c4: int, source: Seq<char>, c5: int, c6: int, level: LogLevel)
    requires
        p_lit(s, i, lit_bytes(",\"timestamp\":"@)) == Some(c1),
        p_i64(s, c1) == Some((ts, c2)),
        p_lit(s, c2, lit_bytes(",\"source\":"@)) == Some(c3),
        p_str(s, c3) == Some((source, c4)),
        p_lit(s, c4, lit_bytes(",\"level\":"@)) == Some(c5),
        p_level(s, c5) == Some((level, c6)),
        p_lit(s, c6, lit_bytes(",\"message\":"@)) is None,
    ensures
        p_log_body(s, i) is None,
{
    reveal(p_log_body);
}

proof fn lemma_log_body_stop7(s: Seq<u8>, i: int, c1: int, c2: int, ts: i64, c3: int, c4: int, source: Seq<char>, c5: int, c6: int, level: LogLevel, c7: int)
    requires
        p_lit(s, i, lit_bytes(",\"timestamp\":"@)) == Some(c1),
        p_i64(s, c1) == Some((ts, c2)),
        p_lit(s, c2, lit_bytes(",\"source\":"@)) == Some(c3),
        p_str(s, c3) == Some((source, c4)),
        p_lit(s, c4, lit_bytes(",\"level\":"@)) == Some(c5),
        p_level(s, c5) == Some((level, c6)),
        p_lit(s, c6, lit_bytes(",\"message\":"@)) == Some(c7),
        p_str(s, c7) is None,
    ensures
        p_log_body(s, i) is None,
{
    reveal(p_log_body);
}

proof fn lemma_log_body_stop8(s: Seq<u8>, i: int, c1: int, c2: int, ts: i64, c3: int, c4: int, source: Seq<char>, c5: int, c6: int, level: LogLevel, c7: int, c8: int, message: Seq<char>)
    requires
        p_lit(s, i, lit_bytes(",\"timestamp\":"@)) == Some(c1),
        p_i64(s, c1) == Some((ts, c2)),
        p_lit(s, c2, lit_bytes(",\"source\":"@)) == Some(c3),
        p_str(s, c3) == Some((source, c4)),
        p_lit(s, c4, lit_bytes(",\"level\":"@)) == Some(c5),
        p_level(s, c5) == Some((level, c6)),
        p_lit(s, c6, lit_bytes(",\"message\":"@)) == Some(c7),
        p_str(s, c7) == Some((message, c8)),
        p_lit(s, c8, lit_bytes(",\"fields\":"@)) is None,
    ensures
        p_log_body(s, i) is None,
{
    reveal(p_log_body);
}

proof fn lemma_log_body_stop9(s: Seq<u8>, i: int, c1: int, c2: int, ts: i64, c3: int, c4: int, source: Seq<char>, c5: int, c6: int, level: LogLevel, c7: int, c8: int, message: Seq<char>, c9: int)
    requires
        p_lit(s, i, lit_bytes(",\"timestamp\":"@)) == Some(c1),
        p_i64(s, c1) == Some((ts, c2)),
        p_lit(s, c2, lit_bytes(",\"source\":"@)) == Some(c3),
        p_str(s, c3) == Some((source, c4)),
        p_lit(s, c4, lit_bytes(",\"level\":"@)) == Some(c5),
        p_level(s, c5) == Some((level, c6)),
        p_lit(s, c6, lit_bytes(",\"message\":"@)) == Some(c7),
        p_str(s, c7) == Some((message, c8)),
        p_lit(s, c8, lit_bytes(",\"fields\":"@)) == Some(c9),
        p_pairs(s, c9) is None,
    ensures
        p_log_body(s, i) is None,
{
    reveal(p_log_body);
}

proof fn lemma_log_body_stop10(s: Seq<u8>, i: int, c1: int, c2: int, ts: i64, c3: int, c4: int, source: Seq<char>, c5: int, c6: int, level: LogLevel, c7: int, c8: int, message: Seq<char>, c9: int, c10: int, fields: Seq<(Seq<char>, Seq<char>)>)
    requires
        p_lit(s, i, lit_bytes(",\"timestamp\":"@)) == Some(c1),
        p_i64(s, c1) == Some((ts, c2)),
        p_lit(s, c2, lit_bytes(",\"source\":"@)) == Some(c3),
        p_str(s, c3) == Some((source, c4)),
        p_lit(s, c4, lit_bytes(",\"level\":"@)) == Some(c5),
        p_level(s, c5) == Some((level, c6)),
        p_lit(s, c6, lit_bytes(",\"message\":"@)) == Some(c7),
        p_str(s, c7) == Some((message, c8)),
        p_lit(s, c8, lit_bytes(",\"fields\":"@)) == Some(c9),
        p_pairs(s, c9) == Some((fields, c10)),
        p_lit(s, c10, lit_bytes(",\"tags\":"@)) is None,
    ensures
        p_log_body(s, i) is None,
{
    reveal(p_log_body);
}

proof fn lemma_log_body_stop11(s: Seq<u8>, i: int, c1: int, c2: int, ts: i64, c3: int, c4: int, source: Seq<char>, c5: int, c6: int, level: LogLevel, c7: int, c8: int, message: Seq<char>, c9: int, c10: int, fields: Seq<(Seq<char>, Seq<char>)>, c11: int)
    requires
        p_lit(s, i, lit_bytes(",\"timestamp\":"@)) == Some(c1),
        p_i64(s, c1) == Some((ts, c2)),
        p_lit(s, c2, lit_bytes(",\"source\":"@)) == Some(c3),
        p_str(s, c3) == Some((source, c4)),
        p_lit(s, c4, lit_bytes(",\"level\":"@)) == Some(c5),
        p_level(s, c5) == Some((level, c6)),
        p_lit(s, c6, lit_bytes(",\"message\":"@)) == Some(c7),
        p_str(s, c7) == Some((message, c8)),
        p_lit(s, c8, lit_bytes(",\"fields\":"@)) == Some(c9),
        p_pairs(s, c9) == Some((fields, c10)),
        p_lit(s, c10, lit_bytes(",\"tags\":"@)) == Some(c11),
        p_strs(s, c11) is None,
    ensures
        p_log_body(s, i) is None,
{
    reveal(p_log_body);
}

proof fn lemma_log_body_stop12(s: Seq<u8>, i: int, c1: int, c2: int, ts: i64, c3: int, c4: int, source: Seq<char>, c5: int, c6: int, level: LogLevel, c7: int, c8: int, message: Seq<char>, c9: int, c10: int, fields: Seq<(Seq<char>, Seq<char>)>, c11: int, c12: int, tags: Seq<Seq<char>>)
    requires
        p_lit(s, i, lit_bytes(",\"timestamp\":"@)) == Some(c1),
        p_i64(s, c1) == Some((ts, c2)),
        p_lit(s, c2, lit_bytes(",\"source\":"@)) == Some(c3),
        p_str(s, c3) == Some((source, c4)),
        p_lit(s, c4, lit_bytes(",\"level\":"@)) == Some(c5),
        p_level(s, c5) == Some((level, c6)),
        p_lit(s, c6, lit_bytes(",\"message\":"@)) == Some(c7),
        p_str(s, c7) == Some((message, c8)),
        p_lit(s, c8, lit_bytes(",\"fields\":"@)) == Some(c9),
        p_pairs(s, c9) == Some((fields, c10)),
        p_lit(s, c10, lit_bytes(",\"tags\":"@)) == Some(c11),
        p_strs(s, c11) == Some((tags, c12)),
        p_lit(s, c12, lit_bytes("}"@)) is None,
    ensures
        p_log_body(s, i) is None,
{
    reveal(p_log_body);
}

proof fn lemma_log_body_ok(s: Seq<u8>, i: int, c1: int, c2: int, ts: i64, c3: int, c4: int, source: Seq<char>, c5: int, c6: int, level: LogLevel, c7: int, c8: int, message: Seq<char>, c9: int, c10: int, fields: Seq<(Seq<char>, Seq<char>)>, c11: int, c12: int, tags: Seq<Seq<char>>, c13: int)
    requires
        p_lit(s, i, lit_bytes(",\"timestamp\":"@)) == Some(c1),
        p_i64(s, c1) == Some((ts, c2)),
        p_lit(s, c2, lit_bytes(",\"source\":"@)) == Some(c3),
        p_str(s, c3) == Some((source, c4)),
        p_lit(s, c4, lit_bytes(",\"level\":"@)) == Some(c5),
        p_level(s, c5) == Some((level, c6)),
        p_lit(s, c6, lit_bytes(",\"message\":"@)) == Some(c7),
        p_str(s, c7) == Some((message, c8)),
        p_lit(s, c8, lit_bytes(",\"fields\":"@)) == Some(c9),
        p_pairs(s, c9) == Some((fields, c10)),
        p_lit(s, c10, lit_bytes(",\"tags\":"@)) == Some(c11),
        p_strs(s, c11) == Some((tags, c12)),
        p_lit(s, c12, lit_bytes("}"@)) == Some(c13),
    ensures
        p_log_body(s, i) == Some((EventV::Log(LogEventV { timestamp: ts, source, level, message, fields, tags }), c13)),
{
    reveal(p_log_body);
}

proof fn lemma_metric_body_stop0(s: Seq<u8>, i: int)
    requires
        p_lit(s, i, lit_bytes(",\"timestamp\":"@)) is None,
    ensures
        p_metric_body(s, i) is None,
{
    reveal(p_metric_body);
}

proof fn lemma_metric_body_stop1(s: Seq<u8>, i: int, c1: int)
    requires
        p_lit(s, i, lit_bytes(",\"timestamp\":"@)) == Some(c1),
        p_i64(s, c1) is None,
    ensures
        p_metric_body(s, i) is None,
{
    reveal(p_metric_body);
}

proof fn lemma_metric_body_stop2(s: Seq<u8>, i: int, c1: int, c2: int, ts: i64)
    requires
        p_lit(s, i, lit_bytes(",\"timestamp\":"@)) == Some(c1),
        p_i64(s, c1) == Some((ts, c2)),
        p_lit(s, c2, lit_bytes(",\"name\":"@)) is None,
    ensures
        p_metric_body(s, i) is None,
{
    reveal(p_metric_body);
}

proof fn lemma_metric_body_stop3(s: Seq<u8>, i: int, c1: int, c2: int, ts: i64, c3: int)
    requires
        p_lit(s, i, lit_bytes(",\"timestamp\":"@)) == Some(c1),
        p_i64(s, c1) == Some((ts, c2)),
        p_lit(s, c2, lit_bytes(",\"name\":"@)) == Some(c3),
        p_str(s, c3) is None,
    ensures
        p_metric_body(s, i) is None,
{
    reveal(p_metric_body);
}

proof fn lemma_metric_body_stop4(s: Seq<u8>, i: int, c1: int, c2: int, ts: i64, c3: int, c4: int, name: Seq<char>)
    requires
        p_lit(s, i, lit_bytes(",\"timestamp\":"@)) == Some(c1),
        p_i64(s, c1) == Some((ts, c2)),
        p_lit(s, c2, lit_bytes(",\"name\":"@)) == Some(c3),
        p_str(s, c3) == Some((name, c4)),
        p_lit(s, c4, lit_bytes(",\"value\":"@)) is None,
    ensures
        p_metric_body(s, i) is None,
{
    reveal(p_metric_body);
}

proof fn lemma_metric_body_stop5(s: Seq<u8>, i: int, c1: int, c2: int, ts: i64, c3: int, c4: int, name: Seq<char>, c5: int)
    requires
        p_lit(s, i, lit_bytes(",\"timestamp\":"@)) == Some(c1),
        p_i64(s, c1) == Some((ts, c2)),
        p_lit(s, c2, lit_bytes(",\"name\":"@)) == Some(c3),
        p_str(s, c3) == Some((name, c4)),
        p_lit(s, c4, lit_bytes(",\"value\":"@)) == Some(c5),
        p_num(s, c5) is None,
    ensures
        p_metric_body(s, i) is None,
{
    reveal(p_metric_body);
}

proof fn lemma_metric_body_stop6(s: Seq<u8>, i: int, c1: int, c2: int, ts: i64, c3: int, c4: int, name: Seq<char>, c5: int, c6: int, value: Seq<char>)
    requires
        p_lit(s, i, lit_bytes(",\"timestamp\":"@)) == Some(c1),
        p_i64(s, c1) == Some((ts, c2)),
        p_lit(s, c2, lit_bytes(",\"name\":"@)) == Some(c3),
        p_str(s, c3) == Some((name, c4)),
        p_lit(s, c4, lit_bytes(",\"value\":"@)) == Some(c5),
        p_num(s, c5) == Some((value, c6)),
        p_lit(s, c6, lit_bytes(",\"metric_type\":"@)) is None,
    ensures
        p_metric_body(s, i) is None,
{
    reveal(p_metric_body);
}

proof fn lemma_metric_body_stop7(s: Seq<u8>, i: int, c1: int, c2: int, ts: i64, c3: int, c4: int, name: Seq<char>, c5: int, c6: int, value: Seq<char>, c7: int)
    requires
        p_lit(s, i, lit_bytes(",\"timestamp\":"@)) == Some(c1),
        p_i64(s, c1) == Some((ts, c2)),
        p_lit(s, c2, lit_bytes(",\"name\":"@)) == Some(c3),
        p_str(s, c3) == Some((name, c4)),
        p_lit(s, c4, lit_bytes(",\"value\":"@)) == Some(c5),
        p_num(s, c5) == Some((value, c6)),
        p_lit(s, c6, lit_bytes(",\"metric_type\":"@)) == Some(c7),
        p_mtype(s, c7) is None,
    ensures
        p_metric_body(s, i) is None,
{
    reveal(p_metric_body);
}

proof fn lemma_metric_body_stop8(s: Seq<u8>, i: int, c1: int, c2: int, ts: i64, c3: int, c4: int, name: Seq<char>, c5: int, c6: int, value: Seq<char>, c7: int, c8: int, mt: MetricType)
    requires
        p_lit(s, i, lit_bytes(",\"timestamp\":"@)) == Some(c1),
        p_i64(s, c1) == Some((ts, c2)),
        p_lit(s, c2, lit_bytes(",\"name\":"@)) == Some(c3),
        p_str(s, c3) == Some((name, c4)),
        p_lit(s, c4, lit_bytes(",\"value\":"@)) == Some(c5),
        p_num(s, c5) == Some((value, c6)),
        p_lit(s, c6, lit_bytes(",\"metric_type\":"@)) == Some(c7),
        p_mtype(s, c7) == Some((mt, c8)),
        p_lit(s, c8, lit_bytes(",\"tags\":"@)) is None,
    ensures
        p_metric_body(s, i) is None,
{
    reveal(p_metric_body);
}

proof fn lemma_metric_body_stop9(s: Seq<u8>, i: int, c1: int, c2: int, ts: i64, c3: int, c4: int, name: Seq<char>, c5: int, c6: int, value: Seq<char>, c7: int, c8: int, mt: MetricType, c9: int)
    requires
        p_lit(s, i, lit_bytes(",\"timestamp\":"@)) == Some(c1),
        p_i64(s, c1) == Some((ts, c2)),
        p_lit(s, c2, lit_bytes(",\"name\":"@)) == Some(c3),
        p_str(s, c3) == Some((name, c4)),
        p_lit(s, c4, lit_bytes(",\"value\":"@)) == Some(c5),
        p_num(s, c5) == Some((value, c6)),
        p_lit(s, c6, lit_bytes(",\"metric_type\":"@)) == Some(c7),
        p_mtype(s, c7) == Some((mt, c8)),
        p_lit(s, c8, lit_bytes(",\"tags\":"@)) == Some(c9),
        p_pairs(s, c9) is None,
    ensures
        p_metric_body(s, i) is None,
{
    reveal(p_metric_body);
}

proof fn lemma_metric_body_stop10(s: Seq<u8>, i: int, c1: int, c2: int, ts: i64, c3: int, c4: int, name: Seq<char>, c5: int, c6: int, value: Seq<char>, c7: int, c8: int, mt: MetricType, c9: int, c10: int, tags: Seq<(Seq<char>, Seq<char>)>)
    requires
        p_lit(s, i, lit_bytes(",\"timestamp\":"@)) == Some(c1),
        p_i64(s, c1) == Some((ts, c2)),
        p_lit(s, c2, lit_bytes(",\"name\":"@)) == Some(c3),
        p_str(s, c3) == Some((name, c4)),
        p_lit(s, c4, lit_bytes(",\"value\":"@)) == Some(c5),
        p_num(s, c5) == Some((value, c6)),
        p_lit(s, c6, lit_bytes(",\"metric_type\":"@)) == Some(c7),
        p_mtype(s, c7) == Some((mt, c8)),
        p_lit(s, c8, lit_bytes(",\"tags\":"@)) == Some(c9),
        p_pairs(s, c9) == Some((tags, c10)),
        p_lit(s, c10, lit_bytes(",\"unit\":"@)) is None,
    ensures
        p_metric_body(s, i) is None,
{
    reveal(p_metric_body);
}

proof fn lemma_metric_body_stop11(s: Seq<u8>, i: int, c1: int, c2: int, ts: i64, c3: int, c4: int, name: Seq<char>, c5: int, c6: int, value: Seq<char>, c7: int, c8: int, mt: MetricType, c9: int, c10: int, tags: Seq<(Seq<char>, Seq<char>)>, c11: int)
    requires
        p_lit(s, i, lit_bytes(",\"timestamp\":"@)) == Some(c1),
        p_i64(s, c1) == Some((ts, c2)),
        p_lit(s, c2, lit_bytes(",\"name\":"@)) == Some(c3),
        p_str(s, c3) == Some((name, c4)),
        p_lit(s, c4, lit_bytes(",\"value\":"@)) == Some(c5),
        p_num(s, c5) == Some((value, c6)),
        p_lit(s, c6, lit_bytes(",\"metric_type\":"@)) == Some(c7),
        p_mtype(s, c7) == Some((mt, c8)),
        p_lit(s, c8, lit_bytes(",\"tags\":"@)) == Some(c9),
        p_pairs(s, c9) == Some((tags, c10)),
        p_lit(s, c10, lit_bytes(",\"unit\":"@)) == Some(c11),
        p_opt_str(s, c11) is None,
    ensures
        p_metric_body(s, i) is None,
{
    reveal(p_metric_body);
}

proof fn lemma_metric_body_stop12(s: Seq<u8>, i: int, c1: int, c2: int, ts: i64, c3: int, c4: int, name: Seq<char>, c5: int, c6: int, value: Seq<char>, c7: int, c8: int, mt: MetricType, c9: int, c10: int, tags: Seq<(Seq<char>, Seq<char>)>, c11: int, c12: int, unit: Option<Seq<char>>)
    requires
        p_lit(s, i, lit_bytes(",\"timestamp\":"@)) == Some(c1),
        p_i64(s, c1) == Some((ts, c2)),
        p_lit(s, c2, lit_bytes(",\"name\":"@)) == Some(c3),
        p_str(s, c3) == Some((name, c4)),
        p_lit(s, c4, lit_bytes(",\"value\":"@)) == Some(c5),
        p_num(s, c5) == Some((value, c6)),
        p_lit(s, c6, lit_bytes(",\"metric_type\":"@)) == Some(c7),
        p_mtype(s, c7) == Some((mt, c8)),
        p_lit(s, c8, lit_bytes(",\"tags\":"@)) == Some(c9),
        p_pairs(s, c9) == Some((tags, c10)),
        p_lit(s, c10, lit_bytes(",\"unit\":"@)) == Some(c11),
        p_opt_str(s, c11) == Some((unit, c12)),
        p_lit(s, c12, lit_bytes("}"@)) is None,
    ensures
        p_metric_body(s, i) is None,
{
    reveal(p_metric_body);
}

proof fn lemma_metric_body_ok(s: Seq<u8>, i: int, c1: int, c2: int, ts: i64, c3: int, c4: int, name: Seq<char>, c5: int, c6: int, value: Seq<char>, c7: int, c8: int, mt: MetricType, c9: int, c10: int, tags: Seq<(Seq<char>, Seq<char>)>, c11: int, c12: int, unit: Option<Seq<char>>, c13: int)
    requires
        p_lit(s, i, lit_bytes(",\"timestamp\":"@)) == Some(c1),
        p_i64(s, c1) == Some((ts, c2)),
        p_lit(s, c2, lit_bytes(",\"name\":"@)) == Some(c3),
        p_str(s, c3) == Some((name, c4)),
        p_lit(s, c4, lit_bytes(",\"value\":"@)) == Some(c5),
        p_num(s, c5) == Some((value, c6)),
        p_lit(s, c6, lit_bytes(",\"metric_type\":"@)) == Some(c7),
        p_mtype(s, c7) == Some((mt, c8)),
        p_lit(s, c8, lit_bytes(",\"tags\":"@)) == Some(c9),
        p_pairs(s, c9) == Some((tags, c10)),
        p_lit(s, c10, lit_bytes(",\"unit\":"@)) == Some(c11),
        p_opt_str(s, c11) == Some((unit, c12)),
        p_lit(s, c12, lit_bytes("}"@)) == Some(c13),
    ensures
        p_metric_body(s, i) == Some((EventV::Metric(MetricEventV { timestamp: ts, name, value, metric_type: mt, tags, unit }), c13)),
{
    reveal(p_metric_body);
}

proof fn lemma_traffic_body_stop0(s: Seq<u8>, i: int)
    requires
        p_lit(s, i, lit_bytes(",\"timestamp\":"@)) is None,
    ensures
        p_traffic_body(s, i) is None,
{
    reveal(p_traffic_body);
}

proof fn lemma_traffic_body_stop1(s: Seq<u8>, i: int, c1: int)
    requires
        p_lit(s, i, lit_bytes(",\"timestamp\":"@)) == Some(c1),
        p_i64(s, c1) is None,
    ensures
        p_traffic_body(s, i) is None,
{
    reveal(p_traffic_body);
}

proof fn lemma_traffic_body_stop2(s: Seq<u8>, i: int, c1: int, c2: int, ts: i64)
    requires
        p_lit(s, i, lit_bytes(",\"timestamp\":"@)) == Some(c1),
        p_i64(s, c1) == Some((ts, c2)),
        p_lit(s, c2, lit_bytes(",\"protocol\":"@)) is None,
    ensures
        p_traffic_body(s, i) is None,
{
    reveal(p_traffic_body);
}

proof fn lemma_traffic_body_stop3(s: Seq<u8>, i: int, c1: int, c2: int, ts: i64, c3: int)
    requires
        p_lit(s, i, lit_bytes(",\"timestamp\":"@)) == Some(c1),
        p_i64(s, c1) == Some((ts, c2)),
        p_lit(s, c2, lit_bytes(",\"protocol\":"@)) == Some(c3),
        p_protocol(s, c3) is None,
    ensures
        p_traffic_body(s, i) is None,
{
    reveal(p_traffic_body);
}

proof fn lemma_traffic_body_stop4(s: Seq<u8>, i: int, c1: int, c2: int, ts: i64, c3: int, c4: int, proto: ProtocolV)
    requires
        p_lit(s, i, lit_bytes(",\"timestamp\":"@)) == Some(c1),
        p_i64(s, c1) == Some((ts, c2)),
        p_lit(s, c2, lit_bytes(",\"protocol\":"@)) == Some(c3),
        p_protocol(s, c3) == Some((proto, c4)),
        p_lit(s, c4, lit_bytes(",\"src_ip\":"@)) is None,
    ensures
        p_traffic_body(s, i) is None,
{
    reveal(p_traffic_body);
}

proof fn lemma_traffic_body_stop5(s: Seq<u8>, i: int, c1: int, c2: int, ts: i64, c3: int, c4: int, proto: ProtocolV, c5: int)
    requires
        p_lit(s, i, lit_bytes(",\"timestamp\":"@)) == Some(c1),
        p_i64(s, c1) == Some((ts, c2)),
        p_lit(s, c2, lit_bytes(",\"protocol\":"@)) == Some(c3),
        p_protocol(s, c3) == Some((proto, c4)),
        p_lit(s, c4, lit_bytes(",\"src_ip\":"@)) == Some(c5),
        p_str(s, c5) is None,
    ensures
        p_traffic_body(s, i) is None,
{
    reveal(p_traffic_body);
}

proof fn lemma_traffic_body_stop6(s: Seq<u8>, i: int, c1: int, c2: int, ts: i64, c3: int, c4: int, proto: ProtocolV, c5: int, c6: int, sip: Seq<char>)
    requires
        p_lit(s, i, lit_bytes(",\"timestamp\":"@)) == Some(c1),
        p_i64(s, c1) == Some((ts, c2)),
        p_lit(s, c2, lit_bytes(",\"protocol\":"@)) == Some(c3),
        p_protocol(s, c3) == Some((proto, c4)),
        p_lit(s, c4, lit_bytes(",\"src_ip\":"@)) == Some(c5),
        p_str(s, c5) == Some((sip, c6)),
        p_lit(s, c6, lit_bytes(",\"dst_ip\":"@)) is None,
    ensures
        p_traffic_body(s, i) is None,
{
    reveal(p_traffic_body);
}

proof fn lemma_traffic_body_stop7(s: Seq<u8>, i: int, c1: int, c2: int, ts: i64, c3: int, c4: int, proto: ProtocolV, c5: int, c6: int, sip: Seq<char>, c7: int)
    requires
        p_lit(s, i, lit_bytes(",\"timestamp\":"@)) == Some(c1),
        p_i64(s, c1) == Some((ts, c2)),
        p_lit(s, c2, lit_bytes(",\"protocol\":"@)) == Some(c3),
        p_protocol(s, c3) == Some((proto, c4)),
        p_lit(s, c4, lit_bytes(",\"src_ip\":"@)) == Some(c5),
        p_str(s, c5) == Some((sip, c6)),
        p_lit(s, c6, lit_bytes(",\"dst_ip\":"@)) == Some(c7),
        p_str(s, c7) is None,
    ensures
        p_traffic_body(s, i) is None,
{
    reveal(p_traffic_body);
}

proof fn lemma_traffic_body_stop8(s: Seq<u8>, i: int, c1: int, c2: int, ts: i64, c3: int, c4: int, proto: ProtocolV, c5: int, c6: int, sip: Seq<char>, c7: int, c8: int, dip: Seq<char>)
    requires
        p_lit(s, i, lit_bytes(",\"timestamp\":"@)) == Some(c1),
        p_i64(s, c1) == Some((ts, c2)),
        p_lit(s, c2, lit_bytes(",\"protocol\":"@)) == Some(c3),
        p_protocol(s, c3) == Some((proto, c4)),
        p_lit(s, c4, lit_bytes(",\"src_ip\":"@)) == Some(c5),
        p_str(s, c5) == Some((sip, c6)),
        p_lit(s, c6, lit_bytes(",\"dst_ip\":"@)) == Some(c7),
        p_str(s, c7) == Some((dip, c8)),
        p_lit(s, c8, lit_bytes(",\"src_port\":"@)) is None,
    ensures
        p_traffic_body(s, i) is None,
{
    reveal(p_traffic_body);
}

proof fn lemma_traffic_body_stop9(s: Seq<u8>, i: int, c1: int, c2: int, ts: i64, c3: int, c4: int, proto: ProtocolV, c5: int, c6: int, sip: Seq<char>, c7: int, c8: int, dip: Seq<char>, c9: int)
    requires
        p_lit(s, i, lit_bytes(",\"timestamp\":"@)) == Some(c1),
        p_i64(s, c1) == Some((ts, c2)),
        p_lit(s, c2, lit_bytes(",\"protocol\":"@)) == Some(c3),
        p_protocol(s, c3) == Some((proto, c4)),
        p_lit(s, c4, lit_bytes(",\"src_ip\":"@)) == Some(c5),
        p_str(s, c5) == Some((sip, c6)),
        p_lit(s, c6, lit_bytes(",\"dst_ip\":"@)) == Some(c7),
        p_str(s, c7) == Some((dip, c8)),
        p_lit(s, c8, lit_bytes(",\"src_port\":"@)) == Some(c9),
        p_port(s, c9) is None,
    ensures
        p_traffic_body(s, i) is None,
{
    reveal(p_traffic_body);
}

proof fn lemma_traffic_body_stop10(s: Seq<u8>, i: int, c1: int, c2: int, ts: i64, c3: int, c4: int, proto: ProtocolV, c5: int, c6: int, sip: Seq<char>, c7: int, c8: int, dip: Seq<char>, c9: int, c10: int, sport: u16)
    requires
        p_lit(s, i, lit_bytes(",\"timestamp\":"@)) == Some(c1),
        p_i64(s, c1) == Some((ts, c2)),
        p_lit(s, c2, lit_bytes(",\"protocol\":"@)) == Some(c3),
        p_protocol(s, c3) == Some((proto, c4)),
        p_lit(s, c4, lit_bytes(",\"src_ip\":"@)) == Some(c5),
        p_str(s, c5) == Some((sip, c6)),
        p_lit(s, c6, lit_bytes(",\"dst_ip\":"@)) == Some(c7),
        p_str(s, c7) == Some((dip, c8)),
        p_lit(s, c8, lit_bytes(",\"src_port\":"@)) == Some(c9),
        p_port(s, c9) == Some((sport, c10)),
        p_lit(s, c10, lit_bytes(",\"dst_port\":"@)) is None,
    ensures
        p_traffic_body(s, i) is None,
{
    reveal(p_traffic_body);
}

proof fn lemma_traffic_body_stop11(s: Seq<u8>, i: int, c1: int, c2: int, ts: i64, c3: int, c4: int, proto: ProtocolV, c5: int, c6: int, sip: Seq<char>, c7: int, c8: int, dip: Seq<char>, c9: int, c10: int, sport: u16, c11: int)
    requires
        p_lit(s, i, lit_bytes(",\"timestamp\":"@)) == Some(c1),
        p_i64(s, c1) == Some((ts, c2)),
        p_lit(s, c2, lit_bytes(",\"protocol\":"@)) == Some(c3),
        p_protocol(s, c3) == Some((proto, c4)),
        p_lit(s, c4, lit_bytes(",\"src_ip\":"@)) == Some(c5),
        p_str(s, c5) == Some((sip, c6)),
        p_lit(s, c6, lit_bytes(",\"dst_ip\":"@)) == Some(c7),
        p_str(s, c7) == Some((dip, c8)),
        p_lit(s, c8, lit_bytes(",\"src_port\":"@)) == Some(c9),
        p_port(s, c9) == Some((sport, c10)),
        p_lit(s, c10, lit_bytes(",\"dst_port\":"@)) == Some(c11),
        p_port(s, c11) is None,
    ensures
        p_traffic_body(s, i) is None,
{
    reveal(p_traffic_body);
}

proof fn lemma_traffic_body_stop12(s: Seq<u8>, i: int, c1: int, c2: int, ts: i64, c3: int, c4: int, proto: ProtocolV, c5: int, c6: int, sip: Seq<char>, c7: int, c8: int, dip: Seq<char>, c9: int, c10: int, sport: u16, c11: int, c12: int, dport: u16)
    requires
        p_lit(s, i, lit_bytes(",\"timestamp\":"@)) == Some(c1),
        p_i64(s, c1) == Some((ts, c2)),
        p_lit(s, c2, lit_bytes(",\"protocol\":"@)) == Some(c3),
        p_protocol(s, c3) == Some((proto, c4)),
        p_lit(s, c4, lit_bytes(",\"src_ip\":"@)) == Some(c5),
        p_str(s, c5) == Some((sip, c6)),
        p_lit(s, c6, lit_bytes(",\"dst_ip\":"@)) == Some(c7),
        p_str(s, c7) == Some((dip, c8)),
        p_lit(s, c8, lit_bytes(",\"src_port\":"@)) == Some(c9),
        p_port(s, c9) == Some((sport, c10)),
        p_lit(s, c10, lit_bytes(",\"dst_port\":"@)) == Some(c11),
        p_port(s, c11) == Some((dport, c12)),
        p_lit(s, c12, lit_bytes(",\"bytes\":"@)) is None,
    ensures
        p_traffic_body(s, i) is None,
{
    reveal(p_traffic_body);
}

proof fn lemma_traffic_body_stop13(s: Seq<u8>, i: int, c1: int, c2: int, ts: i64, c3: int, c4: int, proto: ProtocolV, c5: int, c6: int, sip: Seq<char>, c7: int, c8: int, dip: Seq<char>, c9: int, c10: int, sport: u16, c11: int, c12: int, dport: u16, c13: int)
    requires
        p_lit(s, i, lit_bytes(",\"timestamp\":"@)) == Some(c1),
        p_i64(s, c1) == Some((ts, c2)),
        p_lit(s, c2, lit_bytes(",\"protocol\":"@)) == Some(c3),
        p_protocol(s, c3) == Some((proto, c4)),
        p_lit(s, c4, lit_bytes(",\"src_ip\":"@)) == Some(c5),
        p_str(s, c5) == Some((sip, c6)),
        p_lit(s, c6, lit_bytes(",\"dst_ip\":"@)) == Some(c7),
        p_str(s, c7) == Some((dip, c8)),
        p_lit(s, c8, lit_bytes(",\"src_port\":"@)) == Some(c9),
        p_port(s, c9) == Some((sport, c10)),
        p_lit(s, c10, lit_bytes(",\"dst_port\":"@)) == Some(c11),
        p_port(s, c11) == Some((dport, c12)),
        p_lit(s, c12, lit_bytes(",\"bytes\":"@)) == Some(c13),
        p_u64(s, c13) is None,
    ensures
        p_traffic_body(s, i) is None,
{
    reveal(p_traffic_body);
}

proof fn lemma_traffic_body_stop14(s: Seq<u8>, i: int, c1: int, c2: int, ts: i64, c3: int, c4: int, proto: ProtocolV, c5: int, c6: int, sip: Seq<char>, c7: int, c8: int, dip: Seq<char>, c9: int, c10: int, sport: u16, c11: int, c12: int, dport: u16, c13: int, c14: int, bytes: u64)
    requires
        p_lit(s, i, lit_bytes(",\"timestamp\":"@)) == Some(c1),
        p_i64(s, c1) == Some((ts, c2)),
        p_lit(s, c2, lit_bytes(",\"protocol\":"@)) == Some(c3),
        p_protocol(s, c3) == Some((proto, c4)),
        p_lit(s, c4, lit_bytes(",\"src_ip\":"@)) == Some(c5),
        p_str(s, c5) == Some((sip, c6)),
        p_lit(s, c6, lit_bytes(",\"dst_ip\":"@)) == Some(c7),
        p_str(s, c7) == Some((dip, c8)),
        p_lit(s, c8, lit_bytes(",\"src_port\":"@)) == Some(c9),
        p_port(s, c9) == Some((sport, c10)),
        p_lit(s, c10, lit_bytes(",\"dst_port\":"@)) == Some(c11),
        p_port(s, c11) == Some((dport, c12)),
        p_lit(s, c12, lit_bytes(",\"bytes\":"@)) == Some(c13),
        p_u64(s, c13) == Some((bytes, c14)),
        p_lit(s, c14, lit_bytes(",\"packets\":"@)) is None,
    ensures
        p_traffic_body(s, i) is None,
{
    reveal(p_traffic_body);
}

proof fn lemma_traffic_body_stop15(s: Seq<u8>, i: int, c1: int, c2: int, ts: i64, c3: int, c4: int, proto: ProtocolV, c5: int, c6: int, sip: Seq<char>, c7: int, c8: int, dip: Seq<char>, c9: int, c10: int, sport: u16, c11: int, c12: int, dport: u16, c13: int, c14: int, bytes: u64, c15: int)
    requires
        p_lit(s, i, lit_bytes(",\"timestamp\":"@)) == Some(c1),
        p_i64(s, c1) == Some((ts, c2)),
        p_lit(s, c2, lit_bytes(",\"protocol\":"@)) == Some(c3),
        p_protocol(s, c3) == Some((proto, c4)),
        p_lit(s, c4, lit_bytes(",\"src_ip\":"@)) == Some(c5),
        p_str(s, c5) == Some((sip, c6)),
        p_lit(s, c6, lit_bytes(",\"dst_ip\":"@)) == Some(c7),
        p_str(s, c7) == Some((dip, c8)),
        p_lit(s, c8, lit_bytes(",\"src_port\":"@)) == Some(c9),
        p_port(s, c9) == Some((sport, c10)),
        p_lit(s, c10, lit_bytes(",\"dst_port\":"@)) == Some(c11),
        p_port(s, c11) == Some((dport, c12)),
        p_lit(s, c12, lit_bytes(",\"bytes\":"@)) == Some(c13),
        p_u64(s, c13) == Some((bytes, c14)),
        p_lit(s, c14, lit_bytes(",\"packets\":"@)) == Some(c15),
        p_u64(s, c15) is None,
    ensures
        p_traffic_body(s, i) is None,
{
    reveal(p_traffic_body);
}

proof fn lemma_traffic_body_stop16(s: Seq<u8>, i: int, c1: int, c2: int, ts: i64, c3: int, c4: int, proto: ProtocolV, c5: int, c6: int, sip: Seq<char>, c7: int, c8: int, dip: Seq<char>, c9: int, c10: int, sport: u16, c11: int, c12: int, dport: u16, c13: int, c14: int, bytes: u64, c15: int, c16: int, packets: u64)
    requires
        p_lit(s, i, lit_bytes(",\"timestamp\":"@)) == Some(c1),
        p_i64(s, c1) == Some((ts, c2)),
        p_lit(s, c2, lit_bytes(",\"protocol\":"@)) == Some(c3),
        p_protocol(s, c3) == Some((proto, c4)),
        p_lit(s, c4, lit_bytes(",\"src_ip\":"@)) == Some(c5),
        p_str(s, c5) == Some((sip, c6)),
        p_lit(s, c6, lit_bytes(",\"dst_ip\":"@)) == Some(c7),
        p_str(s, c7) == Some((dip, c8)),
        p_lit(s, c8, lit_bytes(",\"src_port\":"@)) == Some(c9),
        p_port(s, c9) == Some((sport, c10)),
        p_lit(s, c10, lit_bytes(",\"dst_port\":"@)) == Some(c11),
        p_port(s, c11) == Some((dport, c12)),
        p_lit(s, c12, lit_bytes(",\"bytes\":"@)) == Some(c13),
        p_u64(s, c13) == Some((bytes, c14)),
        p_lit(s, c14, lit_bytes(",\"packets\":"@)) == Some(c15),
        p_u64(s, c15) == Some((packets, c16)),
        p_lit(s, c16, lit_bytes(",\"metadata\":"@)) is None,
    ensures
        p_traffic_body(s, i) is None,
{
    reveal(p_traffic_body);
}

proof fn lemma_traffic_body_stop17(s: Seq<u8>, i: int, c1: int, c2: int, ts: i64, c3: int, c4: int, proto: ProtocolV, c5: int, c6: int, sip: Seq<char>, c7: int, c8: int, dip: Seq<char>, c9: int, c10: int, sport: u16, c11: int, c12: int, dport: u16, c13: int, c14: int, bytes: u64, c15: int, c16: int, packets: u64, c17: int)
    requires
        p_lit(s, i, lit_bytes(",\"timestamp\":"@)) == Some(c1),
        p_i64(s, c1) == Some((ts, c2)),
        p_lit(s, c2, lit_bytes(",\"protocol\":"@)) == Some(c3),
        p_protocol(s, c3) == Some((proto, c4)),
        p_lit(s, c4, lit_bytes(",\"src_ip\":"@)) == Some(c5),
        p_str(s, c5) == Some((sip, c6)),
        p_lit(s, c6, lit_bytes(",\"dst_ip\":"@)) == Some(c7),
        p_str(s, c7) == Some((dip, c8)),
        p_lit(s, c8, lit_bytes(",\"src_port\":"@)) == Some(c9),
        p_port(s, c9) == Some((sport, c10)),
        p_lit(s, c10, lit_bytes(",\"dst_port\":"@)) == Some(c11),
        p_port(s, c11) == Some((dport, c12)),
        p_lit(s, c12, lit_bytes(",\"bytes\":"@)) == Some(c13),
        p_u64(s, c13) == Some((bytes, c14)),
        p_lit(s, c14, lit_bytes(",\"packets\":"@)) == Some(c15),
        p_u64(s, c15) == Some((packets, c16)),
        p_lit(s, c16, lit_bytes(",\"metadata\":"@)) == Some(c17),
        p_pairs(s, c17) is None,
    ensures
        p_traffic_body(s, i) is None,
{
    reveal(p_traffic_body);
}

proof fn lemma_traffic_body_stop18(s: Seq<u8>, i: int, c1: int, c2: int, ts: i64, c3: int, c4: int, proto: ProtocolV, c5: int, c6: int, sip: Seq<char>, c7: int, c8: int, dip: Seq<char>, c9: int, c10: int, sport: u16, c11: int, c12: int, dport: u16, c13: int, c14: int, bytes: u64, c15: int, c16: int, packets: u64, c17: int, c18: int, meta: Seq<(Seq<char>, Seq<char>)>)
    requires
        p_lit(s, i, lit_bytes(",\"timestamp\":"@)) == Some(c1),
        p_i64(s, c1) == Some((ts, c2)),
        p_lit(s, c2, lit_bytes(",\"protocol\":"@)) == Some(c3),
        p_protocol(s, c3) == Some((proto, c4)),
        p_lit(s, c4, lit_bytes(",\"src_ip\":"@)) == Some(c5),
        p_str(s, c5) == Some((sip, c6)),
        p_lit(s, c6, lit_bytes(",\"dst_ip\":"@)) == Some(c7),
        p_str(s, c7) == Some((dip, c8)),
        p_lit(s, c8, lit_bytes(",\"src_port\":"@)) == Some(c9),
        p_port(s, c9) == Some((sport, c10)),
        p_lit(s, c10, lit_bytes(",\"dst_port\":"@)) == Some(c11),
        p_port(s, c11) == Some((dport, c12)),
        p_lit(s, c12, lit_bytes(",\"bytes\":"@)) == Some(c13),
        p_u64(s, c13) == Some((bytes, c14)),
        p_lit(s, c14, lit_bytes(",\"packets\":"@)) == Some(c15),
        p_u64(s, c15) == Some((packets, c16)),
        p_lit(s, c16, lit_bytes(",\"metadata\":"@)) == Some(c17),
        p_pairs(s, c17) == Some((meta, c18)),
        p_lit(s, c18, lit_bytes("}"@)) is None,
    ensures
        p_traffic_body(s, i) is None,
{
    reveal(p_traffic_body);
}

proof fn lemma_traffic_body_ok(s: Seq<u8>, i: int, c1: int, c2: int, ts: i64, c3: int, c4: int, proto: ProtocolV, c5: int, c6: int, sip: Seq<char>, c7: int, c8: int, dip: Seq<char>, c9: int, c10: int, sport: u16, c11: int, c12: int, dport: u16, c13: int, c14: int, bytes: u64, c15: int, c16: int, packets: u64, c17: int, c18: int, meta: Seq<(Seq<char>, Seq<char>)>, c19: int)
    requires
        p_lit(s, i, lit_bytes(",\"timestamp\":"@)) == Some(c1),
        p_i64(s, c1) == Some((ts, c2)),
        p_lit(s, c2, lit_bytes(",\"protocol\":"@)) == Some(c3),
        p_protocol(s, c3) == Some((proto, c4)),
        p_lit(s, c4, lit_bytes(",\"src_ip\":"@)) == Some(c5),
        p_str(s, c5) == Some((sip, c6)),
        p_lit(s, c6, lit_bytes(",\"dst_ip\":"@)) == Some(c7),
        p_str(s, c7) == Some((dip, c8)),
        p_lit(s, c8, lit_bytes(",\"src_port\":"@)) == Some(c9),
        p_port(s, c9) == Some((sport, c10)),
        p_lit(s, c10, lit_bytes(",\"dst_port\":"@)) == Some(c11),
        p_port(s, c11) == Some((dport, c12)),
        p_lit(s, c12, lit_bytes(",\"bytes\":"@)) == Some(c13),
        p_u64(s, c13) == Some((bytes, c14)),
        p_lit(s, c14, lit_bytes(",\"packets\":"@)) == Some(c15),
        p_u64(s, c15) == Some((packets, c16)),
        p_lit(s, c16, lit_bytes(",\"metadata\":"@)) == Some(c17),
        p_pairs(s, c17) == Some((meta, c18)),
        p_lit(s, c18, lit_bytes("}"@)) == Some(c19),
    ensures
        p_traffic_body(s, i) == Some((EventV::Traffic(TrafficEventV { timestamp: ts, protocol: proto, src_ip: sip, dst_ip: dip, src_port: sport, dst_port: dport, bytes, packets, metadata: meta }), c19)),
{
    reveal(p_traffic_body);
}

fn parse_log_body(s: &Vec<u8>, i: usize) -> (r: Option<(Event, usize)>)
    requires
        i <= s@.len(),
    ensures
        match r {
            Some((e, j)) => p_log_body(s@, i as int) == Some((e.deep_view(), j as int)) && i < j
                <= s@.len(),
            None => p_log_body(s@, i as int) is None,
        },
{
    proof {
        reveal_strlit(",\"timestamp\":");
        reveal_strlit(",\"source\":");
        reveal_strlit(",\"level\":");
        reveal_strlit(",\"message\":");
        reveal_strlit(",\"fields\":");
        reveal_strlit(",\"tags\":");
        reveal_strlit("}");
    }
    let i1 = match parse_lit(s, i, ",\"timestamp\":") {
        Some(v) => v,
        None => {
            proof {
                lemma_log_body_stop0(s@, i as int);
            }
            return None;
        },
    };
    let (ts, i2) = match parse_i64(s, i1) {
        Some(v) => v,
        None => {
            proof {
                lemma_log_body_stop1(s@, i as int, i1 as int);
            }
            return None;
        },
    };
    let i3 = match parse_lit(s, i2, ",\"source\":") {
        Some(v) => v,
        None => {
            proof {
                lemma_log_body_stop2(s@, i as int, i1 as int, i2 as int, ts);
            }
            return None;
        },
    };
    let (source, i4) = match parse_string(s, i3) {
        Some(v) => v,
        None => {
            proof {
                lemma_log_body_stop3(s@, i as int, i1 as int, i2 as int, ts, i3 as int);
            }
            return None;
        },
    };
    let i5 = match parse_lit(s, i4, ",\"level\":") {
        Some(v) => v,
        None => {
            proof {
                lemma_log_body_stop4(s@, i as int, i1 as int, i2 as int, ts, i3 as int, i4 as int, source@);
            }
            return None;
        },
    };
    let (level, i6) = match parse_level(s, i5) {
        Some(v) => v,
        None => {
            proof {
                lemma_log_body_stop5(s@, i as int, i1 as int, i2 as int, ts, i3 as int, i4 as int, source@, i5 as int);
            }
            return None;
        },
    };
    let i7 = match parse_lit(s, i6, ",\"message\":") {
        Some(v) => v,
        None => {
            proof {
                lemma_log_body_stop6(s@, i as int, i1 as int, i2 as int, ts, i3 as int, i4 as int, source@, i5 as int, i6 as int, level);
            }
            return None;
        },
    };
    let (message, i8) = match parse_string(s, i7) {
        Some(v) => v,
        None => {
            proof {
                lemma_log_body_stop7(s@, i as int, i1 as int, i2 as int, ts, i3 as int, i4 as int, source@, i5 as int, i6 as int, level, i7 as int);
            }
            return None;
        },
    };
    let i9 = match parse_lit(s, i8, ",\"fields\":") {
        Some(v) => v,
        None => {
            proof {
                lemma_log_body_stop8(s@, i as int, i1 as int, i2 as int, ts, i3 as int, i4 as int, source@, i5 as int, i6 as int, level, i7 as int, i8 as int, message@);
            }
            return None;
        },
    };
    let (fields, i10) = match parse_pairs(s, i9) {
        Some(v) => v,
        None => {
            proof {
                lemma_log_body_stop9(s@, i as int, i1 as int, i2 as int, ts, i3 as int, i4 as int, source@, i5 as int, i6 as int, level, i7 as int, i8 as int, message@, i9 as int);
            }
            return None;
        },
    };
    let i11 = match parse_lit(s, i10, ",\"tags\":") {
        Some(v) => v,
        None => {
            proof {
                lemma_log_body_stop10(s@, i as int, i1 as int, i2 as int, ts, i3 as int, i4 as int, source@, i5 as int, i6 as int, level, i7 as int, i8 as int, message@, i9 as int, i10 as int, fields.deep_view());
            }
            return None;
        },
    };
    let (tags, i12) = match parse_strs(s, i11) {
        Some(v) => v,
        None => {
            proof {
                lemma_log_body_stop11(s@, i as int, i1 as int, i2 as int, ts, i3 as int, i4 as int, source@, i5 as int, i6 as int, level, i7 as int, i8 as int, message@, i9 as int, i10 as int, fields.deep_view(), i11 as int);
            }
            return None;
        },
    };
    let i13 = match parse_lit(s, i12, "}") {
        Some(v) => v,
        None => {
            proof {
                lemma_log_body_stop12(s@, i as int, i1 as int, i2 as int, ts, i3 as int, i4 as int, source@, i5 as int, i6 as int, level, i7 as int, i8 as int, message@, i9 as int, i10 as int, fields.deep_view(), i11 as int, i12 as int, tags.deep_view());
            }
            return None;
        },
    };
    proof {
        lemma_log_body_ok(s@, i as int, i1 as int, i2 as int, ts, i3 as int, i4 as int, source@, i5 as int, i6 as int, level, i7 as int, i8 as int, message@, i9 as int, i10 as int, fields.deep_view(), i11 as int, i12 as int, tags.deep_view(), i13 as int);
    }
    let e = Event::Log(
        LogEvent { timestamp: ts, source, level, message, fields, tags },
    );
    Some((e, i13))
}

fn parse_metric_body(s: &Vec<u8>, i: usize) -> (r: Option<(Event, usize)>)
    requires
        i <= s@.len(),
    ensures
        match r {
            Some((e, j)) => p_metric_body(s@, i as int) == Some((e.deep_view(), j as int)) && i < j
                <= s@.len(),
            None => p_metric_body(s@, i as int) is None,
        },
{
    proof {
        reveal_strlit(",\"timestamp\":");
        reveal_strlit(",\"name\":");
        reveal_strlit(",\"value\":");
        reveal_strlit(",\"metric_type\":");
        reveal_strlit(",\"tags\":");
        reveal_strlit(",\"unit\":");
        reveal_strlit("}");
    }
    let i1 = match parse_lit(s, i, ",\"timestamp\":") {
        Some(v) => v,
        None => {
            proof {
                lemma_metric_body_stop0(s@, i as int);
            }
            return None;
        },
    };
    let (ts, i2) = match parse_i64(s, i1) {
        Some(v) => v,
        None => {
            proof {
                lemma_metric_body_stop1(s@, i as int, i1 as int);
            }
            return None;
        },
    };
    let i3 = match parse_lit(s, i2, ",\"name\":") {
        Some(v) => v,
        None => {
            proof {
                lemma_metric_body_stop2(s@, i as int, i1 as int, i2 as int, ts);
            }
            return None;
        },
    };
    let (name, i4) = match parse_string(s, i3) {
        Some(v) => v,
        None => {
            proof {
                lemma_metric_body_stop3(s@, i as int, i1 as int, i2 as int, ts, i3 as int);
            }
            return None;
        },
    };
    let i5 = match parse_lit(s, i4, ",\"value\":") {
        Some(v) => v,
        None => {
            proof {
                lemma_metric_body_stop4(s@, i as int, i1 as int, i2 as int, ts, i3 as int, i4 as int, name@);
            }
            return None;
        },
    };
    let (value, i6) = match parse_number(s, i5) {
        Some(v) => v,
        None => {
            proof {
                lemma_metric_body_stop5(s@, i as int, i1 as int, i2 as int, ts, i3 as int, i4 as int, name@, i5 as int);
            }
            return None;
        },
    };
    let i7 = match parse_lit(s, i6, ",\"metric_type\":") {
        Some(v) => v,
        None => {
            proof {
                lemma_metric_body_stop6(s@, i as int, i1 as int, i2 as int, ts, i3 as int, i4 as int, name@, i5 as int, i6 as int, value@);
            }
            return None;
        },
    };
    let (mt, i8) = match parse_mtype(s, i7) {
        Some(v) => v,
        None => {
            proof {
                lemma_metric_body_stop7(s@, i as int, i1 as int, i2 as int, ts, i3 as int, i4 as int, name@, i5 as int, i6 as int, value@, i7 as int);
            }
            return None;
        },
    };
    let i9 = match parse_lit(s, i8, ",\"tags\":") {
        Some(v) => v,
        None => {
            proof {
                lemma_metric_body_stop8(s@, i as int, i1 as int, i2 as int, ts, i3 as int, i4 as int, name@, i5 as int, i6 as int, value@, i7 as int, i8 as int, mt);
            }
            return None;
        },
    };
    let (tags, i10) = match parse_pairs(s, i9) {
        Some(v) => v,
        None => {
            proof {
                lemma_metric_body_stop9(s@, i as int, i1 as int, i2 as int, ts, i3 as int, i4 as int, name@, i5 as int, i6 as int, value@, i7 as int, i8 as int, mt, i9 as int);
            }
            return None;
        },
    };
    let i11 = match parse_lit(s, i10, ",\"unit\":") {
        Some(v) => v,
        None => {
            proof {
                lemma_metric_body_stop10(s@, i as int, i1 as int, i2 as int, ts, i3 as int, i4 as int, name@, i5 as int, i6 as int, value@, i7 as int, i8 as int, mt, i9 as int, i10 as int, tags.deep_view());
            }
            return None;
        },
    };
    let (unit, i12) = match parse_opt_str(s, i11) {
        Some(v) => v,
        None => {
            proof {
                lemma_metric_body_stop11(s@, i as int, i1 as int, i2 as int, ts, i3 as int, i4 as int, name@, i5 as int, i6 as int, value@, i7 as int, i8 as int, mt, i9 as int, i10 as int, tags.deep_view(), i11 as int);
            }
            return None;
        },
    };
    let i13 = match parse_lit(s, i12, "}") {
        Some(v) => v,
        None => {
            proof {
                lemma_metric_body_stop12(s@, i as int, i1 as int, i2 as int, ts, i3 as int, i4 as int, name@, i5 as int, i6 as int, value@, i7 as int, i8 as int, mt, i9 as int, i10 as int, tags.deep_view(), i11 as int, i12 as int, unit.deep_view());
            }
            return None;
        },
    };
    proof {
        lemma_metric_body_ok(s@, i as int, i1 as int, i2 as int, ts, i3 as int, i4 as int, name@, i5 as int, i6 as int, value@, i7 as int, i8 as int, mt, i9 as int, i10 as int, tags.deep_view(), i11 as int, i12 as int, unit.deep_view(), i13 as int);
    }
    let e = Event::Metric(
        MetricEvent { timestamp: ts, name, value, metric_type: mt, tags, unit },
    );
    Some((e, i13))
}

fn parse_traffic_body(s: &Vec<u8>, i: usize) -> (r: Option<(Event, usize)>)
    requires
        i <= s@.len(),
    ensures
        match r {
            Some((e, j)) => p_traffic_body(s@, i as int) == Some((e.deep_view(), j as int)) && i < j
                <= s@.len(),
            None => p_traffic_body(s@, i as int) is None,
        },
{
    proof {
        reveal_strlit(",\"timestamp\":");
        reveal_strlit(",\"protocol\":");
        reveal_strlit(",\"src_ip\":");
        reveal_strlit(",\"dst_ip\":");
        reveal_strlit(",\"src_port\":");
        reveal_strlit(",\"dst_port\":");
        reveal_strlit(",\"bytes\":");
        reveal_strlit(",\"packets\":");
        reveal_strlit(",\"metadata\":");
        reveal_strlit("}");
    }
    let i1 = match parse_lit(s, i, ",\"timestamp\":") {
        Some(v) => v,
        None => {
            proof {
                lemma_traffic_body_stop0(s@, i as int);
            }
            return None;
        },
    };
    let (ts, i2) = match parse_i64(s, i1) {
        Some(v) => v,
        None => {
            proof {
                lemma_traffic_body_stop1(s@, i as int, i1 as int);
            }
            return None;
        },
    };
    let i3 = match parse_lit(s, i2, ",\"protocol\":") {
        Some(v) => v,
        None => {
            proof {
                lemma_traffic_body_stop2(s@, i as int, i1 as int, i2 as int, ts);
            }
            return None;
        },
    };
    let (proto, i4) = match parse_protocol(s, i3) {
        Some(v) => v,
        None => {
            proof {
                lemma_traffic_body_stop3(s@, i as int, i1 as int, i2 as int, ts, i3 as int);
            }
            return None;
        },
    };
    let i5 = match parse_lit(s, i4, ",\"src_ip\":") {
        Some(v) => v,
        None => {
            proof {
                lemma_traffic_body_stop4(s@, i as int, i1 as int, i2 as int, ts, i3 as int, i4 as int, proto.deep_view());
            }
            return None;
        },
    };
    let (sip, i6) = match parse_string(s, i5) {
        Some(v) => v,
        None => {
            proof {
                lemma_traffic_body_stop5(s@, i as int, i1 as int, i2 as int, ts, i3 as int, i4 as int, proto.deep_view(), i5 as int);
            }
            return None;
        },
    };
    let i7 = match parse_lit(s, i6, ",\"dst_ip\":") {
        Some(v) => v,
        None => {
            proof {
                lemma_traffic_body_stop6(s@, i as int, i1 as int, i2 as int, ts, i3 as int, i4 as int, proto.deep_view(), i5 as int, i6 as int, sip@);
            }
            return None;
        },
    };
    let (dip, i8) = match parse_string(s, i7) {
        Some(v) => v,
        None => {
            proof {
                lemma_traffic_body_stop7(s@, i as int, i1 as int, i2 as int, ts, i3 as int, i4 as int, proto.deep_view(), i5 as int, i6 as int, sip@, i7 as int);
            }
            return None;
        },
    };
    let i9 = match parse_lit(s, i8, ",\"src_port\":") {
        Some(v) => v,
        None => {
            proof {
                lemma_traffic_body_stop8(s@, i as int, i1 as int, i2 as int, ts, i3 as int, i4 as int, proto.deep_view(), i5 as int, i6 as int, sip@, i7 as int, i8 as int, dip@);
            }
            return None;
        },
    };
    let (sport, i10) = match parse_port(s, i9) {
        Some(v) => v,
        None => {
            proof {
                lemma_traffic_body_stop9(s@, i as int, i1 as int, i2 as int, ts, i3 as int, i4 as int, proto.deep_view(), i5 as int, i6 as int, sip@, i7 as int, i8 as int, dip@, i9 as int);
            }
            return None;
        },
    };
    let i11 = match parse_lit(s, i10, ",\"dst_port\":") {
        Some(v) => v,
        None => {
            proof {
                lemma_traffic_body_stop10(s@, i as int, i1 as int, i2 as int, ts, i3 as int, i4 as int, proto.deep_view(), i5 as int, i6 as int, sip@, i7 as int, i8 as int, dip@, i9 as int, i10 as int, sport);
            }
            return None;
        },
    };
    let (dport, i12) = match parse_port(s, i11) {
        Some(v) => v,
        None => {
            proof {
                lemma_traffic_body_stop11(s@, i as int, i1 as int, i2 as int, ts, i3 as int, i4 as int, proto.deep_view(), i5 as int, i6 as int, sip@, i7 as int, i8 as int, dip@, i9 as int, i10 as int, sport, i11 as int);
            }
            return None;
        },
    };
    let i13 = match parse_lit(s, i12, ",\"bytes\":") {
        Some(v) => v,
        None => {
            proof {
                lemma_traffic_body_stop12(s@, i as int, i1 as int, i2 as int, ts, i3 as int, i4 as int, proto.deep_view(), i5 as int, i6 as int, sip@, i7 as int, i8 as int, dip@, i9 as int, i10 as int, sport, i11 as int, i12 as int, dport);
            }
            return None;
        },
    };
    let (bytes, i14) = match parse_u64(s, i13) {
        Some(v) => v,
        None => {
            proof {
                lemma_traffic_body_stop13(s@, i as int, i1 as int, i2 as int, ts, i3 as int, i4 as int, proto.deep_view(), i5 as int, i6 as int, sip@, i7 as int, i8 as int, dip@, i9 as int, i10 as int, sport, i11 as int, i12 as int, dport, i13 as int);
            }
            return None;
        },
    };
    let i15 = match parse_lit(s, i14, ",\"packets\":") {
        Some(v) => v,
        None => {
            proof {
                lemma_traffic_body_stop14(s@, i as int, i1 as int, i2 as int, ts, i3 as int, i4 as int, proto.deep_view(), i5 as int, i6 as int, sip@, i7 as int, i8 as int, dip@, i9 as int, i10 as int, sport, i11 as int, i12 as int, dport, i13 as int, i14 as int, bytes);
            }
            return None;
        },
    };
    let (packets, i16) = match parse_u64(s, i15) {
        Some(v) => v,
        None => {
            proof {
                lemma_traffic_body_stop15(s@, i as int, i1 as int, i2 as int, ts, i3 as int, i4 as int, proto.deep_view(), i5 as int, i6 as int, sip@, i7 as int, i8 as int, dip@, i9 as int, i10 as int, sport, i11 as int, i12 as int, dport, i13 as int, i14 as int, bytes, i15 as int);
            }
            return None;
        },
    };
    let i17 = match parse_lit(s, i16, ",\"metadata\":") {
        Some(v) => v,
        None => {
            proof {
                lemma_traffic_body_stop16(s@, i as int, i1 as int, i2 as int, ts, i3 as int, i4 as int, proto.deep_view(), i5 as int, i6 as int, sip@, i7 as int, i8 as int, dip@, i9 as int, i10 as int, sport, i11 as int, i12 as int, dport, i13 as int, i14 as int, bytes, i15 as int, i16 as int, packets);
            }
            return None;
        },
    };
    let (meta, i18) = match parse_pairs(s, i17) {
        Some(v) => v,
        None => {
            proof {
                lemma_traffic_body_stop17(s@, i as int, i1 as int, i2 as int, ts, i3 as int, i4 as int, proto.deep_view(), i5 as int, i6 as int, sip@, i7 as int, i8 as int, dip@, i9 as int, i10 as int, sport, i11 as int, i12 as int, dport, i13 as int, i14 as int, bytes, i15 as int, i16 as int, packets, i17 as int);
            }
            return None;
        },
    };
    let i19 = match parse_lit(s, i18, "}") {
        Some(v) => v,
        None => {
            proof {
                lemma_traffic_body_stop18(s@, i as int, i1 as int, i2 as int, ts, i3 as int, i4 as int, proto.deep_view(), i5 as int, i6 as int, sip@, i7 as int, i8 as int, dip@, i9 as int, i10 as int, sport, i11 as int, i12 as int, dport, i13 as int, i14 as int, bytes, i15 as int, i16 as int, packets, i17 as int, i18 as int, meta.deep_view());
            }
            return None;
        },
    };
    proof {
        lemma_traffic_body_ok(s@, i as int, i1 as int, i2 as int, ts, i3 as int, i4 as int, proto.deep_view(), i5 as int, i6 as int, sip@, i7 as int, i8 as int, dip@, i9 as int, i10 as int, sport, i11 as int, i12 as int, dport, i13 as int, i14 as int, bytes, i15 as int, i16 as int, packets, i17 as int, i18 as int, meta.deep_view(), i19 as int);
    }
    let e = Event::Traffic(
        TrafficEvent {
            timestamp: ts,
            protocol: proto,
            src_ip: sip,
            dst_ip: dip,
            src_port: sport,
            dst_port: dport,
            bytes,
            packets,
            metadata: meta,
        },
    );
    Some((e, i19))
}

fn parse_port(s: &Vec<u8>, i: usize) -> (r: Option<(u16, usize)>)
    requires
        i <= s@.len(),
    ensures
        match r {
            Some((p, j)) => p_port(s@, i as int) == Some((p, j as int)) && i <= j <= s@.len(),
            None => p_port(s@, i as int) is None,
        },
{
    match parse_u64(s, i) {
        Some((v, j)) => {
            if v <= 65535 {
                Some((v as u16, j))
            } else {
                None
            }
        },
        None => None,
    }
}

/// Parses one encoded event at `i`.
pub fn parse_event(s: &Vec<u8>, i: usize) -> (r: Option<(Event, usize)>)
    requires
        i <= s@.len(),
    ensures
        match r {
            Some((e, j)) => p_event(s@, i as int) == Some((e.deep_view(), j as int)) && i < j
                <= s@.len(),
            None => p_event(s@, i as int) is None,
        },
{
    proof {
        reveal(p_event);
        reveal_strlit("{\"type\":");
        reveal_strlit("log");
        reveal_strlit("metric");
        reveal_strlit("traffic");
    }
    let i1 = match parse_lit(s, i, "{\"type\":") {
        Some(v) => v,
        None => {
            return None;
        },
    };
    let (tag, i2) = match parse_string(s, i1) {
        Some(v) => v,
        None => {
            return None;
        },
    };
    if str_eq_str(tag.as_str(), "log") {
        parse_log_body(s, i2)
    } else if str_eq_str(tag.as_str(), "metric") {
        parse_metric_body(s, i2)
    } else if str_eq_str(tag.as_str(), "traffic") {
        parse_traffic_body(s, i2)
    } else {
        None
    }
}

/// Parses a whole event array at `i`.
pub fn parse_events(s: &Vec<u8>, i: usize) -> (r: Option<(Vec<Event>, usize)>)
    requires
        i <= s@.len(),
    ensures
        match r {
            Some((v, j)) => p_events(s@, i as int) == Some((v.deep_view(), j as int)) && i < j
                <= s@.len(),
            None => p_events(s@, i as int) is None,
        },
{
    if !(i < s.len() && s[i] == 0x5B) {
        return None;
    }
    if i + 1 < s.len() && s[i + 1] == 0x5D {
        let v: Vec<Event> = Vec::new();
        assert(v.deep_view() =~= Seq::<EventV>::empty());
        return Some((v, i + 2));
    }
    match parse_event(s, i + 1) {
        None => None,
        Some((e0, j)) => {
            let mut acc: Vec<Event> = Vec::new();
            let ghost e0v = e0.deep_view();
            acc.push(e0);
            assert(acc.deep_view() =~= seq![e0v]);
            let mut pos = j;
            loop
                invariant
                    i < pos <= s@.len(),
                    s@.len() <= usize::MAX,
                    p_events(s@, i as int) == (match p_events_rest(s@, pos as int) {
                        Some((t, k)) => Some((acc.deep_view() + t, k)),
                        None => None::<(Seq<EventV>, int)>,
                    }),
                decreases s@.len() - pos,
            {
                if pos >= s.len() {
                    return None;
                }
                if s[pos] == 0x5D {
                    assert(acc.deep_view() + Seq::<EventV>::empty() =~= acc.deep_view());
                    return Some((acc, pos + 1));
                }
                if s[pos] != 0x2C {
                    return None;
                }
                match parse_event(s, pos + 1) {
                    None => {
                        return None;
                    },
                    Some((e2, j2)) => {
                        let ghost accv = acc.deep_view();
                        let ghost e2v = e2.deep_view();
                        acc.push(e2);
                        proof {
                            assert(acc.deep_view() =~= accv.push(e2v));
                            if let Some((t, k)) = p_events_rest(s@, j2 as int) {
                                assert(accv + (seq![e2v] + t) =~= acc.deep_view() + t);
                            }
                        }
                        pos = j2;
                    },
                }
            }
        },
    }
}

/// Parses a buffer that must hold exactly one event array.
pub fn parse_events_exact(s: &Vec<u8>) -> (r: Option<Vec<Event>>)
    ensures
        match r {
            Some(v) => p_events_exact(s@) == Some(v.deep_view()),
            None => p_events_exact(s@) is None,
        },
{
    match parse_events(s, 0) {
        Some((v, j)) => {
            if j == s.len() {
                Some(v)
            } else {
                None
            }
        },
        None => None,
    }
}


} // verus!
