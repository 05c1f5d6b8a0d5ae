//! The wire forms of the batch envelope and the collector's reply.
//!
//! Each frame on the stream is the canonical JSON of one `Batch` (agent to
//! collector) or one `IngestResponse` (collector to agent). As in `codec`,
//! encoders and parsers exist at spec and exec level, and lemmas show that
//! parsing inverts emission.

use vstd::prelude::*;

use crate::codec::{
    enc_bytes, enc_compression, enc_opt_str, enc_status, lemma_head_byte, lemma_p_bytes_enc,
    lemma_p_compression_enc, lemma_p_lit_enc, lemma_p_opt_str_enc, lemma_p_status_enc,
    lemma_split, p_bytes, p_compression, p_lit, p_opt_str, p_status, parse_bytes_arr,
    parse_compression, parse_lit, parse_opt_str, parse_status, push_bytes_arr, push_compression,
    push_opt_str, push_status,
};
use crate::events::{Batch, BatchV, CompressionType, IngestResponse, IngestResponseV, IngestStatus};
use crate::json::{
    dec_u64, enc_i64, enc_str, lemma_p_i64_enc, lemma_p_str_enc, lemma_p_u64_enc, lit_bytes,
    p_i64, p_str, p_u64, parse_i64, parse_string, parse_u64, push_i64, push_lit, push_quoted,
    push_u64,
};

verus! {

/// Reads an event count: a decimal number that fits the machine.
pub open spec fn p_count(s: Seq<u8>, i: int) -> Option<(usize, int)> {
    match p_u64(s, i) {
        Some((v, j)) => {
            if v <= usize::MAX as u64 {
                Some((v as usize, j))
            } else {
                None
            }
        },
        None => None,
    }
}

fn parse_count(s: &Vec<u8>, i: usize) -> (r: Option<(usize, usize)>)
    requires
        i <= s@.len(),
    ensures
        match r {
            Some((v, j)) => p_count(s@, i as int) == Some((v, j as int)) && i <= j <= s@.len(),
            None => p_count(s@, i as int) is None,
        },
{
    match parse_u64(s, i) {
        Some((v, j)) => {
            if v <= usize::MAX as u64 {
                Some((v as usize, j))
            } else {
                None
            }
        },
        None => None,
    }
}


/// One batch as a canonical JSON object with a fixed field order.
pub open spec fn enc_batch(b: BatchV) -> Seq<u8> {
    lit_bytes("{\"batch_id\":"@) + (enc_str(b.batch_id) + (lit_bytes(",\"agent_id\":"@) + (enc_str(b.agent_id) + (lit_bytes(",\"hostname\":"@) + (enc_str(b.hostname) + (lit_bytes(",\"timestamp\":"@) + (enc_i64(b.timestamp as int) + (lit_bytes(",\"event_count\":"@) + (dec_u64(b.event_count as nat) + (lit_bytes(",\"compression\":"@) + (enc_compression(b.compression) + (lit_bytes(",\"compressed_data\":"@) + (enc_bytes(b.compressed_data) + (lit_bytes(",\"checksum\":"@) + (enc_str(b.checksum) + (lit_bytes("}"@)))))))))))))))))
}


#[verifier::opaque]
pub open spec fn p_batch(s: Seq<u8>, i: int) -> Option<(BatchV, int)> {
    match p_lit(s, i, lit_bytes("{\"batch_id\":"@)) {
        Some(i1) => {
            match p_str(s, i1) {
                Some((batch_id, i2)) => {
                    match p_lit(s, i2, lit_bytes(",\"agent_id\":"@)) {
                        Some(i3) => {
                            match p_str(s, i3) {
                                Some((agent_id, i4)) => {
                                    match p_lit(s, i4, lit_bytes(",\"hostname\":"@)) {
                                        Some(i5) => {
                                            match p_str(s, i5) {
                                                Some((hostname, i6)) => {
                                                    match p_lit(s, i6, lit_bytes(",\"timestamp\":"@)) {
                                                        Some(i7) => {
                                                            match p_i64(s, i7) {
                                                                Some((timestamp, i8)) => {
                                                                    match p_lit(s, i8, lit_bytes(",\"event_count\":"@)) {
                                                                        Some(i9) => {
                                                                            match p_count(s, i9) {
                                                                                Some((event_count, i10)) => {
                                                                                    match p_lit(s, i10, lit_bytes(",\"compression\":"@)) {
                                                                                        Some(i11) => {
                                                                                            match p_compression(s, i11) {
                                                                                                Some((compression, i12)) => {
                                                                                                    match p_lit(s, i12, lit_bytes(",\"compressed_data\":"@)) {
                                                                                                        Some(i13) => {
                                                                                                            match p_bytes(s, i13) {
                                                                                                                Some((compressed_data, i14)) => {
                                                                                                                    match p_lit(s, i14, lit_bytes(",\"checksum\":"@)) {
                                                                                                                        Some(i15) => {
                                                                                                                            match p_str(s, i15) {
                                                                                                                                Some((checksum, i16)) => {
                                                                                                                                    match p_lit(s, i16, lit_bytes("}"@)) {
                                                                                                                                        Some(i17) => {
                                                                                                                                            Some((BatchV { batch_id, agent_id, hostname, timestamp, event_count, compression, compressed_data, checksum }, i17))
                                                                                                                                        },
                                                                                                                                        None => None,
                                                                                                                                    }
                                                                                                                                },
                                                                                                                                None => None,
                                                                                                                            }
                                                                                                                        },
                                                                                                                        None => None,
                                                                                                                    }
                                                                                                                },
                                                                                                                None => None,
                                                                                                            }
                                                                                                        },
                                                                                                        None => None,
                                                                                                    }
                                                                                                },
                                                                                                None => None,
                                                                                            }
                                                                                        },
                                                                                        None => None,
                                                                                    }
                                                                                },
                                                                                None => None,
                                                                            }
                                                                        },
                                                                        None => None,
                                                                    }
                                                                },
                                                                None => None,
                                                            }
                                                        },
                                                        None => None,
                                                    }
                                                },
                                                None => None,
                                            }
                                        },
                                        None => None,
                                    }
                                },
                                None => None,
                            }
                        },
                        None => None,
                    }
                },
                None => None,
            }
        },
        None => None,
    }
}


/// One response as a canonical JSON object with a fixed field order.
pub open spec fn enc_response(r: IngestResponseV) -> Seq<u8> {
    lit_bytes("{\"batch_id\":"@) + (enc_str(r.batch_id) + (lit_bytes(",\"status\":"@) + (enc_status(r.status) + (lit_bytes(",\"error_message\":"@) + (enc_opt_str(r.error_message) + (lit_bytes(",\"received_at\":"@) + (enc_i64(r.received_at as int) + (lit_bytes("}"@)))))))))
}


#[verifier::opaque]
pub open spec fn p_response(s: Seq<u8>, i: int) -> Option<(IngestResponseV, int)> {
    match p_lit(s, i, lit_bytes("{\"batch_id\":"@)) {
        Some(i1) => {
            match p_str(s, i1) {
                Some((batch_id, i2)) => {
                    match p_lit(s, i2, lit_bytes(",\"status\":"@)) {
                        Some(i3) => {
                            match p_status(s, i3) {
                                Some((status, i4)) => {
                                    match p_lit(s, i4, lit_bytes(",\"error_message\":"@)) {
                                        Some(i5) => {
                                            match p_opt_str(s, i5) {
                                                Some((error_message, i6)) => {
                                                    match p_lit(s, i6, lit_bytes(",\"received_at\":"@)) {
                                                        Some(i7) => {
                                                            match p_i64(s, i7) {
                                                                Some((received_at, i8)) => {
                                                                    match p_lit(s, i8, lit_bytes("}"@)) {
                                                                        Some(i9) => {
                                                                            Some((IngestResponseV { batch_id, status, error_message, received_at }, i9))
                                                                        },
                                                                        None => None,
                                                                    }
                                                                },
                                                                None => None,
                                                            }
                                                        },
                                                        None => None,
                                                    }
                                                },
                                                None => None,
                                            }
                                        },
                                        None => None,
                                    }
                                },
                                None => None,
                            }
                        },
                        None => None,
                    }
                },
                None => None,
            }
        },
        None => None,
    }
}


#[verifier::rlimit(100)]
pub proof fn lemma_p_batch_enc(s: Seq<u8>, i: int, bv: BatchV)
    requires
        0 <= i,
        i + enc_batch(bv).len() <= s.len(),
        s.subrange(i, i + enc_batch(bv).len() as int) == enc_batch(bv),
    ensures
        p_batch(s, i) == Some((bv, i + enc_batch(bv).len() as int)),
{
    reveal(p_batch);
    reveal_strlit(",\"agent_id\":");
    reveal_strlit(",\"checksum\":");
    reveal_strlit(",\"compressed_data\":");
    reveal_strlit(",\"compression\":");
    reveal_strlit(",\"event_count\":");
    reveal_strlit(",\"hostname\":");
    reveal_strlit(",\"timestamp\":");
    reveal_strlit("{\"batch_id\":");
    reveal_strlit("}");
    let e = enc_batch(bv);
    let bnd = i + e.len() as int;
    assert(s.subrange(i, bnd) == e);
    // piece 0: lit
    let p0 = lit_bytes("{\"batch_id\":"@);
    let r0 = enc_str(bv.batch_id) + (lit_bytes(",\"agent_id\":"@) + (enc_str(bv.agent_id) + (lit_bytes(",\"hostname\":"@) + (enc_str(bv.hostname) + (lit_bytes(",\"timestamp\":"@) + (enc_i64(bv.timestamp as int) + (lit_bytes(",\"event_count\":"@) + (dec_u64(bv.event_count as nat) + (lit_bytes(",\"compression\":"@) + (enc_compression(bv.compression) + (lit_bytes(",\"compressed_data\":"@) + (enc_bytes(bv.compressed_data) + (lit_bytes(",\"checksum\":"@) + (enc_str(bv.checksum) + (lit_bytes("}"@))))))))))))))));
    assert(s.subrange(i, bnd) == p0 + r0);
    lemma_split(s, i, bnd, p0, r0);
    let c0 = i + p0.len() as int;
    lemma_p_lit_enc(s, i, p0);
    // piece 1: str
    let p1 = enc_str(bv.batch_id);
    let r1 = lit_bytes(",\"agent_id\":"@) + (enc_str(bv.agent_id) + (lit_bytes(",\"hostname\":"@) + (enc_str(bv.hostname) + (lit_bytes(",\"timestamp\":"@) + (enc_i64(bv.timestamp as int) + (lit_bytes(",\"event_count\":"@) + (dec_u64(bv.event_count as nat) + (lit_bytes(",\"compression\":"@) + (enc_compression(bv.compression) + (lit_bytes(",\"compressed_data\":"@) + (enc_bytes(bv.compressed_data) + (lit_bytes(",\"checksum\":"@) + (enc_str(bv.checksum) + (lit_bytes("}"@)))))))))))))));
    assert(s.subrange(c0, bnd) == p1 + r1);
    lemma_split(s, c0, bnd, p1, r1);
    let c1 = c0 + p1.len() as int;
    lemma_p_str_enc(s, c0, bv.batch_id);
    // piece 2: lit
    let p2 = lit_bytes(",\"agent_id\":"@);
    let r2 = enc_str(bv.agent_id) + (lit_bytes(",\"hostname\":"@) + (enc_str(bv.hostname) + (lit_bytes(",\"timestamp\":"@) + (enc_i64(bv.timestamp as int) + (lit_bytes(",\"event_count\":"@) + (dec_u64(bv.event_count as nat) + (lit_bytes(",\"compression\":"@) + (enc_compression(bv.compression) + (lit_bytes(",\"compressed_data\":"@) + (enc_bytes(bv.compressed_data) + (lit_bytes(",\"checksum\":"@) + (enc_str(bv.checksum) + (lit_bytes("}"@))))))))))))));
    assert(s.subrange(c1, bnd) == p2 + r2);
    lemma_split(s, c1, bnd, p2, r2);
    let c2 = c1 + p2.len() as int;
    lemma_p_lit_enc(s, c1, p2);
    // piece 3: str
    let p3 = enc_str(bv.agent_id);
    let r3 = lit_bytes(",\"hostname\":"@) + (enc_str(bv.hostname) + (lit_bytes(",\"timestamp\":"@) + (enc_i64(bv.timestamp as int) + (lit_bytes(",\"event_count\":"@) + (dec_u64(bv.event_count as nat) + (lit_bytes(",\"compression\":"@) + (enc_compression(bv.compression) + (lit_bytes(",\"compressed_data\":"@) + (enc_bytes(bv.compressed_data) + (lit_bytes(",\"checksum\":"@) + (enc_str(bv.checksum) + (lit_bytes("}"@)))))))))))));
    assert(s.subrange(c2, bnd) == p3 + r3);
    lemma_split(s, c2, bnd, p3, r3);
    let c3 = c2 + p3.len() as int;
    lemma_p_str_enc(s, c2, bv.agent_id);
    // piece 4: lit
    let p4 = lit_bytes(",\"hostname\":"@);
    let r4 = enc_str(bv.hostname) + (lit_bytes(",\"timestamp\":"@) + (enc_i64(bv.timestamp as int) + (lit_bytes(",\"event_count\":"@) + (dec_u64(bv.event_count as nat) + (lit_bytes(",\"compression\":"@) + (enc_compression(bv.compression) + (lit_bytes(",\"compressed_data\":"@) + (enc_bytes(bv.compressed_data) + (lit_bytes(",\"checksum\":"@) + (enc_str(bv.checksum) + (lit_bytes("}"@))))))))))));
    assert(s.subrange(c3, bnd) == p4 + r4);
    lemma_split(s, c3, bnd, p4, r4);
    let c4 = c3 + p4.len() as int;
    lemma_p_lit_enc(s, c3, p4);
    // piece 5: str
    let p5 = enc_str(bv.hostname);
    let r5 = lit_bytes(",\"timestamp\":"@) + (enc_i64(bv.timestamp as int) + (lit_bytes(",\"event_count\":"@) + (dec_u64(bv.event_count as nat) + (lit_bytes(",\"compression\":"@) + (enc_compression(bv.compression) + (lit_bytes(",\"compressed_data\":"@) + (enc_bytes(bv.compressed_data) + (lit_bytes(",\"checksum\":"@) + (enc_str(bv.checksum) + (lit_bytes("}"@)))))))))));
    assert(s.subrange(c4, bnd) == p5 + r5);
    lemma_split(s, c4, bnd, p5, r5);
    let c5 = c4 + p5.len() as int;
    lemma_p_str_enc(s, c4, bv.hostname);
    // piece 6: lit
    let p6 = lit_bytes(",\"timestamp\":"@);
    let r6 = enc_i64(bv.timestamp as int) + (lit_bytes(",\"event_count\":"@) + (dec_u64(bv.event_count as nat) + (lit_bytes(",\"compression\":"@) + (enc_compression(bv.compression) + (lit_bytes(",\"compressed_data\":"@) + (enc_bytes(bv.compressed_data) + (lit_bytes(",\"checksum\":"@) + (enc_str(bv.checksum) + (lit_bytes("}"@))))))))));
    assert(s.subrange(c5, bnd) == p6 + r6);
    lemma_split(s, c5, bnd, p6, r6);
    let c6 = c5 + p6.len() as int;
    lemma_p_lit_enc(s, c5, p6);
    // piece 7: i64
    let p7 = enc_i64(bv.timestamp as int);
    let r7 = lit_bytes(",\"event_count\":"@) + (dec_u64(bv.event_count as nat) + (lit_bytes(",\"compression\":"@) + (enc_compression(bv.compression) + (lit_bytes(",\"compressed_data\":"@) + (enc_bytes(bv.compressed_data) + (lit_bytes(",\"checksum\":"@) + (enc_str(bv.checksum) + (lit_bytes("}"@)))))))));
    assert(s.subrange(c6, bnd) == p7 + r7);
    lemma_split(s, c6, bnd, p7, r7);
    let c7 = c6 + p7.len() as int;
    assert(s.subrange(c7, bnd) == r7);
    assert(r7 == lit_bytes(",\"event_count\":"@) + (dec_u64(bv.event_count as nat) + (lit_bytes(",\"compression\":"@) + (enc_compression(bv.compression) + (lit_bytes(",\"compressed_data\":"@) + (enc_bytes(bv.compressed_data) + (lit_bytes(",\"checksum\":"@) + (enc_str(bv.checksum) + (lit_bytes("}"@)))))))))) by {
        assert(r7 =~= lit_bytes(",\"event_count\":"@) + (dec_u64(bv.event_count as nat) + (lit_bytes(",\"compression\":"@) + (enc_compression(bv.compression) + (lit_bytes(",\"compressed_data\":"@) + (enc_bytes(bv.compressed_data) + (lit_bytes(",\"checksum\":"@) + (enc_str(bv.checksum) + (lit_bytes("}"@))))))))));
    }
    lemma_head_byte(s, c7, bnd, lit_bytes(",\"event_count\":"@), dec_u64(bv.event_count as nat) + (lit_bytes(",\"compression\":"@) + (enc_compression(bv.compression) + (lit_bytes(",\"compressed_data\":"@) + (enc_bytes(bv.compressed_data) + (lit_bytes(",\"checksum\":"@) + (enc_str(bv.checksum) + (lit_bytes("}"@)))))))));
    assert(s[c7] == lit_bytes(",\"event_count\":"@)[0]);
    assert(",\"event_count\":"@[0] == ',');
    assert(s[c7] == 0x2C);
    lemma_p_i64_enc(s, c6, bv.timestamp);
    // piece 8: lit
    let p8 = lit_bytes(",\"event_count\":"@);
    let r8 = dec_u64(bv.event_count as nat) + (lit_bytes(",\"compression\":"@) + (enc_compression(bv.compression) + (lit_bytes(",\"compressed_data\":"@) + (enc_bytes(bv.compressed_data) + (lit_bytes(",\"checksum\":"@) + (enc_str(bv.checksum) + (lit_bytes("}"@))))))));
    assert(s.subrange(c7, bnd) == p8 + r8);
    lemma_split(s, c7, bnd, p8, r8);
    let c8 = c7 + p8.len() as int;
    lemma_p_lit_enc(s, c7, p8);
    // piece 9: count
    let p9 = dec_u64(bv.event_count as nat);
    let r9 = lit_bytes(",\"compression\":"@) + (enc_compression(bv.compression) + (lit_bytes(",\"compressed_data\":"@) + (enc_bytes(bv.compressed_data) + (lit_bytes(",\"checksum\":"@) + (enc_str(bv.checksum) + (lit_bytes("}"@)))))));
    assert(s.subrange(c8, bnd) == p9 + r9);
    lemma_split(s, c8, bnd, p9, r9);
    let c9 = c8 + p9.len() as int;
    assert(s.subrange(c9, bnd) == r9);
    assert(r9 == lit_bytes(",\"compression\":"@) + (enc_compression(bv.compression) + (lit_bytes(",\"compressed_data\":"@) + (enc_bytes(bv.compressed_data) + (lit_bytes(",\"checksum\":"@) + (enc_str(bv.checksum) + (lit_bytes("}"@)))))))) by {
        assert(r9 =~= lit_bytes(",\"compression\":"@) + (enc_compression(bv.compression) + (lit_bytes(",\"compressed_data\":"@) + (enc_bytes(bv.compressed_data) + (lit_bytes(",\"checksum\":"@) + (enc_str(bv.checksum) + (lit_bytes("}"@))))))));
    }
    lemma_head_byte(s, c9, bnd, lit_bytes(",\"compression\":"@), enc_compression(bv.compression) + (lit_bytes(",\"compressed_data\":"@) + (enc_bytes(bv.compressed_data) + (lit_bytes(",\"checksum\":"@) + (enc_str(bv.checksum) + (lit_bytes("}"@)))))));
    assert(s[c9] == lit_bytes(",\"compression\":"@)[0]);
    assert(",\"compression\":"@[0] == ',');
    assert(s[c9] == 0x2C);
    lemma_p_u64_enc(s, c8, bv.event_count as u64);
    assert((bv.event_count as u64) <= usize::MAX as u64);
    // piece 10: lit
    let p10 = lit_bytes(",\"compression\":"@);
    let r10 = enc_compression(bv.compression) + (lit_bytes(",\"compressed_data\":"@) + (enc_bytes(bv.compressed_data) + (lit_bytes(",\"checksum\":"@) + (enc_str(bv.checksum) + (lit_bytes("}"@))))));
    assert(s.subrange(c9, bnd) == p10 + r10);
    lemma_split(s, c9, bnd, p10, r10);
    let c10 = c9 + p10.len() as int;
    lemma_p_lit_enc(s, c9, p10);
    // piece 11: comp
    let p11 = enc_compression(bv.compression);
    let r11 = lit_bytes(",\"compressed_data\":"@) + (enc_bytes(bv.compressed_data) + (lit_bytes(",\"checksum\":"@) + (enc_str(bv.checksum) + (lit_bytes("}"@)))));
    assert(s.subrange(c10, bnd) == p11 + r11);
    lemma_split(s, c10, bnd, p11, r11);
    let c11 = c10 + p11.len() as int;
    lemma_p_compression_enc(s, c10, bv.compression);
    // piece 12: lit
    let p12 = lit_bytes(",\"compressed_data\":"@);
    let r12 = enc_bytes(bv.compressed_data) + (lit_bytes(",\"checksum\":"@) + (enc_str(bv.checksum) + (lit_bytes("}"@))));
    assert(s.subrange(c11, bnd) == p12 + r12);
    lemma_split(s, c11, bnd, p12, r12);
    let c12 = c11 + p12.len() as int;
    lemma_p_lit_enc(s, c11, p12);
    // piece 13: bytes
    let p13 = enc_bytes(bv.compressed_data);
    let r13 = lit_bytes(",\"checksum\":"@) + (enc_str(bv.checksum) + (lit_bytes("}"@)));
    assert(s.subrange(c12, bnd) == p13 + r13);
    lemma_split(s, c12, bnd, p13, r13);
    let c13 = c12 + p13.len() as int;
    lemma_p_bytes_enc(s, c12, bv.compressed_data);
    // piece 14: lit
    let p14 = lit_bytes(",\"checksum\":"@);
    let r14 = enc_str(bv.checksum) + (lit_bytes("}"@));
    assert(s.subrange(c13, bnd) == p14 + r14);
    lemma_split(s, c13, bnd, p14, r14);
    let c14 = c13 + p14.len() as int;
    lemma_p_lit_enc(s, c13, p14);
    // piece 15: str
    let p15 = enc_str(bv.checksum);
    let r15 = lit_bytes("}"@);
    assert(s.subrange(c14, bnd) == p15 + r15);
    lemma_split(s, c14, bnd, p15, r15);
    let c15 = c14 + p15.len() as int;
    lemma_p_str_enc(s, c14, bv.checksum);
    // piece 16: lit
    let p16 = lit_bytes("}"@);
    assert(s.subrange(c15, bnd) == p16 + Seq::<u8>::empty()) by {
        assert(p16 + Seq::<u8>::empty() =~= p16);
    }
    lemma_split(s, c15, bnd, p16, Seq::<u8>::empty());
    let c16 = c15 + p16.len() as int;
    lemma_p_lit_enc(s, c15, p16);
    assert(c16 == bnd);
}

#[verifier::rlimit(100)]
pub proof fn lemma_p_response_enc(s: Seq<u8>, i: int, r: IngestResponseV)
    requires
        0 <= i,
        i + enc_response(r).len() <= s.len(),
        s.subrange(i, i + enc_response(r).len() as int) == enc_response(r),
    ensures
        p_response(s, i) == Some((r, i + enc_response(r).len() as int)),
{
    reveal(p_response);
    reveal_strlit(",\"error_message\":");
    reveal_strlit(",\"received_at\":");
    reveal_strlit(",\"status\":");
    reveal_strlit("{\"batch_id\":");
    reveal_strlit("}");
    let e = enc_response(r);
    let b = i + e.len() as int;
    assert(s.subrange(i, b) == e);
    // piece 0: lit
    let p0 = lit_bytes("{\"batch_id\":"@);
    let r0 = enc_str(r.batch_id) + (lit_bytes(",\"status\":"@) + (enc_status(r.status) + (lit_bytes(",\"error_message\":"@) + (enc_opt_str(r.error_message) + (lit_bytes(",\"received_at\":"@) + (enc_i64(r.received_at as int) + (lit_bytes("}"@))))))));
    assert(s.subrange(i, b) == p0 + r0);
    lemma_split(s, i, b, p0, r0);
    let c0 = i + p0.len() as int;
    lemma_p_lit_enc(s, i, p0);
    // piece 1: str
    let p1 = enc_str(r.batch_id);
    let r1 = lit_bytes(",\"status\":"@) + (enc_status(r.status) + (lit_bytes(",\"error_message\":"@) + (enc_opt_str(r.error_message) + (lit_bytes(",\"received_at\":"@) + (enc_i64(r.received_at as int) + (lit_bytes("}"@)))))));
    assert(s.subrange(c0, b) == p1 + r1);
    lemma_split(s, c0, b, p1, r1);
    let c1 = c0 + p1.len() as int;
    lemma_p_str_enc(s, c0, r.batch_id);
    // piece 2: lit
    let p2 = lit_bytes(",\"status\":"@);
    let r2 = enc_status(r.status) + (lit_bytes(",\"error_message\":"@) + (enc_opt_str(r.error_message) + (lit_bytes(",\"received_at\":"@) + (enc_i64(r.received_at as int) + (lit_bytes("}"@))))));
    assert(s.subrange(c1, b) == p2 + r2);
    lemma_split(s, c1, b, p2, r2);
    let c2 = c1 + p2.len() as int;
    lemma_p_lit_enc(s, c1, p2);
    // piece 3: status
    let p3 = enc_status(r.status);
    let r3 = lit_bytes(",\"error_message\":"@) + (enc_opt_str(r.error_message) + (lit_bytes(",\"received_at\":"@) + (enc_i64(r.received_at as int) + (lit_bytes("}"@)))));
    assert(s.subrange(c2, b) == p3 + r3);
    lemma_split(s, c2, b, p3, r3);
    let c3 = c2 + p3.len() as int;
    lemma_p_status_enc(s, c2, r.status);
    // piece 4: lit
    let p4 = lit_bytes(",\"error_message\":"@);
    let r4 = enc_opt_str(r.error_message) + (lit_bytes(",\"received_at\":"@) + (enc_i64(r.received_at as int) + (lit_bytes("}"@))));
    assert(s.subrange(c3, b) == p4 + r4);
    lemma_split(s, c3, b, p4, r4);
    let c4 = c3 + p4.len() as int;
    lemma_p_lit_enc(s, c3, p4);
    // piece 5: optstr
    let p5 = enc_opt_str(r.error_message);
    let r5 = lit_bytes(",\"received_at\":"@) + (enc_i64(r.received_at as int) + (lit_bytes("}"@)));
    assert(s.subrange(c4, b) == p5 + r5);
    lemma_split(s, c4, b, p5, r5);
    let c5 = c4 + p5.len() as int;
    lemma_p_opt_str_enc(s, c4, r.error_message);
    // piece 6: lit
    let p6 = lit_bytes(",\"received_at\":"@);
    let r6 = enc_i64(r.received_at as int) + (lit_bytes("}"@));
    assert(s.subrange(c5, b) == p6 + r6);
    lemma_split(s, c5, b, p6, r6);
    let c6 = c5 + p6.len() as int;
    lemma_p_lit_enc(s, c5, p6);
    // piece 7: i64
    let p7 = enc_i64(r.received_at as int);
    let r7 = lit_bytes("}"@);
    assert(s.subrange(c6, b) == p7 + r7);
    lemma_split(s, c6, b, p7, r7);
    let c7 = c6 + p7.len() as int;
    assert(s.subrange(c7, b) == r7);
    assert(r7 == lit_bytes("}"@) + (Seq::<u8>::empty())) by {
        assert(r7 =~= lit_bytes("}"@) + (Seq::<u8>::empty()));
    }
    lemma_head_byte(s, c7, b, lit_bytes("}"@), Seq::<u8>::empty());
    assert(s[c7] == lit_bytes("}"@)[0]);
    assert("}"@[0] == '}');
    assert(s[c7] == 0x7D);
    lemma_p_i64_enc(s, c6, r.received_at);
    // piece 8: lit
    let p8 = lit_bytes("}"@);
    assert(s.subrange(c7, b) == p8 + Seq::<u8>::empty()) by {
        assert(p8 + Seq::<u8>::empty() =~= p8);
    }
    lemma_split(s, c7, b, p8, Seq::<u8>::empty());
    let c8 = c7 + p8.len() as int;
    lemma_p_lit_enc(s, c7, p8);
    assert(c8 == b);
}


proof fn lemma_batch_stop0(s: Seq<u8>, i: int)
    requires
        p_lit(s, i, lit_bytes("{\"batch_id\":"@)) is None,
    ensures
        p_batch(s, i) is None,
{
    reveal(p_batch);
}

proof fn lemma_batch_stop1(s: Seq<u8>, i: int, c1: int)
    requires
        p_lit(s, i, lit_bytes("{\"batch_id\":"@)) == Some(c1),
        p_str(s, c1) is None,
    ensures
        p_batch(s, i) is None,
{
    reveal(p_batch);
}

proof fn lemma_batch_stop2(s: Seq<u8>, i: int, c1: int, c2: int, batch_id: Seq<char>)
    requires
        p_lit(s, i, lit_bytes("{\"batch_id\":"@)) == Some(c1),
        p_str(s, c1) == Some((batch_id, c2)),
        p_lit(s, c2, lit_bytes(",\"agent_id\":"@)) is None,
    ensures
        p_batch(s, i) is None,
{
    reveal(p_batch);
}

proof fn lemma_batch_stop3(s: Seq<u8>, i: int, c1: int, c2: int, batch_id: Seq<char>, c3: int)
    requires
        p_lit(s, i, lit_bytes("{\"batch_id\":"@)) == Some(c1),
        p_str(s, c1) == Some((batch_id, c2)),
        p_lit(s, c2, lit_bytes(",\"agent_id\":"@)) == Some(c3),
        p_str(s, c3) is None,
    ensures
        p_batch(s, i) is None,
{
    reveal(p_batch);
}

proof fn lemma_batch_stop4(s: Seq<u8>, i: int, c1: int, c2: int, batch_id: Seq<char>, c3: int, c4: int, agent_id: Seq<char>)
    requires
        p_lit(s, i, lit_bytes("{\"batch_id\":"@)) == Some(c1),
        p_str(s, c1) == Some((batch_id, c2)),
        p_lit(s, c2, lit_bytes(",\"agent_id\":"@)) == Some(c3),
        p_str(s, c3) == Some((agent_id, c4)),
        p_lit(s, c4, lit_bytes(",\"hostname\":"@)) is None,
    ensures
        p_batch(s, i) is None,
{
    reveal(p_batch);
}

proof fn lemma_batch_stop5(s: Seq<u8>, i: int, c1: int, c2: int, batch_id: Seq<char>, c3: int, c4: int, agent_id: Seq<char>, c5: int)
    requires
        p_lit(s, i, lit_bytes("{\"batch_id\":"@)) == Some(c1),
        p_str(s, c1) == Some((batch_id, c2)),
        p_lit(s, c2, lit_bytes(",\"agent_id\":"@)) == Some(c3),
        p_str(s, c3) == Some((agent_id, c4)),
        p_lit(s, c4, lit_bytes(",\"hostname\":"@)) == Some(c5),
        p_str(s, c5) is None,
    ensures
        p_batch(s, i) is None,
{
    reveal(p_batch);
}

proof fn lemma_batch_stop6(s: Seq<u8>, i: int, c1: int, c2: int, batch_id: Seq<char>, c3: int, c4: int, agent_id: Seq<char>, c5: int, c6: int, hostname: Seq<char>)
    requires
        p_lit(s, i, lit_bytes("{\"batch_id\":"@)) == Some(c1),
        p_str(s, c1) == Some((batch_id, c2)),
        p_lit(s, c2, lit_bytes(",\"agent_id\":"@)) == Some(c3),
        p_str(s, c3) == Some((agent_id, c4)),
        p_lit(s, c4, lit_bytes(",\"hostname\":"@)) == Some(c5),
        p_str(s, c5) == Some((hostname, c6)),
        p_lit(s, c6, lit_bytes(",\"timestamp\":"@)) is None,
    ensures
        p_batch(s, i) is None,
{
    reveal(p_batch);
}

proof fn lemma_batch_stop7(s: Seq<u8>, i: int, c1: int, c2: int, batch_id: Seq<char>, c3: int, c4: int, agent_id: Seq<char>, c5: int, c6: int, hostname: Seq<char>, c7: int)
    requires
        p_lit(s, i, lit_bytes("{\"batch_id\":"@)) == Some(c1),
        p_str(s, c1) == Some((batch_id, c2)),
        p_lit(s, c2, lit_bytes(",\"agent_id\":"@)) == Some(c3),
        p_str(s, c3) == Some((agent_id, c4)),
        p_lit(s, c4, lit_bytes(",\"hostname\":"@)) == Some(c5),
        p_str(s, c5) == Some((hostname, c6)),
        p_lit(s, c6, lit_bytes(",\"timestamp\":"@)) == Some(c7),
        p_i64(s, c7) is None,
    ensures
        p_batch(s, i) is None,
{
    reveal(p_batch);
}

proof fn lemma_batch_stop8(s: Seq<u8>, i: int, c1: int, c2: int, batch_id: Seq<char>, c3: int, c4: int, agent_id: Seq<char>, c5: int, c6: int, hostname: Seq<char>, c7: int, c8: int, timestamp: i64)
    requires
        p_lit(s, i, lit_bytes("{\"batch_id\":"@)) == Some(c1),
        p_str(s, c1) == Some((batch_id, c2)),
        p_lit(s, c2, lit_bytes(",\"agent_id\":"@)) == Some(c3),
        p_str(s, c3) == Some((agent_id, c4)),
        p_lit(s, c4, lit_bytes(",\"hostname\":"@)) == Some(c5),
        p_str(s, c5) == Some((hostname, c6)),
        p_lit(s, c6, lit_bytes(",\"timestamp\":"@)) == Some(c7),
        p_i64(s, c7) == Some((timestamp, c8)),
        p_lit(s, c8, lit_bytes(",\"event_count\":"@)) is None,
    ensures
        p_batch(s, i) is None,
{
    reveal(p_batch);
}

proof fn lemma_batch_stop9(s: Seq<u8>, i: int, c1: int, c2: int, batch_id: Seq<char>, c3: int, c4: int, agent_id: Seq<char>, c5: int, c6: int, hostname: Seq<char>, c7: int, c8: int, timestamp: i64, c9: int)
    requires
        p_lit(s, i, lit_bytes("{\"batch_id\":"@)) == Some(c1),
        p_str(s, c1) == Some((batch_id, c2)),
        p_lit(s, c2, lit_bytes(",\"agent_id\":"@)) == Some(c3),
        p_str(s, c3) == Some((agent_id, c4)),
        p_lit(s, c4, lit_bytes(",\"hostname\":"@)) == Some(c5),
        p_str(s, c5) == Some((hostname, c6)),
        p_lit(s, c6, lit_bytes(",\"timestamp\":"@)) == Some(c7),
        p_i64(s, c7) == Some((timestamp, c8)),
        p_lit(s, c8, lit_bytes(",\"event_count\":"@)) == Some(c9),
        p_count(s, c9) is None,
    ensures
        p_batch(s, i) is None,
{
    reveal(p_batch);
}

proof fn lemma_batch_stop10(s: Seq<u8>, i: int, c1: int, c2: int, batch_id: Seq<char>, c3: int, c4: int, agent_id: Seq<char>, c5: int, c6: int, hostname: Seq<char>, c7: int, c8: int, timestamp: i64, c9: int, c10: int, event_count: usize)
    requires
        p_lit(s, i, lit_bytes("{\"batch_id\":"@)) == Some(c1),
        p_str(s, c1) == Some((batch_id, c2)),
        p_lit(s, c2, lit_bytes(",\"agent_id\":"@)) == Some(c3),
        p_str(s, c3) == Some((agent_id, c4)),
        p_lit(s, c4, lit_bytes(",\"hostname\":"@)) == Some(c5),
        p_str(s, c5) == Some((hostname, c6)),
        p_lit(s, c6, lit_bytes(",\"timestamp\":"@)) == Some(c7),
        p_i64(s, c7) == Some((timestamp, c8)),
        p_lit(s, c8, lit_bytes(",\"event_count\":"@)) == Some(c9),
        p_count(s, c9) == Some((event_count, c10)),
        p_lit(s, c10, lit_bytes(",\"compression\":"@)) is None,
    ensures
        p_batch(s, i) is None,
{
    reveal(p_batch);
}

proof fn lemma_batch_stop11(s: Seq<u8>, i: int, c1: int, c2: int, batch_id: Seq<char>, c3: int, c4: int, agent_id: Seq<char>, c5: int, c6: int, hostname: Seq<char>, c7: int, c8: int, timestamp: i64, c9: int, c10: int, event_count: usize, c11: int)
    requires
        p_lit(s, i, lit_bytes("{\"batch_id\":"@)) == Some(c1),
        p_str(s, c1) == Some((batch_id, c2)),
        p_lit(s, c2, lit_bytes(",\"agent_id\":"@)) == Some(c3),
        p_str(s, c3) == Some((agent_id, c4)),
        p_lit(s, c4, lit_bytes(",\"hostname\":"@)) == Some(c5),
        p_str(s, c5) == Some((hostname, c6)),
        p_lit(s, c6, lit_bytes(",\"timestamp\":"@)) == Some(c7),
        p_i64(s, c7) == Some((timestamp, c8)),
        p_lit(s, c8, lit_bytes(",\"event_count\":"@)) == Some(c9),
        p_count(s, c9) == Some((event_count, c10)),
        p_lit(s, c10, lit_bytes(",\"compression\":"@)) == Some(c11),
        p_compression(s, c11) is None,
    ensures
        p_batch(s, i) is None,
{
    reveal(p_batch);
}

proof fn lemma_batch_stop12(s: Seq<u8>, i: int, c1: int, c2: int, batch_id: Seq<char>, c3: int, c4: int, agent_id: Seq<char>, c5: int, c6: int, hostname: Seq<char>, c7: int, c8: int, timestamp: i64, c9: int, c10: int, event_count: usize, c11: int, c12: int, compression: CompressionType)
    requires
        p_lit(s, i, lit_bytes("{\"batch_id\":"@)) == Some(c1),
        p_str(s, c1) == Some((batch_id, c2)),
        p_lit(s, c2, lit_bytes(",\"agent_id\":"@)) == Some(c3),
        p_str(s, c3) == Some((agent_id, c4)),
        p_lit(s, c4, lit_bytes(",\"hostname\":"@)) == Some(c5),
        p_str(s, c5) == Some((hostname, c6)),
        p_lit(s, c6, lit_bytes(",\"timestamp\":"@)) == Some(c7),
        p_i64(s, c7) == Some((timestamp, c8)),
        p_lit(s, c8, lit_bytes(",\"event_count\":"@)) == Some(c9),
        p_count(s, c9) == Some((event_count, c10)),
        p_lit(s, c10, lit_bytes(",\"compression\":"@)) == Some(c11),
        p_compression(s, c11) == Some((compression, c12)),
        p_lit(s, c12, lit_bytes(",\"compressed_data\":"@)) is None,
    ensures
        p_batch(s, i) is None,
{
    reveal(p_batch);
}

proof fn lemma_batch_stop13(s: Seq<u8>, i: int, c1: int, c2: int, batch_id: Seq<char>, c3: int, c4: int, agent_id: Seq<char>, c5: int, c6: int, hostname: Seq<char>, c7: int, c8: int, timestamp: i64, c9: int, c10: int, event_count: usize, c11: int, c12: int, compression: CompressionType, c13: int)
    requires
        p_lit(s, i, lit_bytes("{\"batch_id\":"@)) == Some(c1),
        p_str(s, c1) == Some((batch_id, c2)),
        p_lit(s, c2, lit_bytes(",\"agent_id\":"@)) == Some(c3),
        p_str(s, c3) == Some((agent_id, c4)),
        p_lit(s, c4, lit_bytes(",\"hostname\":"@)) == Some(c5),
        p_str(s, c5) == Some((hostname, c6)),
        p_lit(s, c6, lit_bytes(",\"timestamp\":"@)) == Some(c7),
        p_i64(s, c7) == Some((timestamp, c8)),
        p_lit(s, c8, lit_bytes(",\"event_count\":"@)) == Some(c9),
        p_count(s, c9) == Some((event_count, c10)),
        p_lit(s, c10, lit_bytes(",\"compression\":"@)) == Some(c11),
        p_compression(s, c11) == Some((compression, c12)),
        p_lit(s, c12, lit_bytes(",\"compressed_data\":"@)) == Some(c13),
        p_bytes(s, c13) is None,
    ensures
        p_batch(s, i) is None,
{
    reveal(p_batch);
}

proof fn lemma_batch_stop14(s: Seq<u8>, i: int, c1: int, c2: int, batch_id: Seq<char>, c3: int, c4: int, agent_id: Seq<char>, c5: int, c6: int, hostname: Seq<char>, c7: int, c8: int, timestamp: i64, c9: int, c10: int, event_count: usize, c11: int, c12: int, compression: CompressionType, c13: int, c14: int, compressed_data: Seq<u8>)
    requires
        p_lit(s, i, lit_bytes("{\"batch_id\":"@)) == Some(c1),
        p_str(s, c1) == Some((batch_id, c2)),
        p_lit(s, c2, lit_bytes(",\"agent_id\":"@)) == Some(c3),
        p_str(s, c3) == Some((agent_id, c4)),
        p_lit(s, c4, lit_bytes(",\"hostname\":"@)) == Some(c5),
        p_str(s, c5) == Some((hostname, c6)),
        p_lit(s, c6, lit_bytes(",\"timestamp\":"@)) == Some(c7),
        p_i64(s, c7) == Some((timestamp, c8)),
        p_lit(s, c8, lit_bytes(",\"event_count\":"@)) == Some(c9),
        p_count(s, c9) == Some((event_count, c10)),
        p_lit(s, c10, lit_bytes(",\"compression\":"@)) == Some(c11),
        p_compression(s, c11) == Some((compression, c12)),
        p_lit(s, c12, lit_bytes(",\"compressed_data\":"@)) == Some(c13),
        p_bytes(s, c13) == Some((compressed_data, c14)),
        p_lit(s, c14, lit_bytes(",\"checksum\":"@)) is None,
    ensures
        p_batch(s, i) is None,
{
    reveal(p_batch);
}

proof fn lemma_batch_stop15(s: Seq<u8>, i: int, c1: int, c2: int, batch_id: Seq<char>, c3: int, c4: int, agent_id: Seq<char>, c5: int, c6: int, hostname: Seq<char>, c7: int, c8: int, timestamp: i64, c9: int, c10: int, event_count: usize, c11: int, c12: int, compression: CompressionType, c13: int, c14: int, compressed_data: Seq<u8>, c15: int)
    requires
        p_lit(s, i, lit_bytes("{\"batch_id\":"@)) == Some(c1),
        p_str(s, c1) == Some((batch_id, c2)),
        p_lit(s, c2, lit_bytes(",\"agent_id\":"@)) == Some(c3),
        p_str(s, c3) == Some((agent_id, c4)),
        p_lit(s, c4, lit_bytes(",\"hostname\":"@)) == Some(c5),
        p_str(s, c5) == Some((hostname, c6)),
        p_lit(s, c6, lit_bytes(",\"timestamp\":"@)) == Some(c7),
        p_i64(s, c7) == Some((timestamp, c8)),
        p_lit(s, c8, lit_bytes(",\"event_count\":"@)) == Some(c9),
        p_count(s, c9) == Some((event_count, c10)),
        p_lit(s, c10, lit_bytes(",\"compression\":"@)) == Some(c11),
        p_compression(s, c11) == Some((compression, c12)),
        p_lit(s, c12, lit_bytes(",\"compressed_data\":"@)) == Some(c13),
        p_bytes(s, c13) == Some((compressed_data, c14)),
        p_lit(s, c14, lit_bytes(",\"checksum\":"@)) == Some(c15),
        p_str(s, c15) is None,
    ensures
        p_batch(s, i) is None,
{
    reveal(p_batch);
}

proof fn lemma_batch_stop16(s: Seq<u8>, i: int, c1: int, c2: int, batch_id: Seq<char>, c3: int, c4: int, agent_id: Seq<char>, c5: int, c6: int, hostname: Seq<char>, c7: int, c8: int, timestamp: i64, c9: int, c10: int, event_count: usize, c11: int, c12: int, compression: CompressionType, c13: int, c14: int, compressed_data: Seq<u8>, c15: int, c16: int, checksum: Seq<char>)
    requires
        p_lit(s, i, lit_bytes("{\"batch_id\":"@)) == Some(c1),
        p_str(s, c1) == Some((batch_id, c2)),
        p_lit(s, c2, lit_bytes(",\"agent_id\":"@)) == Some(c3),
        p_str(s, c3) == Some((agent_id, c4)),
        p_lit(s, c4, lit_bytes(",\"hostname\":"@)) == Some(c5),
        p_str(s, c5) == Some((hostname, c6)),
        p_lit(s, c6, lit_bytes(",\"timestamp\":"@)) == Some(c7),
        p_i64(s, c7) == Some((timestamp, c8)),
        p_lit(s, c8, lit_bytes(",\"event_count\":"@)) == Some(c9),
        p_count(s, c9) == Some((event_count, c10)),
        p_lit(s, c10, lit_bytes(",\"compression\":"@)) == Some(c11),
        p_compression(s, c11) == Some((compression, c12)),
        p_lit(s, c12, lit_bytes(",\"compressed_data\":"@)) == Some(c13),
        p_bytes(s, c13) == Some((compressed_data, c14)),
        p_lit(s, c14, lit_bytes(",\"checksum\":"@)) == Some(c15),
        p_str(s, c15) == Some((checksum, c16)),
        p_lit(s, c16, lit_bytes("}"@)) is None,
    ensures
        p_batch(s, i) is None,
{
    reveal(p_batch);
}

proof fn lemma_batch_ok(s: Seq<u8>, i: int, c1: int, c2: int, batch_id: Seq<char>, c3: int, c4: int, agent_id: Seq<char>, c5: int, c6: int, hostname: Seq<char>, c7: int, c8: int, timestamp: i64, c9: int, c10: int, event_count: usize, c11: int, c12: int, compression: CompressionType, c13: int, c14: int, compressed_data: Seq<u8>, c15: int, c16: int, checksum: Seq<char>, c17: int)
    requires
        p_lit(s, i, lit_bytes("{\"batch_id\":"@)) == Some(c1),
        p_str(s, c1) == Some((batch_id, c2)),
        p_lit(s, c2, lit_bytes(",\"agent_id\":"@)) == Some(c3),
        p_str(s, c3) == Some((agent_id, c4)),
        p_lit(s, c4, lit_bytes(",\"hostname\":"@)) == Some(c5),
        p_str(s, c5) == Some((hostname, c6)),
        p_lit(s, c6, lit_bytes(",\"timestamp\":"@)) == Some(c7),
        p_i64(s, c7) == Some((timestamp, c8)),
        p_lit(s, c8, lit_bytes(",\"event_count\":"@)) == Some(c9),
        p_count(s, c9) == Some((event_count, c10)),
        p_lit(s, c10, lit_bytes(",\"compression\":"@)) == Some(c11),
        p_compression(s, c11) == Some((compression, c12)),
        p_lit(s, c12, lit_bytes(",\"compressed_data\":"@)) == Some(c13),
        p_bytes(s, c13) == Some((compressed_data, c14)),
        p_lit(s, c14, lit_bytes(",\"checksum\":"@)) == Some(c15),
        p_str(s, c15) == Some((checksum, c16)),
        p_lit(s, c16, lit_bytes("}"@)) == Some(c17),
    ensures
        p_batch(s, i) == Some((BatchV { batch_id, agent_id, hostname, timestamp, event_count, compression, compressed_data, checksum }, c17)),
{
    reveal(p_batch);
}


proof fn lemma_response_stop0(s: Seq<u8>, i: int)
    requires
        p_lit(s, i, lit_bytes("{\"batch_id\":"@)) is None,
    ensures
        p_response(s, i) is None,
{
    reveal(p_response);
}

proof fn lemma_response_stop1(s: Seq<u8>, i: int, c1: int)
    requires
        p_lit(s, i, lit_bytes("{\"batch_id\":"@)) == Some(c1),
        p_str(s, c1) is None,
    ensures
        p_response(s, i) is None,
{
    reveal(p_response);
}

proof fn lemma_response_stop2(s: Seq<u8>, i: int, c1: int, c2: int, batch_id: Seq<char>)
    requires
        p_lit(s, i, lit_bytes("{\"batch_id\":"@)) == Some(c1),
        p_str(s, c1) == Some((batch_id, c2)),
        p_lit(s, c2, lit_bytes(",\"status\":"@)) is None,
    ensures
        p_response(s, i) is None,
{
    reveal(p_response);
}

proof fn lemma_response_stop3(s: Seq<u8>, i: int, c1: int, c2: int, batch_id: Seq<char>, c3: int)
    requires
        p_lit(s, i, lit_bytes("{\"batch_id\":"@)) == Some(c1),
        p_str(s, c1) == Some((batch_id, c2)),
        p_lit(s, c2, lit_bytes(",\"status\":"@)) == Some(c3),
        p_status(s, c3) is None,
    ensures
        p_response(s, i) is None,
{
    reveal(p_response);
}

proof fn lemma_response_stop4(s: Seq<u8>, i: int, c1: int, c2: int, batch_id: Seq<char>, c3: int, c4: int, status: IngestStatus)
    requires
        p_lit(s, i, lit_bytes("{\"batch_id\":"@)) == Some(c1),
        p_str(s, c1) == Some((batch_id, c2)),
        p_lit(s, c2, lit_bytes(",\"status\":"@)) == Some(c3),
        p_status(s, c3) == Some((status, c4)),
        p_lit(s, c4, lit_bytes(",\"error_message\":"@)) is None,
    ensures
        p_response(s, i) is None,
{
    reveal(p_response);
}

proof fn lemma_response_stop5(s: Seq<u8>, i: int, c1: int, c2: int, batch_id: Seq<char>, c3: int, c4: int, status: IngestStatus, c5: int)
    requires
        p_lit(s, i, lit_bytes("{\"batch_id\":"@)) == Some(c1),
        p_str(s, c1) == Some((batch_id, c2)),
        p_lit(s, c2, lit_bytes(",\"status\":"@)) == Some(c3),
        p_status(s, c3) == Some((status, c4)),
        p_lit(s, c4, lit_bytes(",\"error_message\":"@)) == Some(c5),
        p_opt_str(s, c5) is None,
    ensures
        p_response(s, i) is None,
{
    reveal(p_response);
}

proof fn lemma_response_stop6(s: Seq<u8>, i: int, c1: int, c2: int, batch_id: Seq<char>, c3: int, c4: int, status: IngestStatus, c5: int, c6: int, error_message: Option<Seq<char>>)
    requires
        p_lit(s, i, lit_bytes("{\"batch_id\":"@)) == Some(c1),
        p_str(s, c1) == Some((batch_id, c2)),
        p_lit(s, c2, lit_bytes(",\"status\":"@)) == Some(c3),
        p_status(s, c3) == Some((status, c4)),
        p_lit(s, c4, lit_bytes(",\"error_message\":"@)) == Some(c5),
        p_opt_str(s, c5) == Some((error_message, c6)),
        p_lit(s, c6, lit_bytes(",\"received_at\":"@)) is None,
    ensures
        p_response(s, i) is None,
{
    reveal(p_response);
}

proof fn lemma_response_stop7(s: Seq<u8>, i: int, c1: int, c2: int, batch_id: Seq<char>, c3: int, c4: int, status: IngestStatus, c5: int, c6: int, error_message: Option<Seq<char>>, c7: int)
    requires
        p_lit(s, i, lit_bytes("{\"batch_id\":"@)) == Some(c1),
        p_str(s, c1) == Some((batch_id, c2)),
        p_lit(s, c2, lit_bytes(",\"status\":"@)) == Some(c3),
        p_status(s, c3) == Some((status, c4)),
        p_lit(s, c4, lit_bytes(",\"error_message\":"@)) == Some(c5),
        p_opt_str(s, c5) == Some((error_message, c6)),
        p_lit(s, c6, lit_bytes(",\"received_at\":"@)) == Some(c7),
        p_i64(s, c7) is None,
    ensures
        p_response(s, i) is None,
{
    reveal(p_response);
}

proof fn lemma_response_stop8(s: Seq<u8>, i: int, c1: int, c2: int, batch_id: Seq<char>, c3: int, c4: int, status: IngestStatus, c5: int, c6: int, error_message: Option<Seq<char>>, c7: int, c8: int, received_at: i64)
    requires
        p_lit(s, i, lit_bytes("{\"batch_id\":"@)) == Some(c1),
        p_str(s, c1) == Some((batch_id, c2)),
        p_lit(s, c2, lit_bytes(",\"status\":"@)) == Some(c3),
        p_status(s, c3) == Some((status, c4)),
        p_lit(s, c4, lit_bytes(",\"error_message\":"@)) == Some(c5),
        p_opt_str(s, c5) == Some((error_message, c6)),
        p_lit(s, c6, lit_bytes(",\"received_at\":"@)) == Some(c7),
        p_i64(s, c7) == Some((received_at, c8)),
        p_lit(s, c8, lit_bytes("}"@)) is None,
    ensures
        p_response(s, i) is None,
{
    reveal(p_response);
}

proof fn lemma_response_ok(s: Seq<u8>, i: int, c1: int, c2: int, batch_id: Seq<char>, c3: int, c4: int, status: IngestStatus, c5: int, c6: int, error_message: Option<Seq<char>>, c7: int, c8: int, received_at: i64, c9: int)
    requires
        p_lit(s, i, lit_bytes("{\"batch_id\":"@)) == Some(c1),
        p_str(s, c1) == Some((batch_id, c2)),
        p_lit(s, c2, lit_bytes(",\"status\":"@)) == Some(c3),
        p_status(s, c3) == Some((status, c4)),
        p_lit(s, c4, lit_bytes(",\"error_message\":"@)) == Some(c5),
        p_opt_str(s, c5) == Some((error_message, c6)),
        p_lit(s, c6, lit_bytes(",\"received_at\":"@)) == Some(c7),
        p_i64(s, c7) == Some((received_at, c8)),
        p_lit(s, c8, lit_bytes("}"@)) == Some(c9),
    ensures
        p_response(s, i) == Some((IngestResponseV { batch_id, status, error_message, received_at }, c9)),
{
    reveal(p_response);
}


pub fn parse_batch(s: &Vec<u8>, i: usize) -> (r: Option<(Batch, usize)>)
    requires
        i <= s@.len(),
    ensures
        match r {
            Some((v, j)) => p_batch(s@, i as int) == Some((v.deep_view(), j as int)) && i
                <= j <= s@.len(),
            None => p_batch(s@, i as int) is None,
        },
{
    proof {
        reveal_strlit("{\"batch_id\":");
        reveal_strlit(",\"agent_id\":");
        reveal_strlit(",\"hostname\":");
        reveal_strlit(",\"timestamp\":");
        reveal_strlit(",\"event_count\":");
        reveal_strlit(",\"compression\":");
        reveal_strlit(",\"compressed_data\":");
        reveal_strlit(",\"checksum\":");
        reveal_strlit("}");
    }
    let i1 = match parse_lit(s, i, "{\"batch_id\":") {
        Some(v) => v,
        None => {
            proof {
                lemma_batch_stop0(s@, i as int);
            }
            return None;
        },
    };
    let (batch_id, i2) = match parse_string(s, i1) {
        Some(v) => v,
        None => {
            proof {
                lemma_batch_stop1(s@, i as int, i1 as int);
            }
            return None;
        },
    };
    let i3 = match parse_lit(s, i2, ",\"agent_id\":") {
        Some(v) => v,
        None => {
            proof {
                lemma_batch_stop2(s@, i as int, i1 as int, i2 as int, batch_id@);
            }
            return None;
        },
    };
    let (agent_id, i4) = match parse_string(s, i3) {
        Some(v) => v,
        None => {
            proof {
                lemma_batch_stop3(s@, i as int, i1 as int, i2 as int, batch_id@, i3 as int);
            }
            return None;
        },
    };
    let i5 = match parse_lit(s, i4, ",\"hostname\":") {
        Some(v) => v,
        None => {
            proof {
                lemma_batch_stop4(s@, i as int, i1 as int, i2 as int, batch_id@, i3 as int, i4 as int, agent_id@);
            }
            return None;
        },
    };
    let (hostname, i6) = match parse_string(s, i5) {
        Some(v) => v,
        None => {
            proof {
                lemma_batch_stop5(s@, i as int, i1 as int, i2 as int, batch_id@, i3 as int, i4 as int, agent_id@, i5 as int);
            }
            return None;
        },
    };
    let i7 = match parse_lit(s, i6, ",\"timestamp\":") {
        Some(v) => v,
        None => {
            proof {
                lemma_batch_stop6(s@, i as int, i1 as int, i2 as int, batch_id@, i3 as int, i4 as int, agent_id@, i5 as int, i6 as int, hostname@);
            }
            return None;
        },
    };
    let (timestamp, i8) = match parse_i64(s, i7) {
        Some(v) => v,
        None => {
            proof {
                lemma_batch_stop7(s@, i as int, i1 as int, i2 as int, batch_id@, i3 as int, i4 as int, agent_id@, i5 as int, i6 as int, hostname@, i7 as int);
            }
            return None;
        },
    };
    let i9 = match parse_lit(s, i8, ",\"event_count\":") {
        Some(v) => v,
        None => {
            proof {
                lemma_batch_stop8(s@, i as int, i1 as int, i2 as int, batch_id@, i3 as int, i4 as int, agent_id@, i5 as int, i6 as int, hostname@, i7 as int, i8 as int, timestamp);
            }
            return None;
        },
    };
    let (event_count, i10) = match parse_count(s, i9) {
        Some(v) => v,
        None => {
            proof {
                lemma_batch_stop9(s@, i as int, i1 as int, i2 as int, batch_id@, i3 as int, i4 as int, agent_id@, i5 as int, i6 as int, hostname@, i7 as int, i8 as int, timestamp, i9 as int);
            }
            return None;
        },
    };
    let i11 = match parse_lit(s, i10, ",\"compression\":") {
        Some(v) => v,
        None => {
            proof {
                lemma_batch_stop10(s@, i as int, i1 as int, i2 as int, batch_id@, i3 as int, i4 as int, agent_id@, i5 as int, i6 as int, hostname@, i7 as int, i8 as int, timestamp, i9 as int, i10 as int, event_count);
            }
            return None;
        },
    };
    let (compression, i12) = match parse_compression(s, i11) {
        Some(v) => v,
        None => {
            proof {
                lemma_batch_stop11(s@, i as int, i1 as int, i2 as int, batch_id@, i3 as int, i4 as int, agent_id@, i5 as int, i6 as int, hostname@, i7 as int, i8 as int, timestamp, i9 as int, i10 as int, event_count, i11 as int);
            }
            return None;
        },
    };
    let i13 = match parse_lit(s, i12, ",\"compressed_data\":") {
        Some(v) => v,
        None => {
            proof {
                lemma_batch_stop12(s@, i as int, i1 as int, i2 as int, batch_id@, i3 as int, i4 as int, agent_id@, i5 as int, i6 as int, hostname@, i7 as int, i8 as int, timestamp, i9 as int, i10 as int, event_count, i11 as int, i12 as int, compression);
            }
            return None;
        },
    };
    let (compressed_data, i14) = match parse_bytes_arr(s, i13) {
        Some(v) => v,
        None => {
            proof {
                lemma_batch_stop13(s@, i as int, i1 as int, i2 as int, batch_id@, i3 as int, i4 as int, agent_id@, i5 as int, i6 as int, hostname@, i7 as int, i8 as int, timestamp, i9 as int, i10 as int, event_count, i11 as int, i12 as int, compression, i13 as int);
            }
            return None;
        },
    };
    let i15 = match parse_lit(s, i14, ",\"checksum\":") {
        Some(v) => v,
        None => {
            proof {
                lemma_batch_stop14(s@, i as int, i1 as int, i2 as int, batch_id@, i3 as int, i4 as int, agent_id@, i5 as int, i6 as int, hostname@, i7 as int, i8 as int, timestamp, i9 as int, i10 as int, event_count, i11 as int, i12 as int, compression, i13 as int, i14 as int, compressed_data@);
            }
            return None;
        },
    };
    let (checksum, i16) = match parse_string(s, i15) {
        Some(v) => v,
        None => {
            proof {
                lemma_batch_stop15(s@, i as int, i1 as int, i2 as int, batch_id@, i3 as int, i4 as int, agent_id@, i5 as int, i6 as int, hostname@, i7 as int, i8 as int, timestamp, i9 as int, i10 as int, event_count, i11 as int, i12 as int, compression, i13 as int, i14 as int, compressed_data@, i15 as int);
            }
            return None;
        },
    };
    let i17 = match parse_lit(s, i16, "}") {
        Some(v) => v,
        None => {
            proof {
                lemma_batch_stop16(s@, i as int, i1 as int, i2 as int, batch_id@, i3 as int, i4 as int, agent_id@, i5 as int, i6 as int, hostname@, i7 as int, i8 as int, timestamp, i9 as int, i10 as int, event_count, i11 as int, i12 as int, compression, i13 as int, i14 as int, compressed_data@, i15 as int, i16 as int, checksum@);
            }
            return None;
        },
    };
    proof {
        lemma_batch_ok(s@, i as int, i1 as int, i2 as int, batch_id@, i3 as int, i4 as int, agent_id@, i5 as int, i6 as int, hostname@, i7 as int, i8 as int, timestamp, i9 as int, i10 as int, event_count, i11 as int, i12 as int, compression, i13 as int, i14 as int, compressed_data@, i15 as int, i16 as int, checksum@, i17 as int);
    }
    let out = Batch {
        batch_id,
        agent_id,
        hostname,
        timestamp,
        event_count,
        compression,
        compressed_data,
        checksum,
    };
    Some((out, i17))
}


pub fn parse_response(s: &Vec<u8>, i: usize) -> (r: Option<(IngestResponse, usize)>)
    requires
        i <= s@.len(),
    ensures
        match r {
            Some((v, j)) => p_response(s@, i as int) == Some((v.deep_view(), j as int)) && i
                <= j <= s@.len(),
            None => p_response(s@, i as int) is None,
        },
{
    proof {
        reveal_strlit("{\"batch_id\":");
        reveal_strlit(",\"status\":");
        reveal_strlit(",\"error_message\":");
        reveal_strlit(",\"received_at\":");
        reveal_strlit("}");
    }
    let i1 = match parse_lit(s, i, "{\"batch_id\":") {
        Some(v) => v,
        None => {
            proof {
                lemma_response_stop0(s@, i as int);
            }
            return None;
        },
    };
    let (batch_id, i2) = match parse_string(s, i1) {
        Some(v) => v,
        None => {
            proof {
                lemma_response_stop1(s@, i as int, i1 as int);
            }
            return None;
        },
    };
    let i3 = match parse_lit(s, i2, ",\"status\":") {
        Some(v) => v,
        None => {
            proof {
                lemma_response_stop2(s@, i as int, i1 as int, i2 as int, batch_id@);
            }
            return None;
        },
    };
    let (status, i4) = match parse_status(s, i3) {
        Some(v) => v,
        None => {
            proof {
                lemma_response_stop3(s@, i as int, i1 as int, i2 as int, batch_id@, i3 as int);
            }
            return None;
        },
    };
    let i5 = match parse_lit(s, i4, ",\"error_message\":") {
        Some(v) => v,
        None => {
            proof {
                lemma_response_stop4(s@, i as int, i1 as int, i2 as int, batch_id@, i3 as int, i4 as int, status);
            }
            return None;
        },
    };
    let (error_message, i6) = match parse_opt_str(s, i5) {
        Some(v) => v,
        None => {
            proof {
                lemma_response_stop5(s@, i as int, i1 as int, i2 as int, batch_id@, i3 as int, i4 as int, status, i5 as int);
            }
            return None;
        },
    };
    let i7 = match parse_lit(s, i6, ",\"received_at\":") {
        Some(v) => v,
        None => {
            proof {
                lemma_response_stop6(s@, i as int, i1 as int, i2 as int, batch_id@, i3 as int, i4 as int, status, i5 as int, i6 as int, error_message.deep_view());
            }
            return None;
        },
    };
    let (received_at, i8) = match parse_i64(s, i7) {
        Some(v) => v,
        None => {
            proof {
                lemma_response_stop7(s@, i as int, i1 as int, i2 as int, batch_id@, i3 as int, i4 as int, status, i5 as int, i6 as int, error_message.deep_view(), i7 as int);
            }
            return None;
        },
    };
    let i9 = match parse_lit(s, i8, "}") {
        Some(v) => v,
        None => {
            proof {
                lemma_response_stop8(s@, i as int, i1 as int, i2 as int, batch_id@, i3 as int, i4 as int, status, i5 as int, i6 as int, error_message.deep_view(), i7 as int, i8 as int, received_at);
            }
            return None;
        },
    };
    proof {
        lemma_response_ok(s@, i as int, i1 as int, i2 as int, batch_id@, i3 as int, i4 as int, status, i5 as int, i6 as int, error_message.deep_view(), i7 as int, i8 as int, received_at, i9 as int);
    }
    let out = IngestResponse { batch_id, status, error_message, received_at };
    Some((out, i9))
}


#[verifier::rlimit(100)]
pub fn batch_to_json(b: &Batch) -> (r: Vec<u8>)
    ensures
        r@ == enc_batch(b.deep_view()),
{
    let mut out: Vec<u8> = Vec::new();
    proof {
        reveal_strlit(",\"agent_id\":");
        reveal_strlit(",\"checksum\":");
        reveal_strlit(",\"compressed_data\":");
        reveal_strlit(",\"compression\":");
        reveal_strlit(",\"event_count\":");
        reveal_strlit(",\"hostname\":");
        reveal_strlit(",\"timestamp\":");
        reveal_strlit("{\"batch_id\":");
        reveal_strlit("}");
    }
    push_lit(&mut out, "{\"batch_id\":");
    push_quoted(&mut out, b.batch_id.as_str());
    push_lit(&mut out, ",\"agent_id\":");
    push_quoted(&mut out, b.agent_id.as_str());
    push_lit(&mut out, ",\"hostname\":");
    push_quoted(&mut out, b.hostname.as_str());
    push_lit(&mut out, ",\"timestamp\":");
    push_i64(&mut out, b.timestamp);
    push_lit(&mut out, ",\"event_count\":");
    push_u64(&mut out, b.event_count as u64);
    push_lit(&mut out, ",\"compression\":");
    push_compression(&mut out, &b.compression);
    push_lit(&mut out, ",\"compressed_data\":");
    push_bytes_arr(&mut out, &b.compressed_data);
    push_lit(&mut out, ",\"checksum\":");
    push_quoted(&mut out, b.checksum.as_str());
    push_lit(&mut out, "}");
    proof {
        let p1 = lit_bytes("{\"batch_id\":"@);
        let p2 = enc_str(b.batch_id@);
        let p3 = lit_bytes(",\"agent_id\":"@);
        let p4 = enc_str(b.agent_id@);
        let p5 = lit_bytes(",\"hostname\":"@);
        let p6 = enc_str(b.hostname@);
        let p7 = lit_bytes(",\"timestamp\":"@);
        let p8 = enc_i64(b.timestamp as int);
        let p9 = lit_bytes(",\"event_count\":"@);
        let p10 = dec_u64(b.event_count as nat);
        let p11 = lit_bytes(",\"compression\":"@);
        let p12 = enc_compression(b.compression);
        let p13 = lit_bytes(",\"compressed_data\":"@);
        let p14 = enc_bytes(b.compressed_data@);
        let p15 = lit_bytes(",\"checksum\":"@);
        let p16 = enc_str(b.checksum@);
        let p17 = lit_bytes("}"@);
        let r17 = p17;
        let r16 = p16 + r17;
        let r15 = p15 + r16;
        let r14 = p14 + r15;
        let r13 = p13 + r14;
        let r12 = p12 + r13;
        let r11 = p11 + r12;
        let r10 = p10 + r11;
        let r9 = p9 + r10;
        let r8 = p8 + r9;
        let r7 = p7 + r8;
        let r6 = p6 + r7;
        let r5 = p5 + r6;
        let r4 = p4 + r5;
        let r3 = p3 + r4;
        let r2 = p2 + r3;
        let r1 = p1 + r2;
        let acc1 = p1;
        let acc2 = acc1 + p2;
        let acc3 = acc2 + p3;
        let acc4 = acc3 + p4;
        let acc5 = acc4 + p5;
        let acc6 = acc5 + p6;
        let acc7 = acc6 + p7;
        let acc8 = acc7 + p8;
        let acc9 = acc8 + p9;
        let acc10 = acc9 + p10;
        let acc11 = acc10 + p11;
        let acc12 = acc11 + p12;
        let acc13 = acc12 + p13;
        let acc14 = acc13 + p14;
        let acc15 = acc14 + p15;
        let acc16 = acc15 + p16;
        let acc17 = acc16 + p17;
        assert(out@ == acc17);
        assert(enc_batch(b.deep_view()) == r1);
        vstd::seq_lib::lemma_concat_associative(acc15, p16, r17);
        vstd::seq_lib::lemma_concat_associative(acc14, p15, r16);
        vstd::seq_lib::lemma_concat_associative(acc13, p14, r15);
        vstd::seq_lib::lemma_concat_associative(acc12, p13, r14);
        vstd::seq_lib::lemma_concat_associative(acc11, p12, r13);
        vstd::seq_lib::lemma_concat_associative(acc10, p11, r12);
        vstd::seq_lib::lemma_concat_associative(acc9, p10, r11);
        vstd::seq_lib::lemma_concat_associative(acc8, p9, r10);
        vstd::seq_lib::lemma_concat_associative(acc7, p8, r9);
        vstd::seq_lib::lemma_concat_associative(acc6, p7, r8);
        vstd::seq_lib::lemma_concat_associative(acc5, p6, r7);
        vstd::seq_lib::lemma_concat_associative(acc4, p5, r6);
        vstd::seq_lib::lemma_concat_associative(acc3, p4, r5);
        vstd::seq_lib::lemma_concat_associative(acc2, p3, r4);
        vstd::seq_lib::lemma_concat_associative(acc1, p2, r3);
        assert(out@ == r1);
    }
    out
}


#[verifier::rlimit(100)]
pub fn response_to_json(resp: &IngestResponse) -> (r: Vec<u8>)
    ensures
        r@ == enc_response(resp.deep_view()),
{
    let mut out: Vec<u8> = Vec::new();
    proof {
        reveal_strlit(",\"error_message\":");
        reveal_strlit(",\"received_at\":");
        reveal_strlit(",\"status\":");
        reveal_strlit("{\"batch_id\":");
        reveal_strlit("}");
    }
    push_lit(&mut out, "{\"batch_id\":");
    push_quoted(&mut out, resp.batch_id.as_str());
    push_lit(&mut out, ",\"status\":");
    push_status(&mut out, &resp.status);
    push_lit(&mut out, ",\"error_message\":");
    push_opt_str(&mut out, &resp.error_message);
    push_lit(&mut out, ",\"received_at\":");
    push_i64(&mut out, resp.received_at);
    push_lit(&mut out, "}");
    proof {
        let p1 = lit_bytes("{\"batch_id\":"@);
        let p2 = enc_str(resp.batch_id@);
        let p3 = lit_bytes(",\"status\":"@);
        let p4 = enc_status(resp.status);
        let p5 = lit_bytes(",\"error_message\":"@);
        let p6 = enc_opt_str(resp.error_message.deep_view());
        let p7 = lit_bytes(",\"received_at\":"@);
        let p8 = enc_i64(resp.received_at as int);
        let p9 = lit_bytes("}"@);
        let r9 = p9;
        let r8 = p8 + r9;
        let r7 = p7 + r8;
        let r6 = p6 + r7;
        let r5 = p5 + r6;
        let r4 = p4 + r5;
        let r3 = p3 + r4;
        let r2 = p2 + r3;
        let r1 = p1 + r2;
        let acc1 = p1;
        let acc2 = acc1 + p2;
        let acc3 = acc2 + p3;
        let acc4 = acc3 + p4;
        let acc5 = acc4 + p5;
        let acc6 = acc5 + p6;
        let acc7 = acc6 + p7;
        let acc8 = acc7 + p8;
        let acc9 = acc8 + p9;
        assert(out@ == acc9);
        assert(enc_response(resp.deep_view()) == r1);
        vstd::seq_lib::lemma_concat_associative(acc7, p8, r9);
        vstd::seq_lib::lemma_concat_associative(acc6, p7, r8);
        vstd::seq_lib::lemma_concat_associative(acc5, p6, r7);
        vstd::seq_lib::lemma_concat_associative(acc4, p5, r6);
        vstd::seq_lib::lemma_concat_associative(acc3, p4, r5);
        vstd::seq_lib::lemma_concat_associative(acc2, p3, r4);
        vstd::seq_lib::lemma_concat_associative(acc1, p2, r3);
        assert(out@ == r1);
    }
    out
}


/// A whole buffer that is exactly one batch.
pub open spec fn p_batch_exact(s: Seq<u8>) -> Option<BatchV> {
    match p_batch(s, 0) {
        Some((b, j)) => {
            if j == s.len() {
                Some(b)
            } else {
                None
            }
        },
        None => None,
    }
}

/// A whole buffer that is exactly one response.
pub open spec fn p_response_exact(s: Seq<u8>) -> Option<IngestResponseV> {
    match p_response(s, 0) {
        Some((r, j)) => {
            if j == s.len() {
                Some(r)
            } else {
                None
            }
        },
        None => None,
    }
}

/// Parses a buffer that must hold exactly one batch.
pub fn batch_from_json(s: &Vec<u8>) -> (r: Option<Batch>)
    ensures
        match r {
            Some(b) => p_batch_exact(s@) == Some(b.deep_view()),
            None => p_batch_exact(s@) is None,
        },
{
    match parse_batch(s, 0) {
        Some((b, j)) => {
            if j == s.len() {
                Some(b)
            } else {
                None
            }
        },
        None => None,
    }
}

/// Parses a buffer that must hold exactly one response.
pub fn response_from_json(s: &Vec<u8>) -> (r: Option<IngestResponse>)
    ensures
        match r {
            Some(v) => p_response_exact(s@) == Some(v.deep_view()),
            None => p_response_exact(s@) is None,
        },
{
    match parse_response(s, 0) {
        Some((v, j)) => {
            if j == s.len() {
                Some(v)
            } else {
                None
            }
        },
        None => None,
    }
}

/// The envelope round trip: parsing an emitted batch recovers it exactly.
pub proof fn lemma_batch_round_trip(b: BatchV)
    ensures
        p_batch_exact(enc_batch(b)) == Some(b),
{
    let s = enc_batch(b);
    assert(s.subrange(0, s.len() as int) =~= s);
    lemma_p_batch_enc(s, 0, b);
}

/// The reply round trip: parsing an emitted response recovers it exactly.
pub proof fn lemma_response_round_trip(r: IngestResponseV)
    ensures
        p_response_exact(enc_response(r)) == Some(r),
{
    let s = enc_response(r);
    assert(s.subrange(0, s.len() as int) =~= s);
    lemma_p_response_enc(s, 0, r);
}

} // verus!
