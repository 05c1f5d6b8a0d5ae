//! Serialize, compress and checksum batches, and the inverse.
//!
//! The codec is pure: serialization is `codec::emit_events`, the compression
//! schemes are snappy (raw block), gzip, or none, and the checksum is the
//! lowercase hex SHA-256 of the post-compression bytes. The lz4 scheme is not
//! built in: requesting it degrades to snappy, and the batch records the
//! scheme actually used; a received lz4 batch is rejected as unsupported.
//! The receiver caps the decompressed size before parsing.

use vstd::prelude::*;

use sha2::Digest;
use std::io::Read;
use std::io::Write;

use crate::codec::{emit_events, enc_events, p_events_exact, parse_events_exact, str_eq_str};
use crate::events::{
    events_v_wf, Batch, BatchV, CompressionType, Event, EventV, UncompressedBatch,
    UncompressedBatchV,
};
use crate::json::{char_from_u32, hexd, string_push};

verus! {

/// Ceiling on the decompressed size of one batch; anything larger is
/// rejected before parsing.
pub const MAX_DECOMPRESSED_BYTES: usize = 64 * 1024 * 1024;

/// Inputs no longer than this always compress under snappy's format cap.
pub const SNAPPY_SAFE_INPUT_BYTES: usize = 0xD000_0000;

/// A failure of the codec itself.
#[derive(Debug, Clone, Copy, PartialEq, Eq, Structural)]
pub enum CodecError {
    /// The recomputed checksum does not match the envelope.
    ChecksumMismatch,
    /// The declared scheme cannot be decoded at runtime.
    UnsupportedCompression,
    /// The payload does not decode or parse back to events.
    MalformedPayload,
    /// The payload is larger than the receiver is willing to expand.
    TooLarge,
}

// ---------------------------------------------------------------------------
// Named results of the outside compressors and the digest
// ---------------------------------------------------------------------------

pub uninterp spec fn snappy_of(b: Seq<u8>) -> Seq<u8>;

pub uninterp spec fn gzip_of(b: Seq<u8>) -> Seq<u8>;

pub uninterp spec fn sha256_of(b: Seq<u8>) -> Seq<u8>;

/// What snap's block header names as the decompressed length, if the
/// header parses — a function of the bytes alone.
pub uninterp spec fn snappy_len_of(b: Seq<u8>) -> Option<usize>;

/// What raw snappy decompression yields, if it accepts the bytes — a
/// deterministic function of the bytes alone.
pub uninterp spec fn snappy_raw_of(b: Seq<u8>) -> Option<Seq<u8>>;

/// What capped gzip decompression yields for the given cap, if the bytes
/// decode — a deterministic function of the bytes and the cap.
pub uninterp spec fn gzip_capped_raw_of(b: Seq<u8>, limit: usize) -> Option<Seq<u8>>;

/// Relies on snap::raw::Encoder::compress_vec: a deterministic function of
/// the input bytes; it fails only when the input is beyond the format's
/// four-gigabyte cap.
#[verifier::external_body]
fn snappy_compress(data: &Vec<u8>) -> (r: Option<Vec<u8>>)
    ensures
        r matches Some(c) ==> c@ == snappy_of(data@),
        data@.len() <= SNAPPY_SAFE_INPUT_BYTES ==> r is Some,
{
    let mut enc = snap::raw::Encoder::new();
    match enc.compress_vec(data.as_slice()) {
        Ok(v) => Some(v),
        Err(_) => None,
    }
}

/// Relies on snap::raw::decompress_len: reads the decompressed size stored
/// in the block header — a function of the bytes alone — so for a
/// compressed block it is the original length.
#[verifier::external_body]
fn snappy_decompressed_len(data: &Vec<u8>) -> (r: Option<usize>)
    ensures
        r == snappy_len_of(data@),
        match r {
            Some(n) => forall|b: Seq<u8>|
                b.len() <= 0xFFFF_FFFF && data@ == #[trigger] snappy_of(b) ==> n == b.len(),
            None => forall|b: Seq<u8>|
                b.len() <= 0xFFFF_FFFF ==> data@ != #[trigger] snappy_of(b),
        },
{
    match snap::raw::decompress_len(data.as_slice()) {
        Ok(n) => Some(n),
        Err(_) => None,
    }
}

/// Relies on snap::raw::Decoder::decompress_vec: a deterministic function
/// of the bytes; decompressing a compressed block restores the original.
#[verifier::external_body]
fn snappy_decompress(data: &Vec<u8>) -> (r: Option<Vec<u8>>)
    ensures
        match r {
            Some(v) => snappy_raw_of(data@) == Some(v@) && (forall|b: Seq<u8>|
                b.len() <= 0xFFFF_FFFF && data@ == #[trigger] snappy_of(b) ==> v@ == b),
            None => snappy_raw_of(data@) is None && (forall|b: Seq<u8>|
                b.len() <= 0xFFFF_FFFF ==> data@ != #[trigger] snappy_of(b)),
        },
{
    let mut dec = snap::raw::Decoder::new();
    match dec.decompress_vec(data.as_slice()) {
        Ok(v) => Some(v),
        Err(_) => None,
    }
}

/// Relies on flate2::write::GzEncoder: with the default builder the header
/// carries no timestamp and a fixed operating-system byte, so the stream is
/// a deterministic function of the input bytes.
#[verifier::external_body]
fn gzip_compress(data: &Vec<u8>) -> (r: Vec<u8>)
    ensures
        r@ == gzip_of(data@),
{
    let mut enc = flate2::write::GzEncoder::new(Vec::new(), flate2::Compression::default());
    let _ = enc.write_all(data.as_slice());
    enc.finish().unwrap_or_default()
}

/// Relies on flate2::read::GzDecoder: decoding a complete stream restores
/// the original bytes, and reads are capped one byte past `limit`, so a
/// stream expanding beyond the cap yields exactly `limit + 1` bytes while a
/// failed read means the bytes are no gzip stream at all. The cap must
/// leave room for that one extra byte.
#[verifier::external_body]
fn gzip_decompress_capped(data: &Vec<u8>, limit: usize) -> (r: Option<Vec<u8>>)
    requires
        limit < usize::MAX,
    ensures
        match r {
            Some(v) => {
                &&& gzip_capped_raw_of(data@, limit) == Some(v@)
                &&& v@.len() <= limit + 1
                &&& (forall|b: Seq<u8>|
                    b.len() <= limit && data@ == #[trigger] gzip_of(b) ==> v@ == b)
                &&& (forall|b: Seq<u8>|
                    b.len() > limit && data@ == #[trigger] gzip_of(b) ==> v@.len() == limit + 1)
            },
            None => gzip_capped_raw_of(data@, limit) is None && (forall|b: Seq<u8>|
                data@ != #[trigger] gzip_of(b)),
        },
{
    let mut out = Vec::new();
    let mut dec = std::io::Read::take(
        flate2::read::GzDecoder::new(data.as_slice()),
        (limit as u64) + 1,
    );
    match dec.read_to_end(&mut out) {
        Ok(_) => Some(out),
        Err(_) => None,
    }
}

/// Relies on sha2::Sha256: the digest is 32 bytes and a function of the
/// input bytes alone.
#[verifier::external_body]
fn sha256(data: &Vec<u8>) -> (r: Vec<u8>)
    ensures
        r@ == sha256_of(data@),
        r@.len() == 32,
{
    sha2::Sha256::digest(data.as_slice()).to_vec()
}

// ---------------------------------------------------------------------------
// Hex encoding and the checksum
// ---------------------------------------------------------------------------

/// The lowercase hex text of a byte sequence, two digits per byte.
pub open spec fn hex_chars(b: Seq<u8>) -> Seq<char> {
    Seq::new(
        b.len() * 2,
        |i: int|
            if i % 2 == 0 {
                ((hexd((b[i / 2] / 16) as int) as u32) as char)
            } else {
                ((hexd((b[i / 2] % 16) as int) as u32) as char)
            },
    )
}

/// The checksum text of a payload: lowercase hex SHA-256.
pub open spec fn checksum_of(data: Seq<u8>) -> Seq<char> {
    hex_chars(sha256_of(data))
}

/// Lowercase hex encoding of bytes.
pub fn to_hex(b: &Vec<u8>) -> (r: String)
    ensures
        r@ == hex_chars(b@),
{
    let mut out = String::new();
    let n = b.len();
    let mut k: usize = 0;
    while k < n
        invariant
            n == b@.len(),
            k <= n,
            out@ == hex_chars(b@.take(k as int)),
        decreases n - k,
    {
        let byte = b[k];
        let hi: u8 = hex_digit_u8(byte / 16);
        let lo: u8 = hex_digit_u8(byte % 16);
        let hc = match char_from_u32(hi as u32) {
            Some(c) => c,
            None => {
                proof {
                    assert(false);
                }
                return out;
            },
        };
        let lc = match char_from_u32(lo as u32) {
            Some(c) => c,
            None => {
                proof {
                    assert(false);
                }
                return out;
            },
        };
        proof {
            vstd::utf8::char_u32_cast(hc, hi as u32);
            vstd::utf8::char_u32_cast(lc, lo as u32);
        }
        string_push(&mut out, hc);
        string_push(&mut out, lc);
        proof {
            assert(hex_chars(b@.take(k + 1)) =~= hex_chars(b@.take(k as int)).push(
                ((hexd((b@[k as int] / 16) as int) as u32) as char),
            ).push(((hexd((b@[k as int] % 16) as int) as u32) as char)));
        }
        k = k + 1;
    }
    assert(b@.take(n as int) =~= b@);
    out
}

fn hex_digit_u8(d: u8) -> (r: u8)
    requires
        d < 16,
    ensures
        r == hexd(d as int),
{
    if d < 10 {
        0x30 + d
    } else {
        0x57 + d
    }
}

/// The checksum of a payload as a string.
pub fn checksum_hex(data: &Vec<u8>) -> (r: String)
    ensures
        r@ == checksum_of(data@),
{
    let digest = sha256(data);
    to_hex(&digest)
}

// ---------------------------------------------------------------------------
// The codec proper
// ---------------------------------------------------------------------------

/// The scheme actually used when `c` is requested: lz4 is not built in and
/// degrades to snappy.
pub open spec fn effective_compression(c: CompressionType) -> CompressionType {
    match c {
        CompressionType::Lz4 => CompressionType::Snappy,
        _ => c,
    }
}

/// The bytes a scheme produces from a payload.
pub open spec fn scheme_of(eff: CompressionType, payload: Seq<u8>) -> Seq<u8> {
    match eff {
        CompressionType::NoCompression => payload,
        CompressionType::Snappy => snappy_of(payload),
        CompressionType::Gzip => gzip_of(payload),
        CompressionType::Lz4 => snappy_of(payload),
    }
}

pub open spec fn checksum_matches(b: BatchV) -> bool {
    b.checksum == checksum_of(b.compressed_data)
}

/// Everything `compress` promises of a produced batch: identity fields are
/// copied, the count is the number of events, the payload is the scheme
/// applied to the canonical serialization, and the checksum is truthful.
pub open spec fn compress_post(u: UncompressedBatchV, requested: CompressionType, b: BatchV) -> bool {
    &&& b.batch_id == u.batch_id
    &&& b.agent_id == u.agent_id
    &&& b.hostname == u.hostname
    &&& b.timestamp == u.timestamp
    &&& b.event_count == u.events.len()
    &&& b.compression == effective_compression(requested)
    &&& b.compressed_data == scheme_of(effective_compression(requested), enc_events(u.events))
    &&& checksum_matches(b)
}

/// What `decompress` promises when it succeeds, and when success is owed:
/// whenever the payload is a scheme image of bytes that parse as events and
/// fit the ceiling, exactly those events come back.
pub open spec fn decompress_ok_rel(b: BatchV, evs: Seq<crate::events::EventV>) -> bool {
    &&& checksum_matches(b)
    &&& b.compression != CompressionType::Lz4
    &&& forall|orig: Seq<u8>|
        orig.len() <= MAX_DECOMPRESSED_BYTES && b.compressed_data == scheme_of(
            b.compression,
            orig,
        ) ==> p_events_exact(orig) == Some(evs)
}

/// Events parsed from a decompressed payload, or the malformed-payload
/// rejection.
pub open spec fn parsed_payload(payload: Seq<u8>) -> Result<Seq<EventV>, CodecError> {
    match p_events_exact(payload) {
        Some(evs) => Ok(evs),
        None => Err(CodecError::MalformedPayload),
    }
}

/// What decompression returns, as a function of the batch value alone: the
/// codec is pure, so two calls on equal batches agree.
pub open spec fn decompress_of(b: BatchV) -> Result<Seq<EventV>, CodecError> {
    if !checksum_matches(b) {
        Err(CodecError::ChecksumMismatch)
    } else {
        match b.compression {
            CompressionType::Lz4 => Err(CodecError::UnsupportedCompression),
            CompressionType::NoCompression => {
                if b.compressed_data.len() > MAX_DECOMPRESSED_BYTES {
                    Err(CodecError::TooLarge)
                } else {
                    parsed_payload(b.compressed_data)
                }
            },
            CompressionType::Snappy => {
                match snappy_len_of(b.compressed_data) {
                    None => Err(CodecError::MalformedPayload),
                    Some(n) => {
                        if n > MAX_DECOMPRESSED_BYTES {
                            Err(CodecError::TooLarge)
                        } else {
                            match snappy_raw_of(b.compressed_data) {
                                Some(v) => parsed_payload(v),
                                None => Err(CodecError::MalformedPayload),
                            }
                        }
                    },
                }
            },
            CompressionType::Gzip => {
                match gzip_capped_raw_of(b.compressed_data, MAX_DECOMPRESSED_BYTES) {
                    None => Err(CodecError::MalformedPayload),
                    Some(v) => {
                        if v.len() > MAX_DECOMPRESSED_BYTES {
                            Err(CodecError::TooLarge)
                        } else {
                            parsed_payload(v)
                        }
                    },
                }
            },
        }
    }
}

pub struct Compressor;

impl Compressor {
    /// Serialize, compress under the requested scheme (lz4 degrading to
    /// snappy), and attach the checksum.
    pub fn compress(uncompressed: UncompressedBatch, compression: CompressionType) -> (r: Result<
        Batch,
        CodecError,
    >)
        requires
            events_v_wf(uncompressed.deep_view().events),
        ensures
            r matches Ok(b) ==> compress_post(
                uncompressed.deep_view(),
                compression,
                b.deep_view(),
            ),
            r matches Err(e) ==> e == CodecError::TooLarge && enc_events(
                uncompressed.deep_view().events,
            ).len() > SNAPPY_SAFE_INPUT_BYTES,
            enc_events(uncompressed.deep_view().events).len() <= SNAPPY_SAFE_INPUT_BYTES ==> r
                is Ok,
    {
        let payload = emit_events(&uncompressed.events);
        let event_count = uncompressed.events.len();
        let (eff, data): (CompressionType, Vec<u8>) = match compression {
            CompressionType::NoCompression => (CompressionType::NoCompression, payload),
            CompressionType::Snappy | CompressionType::Lz4 => {
                match snappy_compress(&payload) {
                    Some(c) => (CompressionType::Snappy, c),
                    None => {
                        return Err(CodecError::TooLarge);
                    },
                }
            },
            CompressionType::Gzip => (CompressionType::Gzip, gzip_compress(&payload)),
        };
        let checksum = checksum_hex(&data);
        Ok(
            Batch {
                batch_id: uncompressed.batch_id,
                agent_id: uncompressed.agent_id,
                hostname: uncompressed.hostname,
                timestamp: uncompressed.timestamp,
                event_count,
                compression: eff,
                compressed_data: data,
                checksum,
            },
        )
    }

    /// Validate the checksum, reverse the declared scheme under the size
    /// ceiling, and parse the canonical serialization back to events.
    pub fn decompress(batch: &Batch) -> (r: Result<Vec<Event>, CodecError>)
        ensures
            // The codec is a pure function of the batch value.
            (match r {
                Ok(v) => Ok(v.deep_view()),
                Err(e) => Err::<Seq<EventV>, CodecError>(e),
            }) == decompress_of(batch.deep_view()),
            (!checksum_matches(batch.deep_view())) <==> r == Err::<Vec<Event>, CodecError>(
                CodecError::ChecksumMismatch,
            ),
            (checksum_matches(batch.deep_view()) && batch.compression == CompressionType::Lz4)
                <==> r == Err::<Vec<Event>, CodecError>(CodecError::UnsupportedCompression),
            r matches Ok(evs) ==> decompress_ok_rel(batch.deep_view(), evs.deep_view()),
            forall|orig: Seq<u8>|
                checksum_matches(batch.deep_view()) && batch.compression != CompressionType::Lz4
                    && orig.len() <= MAX_DECOMPRESSED_BYTES && batch.compressed_data@ == scheme_of(
                    batch.compression,
                    orig,
                ) && p_events_exact(orig) is Some ==> r is Ok,
            // The decompression-bomb ceiling: a payload whose preimage
            // exceeds it is rejected as too large (snappy can only encode
            // preimages up to its format cap in the first place).
            forall|big: Seq<u8>|
                checksum_matches(batch.deep_view()) && batch.compression != CompressionType::Lz4
                    && big.len() > MAX_DECOMPRESSED_BYTES && (batch.compression
                    == CompressionType::Snappy ==> big.len() <= 0xFFFF_FFFF)
                    && batch.compressed_data@ == scheme_of(batch.compression, big) ==> r
                    == Err::<Vec<Event>, CodecError>(CodecError::TooLarge),
            // Past the checksum and scheme gates, only the payload can be
            // at fault.
            (checksum_matches(batch.deep_view()) && batch.compression != CompressionType::Lz4)
                ==> (r matches Err(e) ==> e == CodecError::MalformedPayload || e
                == CodecError::TooLarge),
            // The uncompressed scheme is exact: within the ceiling, failure
            // is precisely an unparseable payload.
            (checksum_matches(batch.deep_view()) && batch.compression
                == CompressionType::NoCompression && batch.compressed_data@.len()
                <= MAX_DECOMPRESSED_BYTES) ==> {
                &&& (r is Err <==> p_events_exact(batch.compressed_data@) is None)
                &&& (r matches Err(e) ==> e == CodecError::MalformedPayload)
            },
    {
        let computed = checksum_hex(&batch.compressed_data);
        if !str_eq_str(computed.as_str(), batch.checksum.as_str()) {
            return Err(CodecError::ChecksumMismatch);
        }
        let payload: Vec<u8> = match batch.compression {
            CompressionType::Lz4 => {
                return Err(CodecError::UnsupportedCompression);
            },
            CompressionType::NoCompression => {
                if batch.compressed_data.len() > MAX_DECOMPRESSED_BYTES {
                    return Err(CodecError::TooLarge);
                }
                clone_bytes(&batch.compressed_data)
            },
            CompressionType::Snappy => {
                let n = match snappy_decompressed_len(&batch.compressed_data) {
                    Some(n) => n,
                    None => {
                        return Err(CodecError::MalformedPayload);
                    },
                };
                if n > MAX_DECOMPRESSED_BYTES {
                    return Err(CodecError::TooLarge);
                }
                match snappy_decompress(&batch.compressed_data) {
                    Some(v) => v,
                    None => {
                        return Err(CodecError::MalformedPayload);
                    },
                }
            },
            CompressionType::Gzip => {
                let v = match gzip_decompress_capped(
                    &batch.compressed_data,
                    MAX_DECOMPRESSED_BYTES,
                ) {
                    Some(v) => v,
                    None => {
                        return Err(CodecError::MalformedPayload);
                    },
                };
                if v.len() > MAX_DECOMPRESSED_BYTES {
                    return Err(CodecError::TooLarge);
                }
                v
            },
        };
        match parse_events_exact(&payload) {
            Some(evs) => Ok(evs),
            None => Err(CodecError::MalformedPayload),
        }
    }
}

/// Byte-for-byte copy of a payload.
fn clone_bytes(b: &Vec<u8>) -> (r: Vec<u8>)
    ensures
        r@ == b@,
{
    let mut out: Vec<u8> = Vec::new();
    let n = b.len();
    let mut k: usize = 0;
    while k < n
        invariant
            n == b@.len(),
            k <= n,
            out@ == b@.take(k as int),
        decreases n - k,
    {
        out.push(b[k]);
        assert(b@.take(k + 1) =~= b@.take(k as int).push(b@[k as int]));
        k = k + 1;
    }
    assert(b@.take(n as int) =~= b@);
    out
}

/// The codec round trip: any batch that satisfies `compress`'s contract
/// decompresses, under `decompress`'s contract, to exactly the events it
/// was built from.
pub proof fn lemma_codec_round_trip(
    u: UncompressedBatchV,
    requested: CompressionType,
    b: BatchV,
    evs: Seq<crate::events::EventV>,
)
    requires
        events_v_wf(u.events),
        enc_events(u.events).len() <= MAX_DECOMPRESSED_BYTES,
        compress_post(u, requested, b),
        decompress_ok_rel(b, evs),
    ensures
        evs == u.events,
{
    crate::codec::lemma_events_round_trip(u.events);
    let orig = enc_events(u.events);
    assert(b.compressed_data == scheme_of(b.compression, orig));
    assert(p_events_exact(orig) == Some(evs));
}

} // verus!
