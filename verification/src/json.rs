//! Byte-level primitives of the canonical JSON wire format.
//!
//! The codec emits a restricted, canonical form of JSON: no whitespace, a
//! fixed field order, pure-ASCII output (every character outside the
//! printable ASCII range is written as a `\u` escape). Each emitted form has
//! a spec-level encoder, each parsed form a spec-level parser, and the
//! lemmas here show that parsing inverts emission. Exec encoders and parsers
//! are proved equal to their spec counterparts.

use vstd::prelude::*;

verus! {

// ---------------------------------------------------------------------------
// Characters and digits
// ---------------------------------------------------------------------------

pub open spec fn is_digit(b: u8) -> bool {
    0x30 <= b <= 0x39
}

/// Decimal digits of `n`, most significant first.
pub open spec fn dec_u64(n: nat) -> Seq<u8>
    decreases n,
{
    if n < 10 {
        seq![(0x30 + n) as u8]
    } else {
        dec_u64(n / 10).push((0x30 + n % 10) as u8)
    }
}

pub open spec fn pow10(k: nat) -> nat
    decreases k,
{
    if k == 0 {
        1
    } else {
        10 * pow10((k - 1) as nat)
    }
}

/// Signed decimal form: a minus sign for negative values, then the digits
/// of the magnitude.
pub open spec fn enc_i64(n: int) -> Seq<u8> {
    if n < 0 {
        seq![0x2du8] + dec_u64((-n) as nat)
    } else {
        dec_u64(n as nat)
    }
}

pub proof fn lemma_dec_u64_shape(n: nat)
    ensures
        dec_u64(n).len() >= 1,
        forall|k: int| 0 <= k < dec_u64(n).len() ==> is_digit(#[trigger] dec_u64(n)[k]),
    decreases n,
{
    if n >= 10 {
        lemma_dec_u64_shape(n / 10);
    }
}

// ---------------------------------------------------------------------------
// Spec parsers for digit runs and integers
// ---------------------------------------------------------------------------

/// Consumes the maximal digit run from `i`, folding the digits into `acc`;
/// yields the accumulated value and the position after the run.
pub open spec fn p_digits(s: Seq<u8>, i: int, acc: nat) -> (nat, int)
    decreases s.len() - i,
{
    if 0 <= i < s.len() && is_digit(s[i]) {
        p_digits(s, i + 1, acc * 10 + (s[i] - 0x30) as nat)
    } else {
        (acc, i)
    }
}

pub open spec fn p_u64(s: Seq<u8>, i: int) -> Option<(u64, int)> {
    if 0 <= i < s.len() && is_digit(s[i]) {
        let (v, j) = p_digits(s, i, 0);
        if v <= u64::MAX {
            Some((v as u64, j))
        } else {
            None
        }
    } else {
        None
    }
}

pub open spec fn p_i64(s: Seq<u8>, i: int) -> Option<(i64, int)> {
    if 0 <= i < s.len() && s[i] == 0x2du8 {
        if i + 1 < s.len() && is_digit(s[i + 1]) {
            let (v, j) = p_digits(s, i + 1, 0);
            if v <= 0x8000_0000_0000_0000 {
                Some(((-(v as int)) as i64, j))
            } else {
                None
            }
        } else {
            None
        }
    } else {
        if 0 <= i < s.len() && is_digit(s[i]) {
            let (v, j) = p_digits(s, i, 0);
            if v <= i64::MAX {
                Some((v as i64, j))
            } else {
                None
            }
        } else {
            None
        }
    }
}

// ---------------------------------------------------------------------------
// Round-trip lemmas for digit runs and integers
// ---------------------------------------------------------------------------

/// A digit run never moves backwards.
pub proof fn lemma_p_digits_pos(s: Seq<u8>, i: int, acc: nat)
    ensures
        p_digits(s, i, acc).1 >= i,
    decreases s.len() - i,
{
    if 0 <= i < s.len() && is_digit(s[i]) {
        lemma_p_digits_pos(s, i + 1, acc * 10 + (s[i] - 0x30) as nat);
    }
}

/// The accumulated value of a digit run never shrinks.
pub proof fn lemma_p_digits_monotone(s: Seq<u8>, i: int, acc: nat)
    ensures
        p_digits(s, i, acc).0 >= acc,
    decreases s.len() - i,
{
    if 0 <= i < s.len() && is_digit(s[i]) {
        lemma_p_digits_monotone(s, i + 1, acc * 10 + (s[i] - 0x30) as nat);
    }
}

/// Folding a run of digits that spell `n` multiplies the accumulator by the
/// matching power of ten and adds `n`.
pub proof fn lemma_p_digits_enc(s: Seq<u8>, i: int, n: nat, acc: nat)
    requires
        0 <= i,
        i + dec_u64(n).len() <= s.len(),
        s.subrange(i, i + dec_u64(n).len() as int) == dec_u64(n),
    ensures
        p_digits(s, i, acc) == p_digits(
            s,
            i + dec_u64(n).len(),
            acc * pow10(dec_u64(n).len() as nat) + n,
        ),
    decreases n,
{
    lemma_dec_u64_shape(n);
    let enc = dec_u64(n);
    let len = enc.len() as int;
    if n < 10 {
        assert(s[i] == enc[0]);
        assert(p_digits(s, i, acc) == p_digits(s, i + 1, acc * 10 + n));
        assert(acc * pow10(1) + n == acc * 10 + n) by {
            assert(pow10(0) == 1);
            assert(pow10(1) == 10);
        }
    } else {
        let enc0 = dec_u64(n / 10);
        let len0 = enc0.len() as int;
        assert(enc == enc0.push((0x30 + n % 10) as u8));
        assert(s.subrange(i, i + len0) == enc0) by {
            assert forall|k: int| 0 <= k < len0 implies s.subrange(i, i + len0)[k] == enc0[k] by {
                assert(s[i + k] == enc[k]);
            }
            assert(s.subrange(i, i + len0) =~= enc0);
        }
        lemma_p_digits_enc(s, i, n / 10, acc);
        let acc1 = acc * pow10(len0 as nat) + n / 10;
        assert(s[i + len0] == enc[len0]);
        assert(is_digit(s[i + len0]));
        assert(p_digits(s, i + len0, acc1) == p_digits(s, i + len0 + 1, acc1 * 10 + n % 10));
        assert(acc1 * 10 + n % 10 == acc * pow10(len as nat) + n) by {
            assert(pow10(len as nat) == 10 * pow10(len0 as nat));
            assert((acc * pow10(len0 as nat) + n / 10) * 10 == acc * (10 * pow10(len0 as nat)) + (n
                / 10) * 10) by (nonlinear_arith);
            assert((n / 10) * 10 + n % 10 == n);
        }
    }
}

/// Parsing the bytes `dec_u64(n)` at `i`, with no digit right after, yields
/// exactly `n` and stops right after the digits.
pub proof fn lemma_p_u64_enc(s: Seq<u8>, i: int, n: u64)
    requires
        0 <= i,
        i + dec_u64(n as nat).len() <= s.len(),
        s.subrange(i, i + dec_u64(n as nat).len() as int) == dec_u64(n as nat),
        i + dec_u64(n as nat).len() < s.len() ==> !is_digit(
            s[i + dec_u64(n as nat).len() as int],
        ),
    ensures
        p_u64(s, i) == Some((n, i + dec_u64(n as nat).len() as int)),
{
    lemma_dec_u64_shape(n as nat);
    let len = dec_u64(n as nat).len() as int;
    assert(s[i] == dec_u64(n as nat)[0]);
    lemma_p_digits_enc(s, i, n as nat, 0);
    assert(p_digits(s, i + len, n as nat) == (n as nat, i + len));
}

/// Parsing the bytes `enc_i64(n)` at `i`, with no digit right after, yields
/// exactly `n` and stops right after the encoding.
pub proof fn lemma_p_i64_enc(s: Seq<u8>, i: int, n: i64)
    requires
        0 <= i,
        i + enc_i64(n as int).len() <= s.len(),
        s.subrange(i, i + enc_i64(n as int).len() as int) == enc_i64(n as int),
        i + enc_i64(n as int).len() < s.len() ==> !is_digit(s[i + enc_i64(n as int).len() as int]),
    ensures
        p_i64(s, i) == Some((n, i + enc_i64(n as int).len() as int)),
{
    let enc = enc_i64(n as int);
    let len = enc.len() as int;
    if n < 0 {
        let mag = (-(n as int)) as nat;
        lemma_dec_u64_shape(mag);
        let dlen = dec_u64(mag).len() as int;
        assert(s[i] == enc[0]);
        assert(s.subrange(i + 1, i + 1 + dlen) == dec_u64(mag)) by {
            assert forall|k: int| 0 <= k < dlen implies s.subrange(i + 1, i + 1 + dlen)[k]
                == dec_u64(mag)[k] by {
                assert(s[i + 1 + k] == enc[1 + k]);
            }
            assert(s.subrange(i + 1, i + 1 + dlen) =~= dec_u64(mag));
        }
        assert(s[i + 1] == enc[1]);
        lemma_p_digits_enc(s, i + 1, mag, 0);
        assert(p_digits(s, i + 1 + dlen, mag) == (mag, i + 1 + dlen));
        assert(p_digits(s, i + 1, 0) == (mag, i + len));
    } else {
        lemma_dec_u64_shape(n as nat);
        assert(s[i] == enc[0]);
        assert(!(s[i] == 0x2du8));
        lemma_p_digits_enc(s, i, n as nat, 0);
        assert(p_digits(s, i + len, n as nat) == (n as nat, i + len));
    }
}

// ---------------------------------------------------------------------------
// Exec emitters for integers
// ---------------------------------------------------------------------------

/// Appends the decimal digits of `n`.
pub fn push_u64(out: &mut Vec<u8>, n: u64)
    ensures
        final(out)@ == old(out)@ + dec_u64(n as nat),
    decreases n,
{
    if n < 10 {
        out.push(0x30 + (n as u8));
    } else {
        push_u64(out, n / 10);
        out.push(0x30 + ((n % 10) as u8));
    }
}

/// Appends the signed decimal form of `n`.
pub fn push_i64(out: &mut Vec<u8>, n: i64)
    ensures
        final(out)@ == old(out)@ + enc_i64(n as int),
{
    if n < 0 {
        out.push(0x2d);
        // The magnitude of i64::MIN does not fit in an i64.
        let mag: u64 = if n == i64::MIN {
            0x8000_0000_0000_0000u64
        } else {
            (-n) as u64
        };
        push_u64(out, mag);
    } else {
        push_u64(out, n as u64);
    }
}

// ---------------------------------------------------------------------------
// Exec parsers for integers
// ---------------------------------------------------------------------------

/// Reads a maximal digit run starting at `i`, mirroring `p_digits`; `None`
/// when the accumulated value leaves `u64`.
fn parse_digits(s: &Vec<u8>, i: usize, acc: u64) -> (r: Option<(u64, usize)>)
    requires
        i <= s@.len(),
    ensures
        match r {
            Some((v, j)) => p_digits(s@, i as int, acc as nat) == (v as nat, j as int) && i <= j
                <= s@.len(),
            None => p_digits(s@, i as int, acc as nat).0 > u64::MAX,
        },
    decreases s@.len() - i,
{
    if i < s.len() && 0x30 <= s[i] && s[i] <= 0x39 {
        let d = (s[i] - 0x30) as u64;
        if acc > (u64::MAX - d) / 10 {
            proof {
                lemma_p_digits_monotone(s@, i + 1, (acc * 10 + d) as nat);
                assert(acc * 10 + d > u64::MAX) by (nonlinear_arith)
                    requires
                        acc > (u64::MAX - d) / 10,
                        d <= 9,
                ;
            }
            None
        } else {
            proof {
                assert(acc * 10 + d <= u64::MAX) by (nonlinear_arith)
                    requires
                        acc <= (u64::MAX - d) / 10,
                        d <= 9,
                ;
            }
            parse_digits(s, i + 1, acc * 10 + d)
        }
    } else {
        Some((acc, i))
    }
}

/// Exec counterpart of `p_u64`.
pub fn parse_u64(s: &Vec<u8>, i: usize) -> (r: Option<(u64, usize)>)
    requires
        i <= s@.len(),
    ensures
        match r {
            Some((v, j)) => p_u64(s@, i as int) == Some((v, j as int)) && i <= j <= s@.len(),
            None => p_u64(s@, i as int) is None,
        },
{
    if i < s.len() && 0x30 <= s[i] && s[i] <= 0x39 {
        parse_digits(s, i, 0)
    } else {
        None
    }
}

/// Exec counterpart of `p_i64`.
pub fn parse_i64(s: &Vec<u8>, i: usize) -> (r: Option<(i64, usize)>)
    requires
        i <= s@.len(),
    ensures
        match r {
            Some((v, j)) => p_i64(s@, i as int) == Some((v, j as int)) && i <= j <= s@.len(),
            None => p_i64(s@, i as int) is None,
        },
{
    if i < s.len() && s[i] == 0x2d {
        if i + 1 < s.len() && 0x30 <= s[i + 1] && s[i + 1] <= 0x39 {
            match parse_digits(s, i + 1, 0) {
                Some((v, j)) => {
                    if v <= 0x8000_0000_0000_0000 {
                        let r: i64 = if v == 0x8000_0000_0000_0000 {
                            i64::MIN
                        } else {
                            -(v as i64)
                        };
                        Some((r, j))
                    } else {
                        None
                    }
                },
                None => None,
            }
        } else {
            None
        }
    } else {
        if i < s.len() && 0x30 <= s[i] && s[i] <= 0x39 {
            match parse_digits(s, i, 0) {
                Some((v, j)) => {
                    if v <= i64::MAX as u64 {
                        Some((v as i64, j))
                    } else {
                        None
                    }
                },
                None => None,
            }
        } else {
            None
        }
    }
}

// ---------------------------------------------------------------------------
// String escaping: spec
// ---------------------------------------------------------------------------

pub open spec fn is_hex(b: u8) -> bool {
    is_digit(b) || 0x61 <= b <= 0x66
}

pub open spec fn unhexv(b: u8) -> int {
    if is_digit(b) {
        b - 0x30
    } else {
        b - 0x61 + 10
    }
}

pub open spec fn hexd(d: int) -> u8 {
    if d < 10 {
        (0x30 + d) as u8
    } else {
        (0x57 + d) as u8
    }
}

/// Four lowercase hex digits of `u`, most significant first.
pub open spec fn hex4(u: int) -> Seq<u8> {
    seq![
        hexd(u / 4096 % 16),
        hexd(u / 256 % 16),
        hexd(u / 16 % 16),
        hexd(u % 16),
    ]
}

pub open spec fn hi_surrogate(u: nat) -> int {
    0xD800 + (u - 0x10000) / 0x400
}

pub open spec fn lo_surrogate(u: nat) -> int {
    0xDC00 + (u - 0x10000) % 0x400
}

/// The bytes a single character contributes inside a quoted string:
/// printable ASCII stands for itself, everything else becomes `\u` escapes
/// (a surrogate pair for characters beyond the basic plane), so the emitted
/// form is pure ASCII.
pub open spec fn esc_char(c: char) -> Seq<u8> {
    let u = c as u32;
    if 0x20 <= u && u < 0x7F && u != 0x22 && u != 0x5C {
        seq![u as u8]
    } else if u < 0x10000 {
        seq![0x5Cu8, 0x75u8] + hex4(u as int)
    } else {
        seq![0x5Cu8, 0x75u8] + hex4(hi_surrogate(u as nat)) + seq![0x5Cu8, 0x75u8] + hex4(
            lo_surrogate(u as nat),
        )
    }
}

pub open spec fn esc_chars(t: Seq<char>) -> Seq<u8>
    decreases t.len(),
{
    if t.len() == 0 {
        Seq::empty()
    } else {
        esc_char(t[0]) + esc_chars(t.drop_first())
    }
}

/// A quoted JSON string: quote, escaped characters, quote.
pub open spec fn enc_str(t: Seq<char>) -> Seq<u8> {
    seq![0x22u8] + esc_chars(t) + seq![0x22u8]
}

pub proof fn lemma_esc_chars_snoc(t: Seq<char>, c: char)
    ensures
        esc_chars(t.push(c)) == esc_chars(t) + esc_char(c),
    decreases t.len(),
{
    if t.len() == 0 {
        assert(t.push(c).drop_first() =~= Seq::<char>::empty());
        assert(t.push(c)[0] == c);
        assert(esc_chars(t.push(c)) == esc_char(c) + esc_chars(Seq::<char>::empty()));
        assert(esc_chars(t.push(c)) =~= esc_chars(t) + esc_char(c));
    } else {
        assert(t.push(c).drop_first() =~= t.drop_first().push(c));
        assert(t.push(c)[0] == t[0]);
        lemma_esc_chars_snoc(t.drop_first(), c);
        assert(esc_chars(t.push(c)) == esc_char(t[0]) + esc_chars(t.drop_first().push(c)));
        assert(esc_chars(t.push(c)) =~= esc_chars(t) + esc_char(c));
    }
}

// ---------------------------------------------------------------------------
// String parsing: spec
// ---------------------------------------------------------------------------

pub open spec fn p_hex4(s: Seq<u8>, i: int) -> Option<int> {
    if 0 <= i && i + 4 <= s.len() && is_hex(s[i]) && is_hex(s[i + 1]) && is_hex(s[i + 2]) && is_hex(
        s[i + 3],
    ) {
        Some(unhexv(s[i]) * 4096 + unhexv(s[i + 1]) * 256 + unhexv(s[i + 2]) * 16 + unhexv(
            s[i + 3],
        ))
    } else {
        None
    }
}

/// Reads escaped characters up to and including a closing quote.
pub open spec fn p_chars(s: Seq<u8>, i: int) -> Option<(Seq<char>, int)>
    decreases s.len() - i,
{
    if !(0 <= i < s.len()) {
        None
    } else if s[i] == 0x22 {
        Some((Seq::empty(), i + 1))
    } else if s[i] == 0x5C {
        if i + 6 <= s.len() && s[i + 1] == 0x75 && p_hex4(s, i + 2) is Some {
            let h = p_hex4(s, i + 2)->Some_0;
            if h < 0xD800 || 0xE000 <= h {
                match p_chars(s, i + 6) {
                    Some((t, j)) => Some((seq![((h as u32) as char)] + t, j)),
                    None => None,
                }
            } else if h < 0xDC00 {
                if i + 12 <= s.len() && s[i + 6] == 0x5C && s[i + 7] == 0x75 && p_hex4(s, i + 8)
                    is Some {
                    let l = p_hex4(s, i + 8)->Some_0;
                    if 0xDC00 <= l && l < 0xE000 {
                        let u = 0x10000 + (h - 0xD800) * 0x400 + (l - 0xDC00);
                        match p_chars(s, i + 12) {
                            Some((t, j)) => Some((seq![((u as u32) as char)] + t, j)),
                            None => None,
                        }
                    } else {
                        None
                    }
                } else {
                    None
                }
            } else {
                None
            }
        } else {
            None
        }
    } else if 0x20 <= s[i] && s[i] < 0x7F {
        match p_chars(s, i + 1) {
            Some((t, j)) => Some((seq![((s[i] as u32) as char)] + t, j)),
            None => None,
        }
    } else {
        None
    }
}

/// A quoted string: a leading quote, then `p_chars`.
pub open spec fn p_str(s: Seq<u8>, i: int) -> Option<(Seq<char>, int)> {
    if 0 <= i < s.len() && s[i] == 0x22 {
        p_chars(s, i + 1)
    } else {
        None
    }
}

// ---------------------------------------------------------------------------
// String round-trip lemmas
// ---------------------------------------------------------------------------

pub proof fn lemma_p_hex4_enc(s: Seq<u8>, i: int, u: int)
    requires
        0 <= i,
        i + 4 <= s.len(),
        0 <= u < 0x10000,
        s.subrange(i, i + 4) == hex4(u),
    ensures
        p_hex4(s, i) == Some(u),
{
    assert(s[i] == hex4(u)[0]);
    assert(s[i + 1] == hex4(u)[1]);
    assert(s[i + 2] == hex4(u)[2]);
    assert(s[i + 3] == hex4(u)[3]);
    let d0 = u / 4096 % 16;
    let d1 = u / 256 % 16;
    let d2 = u / 16 % 16;
    let d3 = u % 16;
    assert(0 <= d0 < 16 && 0 <= d1 < 16 && 0 <= d2 < 16 && 0 <= d3 < 16);
    assert(unhexv(hexd(d0)) == d0);
    assert(unhexv(hexd(d1)) == d1);
    assert(unhexv(hexd(d2)) == d2);
    assert(unhexv(hexd(d3)) == d3);
    let v = u as u32;
    assert(v / 4096 % 16 * 4096 + v / 256 % 16 * 256 + v / 16 % 16 * 16 + v % 16 == v)
        by (bit_vector)
        requires
            v < 0x10000,
    ;
    assert(d0 == v / 4096 % 16 && d1 == v / 256 % 16 && d2 == v / 16 % 16 && d3 == v % 16);
}

/// Parsing the escaped form of `t` followed by a closing quote recovers `t`
/// exactly and stops right after the quote.
#[verifier::rlimit(60)]
pub proof fn lemma_p_chars_enc(s: Seq<u8>, i: int, t: Seq<char>)
    requires
        0 <= i,
        i + esc_chars(t).len() + 1 <= s.len(),
        s.subrange(i, i + esc_chars(t).len() + 1) == esc_chars(t) + seq![0x22u8],
    ensures
        p_chars(s, i) == Some((t, i + esc_chars(t).len() + 1)),
    decreases t.len(),
{
    let e = esc_chars(t);
    let whole = e + seq![0x22u8];
    if t.len() == 0 {
        assert(s[i] == whole[0]);
        assert(t =~= Seq::<char>::empty());
    } else {
        let c = t[0];
        let u = c as u32;
        vstd::utf8::char_is_scalar(c);
        let ec = esc_char(c);
        let rest = t.drop_first();
        assert(e == ec + esc_chars(rest));
        // Bytes of the head escape are visible at offsets from i.
        assert(forall|k: int| 0 <= k < whole.len() ==> s[i + k] == whole[k]);
        let j = i + ec.len();
        assert(s.subrange(j, j + esc_chars(rest).len() + 1) == esc_chars(rest) + seq![0x22u8])
            by {
            assert forall|k: int| 0 <= k < esc_chars(rest).len() + 1 implies s.subrange(
                j,
                j + esc_chars(rest).len() + 1,
            )[k] == (esc_chars(rest) + seq![0x22u8])[k] by {
                assert(s[j + k] == whole[ec.len() + k]);
            }
            assert(s.subrange(j, j + esc_chars(rest).len() + 1) =~= esc_chars(rest) + seq![0x22u8]);
        }
        lemma_p_chars_enc(s, j, rest);
        if 0x20 <= u && u < 0x7F && u != 0x22 && u != 0x5C {
            assert(ec =~= seq![(u as u8)]);
            assert(s[i] == whole[0] && whole[0] == ec[0]);
            assert(s[i] == (u as u8));
            assert(((s[i] as u32) as char) == c) by {
                assert((s[i] as u32) == u);
                vstd::utf8::char_u32_cast(c, u);
            }
            assert(seq![c] + rest =~= t);
        } else if u < 0x10000 {
            assert(ec =~= seq![0x5Cu8, 0x75u8] + hex4(u as int));
            assert(ec[0] == 0x5C && ec[1] == 0x75);
            assert(s[i] == whole[0] && s[i + 1] == whole[1]);
            assert(s[i] == 0x5C && s[i + 1] == 0x75);
            assert(s.subrange(i + 2, i + 6) == hex4(u as int)) by {
                assert forall|k: int| 0 <= k < 4 implies s.subrange(i + 2, i + 6)[k] == hex4(
                    u as int,
                )[k] by {
                    assert(s[i + 2 + k] == whole[2 + k]);
                }
                assert(s.subrange(i + 2, i + 6) =~= hex4(u as int));
            }
            lemma_p_hex4_enc(s, i + 2, u as int);
            assert(!(0xD800 <= u < 0xE000));
            assert((((u as nat) as u32) as char) == c) by {
                vstd::utf8::char_u32_cast(c, u);
            }
            assert(seq![c] + rest =~= t);
        } else {
            let h = hi_surrogate(u as nat);
            let l = lo_surrogate(u as nat);
            assert(u <= 0x10FFFF);
            assert(0xD800 <= h < 0xDC00 && 0xDC00 <= l < 0xE000) by {
                assert((u - 0x10000) / 0x400 <= 0x3FF) by (nonlinear_arith)
                    requires
                        0x10000 <= u <= 0x10FFFF,
                ;
            }
            assert(ec =~= seq![0x5Cu8, 0x75u8] + hex4(h) + seq![0x5Cu8, 0x75u8] + hex4(l));
            assert(ec[0] == 0x5C && ec[1] == 0x75 && ec[6] == 0x5C && ec[7] == 0x75);
            assert(s[i] == whole[0] && s[i + 1] == whole[1] && s[i + 6] == whole[6] && s[i + 7]
                == whole[7]);
            assert(s[i] == 0x5C && s[i + 1] == 0x75 && s[i + 6] == 0x5C && s[i + 7] == 0x75);
            assert(s.subrange(i + 2, i + 6) == hex4(h)) by {
                assert forall|k: int| 0 <= k < 4 implies s.subrange(i + 2, i + 6)[k] == hex4(h)[k]
                    by {
                    assert(s[i + 2 + k] == whole[2 + k]);
                }
                assert(s.subrange(i + 2, i + 6) =~= hex4(h));
            }
            assert(s.subrange(i + 8, i + 12) == hex4(l)) by {
                assert forall|k: int| 0 <= k < 4 implies s.subrange(i + 8, i + 12)[k] == hex4(l)[k]
                    by {
                    assert(s[i + 8 + k] == whole[8 + k]);
                }
                assert(s.subrange(i + 8, i + 12) =~= hex4(l));
            }
            lemma_p_hex4_enc(s, i + 2, h);
            lemma_p_hex4_enc(s, i + 8, l);
            let v = 0x10000 + (h - 0xD800) * 0x400 + (l - 0xDC00);
            assert(v == u) by {
                vstd::arithmetic::div_mod::lemma_fundamental_div_mod((u - 0x10000) as int, 0x400);
            }
            assert((((v as nat) as u32) as char) == c) by {
                vstd::utf8::char_u32_cast(c, u);
            }
            assert(seq![c] + rest =~= t);
        }
    }
}

pub proof fn lemma_p_str_enc(s: Seq<u8>, i: int, t: Seq<char>)
    requires
        0 <= i,
        i + enc_str(t).len() <= s.len(),
        s.subrange(i, i + enc_str(t).len() as int) == enc_str(t),
    ensures
        p_str(s, i) == Some((t, i + enc_str(t).len() as int)),
{
    let e = enc_str(t);
    assert(forall|k: int| 0 <= k < e.len() ==> s[i + k] == e[k]);
    assert(e[0] == 0x22);
    assert(s[i] == 0x22);
    assert(s.subrange(i + 1, i + 1 + esc_chars(t).len() + 1) == esc_chars(t) + seq![0x22u8]) by {
        assert forall|k: int| 0 <= k < esc_chars(t).len() + 1 implies s.subrange(
            i + 1,
            i + 1 + esc_chars(t).len() + 1,
        )[k] == (esc_chars(t) + seq![0x22u8])[k] by {
            assert(s[i + 1 + k] == e[1 + k]);
        }
        assert(s.subrange(i + 1, i + 1 + esc_chars(t).len() + 1) =~= esc_chars(t) + seq![0x22u8]);
    }
    lemma_p_chars_enc(s, i + 1, t);
}

// ---------------------------------------------------------------------------
// Trusted std wrappers
// ---------------------------------------------------------------------------

/// Relies on String::push: appends one character.
#[verifier::external_body]
pub fn string_push(s: &mut String, c: char)
    ensures
        final(s)@ == old(s)@.push(c),
{
    s.push(c);
}

/// Relies on char::from_u32: `Some` exactly on Unicode scalar values, and
/// the returned character has code point `v`.
#[verifier::external_body]
pub fn char_from_u32(v: u32) -> (r: Option<char>)
    ensures
        r is Some <==> (v < 0xD800 || (0xE000 <= v && v <= 0x10FFFF)),
        r matches Some(c) ==> c as u32 == v,
{
    char::from_u32(v)
}

// ---------------------------------------------------------------------------
// Exec emitters for literals and strings
// ---------------------------------------------------------------------------

/// The bytes of an ASCII character sequence, one byte per character.
pub open spec fn lit_bytes(t: Seq<char>) -> Seq<u8> {
    Seq::new(t.len(), |i: int| t[i] as u8)
}

/// Appends the bytes of an ASCII literal.
pub fn push_lit(out: &mut Vec<u8>, lit: &str)
    requires
        lit.is_ascii(),
    ensures
        final(out)@ == old(out)@ + lit_bytes(lit@),
{
    let n = lit.unicode_len();
    let mut k: usize = 0;
    while k < n
        invariant
            lit.is_ascii(),
            n == lit@.len(),
            k <= n,
            out@ == old(out)@ + lit_bytes(lit@.take(k as int)),
        decreases n - k,
    {
        let b = lit.get_ascii(k);
        out.push(b);
        assert(lit_bytes(lit@.take(k + 1)) =~= lit_bytes(lit@.take(k as int)).push(
            lit@[k as int] as u8,
        ));
        k = k + 1;
    }
    assert(lit@.take(n as int) =~= lit@);
}

fn hex_digit(d: u32) -> (r: u8)
    requires
        d < 16,
    ensures
        r == hexd(d as int),
{
    if d < 10 {
        0x30 + (d as u8)
    } else {
        0x57 + (d as u8)
    }
}

fn push_hex4(out: &mut Vec<u8>, u: u32)
    requires
        u < 0x10000,
    ensures
        final(out)@ == old(out)@ + hex4(u as int),
{
    out.push(hex_digit(u / 4096 % 16));
    out.push(hex_digit(u / 256 % 16));
    out.push(hex_digit(u / 16 % 16));
    out.push(hex_digit(u % 16));
    assert(out@ =~= old(out)@ + hex4(u as int));
}

/// Appends the escaped form of one character.
pub fn push_esc_char(out: &mut Vec<u8>, c: char)
    ensures
        final(out)@ == old(out)@ + esc_char(c),
{
    let u = c as u32;
    proof {
        vstd::utf8::char_is_scalar(c);
    }
    if 0x20 <= u && u < 0x7F && u != 0x22 && u != 0x5C {
        out.push(u as u8);
        assert(out@ =~= old(out)@ + esc_char(c));
    } else if u < 0x10000 {
        out.push(0x5C);
        out.push(0x75);
        push_hex4(out, u);
        assert(out@ =~= old(out)@ + esc_char(c));
    } else {
        let hi = 0xD800 + (u - 0x10000) / 0x400;
        let lo = 0xDC00 + (u - 0x10000) % 0x400;
        assert((u - 0x10000) / 0x400 <= 0x3FF) by (nonlinear_arith)
            requires
                0x10000 <= u <= 0x10FFFF,
        ;
        out.push(0x5C);
        out.push(0x75);
        push_hex4(out, hi);
        out.push(0x5C);
        out.push(0x75);
        push_hex4(out, lo);
        assert(hi as int == hi_surrogate(u as nat) && lo as int == lo_surrogate(u as nat));
        assert(out@ =~= old(out)@ + esc_char(c));
    }
}

/// Appends the quoted, escaped form of `s`.
pub fn push_quoted(out: &mut Vec<u8>, s: &str)
    ensures
        final(out)@ == old(out)@ + enc_str(s@),
{
    out.push(0x22);
    let n = s.unicode_len();
    let mut k: usize = 0;
    while k < n
        invariant
            n == s@.len(),
            k <= n,
            out@ == old(out)@ + seq![0x22u8] + esc_chars(s@.take(k as int)),
        decreases n - k,
    {
        let c = s.get_char(k);
        push_esc_char(out, c);
        proof {
            assert(s@.take(k + 1) =~= s@.take(k as int).push(s@[k as int]));
            lemma_esc_chars_snoc(s@.take(k as int), s@[k as int]);
        }
        k = k + 1;
    }
    out.push(0x22);
    assert(s@.take(n as int) =~= s@);
    assert(out@ =~= old(out)@ + enc_str(s@));
}

// ---------------------------------------------------------------------------
// Exec parsers for strings
// ---------------------------------------------------------------------------

/// Exec counterpart of `p_hex4`; the value is returned as a `u32`.
fn parse_hex4(s: &Vec<u8>, i: usize) -> (r: Option<u32>)
    requires
        i <= s@.len(),
    ensures
        match r {
            Some(v) => p_hex4(s@, i as int) == Some(v as int) && v < 0x10000,
            None => p_hex4(s@, i as int) is None,
        },
{
    if s.len() - i < 4 {
        return None;
    }
    let b0 = s[i];
    let b1 = s[i + 1];
    let b2 = s[i + 2];
    let b3 = s[i + 3];
    let d0 = unhex(b0);
    let d1 = unhex(b1);
    let d2 = unhex(b2);
    let d3 = unhex(b3);
    match (d0, d1, d2, d3) {
        (Some(x0), Some(x1), Some(x2), Some(x3)) => Some(
            (x0 as u32) * 4096 + (x1 as u32) * 256 + (x2 as u32) * 16 + (x3 as u32),
        ),
        _ => None,
    }
}

fn unhex(b: u8) -> (r: Option<u8>)
    ensures
        match r {
            Some(v) => is_hex(b) && v as int == unhexv(b) && v < 16,
            None => !is_hex(b),
        },
{
    if 0x30 <= b && b <= 0x39 {
        Some(b - 0x30)
    } else if 0x61 <= b && b <= 0x66 {
        Some(b - 0x61 + 10)
    } else {
        None
    }
}

/// Reads escaped characters up to a closing quote, appending them to `out`;
/// mirrors `p_chars`.
fn parse_chars_into(s: &Vec<u8>, i: usize, out: &mut String) -> (r: Option<usize>)
    requires
        i <= s@.len(),
    ensures
        match r {
            Some(j) => {
                &&& p_chars(s@, i as int) matches Some((t, jj))
                &&& p_chars(s@, i as int)->Some_0.0 == final(out)@.subrange(
                    old(out)@.len() as int,
                    final(out)@.len() as int,
                )
                &&& final(out)@.len() >= old(out)@.len()
                &&& final(out)@.subrange(0, old(out)@.len() as int) == old(out)@
                &&& p_chars(s@, i as int)->Some_0.1 == j as int
                &&& i < j <= s@.len()
            },
            None => p_chars(s@, i as int) is None,
        },
    decreases s@.len() - i, 0int,
{
    if i >= s.len() {
        return None;
    }
    let b = s[i];
    if b == 0x22 {
        assert(out@.subrange(old(out)@.len() as int, out@.len() as int) =~= Seq::<char>::empty());
        assert(out@.subrange(0, old(out)@.len() as int) =~= old(out)@);
        return Some(i + 1);
    }
    if b == 0x5C {
        if s.len() - i >= 6 && s[i + 1] == 0x75 {
            match parse_hex4(s, i + 2) {
                Some(h) => {
                    if h < 0xD800 || 0xE000 <= h {
                        let c = match char_from_u32(h) {
                            Some(c) => c,
                            None => {
                                proof {
                                    assert(false);
                                }
                                return None;
                            },
                        };
                        proof {
                            vstd::utf8::char_u32_cast(c, h);
                        }
                        string_push(out, c);
                        parse_char_rest(s, i, i + 6, out, c)
                    } else if h < 0xDC00 {
                        if s.len() - i >= 12 && s[i + 6] == 0x5C && s[i + 7] == 0x75 {
                            match parse_hex4(s, i + 8) {
                                Some(l) => {
                                    if 0xDC00 <= l && l < 0xE000 {
                                        let v = 0x10000 + (h - 0xD800) * 0x400 + (l - 0xDC00);
                                        let c = match char_from_u32(v) {
                                            Some(c) => c,
                                            None => {
                                                proof {
                                                    assert(false);
                                                }
                                                return None;
                                            },
                                        };
                                        proof {
                                            vstd::utf8::char_u32_cast(c, v);
                                        }
                                        string_push(out, c);
                                        parse_char_rest(s, i, i + 12, out, c)
                                    } else {
                                        None
                                    }
                                },
                                None => None,
                            }
                        } else {
                            None
                        }
                    } else {
                        None
                    }
                },
                None => None,
            }
        } else {
            None
        }
    } else if 0x20 <= b && b < 0x7F {
        let c = match char_from_u32(b as u32) {
            Some(c) => c,
            None => {
                proof {
                    assert(false);
                }
                return None;
            },
        };
        proof {
            vstd::utf8::char_u32_cast(c, b as u32);
        }
        string_push(out, c);
        parse_char_rest(s, i, i + 1, out, c)
    } else {
        None
    }
}

/// Continues `parse_chars_into` after one decoded character was pushed.
fn parse_char_rest(s: &Vec<u8>, i0: usize, i: usize, out: &mut String, c: char) -> (r: Option<
    usize,
>)
    requires
        i0 < i <= s@.len(),
        old(out)@.len() >= 1,
        old(out)@.last() == c,
        p_chars(s@, i0 as int) == match p_chars(s@, i as int) {
            Some((t, j)) => Some((seq![c] + t, j)),
            None => None::<(Seq<char>, int)>,
        },
    ensures
        match r {
            Some(j) => {
                &&& p_chars(s@, i0 as int) matches Some((t, jj))
                &&& p_chars(s@, i0 as int)->Some_0.0 == final(out)@.subrange(
                    old(out)@.len() - 1,
                    final(out)@.len() as int,
                )
                &&& final(out)@.len() >= old(out)@.len()
                &&& final(out)@.subrange(0, old(out)@.len() - 1) == old(out)@.subrange(
                    0,
                    old(out)@.len() - 1,
                )
                &&& p_chars(s@, i0 as int)->Some_0.1 == j as int
                &&& i0 < j <= s@.len()
            },
            None => p_chars(s@, i0 as int) is None,
        },
    decreases s@.len() - i, 1int,
{
    let r = parse_chars_into(s, i, out);
    proof {
        if r is Some {
            let t = p_chars(s@, i as int)->Some_0.0;
            let pre = old(out)@.len() - 1;
            assert(out@.subrange(pre, out@.len() as int) =~= seq![c] + t) by {
                assert(out@.subrange(0, old(out)@.len() as int) == old(out)@);
                assert(out@[pre] == old(out)@[pre]);
                assert(t == out@.subrange(old(out)@.len() as int, out@.len() as int));
            }
            assert(out@.subrange(0, pre) =~= old(out)@.subrange(0, pre)) by {
                assert(out@.subrange(0, old(out)@.len() as int) == old(out)@);
                assert forall|k: int| 0 <= k < pre implies out@[k] == old(out)@[k] by {
                    assert(out@.subrange(0, old(out)@.len() as int)[k] == old(out)@[k]);
                }
            }
        }
    }
    r
}

/// Exec counterpart of `p_str`: a quoted string starting at `i`.
pub fn parse_string(s: &Vec<u8>, i: usize) -> (r: Option<(String, usize)>)
    requires
        i <= s@.len(),
    ensures
        match r {
            Some((v, j)) => p_str(s@, i as int) == Some((v@, j as int)) && i < j <= s@.len(),
            None => p_str(s@, i as int) is None,
        },
{
    if i < s.len() && s[i] == 0x22 {
        let mut out = String::new();
        match parse_chars_into(s, i + 1, &mut out) {
            Some(j) => {
                proof {
                    let t = p_chars(s@, i + 1)->Some_0.0;
                    assert(out@.subrange(0, out@.len() as int) =~= out@);
                    assert(out@ == t);
                }
                Some((out, j))
            },
            None => None,
        }
    } else {
        None
    }
}

// ---------------------------------------------------------------------------
// Number tokens
// ---------------------------------------------------------------------------
// Metric values travel as decimal text. The scanner accepts the JSON number
// grammar (optional minus, digits, optional fraction, optional exponent) and
// returns the token verbatim, so a value re-parsed elsewhere sees the exact
// text the producer rendered.

/// The characters of a byte run, one character per byte.
pub open spec fn bytes_chars(s: Seq<u8>) -> Seq<char> {
    Seq::new(s.len(), |k: int| ((s[k] as u32) as char))
}

/// End of the maximal digit run starting at `i`.
pub open spec fn digit_run(s: Seq<u8>, i: int) -> int
    decreases s.len() - i,
{
    if 0 <= i < s.len() && is_digit(s[i]) {
        digit_run(s, i + 1)
    } else {
        i
    }
}

pub proof fn lemma_digit_run_shape(s: Seq<u8>, i: int)
    requires
        0 <= i <= s.len(),
    ensures
        i <= digit_run(s, i) <= s.len(),
        forall|k: int| i <= k < digit_run(s, i) ==> is_digit(#[trigger] s[k]),
        digit_run(s, i) < s.len() ==> !is_digit(s[digit_run(s, i)]),
    decreases s.len() - i,
{
    if 0 <= i < s.len() && is_digit(s[i]) {
        lemma_digit_run_shape(s, i + 1);
    }
}

pub proof fn lemma_digit_run_exact(s: Seq<u8>, a: int, b: int)
    requires
        0 <= a <= b <= s.len(),
        forall|k: int| a <= k < b ==> is_digit(#[trigger] s[k]),
        b < s.len() ==> !is_digit(s[b]),
    ensures
        digit_run(s, a) == b,
    decreases b - a,
{
    if a < b {
        lemma_digit_run_exact(s, a + 1, b);
    }
}

/// Scans one JSON number token starting at `i` and returns its text.
pub open spec fn p_num(s: Seq<u8>, i: int) -> Option<(Seq<char>, int)> {
    if !(0 <= i < s.len()) {
        None
    } else {
        let j0 = if s[i] == 0x2d {
            i + 1
        } else {
            i
        };
        let j1 = digit_run(s, j0);
        if j1 == j0 {
            None
        } else {
            let j2 = if j1 < s.len() && s[j1] == 0x2e {
                digit_run(s, j1 + 1)
            } else {
                j1
            };
            if j1 < s.len() && s[j1] == 0x2e && j2 == j1 + 1 {
                None
            } else {
                let j3_start = if j2 < s.len() && (s[j2] == 0x65 || s[j2] == 0x45) {
                    if j2 + 1 < s.len() && (s[j2 + 1] == 0x2b || s[j2 + 1] == 0x2d) {
                        j2 + 2
                    } else {
                        j2 + 1
                    }
                } else {
                    j2
                };
                if j2 < s.len() && (s[j2] == 0x65 || s[j2] == 0x45) {
                    let j3 = digit_run(s, j3_start);
                    if j3 == j3_start {
                        None
                    } else {
                        Some((bytes_chars(s.subrange(i, j3)), j3))
                    }
                } else {
                    Some((bytes_chars(s.subrange(i, j2)), j2))
                }
            }
        }
    }
}

/// Valid number text: ASCII characters that the token scanner accepts in
/// full, recovering the text itself.
pub open spec fn is_number_text(t: Seq<char>) -> bool {
    &&& forall|k: int| 0 <= k < t.len() ==> (#[trigger] t[k] as u32) < 0x80
    &&& p_num(lit_bytes(t), 0) == Some((t, t.len() as int))
}

/// A byte that cannot extend a complete number token.
pub open spec fn is_num_delim(b: u8) -> bool {
    !is_digit(b) && b != 0x2e && b != 0x65 && b != 0x45
}

/// A digit run is insensitive to what stands beyond its delimiter: copying
/// the run bytes into another sequence gives the same run there.
proof fn lemma_digit_run_transfer(nb: Seq<u8>, s: Seq<u8>, i: int, a: int)
    requires
        0 <= a <= nb.len(),
        0 <= i,
        i + nb.len() <= s.len(),
        forall|k: int| 0 <= k < nb.len() ==> s[i + k] == #[trigger] nb[k],
        i + nb.len() < s.len() ==> !is_digit(s[i + nb.len()]),
    ensures
        digit_run(s, i + a) == i + digit_run(nb, a),
{
    lemma_digit_run_shape(nb, a);
    let b = digit_run(nb, a);
    assert forall|k: int| i + a <= k < i + b implies is_digit(#[trigger] s[k]) by {
        assert(s[k] == nb[k - i]);
        assert(is_digit(nb[k - i]));
    }
    if i + b < s.len() {
        if b < nb.len() {
            assert(s[i + b] == nb[b]);
        }
    }
    lemma_digit_run_exact(s, i + a, i + b);
}

/// Parsing valid number text embedded before a delimiter recovers the text
/// exactly.
#[verifier::rlimit(100)]
pub proof fn lemma_p_num_enc(s: Seq<u8>, i: int, t: Seq<char>)
    requires
        is_number_text(t),
        0 <= i,
        i + t.len() <= s.len(),
        s.subrange(i, i + t.len() as int) == lit_bytes(t),
        i + t.len() < s.len() ==> is_num_delim(s[i + t.len() as int]),
    ensures
        p_num(s, i) == Some((t, i + t.len() as int)),
{
    let nb = lit_bytes(t);
    let n = nb.len() as int;
    assert(forall|k: int| 0 <= k < n ==> s[i + k] == #[trigger] nb[k]) by {
        assert(forall|k: int| 0 <= k < n ==> s.subrange(i, i + n)[k] == #[trigger] nb[k]);
    }
    assert(t.len() > 0);
    assert(s[i] == nb[0]);
    // Positions of the reference scan over nb alone; p_num(nb, 0) is Some,
    // so each stage is well formed.
    let j0r = if nb[0] == 0x2d { 1int } else { 0int };
    let j1r = digit_run(nb, j0r);
    lemma_digit_run_shape(nb, j0r);
    assert(j1r != j0r);
    lemma_digit_run_transfer(nb, s, i, j0r);
    let j2r = if j1r < n && nb[j1r] == 0x2e { digit_run(nb, j1r + 1) } else { j1r };
    if j1r < n && nb[j1r] == 0x2e {
        lemma_digit_run_shape(nb, j1r + 1);
        assert(j2r != j1r + 1);
        lemma_digit_run_transfer(nb, s, i, j1r + 1);
        assert(s[i + j1r] == nb[j1r]);
    } else {
        if j1r < n {
            assert(s[i + j1r] == nb[j1r]);
        } else if i + j1r < s.len() {
            assert(is_num_delim(s[i + j1r]));
        }
    }
    // Same characters back: nb is the byte image of the ASCII text t.
    assert(bytes_chars(nb) =~= t) by {
        assert(forall|k: int| 0 <= k < n ==> nb[k] == #[trigger] t[k] as u8);
        assert forall|k: int| 0 <= k < n implies bytes_chars(nb)[k] == t[k] by {
            assert((t[k] as u8) as u32 == t[k] as u32);
            vstd::utf8::char_u32_cast(t[k], t[k] as u32);
        }
    }
    if j2r < n && (nb[j2r] == 0x65 || nb[j2r] == 0x45) {
        assert(s[i + j2r] == nb[j2r]);
        let er = if j2r + 1 < n && (nb[j2r + 1] == 0x2b || nb[j2r + 1] == 0x2d) {
            j2r + 2
        } else {
            j2r + 1
        };
        let j3r = digit_run(nb, er);
        assert(j3r != er);
        assert(er <= n) by {
            if er > n {
                assert(digit_run(nb, er) == er);
            }
        }
        lemma_digit_run_shape(nb, er);
        assert(er < n);
        if j2r + 1 < n {
            assert(s[i + j2r + 1] == nb[j2r + 1]);
        }
        lemma_digit_run_transfer(nb, s, i, er);
        assert(j3r == n);
        assert(s.subrange(i, i + n) == nb);
    } else {
        assert(j2r == n);
        if i + j2r < s.len() {
            assert(is_num_delim(s[i + j2r]));
        }
        assert(s.subrange(i, i + n) == nb);
    }
}


/// Exec counterpart of `digit_run`.
fn scan_digits(s: &Vec<u8>, i: usize) -> (j: usize)
    requires
        i <= s@.len(),
    ensures
        j as int == digit_run(s@, i as int),
        i <= j <= s@.len(),
{
    let mut j = i;
    while j < s.len() && 0x30 <= s[j] && s[j] <= 0x39
        invariant
            i <= j <= s@.len(),
            digit_run(s@, i as int) == digit_run(s@, j as int),
        decreases s@.len() - j,
    {
        j = j + 1;
    }
    j
}

/// Exec counterpart of `p_num`: one JSON number token, returned verbatim.
pub fn parse_number(s: &Vec<u8>, i: usize) -> (r: Option<(String, usize)>)
    requires
        i <= s@.len(),
    ensures
        match r {
            Some((v, j)) => p_num(s@, i as int) == Some((v@, j as int)) && i < j <= s@.len(),
            None => p_num(s@, i as int) is None,
        },
{
    if i >= s.len() {
        return None;
    }
    let j0 = if s[i] == 0x2d {
        i + 1
    } else {
        i
    };
    let j1 = scan_digits(s, j0);
    if j1 == j0 {
        return None;
    }
    let j2 = if j1 < s.len() && s[j1] == 0x2e {
        scan_digits(s, j1 + 1)
    } else {
        j1
    };
    if j1 < s.len() && s[j1] == 0x2e && j2 == j1 + 1 {
        return None;
    }
    let j3 = if j2 < s.len() && (s[j2] == 0x65 || s[j2] == 0x45) {
        let e0 = if j2 + 1 < s.len() && (s[j2 + 1] == 0x2b || s[j2 + 1] == 0x2d) {
            j2 + 2
        } else {
            j2 + 1
        };
        let j3 = scan_digits(s, e0);
        if j3 == e0 {
            return None;
        }
        j3
    } else {
        j2
    };
    let mut out = String::new();
    let mut k = i;
    while k < j3
        invariant
            i <= k <= j3 <= s@.len(),
            out@ == bytes_chars(s@.subrange(i as int, k as int)),
        decreases j3 - k,
    {
        let c = match char_from_u32(s[k] as u32) {
            Some(c) => c,
            None => {
                proof {
                    assert(false);
                }
                return None;
            },
        };
        proof {
            vstd::utf8::char_u32_cast(c, s@[k as int] as u32);
        }
        string_push(&mut out, c);
        assert(bytes_chars(s@.subrange(i as int, k + 1)) =~= bytes_chars(
            s@.subrange(i as int, k as int),
        ).push(((s@[k as int] as u32) as char)));
        k = k + 1;
    }
    Some((out, j3))
}


/// A run of digits alone is a complete number token spelling itself.
pub proof fn lemma_p_num_digits(d: Seq<u8>)
    requires
        d.len() >= 1,
        forall|k: int| 0 <= k < d.len() ==> is_digit(#[trigger] d[k]),
    ensures
        p_num(d, 0) == Some((bytes_chars(d), d.len() as int)),
{
    lemma_digit_run_exact(d, 0, d.len() as int);
    assert(d.subrange(0, d.len() as int) =~= d);
}

/// The decimal text of `n`; the result is ASCII number text, so it can
/// stand as a metric value.
pub fn u64_string(n: u64) -> (r: String)
    ensures
        r@ == bytes_chars(dec_u64(n as nat)),
        is_number_text(r@),
{
    let mut bytes: Vec<u8> = Vec::new();
    push_u64(&mut bytes, n);
    proof {
        lemma_dec_u64_shape(n as nat);
    }
    let mut out = String::new();
    let m = bytes.len();
    let mut k: usize = 0;
    while k < m
        invariant
            m == bytes@.len(),
            bytes@ == dec_u64(n as nat),
            k <= m,
            out@ == bytes_chars(bytes@.take(k as int)),
            forall|j: int| 0 <= j < out@.len() ==> (#[trigger] out@[j] as u32) < 0x80,
            forall|j: int| 0 <= j < out@.len() ==> (#[trigger] out@[j] as u8) == bytes@[j],
        decreases m - k,
    {
        let b = bytes[k];
        let c = match char_from_u32(b as u32) {
            Some(c) => c,
            None => {
                proof {
                    assert(false);
                }
                return out;
            },
        };
        proof {
            vstd::utf8::char_u32_cast(c, b as u32);
            lemma_dec_u64_shape(n as nat);
            assert(is_digit(b));
        }
        string_push(&mut out, c);
        proof {
            assert(bytes@.take(k + 1) =~= bytes@.take(k as int).push(bytes@[k as int]));
            assert(bytes_chars(bytes@.take(k + 1)) =~= bytes_chars(bytes@.take(k as int)).push(
                ((bytes@[k as int] as u32) as char),
            ));
            assert(((bytes@[k as int] as u32) as char) == c);
        }
        k = k + 1;
    }
    proof {
        assert(bytes@.take(m as int) =~= bytes@);
        lemma_p_num_digits(bytes@);
        assert(lit_bytes(out@) =~= bytes@);
        assert(p_num(lit_bytes(out@), 0) == Some((out@, out@.len() as int)));
    }
    out
}

} // verus!
