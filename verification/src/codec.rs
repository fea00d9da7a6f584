//! The wire framing codec.
//!
//! A frame is an 8-byte little-endian length prefix followed by that many
//! bytes of body.  The body is the JSON envelope `{"kind":"...","data":"..."}`
//! with the two strings escaped as JSON requires.

use vstd::prelude::*;
use crate::NetworkPacket;

verus! {

/// The unsigned integer that a little-endian byte sequence denotes.
pub open spec fn le_value(s: Seq<u8>) -> nat
    decreases s.len(),
{
    if s.len() == 0 {
        0
    } else {
        (s[0] + 256 * le_value(s.drop_first())) as nat
    }
}

/// The `k`-byte little-endian encoding of `n mod 256^k`.
pub open spec fn le_bytes_rec(n: int, k: nat) -> Seq<u8>
    decreases k,
{
    if k == 0 {
        Seq::empty()
    } else {
        seq![(n % 256) as u8] + le_bytes_rec(n / 256, (k - 1) as nat)
    }
}

/// The 8-byte little-endian encoding of `n`.
pub open spec fn le_bytes(n: int) -> Seq<u8> {
    le_bytes_rec(n, 8)
}

/// 256 to the power `k`.
pub open spec fn pow256(k: nat) -> int
    decreases k,
{
    if k == 0 {
        1
    } else {
        256 * pow256((k - 1) as nat)
    }
}

proof fn lemma_le_value_bound(s: Seq<u8>)
    ensures
        0 <= le_value(s) < pow256(s.len()),
    decreases s.len(),
{
    if s.len() == 0 {
    } else {
        lemma_le_value_bound(s.drop_first());
        assert(0 <= le_value(s.drop_first()) < pow256((s.len() - 1) as nat));
        assert(le_value(s) == s[0] + 256 * le_value(s.drop_first()));
        assert(256 * le_value(s.drop_first()) <= 256 * (pow256((s.len() - 1) as nat) - 1))
            by (nonlinear_arith)
            requires le_value(s.drop_first()) <= pow256((s.len() - 1) as nat) - 1;
    }
}

/// An 8-byte sequence denotes a value that fits in a `u64`.
pub proof fn lemma_le_value_fits_u64(s: Seq<u8>)
    requires
        s.len() == 8,
    ensures
        0 <= le_value(s) <= u64::MAX,
{
    lemma_le_value_bound(s);
    assert(pow256(8) == 0x1_0000_0000_0000_0000) by {
        reveal_with_fuel(pow256, 9);
    }
}

proof fn lemma_le_bytes_rec_len(n: int, k: nat)
    ensures
        le_bytes_rec(n, k).len() == k,
    decreases k,
{
    if k > 0 {
        lemma_le_bytes_rec_len(n / 256, (k - 1) as nat);
    }
}

/// The length prefix always occupies exactly 8 bytes.
pub proof fn lemma_le_bytes_len(n: int)
    ensures
        le_bytes(n).len() == 8,
{
    lemma_le_bytes_rec_len(n, 8);
}

proof fn lemma_le_round_trip_rec(n: int, k: nat)
    requires
        0 <= n < pow256(k),
    ensures
        le_value(le_bytes_rec(n, k)) == n,
    decreases k,
{
    if k == 0 {
    } else {
        assert(n / 256 < pow256((k - 1) as nat)) by (nonlinear_arith)
            requires n < 256 * pow256((k - 1) as nat), 0 <= n;
        lemma_le_round_trip_rec(n / 256, (k - 1) as nat);
        let s = le_bytes_rec(n, k);
        assert(s.drop_first() =~= le_bytes_rec(n / 256, (k - 1) as nat));
    }
}

/// Decoding the encoded length prefix yields the encoded value back.
pub proof fn lemma_le_round_trip(n: int)
    requires
        0 <= n <= u64::MAX,
    ensures
        le_value(le_bytes(n)) == n,
{
    assert(pow256(8) == 0x1_0000_0000_0000_0000) by {
        reveal_with_fuel(pow256, 9);
    }
    lemma_le_round_trip_rec(n, 8);
}

/// Reads the 8-byte little-endian length prefix of a frame.
pub fn decode_header(bytes: &[u8]) -> (n: u64)
    requires
        bytes@.len() == 8,
    ensures
        n == le_value(bytes@),
{
    proof {
        lemma_le_value_fits_u64(bytes@);
    }
    let mut acc: u64 = 0;
    let mut i: usize = 0;
    while i < 8
        invariant
            0 <= i <= 8,
            bytes@.len() == 8,
            acc == le_value(bytes@.skip(8 - i as int)),
            0 <= le_value(bytes@.skip(8 - i as int)) < pow256(i as nat),
        decreases 8 - i,
    {
        let ghost k: int = 7 - i as int;
        proof {
            assert(bytes@.skip(k) =~= seq![bytes@[k]] + bytes@.skip(k + 1));
            assert(bytes@.skip(k).drop_first() =~= bytes@.skip(k + 1));
            assert(le_value(bytes@.skip(k)) == bytes@[k] + 256 * le_value(bytes@.skip(k + 1)));
            lemma_le_value_bound(bytes@.skip(k));
            assert(pow256(8) == 0x1_0000_0000_0000_0000) by {
        reveal_with_fuel(pow256, 9);
    }
            assert(bytes@.skip(k).len() == i + 1);
            assert(pow256((i + 1) as nat) <= pow256(8)) by {
                lemma_pow256_le((i + 1) as nat, 8);
            }
        }
        acc = acc * 256 + (bytes[7 - i] as u64);
        i = i + 1;
    }
    proof {
        assert(bytes@.skip(0) =~= bytes@);
    }
    acc
}

proof fn lemma_pow256_le(a: nat, b: nat)
    requires
        a <= b,
    ensures
        pow256(a) <= pow256(b),
        pow256(a) >= 1,
    decreases b,
{
    if a == b {
        lemma_pow256_pos(a);
    } else {
        lemma_pow256_le(a, (b - 1) as nat);
    }
}

proof fn lemma_pow256_pos(k: nat)
    ensures
        pow256(k) >= 1,
    decreases k,
{
    if k > 0 {
        lemma_pow256_pos((k - 1) as nat);
    }
}

/// The bytes `{"kind":"` that open the envelope.
pub open spec fn json_prefix() -> Seq<u8> {
    seq![0x7bu8, 0x22u8, 0x6bu8, 0x69u8, 0x6eu8, 0x64u8, 0x22u8, 0x3au8, 0x22u8]
}

/// The bytes `","data":"` that separate the two fields.
pub open spec fn json_mid() -> Seq<u8> {
    seq![0x22u8, 0x2cu8, 0x22u8, 0x64u8, 0x61u8, 0x74u8, 0x61u8, 0x22u8, 0x3au8, 0x22u8]
}

/// The bytes `"}` that close the envelope.
pub open spec fn json_suffix() -> Seq<u8> {
    seq![0x22u8, 0x7du8]
}

/// The lower-case hexadecimal digit for a value below 16.
pub open spec fn hex_digit(n: int) -> u8 {
    if n < 10 {
        (0x30 + n) as u8
    } else {
        (0x57 + n) as u8
    }
}

/// How one byte of a field is written inside a JSON string: quote and
/// backslash get a two-byte escape, the common control characters get their
/// short escapes, any other control character becomes `\u00xx`, and every
/// remaining byte stands for itself.
pub open spec fn escape_byte(b: u8) -> Seq<u8> {
    if b == 0x22 {
        seq![0x5cu8, 0x22u8]
    } else if b == 0x5c {
        seq![0x5cu8, 0x5cu8]
    } else if b == 0x08 {
        seq![0x5cu8, 0x62u8]
    } else if b == 0x09 {
        seq![0x5cu8, 0x74u8]
    } else if b == 0x0a {
        seq![0x5cu8, 0x6eu8]
    } else if b == 0x0c {
        seq![0x5cu8, 0x66u8]
    } else if b == 0x0d {
        seq![0x5cu8, 0x72u8]
    } else if b < 0x20 {
        seq![0x5cu8, 0x75u8, 0x30u8, 0x30u8, hex_digit(b as int / 16), hex_digit(b as int % 16)]
    } else {
        seq![b]
    }
}

/// A whole field written inside a JSON string, byte for byte.
pub open spec fn escape_seq(s: Seq<u8>) -> Seq<u8>
    decreases s.len(),
{
    if s.len() == 0 {
        Seq::empty()
    } else {
        escape_byte(s[0]) + escape_seq(s.drop_first())
    }
}

/// Escaping distributes over concatenation.
pub proof fn lemma_escape_seq_append(a: Seq<u8>, b: Seq<u8>)
    ensures
        escape_seq(a + b) == escape_seq(a) + escape_seq(b),
    decreases a.len(),
{
    if a.len() == 0 {
        assert(a + b =~= b);
        assert(escape_seq(a) + escape_seq(b) =~= escape_seq(b));
    } else {
        assert((a + b).drop_first() =~= a.drop_first() + b);
        lemma_escape_seq_append(a.drop_first(), b);
        assert(escape_seq(a + b) =~= escape_seq(a) + escape_seq(b));
    }
}

/// The envelope for a packet: `{"kind":"` K `","data":"` D `"}` with both
/// fields escaped.
pub open spec fn envelope(kind: Seq<u8>, data: Seq<u8>) -> Seq<u8> {
    json_prefix() + escape_seq(kind) + json_mid() + escape_seq(data) + json_suffix()
}

/// A whole frame: the 8-byte little-endian byte length of the envelope,
/// then the envelope itself.
pub open spec fn frame(kind: Seq<u8>, data: Seq<u8>) -> Seq<u8> {
    le_bytes(envelope(kind, data).len() as int) + envelope(kind, data)
}

fn hex_digit_exec(n: u8) -> (r: u8)
    requires
        n < 16,
    ensures
        r == hex_digit(n as int),
{
    if n < 10 {
        0x30 + n
    } else {
        0x57 + n
    }
}

fn append_escaped(out: &mut Vec<u8>, s: &[u8])
    ensures
        final(out)@ == old(out)@ + escape_seq(s@),
{
    let ghost init = out@;
    let mut i: usize = 0;
    while i < s.len()
        invariant
            0 <= i <= s@.len(),
            out@ == init + escape_seq(s@.take(i as int)),
        decreases s@.len() - i,
    {
        let b = s[i];
        let ghost before = out@;
        if b == 0x22 {
            out.push(0x5c);
            out.push(0x22);
        } else if b == 0x5c {
            out.push(0x5c);
            out.push(0x5c);
        } else if b == 0x08 {
            out.push(0x5c);
            out.push(0x62);
        } else if b == 0x09 {
            out.push(0x5c);
            out.push(0x74);
        } else if b == 0x0a {
            out.push(0x5c);
            out.push(0x6e);
        } else if b == 0x0c {
            out.push(0x5c);
            out.push(0x66);
        } else if b == 0x0d {
            out.push(0x5c);
            out.push(0x72);
        } else if b < 0x20 {
            out.push(0x5c);
            out.push(0x75);
            out.push(0x30);
            out.push(0x30);
            out.push(hex_digit_exec(b / 16));
            out.push(hex_digit_exec(b % 16));
        } else {
            out.push(b);
        }
        proof {
            assert(out@ =~= before + escape_byte(b));
            assert(s@.take(i + 1) =~= s@.take(i as int) + seq![s@[i as int]]);
            lemma_escape_seq_append(s@.take(i as int), seq![s@[i as int]]);
            assert(seq![s@[i as int]].drop_first() =~= Seq::<u8>::empty());
            assert(escape_seq(seq![s@[i as int]]) =~= escape_byte(b) + escape_seq(Seq::<u8>::empty()));
            assert(escape_seq(seq![s@[i as int]]) =~= escape_byte(b));
            assert(out@ =~= init + escape_seq(s@.take(i + 1)));
        }
        i = i + 1;
    }
    proof {
        assert(s@.take(s@.len() as int) =~= s@);
    }
}

/// Serializes the envelope `{"kind":"...","data":"..."}` for a packet.
pub fn encode_envelope(p: &NetworkPacket) -> (out: Vec<u8>)
    ensures
        out@ == envelope(p.kind@, p.data@),
{
    let mut out: Vec<u8> = Vec::new();
    out.push(0x7b);
    out.push(0x22);
    out.push(0x6b);
    out.push(0x69);
    out.push(0x6e);
    out.push(0x64);
    out.push(0x22);
    out.push(0x3a);
    out.push(0x22);
    proof {
        assert(out@ =~= json_prefix());
    }
    append_escaped(&mut out, p.kind.as_slice());
    let ghost after_kind = out@;
    out.push(0x22);
    out.push(0x2c);
    out.push(0x22);
    out.push(0x64);
    out.push(0x61);
    out.push(0x74);
    out.push(0x61);
    out.push(0x22);
    out.push(0x3a);
    out.push(0x22);
    proof {
        assert(out@ =~= after_kind + json_mid());
    }
    append_escaped(&mut out, p.data.as_slice());
    out.push(0x22);
    out.push(0x7d);
    proof {
        assert(out@ =~= envelope(p.kind@, p.data@));
    }
    out
}

/// Encodes a whole frame for a packet: length prefix, then envelope.
pub fn encode_packet(p: &NetworkPacket) -> (out: Vec<u8>)
    ensures
        out@ == frame(p.kind@, p.data@),
{
    let mut body = encode_envelope(p);
    let mut out = encode_header(body.len() as u64);
    out.append(&mut body);
    out
}

/// The bytes `,"data":"` as they stand after the quote that closes the kind.
pub open spec fn json_mid2() -> Seq<u8> {
    seq![0x2cu8, 0x22u8, 0x64u8, 0x61u8, 0x74u8, 0x61u8, 0x22u8, 0x3au8, 0x22u8]
}

/// Whether a byte is an ASCII hexadecimal digit.
pub open spec fn is_hex(b: u8) -> bool {
    (0x30 <= b && b <= 0x39) || (0x61 <= b && b <= 0x66) || (0x41 <= b && b <= 0x46)
}

/// The value of an ASCII hexadecimal digit.
pub open spec fn hex_val(b: u8) -> int {
    if 0x30 <= b && b <= 0x39 {
        b - 0x30
    } else if 0x61 <= b && b <= 0x66 {
        b - 0x61 + 10
    } else {
        b - 0x41 + 10
    }
}

/// The byte denoted by a two-character escape `\e`, if `e` is a valid
/// escape character.  `\u` is handled separately.
pub open spec fn unescape_simple(e: u8) -> Option<u8> {
    if e == 0x22 {
        Some(0x22u8)
    } else if e == 0x5c {
        Some(0x5cu8)
    } else if e == 0x2f {
        Some(0x2fu8)
    } else if e == 0x62 {
        Some(0x08u8)
    } else if e == 0x66 {
        Some(0x0cu8)
    } else if e == 0x6e {
        Some(0x0au8)
    } else if e == 0x72 {
        Some(0x0du8)
    } else if e == 0x74 {
        Some(0x09u8)
    } else {
        None
    }
}

/// Parses a JSON string body up to and including its closing quote.
/// Returns the unescaped contents and the number of bytes consumed.
/// `\uXXXX` escapes are accepted for code points up to 0x7f, whose UTF-8
/// form is the single byte itself; raw control bytes are rejected.
pub open spec fn parse_string(s: Seq<u8>) -> Option<(Seq<u8>, int)>
    decreases s.len(),
{
    if s.len() == 0 {
        None
    } else if s[0] == 0x22 {
        Some((Seq::empty(), 1))
    } else if s[0] == 0x5c {
        if s.len() < 2 {
            None
        } else if s[1] == 0x75 {
            if s.len() < 6 {
                None
            } else if is_hex(s[2]) && is_hex(s[3]) && is_hex(s[4]) && is_hex(s[5]) {
                let v = ((hex_val(s[2]) * 16 + hex_val(s[3])) * 16 + hex_val(s[4])) * 16 + hex_val(s[5]);
                if v <= 0x7f {
                    match parse_string(s.skip(6)) {
                        None => None,
                        Some(p) => Some((seq![v as u8] + p.0, 6 + p.1)),
                    }
                } else {
                    None
                }
            } else {
                None
            }
        } else {
            match unescape_simple(s[1]) {
                None => None,
                Some(b) => match parse_string(s.skip(2)) {
                    None => None,
                    Some(p) => Some((seq![b] + p.0, 2 + p.1)),
                },
            }
        }
    } else if s[0] < 0x20 {
        None
    } else {
        match parse_string(s.skip(1)) {
            None => None,
            Some(p) => Some((seq![s[0]] + p.0, 1 + p.1)),
        }
    }
}

/// Parses the envelope `{"kind":"...","data":"..."}`, yielding the two
/// unescaped fields exactly when the input is one complete envelope.
pub open spec fn parse_envelope(s: Seq<u8>) -> Option<(Seq<u8>, Seq<u8>)> {
    if s.len() < 9 || s.take(9) != json_prefix() {
        None
    } else {
        match parse_string(s.skip(9)) {
            None => None,
            Some(kp) => {
                let r1 = s.skip(9).skip(kp.1);
                if r1.len() < 9 || r1.take(9) != json_mid2() {
                    None
                } else {
                    match parse_string(r1.skip(9)) {
                        None => None,
                        Some(dp) => {
                            let r2 = r1.skip(9).skip(dp.1);
                            if r2.len() == 1 && r2[0] == 0x7d {
                                Some((kp.0, dp.0))
                            } else {
                                None
                            }
                        },
                    }
                }
            },
        }
    }
}

/// The hexadecimal digit of a value below 16 reads back as that value.
proof fn lemma_hex_digit_val(x: int)
    requires
        0 <= x < 16,
    ensures
        is_hex(hex_digit(x)),
        hex_val(hex_digit(x)) == x,
{
}

/// Parsing an escaped field followed by its closing quote yields the field
/// back and stops right after the quote, whatever follows.
pub proof fn lemma_parse_escape(c: Seq<u8>, tail: Seq<u8>)
    ensures
        parse_string(escape_seq(c) + seq![0x22u8] + tail) == Some((c, escape_seq(c).len() + 1 as int)),
    decreases c.len(),
{
    let s = escape_seq(c) + seq![0x22u8] + tail;
    if c.len() == 0 {
        assert(escape_seq(c) =~= Seq::<u8>::empty());
        assert(s =~= seq![0x22u8] + tail);
        assert(s[0] == 0x22);
        assert(parse_string(s) == Some((Seq::<u8>::empty(), 1int)));
        assert(c =~= Seq::<u8>::empty());
    } else {
        let b = c[0];
        let rest = c.drop_first();
        let srest = escape_seq(rest) + seq![0x22u8] + tail;
        lemma_parse_escape(rest, tail);
        assert(escape_seq(c) =~= escape_byte(b) + escape_seq(rest));
        assert(s =~= escape_byte(b) + srest);
        assert(seq![b] + rest =~= c);
        if b == 0x22 || b == 0x5c {
            assert(s[0] == 0x5c);
            assert(s[1] == b);
            assert(unescape_simple(s[1]) == Some(b));
            assert(s.skip(2) =~= srest);
        } else if b == 0x08 || b == 0x09 || b == 0x0a || b == 0x0c || b == 0x0d {
            assert(s[0] == 0x5c);
            assert(unescape_simple(s[1]) == Some(b));
            assert(s.skip(2) =~= srest);
        } else if b < 0x20 {
            assert(s[0] == 0x5c);
            assert(s[1] == 0x75);
            assert(s[2] == 0x30 && s[3] == 0x30);
            assert(s[4] == hex_digit(b as int / 16));
            assert(s[5] == hex_digit(b as int % 16));
            lemma_hex_digit_val(b as int / 16);
            lemma_hex_digit_val(b as int % 16);
            assert(hex_val(s[2]) == 0 && hex_val(s[3]) == 0);
            let v = ((hex_val(s[2]) * 16 + hex_val(s[3])) * 16 + hex_val(s[4])) * 16 + hex_val(s[5]);
            assert(v == (b as int / 16) * 16 + (b as int % 16));
            assert(v == b);
            assert(s.skip(6) =~= srest);
        } else {
            assert(s[0] == b);
            assert(b != 0x22 && b != 0x5c && b >= 0x20);
            assert(s.skip(1) =~= srest);
        }
    }
}

/// Decoding an encoded envelope yields the packet's two fields back.
pub proof fn lemma_envelope_round_trip(kind: Seq<u8>, data: Seq<u8>)
    ensures
        parse_envelope(envelope(kind, data)) == Some((kind, data)),
{
    let s = envelope(kind, data);
    let ek = escape_seq(kind);
    let ed = escape_seq(data);
    let tail1 = json_mid2() + ed + seq![0x22u8] + seq![0x7du8];
    assert(s.take(9) =~= json_prefix());
    assert(s.skip(9) =~= ek + seq![0x22u8] + tail1);
    lemma_parse_escape(kind, tail1);
    assert(parse_string(s.skip(9)) == Some((kind, ek.len() + 1 as int)));
    let n1 = ek.len() + 1;
    let r1 = s.skip(9).skip(n1 as int);
    assert(r1 =~= tail1);
    assert(r1.take(9) =~= json_mid2());
    let tail2 = seq![0x7du8];
    assert(r1.skip(9) =~= ed + seq![0x22u8] + tail2);
    lemma_parse_escape(data, tail2);
    assert(parse_string(r1.skip(9)) == Some((data, ed.len() + 1 as int)));
    let n2 = ed.len() + 1;
    let r2 = r1.skip(9).skip(n2 as int);
    assert(r2 =~= tail2);
    assert(r2.len() == 1 && r2[0] == 0x7d);
}

/// The packet round trip: decoding the frame written for any two fields
/// yields exactly those fields back, and the length prefix names the byte
/// length of the envelope between them.
pub proof fn lemma_frame_round_trip(kind: Seq<u8>, data: Seq<u8>)
    requires
        envelope(kind, data).len() <= u64::MAX,
    ensures
        frame(kind, data).len() == 8 + envelope(kind, data).len(),
        le_value(frame(kind, data).take(8)) == envelope(kind, data).len(),
        frame(kind, data).skip(8) == envelope(kind, data),
        parse_envelope(frame(kind, data).skip(8)) == Some((kind, data)),
{
    let e = envelope(kind, data);
    let f = frame(kind, data);
    lemma_le_bytes_len(e.len() as int);
    lemma_le_round_trip(e.len() as int);
    assert(f.take(8) =~= le_bytes(e.len() as int));
    assert(f.skip(8) =~= e);
    lemma_envelope_round_trip(kind, data);
}

fn unescape_simple_exec(e: u8) -> (r: Option<u8>)
    ensures
        r == unescape_simple(e),
{
    if e == 0x22 {
        Some(0x22)
    } else if e == 0x5c {
        Some(0x5c)
    } else if e == 0x2f {
        Some(0x2f)
    } else if e == 0x62 {
        Some(0x08)
    } else if e == 0x66 {
        Some(0x0c)
    } else if e == 0x6e {
        Some(0x0a)
    } else if e == 0x72 {
        Some(0x0d)
    } else if e == 0x74 {
        Some(0x09)
    } else {
        None
    }
}

fn is_hex_exec(b: u8) -> (r: bool)
    ensures
        r == is_hex(b),
{
    (0x30 <= b && b <= 0x39) || (0x61 <= b && b <= 0x66) || (0x41 <= b && b <= 0x46)
}

fn hex_val_exec(b: u8) -> (r: u8)
    requires
        is_hex(b),
    ensures
        r == hex_val(b),
        r < 16,
{
    if 0x30 <= b && b <= 0x39 {
        b - 0x30
    } else if 0x61 <= b && b <= 0x66 {
        b - 0x61 + 10
    } else {
        b - 0x41 + 10
    }
}

/// Whether the result of combining a prefix already read with whatever a
/// string parse of the rest yields equals the parse of the whole suffix.
/// This is the invariant that carries the iterative parser.
spec fn parse_resumes(s: Seq<u8>, from: int, acc: Seq<u8>, i: int) -> bool {
    parse_string(s.skip(from)) == (match parse_string(s.skip(i)) {
        None => None::<(Seq<u8>, int)>,
        Some(p) => Some((acc + p.0, (i - from) + p.1)),
    })
}

fn parse_string_exec(s: &[u8], from: usize) -> (r: Option<(Vec<u8>, usize)>)
    requires
        from <= s@.len(),
    ensures
        match r {
            Some(p) => parse_string(s@.skip(from as int)) == Some((p.0@, p.1 - from as int))
                && from < p.1 <= s@.len(),
            None => parse_string(s@.skip(from as int)) is None,
        },
{
    let mut acc: Vec<u8> = Vec::new();
    let mut i: usize = from;
    loop
        invariant
            from <= i <= s@.len(),
            parse_resumes(s@, from as int, acc@, i as int),
        decreases s@.len() - i,
    {
        let ghost rem = s@.skip(i as int);
        if i == s.len() {
            proof {
                assert(rem.len() == 0);
                assert(parse_string(rem) is None);
            }
            return None;
        }
        let b = s[i];
        proof {
            assert(rem[0] == s@[i as int]);
        }
        if b == 0x22 {
            proof {
                assert(parse_string(rem) == Some((Seq::<u8>::empty(), 1int)));
                assert(acc@ + Seq::<u8>::empty() =~= acc@);
            }
            return Some((acc, i + 1));
        } else if b == 0x5c {
            if s.len() - i < 2 {
                proof {
                    assert(rem.len() < 2);
                    assert(parse_string(rem) is None);
                }
                return None;
            }
            let e = s[i + 1];
            proof {
                assert(rem[1] == s@[i as int + 1]);
            }
            if e == 0x75 {
                if s.len() - i < 6 {
                    proof {
                        assert(rem.len() < 6);
                        assert(parse_string(rem) is None);
                    }
                    return None;
                }
                let h2 = s[i + 2];
                let h3 = s[i + 3];
                let h4 = s[i + 4];
                let h5 = s[i + 5];
                proof {
                    assert(rem[2] == s@[i as int + 2]);
                    assert(rem[3] == s@[i as int + 3]);
                    assert(rem[4] == s@[i as int + 4]);
                    assert(rem[5] == s@[i as int + 5]);
                }
                if !(is_hex_exec(h2) && is_hex_exec(h3) && is_hex_exec(h4) && is_hex_exec(h5)) {
                    return None;
                }
                let v: u32 = ((hex_val_exec(h2) as u32 * 16 + hex_val_exec(h3) as u32) * 16
                    + hex_val_exec(h4) as u32) * 16 + hex_val_exec(h5) as u32;
                if v > 0x7f {
                    return None;
                }
                let ghost acc0 = acc@;
                acc.push(v as u8);
                proof {
                    assert(rem.skip(6) =~= s@.skip(i as int + 6));
                    assert(acc@ =~= acc0 + seq![v as u8]);
                    assert forall|t: Seq<u8>| acc0 + (seq![v as u8] + t) =~= acc@ + t by {}
                }
                i = i + 6;
            } else {
                let ub = unescape_simple_exec(e);
                match ub {
                    None => {
                        return None;
                    },
                    Some(b2) => {
                        let ghost acc0 = acc@;
                        acc.push(b2);
                        proof {
                            assert(rem.skip(2) =~= s@.skip(i as int + 2));
                            assert(acc@ =~= acc0 + seq![b2]);
                            assert forall|t: Seq<u8>| acc0 + (seq![b2] + t) =~= acc@ + t by {}
                        }
                        i = i + 2;
                    },
                }
            }
        } else if b < 0x20 {
            proof {
                assert(parse_string(rem) is None);
            }
            return None;
        } else {
            let ghost acc0 = acc@;
            acc.push(b);
            proof {
                assert(rem.skip(1) =~= s@.skip(i as int + 1));
                assert(acc@ =~= acc0 + seq![b]);
                assert forall|t: Seq<u8>| acc0 + (seq![b] + t) =~= acc@ + t by {}
            }
            i = i + 1;
        }
    }
}

fn matches_at(s: &[u8], from: usize, pat: &[u8]) -> (r: bool)
    requires
        from + pat@.len() <= s@.len(),
    ensures
        r == (s@.subrange(from as int, from as int + pat@.len() as int) == pat@),
{
    let slen = s.len();
    let mut j: usize = 0;
    while j < pat.len()
        invariant
            0 <= j <= pat@.len(),
            from + pat@.len() <= s@.len(),
            slen == s@.len(),
            forall|jj: int| 0 <= jj < j ==> s@[from + jj] == pat@[jj],
        decreases pat@.len() - j,
    {
        if s[from + j] != pat[j] {
            proof {
                assert(s@.subrange(from as int, from as int + pat@.len() as int)[j as int]
                    != pat@[j as int]);
            }
            return false;
        }
        j = j + 1;
    }
    proof {
        assert(s@.subrange(from as int, from as int + pat@.len() as int) =~= pat@);
    }
    true
}

/// Decodes the envelope `{"kind":"...","data":"..."}` from a frame body.
/// Succeeds exactly when the body parses as one complete envelope.
pub fn decode_envelope(body: &[u8]) -> (r: Option<NetworkPacket>)
    ensures
        match r {
            Some(p) => parse_envelope(body@) == Some((p.kind@, p.data@)),
            None => parse_envelope(body@) is None,
        },
{
    let prefix_pat: [u8; 9] = [0x7b, 0x22, 0x6b, 0x69, 0x6e, 0x64, 0x22, 0x3a, 0x22];
    let mid_pat: [u8; 9] = [0x2c, 0x22, 0x64, 0x61, 0x74, 0x61, 0x22, 0x3a, 0x22];
    proof {
        assert(prefix_pat@ =~= json_prefix());
        assert(mid_pat@ =~= json_mid2());
    }
    if body.len() < 9 {
        return None;
    }
    if !matches_at(body, 0, prefix_pat.as_slice()) {
        proof {
            assert(body@.subrange(0, 9) =~= body@.take(9));
        }
        return None;
    }
    proof {
        assert(body@.subrange(0, 9) =~= body@.take(9));
    }
    let kp = parse_string_exec(body, 9);
    let (kind, i1) = match kp {
        None => {
            return None;
        },
        Some(p) => p,
    };
    proof {
        assert(body@.skip(9).skip(i1 - 9) =~= body@.skip(i1 as int));
    }
    if body.len() - i1 < 9 {
        proof {
            assert(body@.skip(i1 as int).len() < 9);
        }
        return None;
    }
    if !matches_at(body, i1, mid_pat.as_slice()) {
        proof {
            assert(body@.subrange(i1 as int, i1 as int + 9) =~= body@.skip(i1 as int).take(9));
        }
        return None;
    }
    proof {
        assert(body@.subrange(i1 as int, i1 as int + 9) =~= body@.skip(i1 as int).take(9));
    }
    let dp = parse_string_exec(body, i1 + 9);
    let (data, i2) = match dp {
        None => {
            proof {
                assert(body@.skip(i1 as int).skip(9) =~= body@.skip(i1 as int + 9));
            }
            return None;
        },
        Some(p) => p,
    };
    proof {
        assert(body@.skip(i1 as int).skip(9) =~= body@.skip(i1 as int + 9));
        assert(body@.skip(i1 as int).skip(9).skip(i2 - (i1 + 9)) =~= body@.skip(i2 as int));
    }
    if body.len() - i2 == 1 && body[i2] == 0x7d {
        proof {
            assert(body@.skip(i2 as int).len() == 1);
            assert(body@.skip(i2 as int)[0] == 0x7d);
        }
        Some(NetworkPacket { kind, data })
    } else {
        proof {
            let r2 = body@.skip(i2 as int);
            if r2.len() == 1 {
                assert(r2[0] == body@[i2 as int]);
            }
        }
        None
    }
}

/// Writes the 8-byte little-endian length prefix for a body of `n` bytes.
pub fn encode_header(n: u64) -> (out: Vec<u8>)
    ensures
        out@ == le_bytes(n as int),
        out@.len() == 8,
{
    let mut out: Vec<u8> = Vec::new();
    let mut m: u64 = n;
    let mut i: usize = 0;
    while i < 8
        invariant
            0 <= i <= 8,
            le_bytes(n as int) == out@ + le_bytes_rec(m as int, (8 - i) as nat),
            out@.len() == i,
        decreases 8 - i,
    {
        proof {
            assert(le_bytes_rec(m as int, (8 - i) as nat)
                =~= seq![(m as int % 256) as u8] + le_bytes_rec(m as int / 256, (8 - i - 1) as nat));
        }
        out.push((m % 256) as u8);
        m = m / 256;
        i = i + 1;
        proof {
            assert(le_bytes(n as int) =~= out@ + le_bytes_rec(m as int, (8 - i) as nat));
        }
    }
    proof {
        assert(le_bytes(n as int) =~= out@);
        lemma_le_bytes_len(n as int);
    }
    out
}

} // verus!
