//! The unpadded base64url encoding used for bundles inside actor exchange
//! artifacts (RFC 4648 section 5 alphabet, no `=` padding).

use vstd::prelude::*;
use vstd::utf8::*;
use crate::text::{is_ascii_whitespace_byte, push_char};

verus! {

/// The ASCII byte of the base64url symbol for a six-bit value.
pub open spec fn symbol_byte(v: int) -> u8 {
    if v < 26 {
        (65 + v) as u8
    } else if v < 52 {
        (71 + v) as u8
    } else if v < 62 {
        (v - 4) as u8
    } else if v == 62 {
        45u8
    } else {
        95u8
    }
}

/// The six-bit value of a base64url symbol byte; `None` for any other byte.
pub open spec fn sextet_value(b: u8) -> Option<u8> {
    if 65 <= b <= 90 {
        Some((b - 65) as u8)
    } else if 97 <= b <= 122 {
        Some((b - 71) as u8)
    } else if 48 <= b <= 57 {
        Some((b + 4) as u8)
    } else if b == 45 {
        Some(62u8)
    } else if b == 95 {
        Some(63u8)
    } else {
        None
    }
}

/// Number of symbols in the unpadded encoding of `n` bytes.
pub open spec fn encoded_len(n: int) -> int {
    (4 * n + 2) / 3
}

/// The `k`-th six-bit group of the encoding of `b`: every three bytes give
/// four groups, and a short final block is filled with zero bits.
pub open spec fn encoded_sextet(b: Seq<u8>, k: int) -> int {
    let g = k / 4;
    let r = k % 4;
    let b0 = b[3 * g] as int;
    let b1 = if 3 * g + 1 < b.len() { b[3 * g + 1] as int } else { 0 };
    let b2 = if 3 * g + 2 < b.len() { b[3 * g + 2] as int } else { 0 };
    if r == 0 {
        b0 / 4
    } else if r == 1 {
        (b0 % 4) * 16 + b1 / 16
    } else if r == 2 {
        (b1 % 16) * 4 + b2 / 64
    } else {
        b2 % 64
    }
}

/// The unpadded base64url text of `b`.
pub open spec fn encode_spec(b: Seq<u8>) -> Seq<char> {
    Seq::new(
        encoded_len(b.len() as int) as nat,
        |k: int| symbol_byte(encoded_sextet(b, k)) as char,
    )
}

/// The six-bit values of the symbols of `text`, or `None` when a byte is not
/// a base64url symbol. With `skip_whitespace`, ASCII whitespace is ignored.
pub open spec fn sextets_of(text: Seq<u8>, skip_whitespace: bool) -> Option<Seq<u8>>
    decreases text.len(),
{
    if text.len() == 0 {
        Some(Seq::empty())
    } else if skip_whitespace && is_ascii_whitespace_byte(text[0]) {
        sextets_of(text.drop_first(), skip_whitespace)
    } else {
        match sextet_value(text[0]) {
            None => None,
            Some(v) => match sextets_of(text.drop_first(), skip_whitespace) {
                None => None,
                Some(rest) => Some(seq![v] + rest),
            },
        }
    }
}

/// Number of whole bytes carried by `m` six-bit groups.
pub open spec fn decoded_len(m: int) -> int {
    3 * m / 4
}

/// The `j`-th byte carried by the six-bit groups `v`; bits left over after
/// the last whole byte are dropped.
pub open spec fn decoded_byte(v: Seq<u8>, j: int) -> u8 {
    let g = j / 3;
    let r = j % 3;
    if r == 0 {
        (v[4 * g] * 4 + v[4 * g + 1] / 16) as u8
    } else if r == 1 {
        ((v[4 * g + 1] % 16) * 16 + v[4 * g + 2] / 4) as u8
    } else {
        ((v[4 * g + 2] % 4) * 64 + v[4 * g + 3]) as u8
    }
}

/// The bytes carried by a sequence of six-bit groups.
pub open spec fn bytes_of_sextets(v: Seq<u8>) -> Seq<u8> {
    Seq::new(decoded_len(v.len() as int) as nat, |j: int| decoded_byte(v, j))
}

/// Decoding of the UTF-8 bytes of a base64url text.
pub open spec fn decode_spec(text: Seq<u8>, skip_whitespace: bool) -> Option<Seq<u8>> {
    match sextets_of(text, skip_whitespace) {
        Some(v) => Some(bytes_of_sextets(v)),
        None => None,
    }
}

fn symbol(v: u8) -> (c: char)
    requires
        v < 64,
    ensures
        c == symbol_byte(v as int) as char,
{
    if v < 26 {
        (65 + v) as char
    } else if v < 52 {
        (71 + v) as char
    } else if v < 62 {
        (v - 4) as char
    } else if v == 62 {
        '-'
    } else {
        '_'
    }
}

proof fn lemma_first_group_bits(b0: u8, b1: u8)
    ensures
        (b0 >> 2u8) as int == b0 as int / 4,
        (((b0 & 3u8) << 4u8) | (b1 >> 4u8)) as int == (b0 as int % 4) * 16 + b1 as int / 16,
        (((b0 & 3u8) << 4u8) | (b1 >> 4u8)) < 64,
        (b0 >> 2u8) < 64,
{
    assert((b0 >> 2u8) == b0 / 4) by (bit_vector);
    assert((((b0 & 3u8) << 4u8) | (b1 >> 4u8)) == (b0 % 4) * 16 + b1 / 16) by (bit_vector);
    assert((((b0 & 3u8) << 4u8) | (b1 >> 4u8)) < 64) by (bit_vector);
    assert((b0 >> 2u8) < 64) by (bit_vector);
}

proof fn lemma_second_group_bits(b1: u8, b2: u8)
    ensures
        (((b1 & 15u8) << 2u8) | (b2 >> 6u8)) as int == (b1 as int % 16) * 4 + b2 as int / 64,
        (((b1 & 15u8) << 2u8) | (b2 >> 6u8)) < 64,
        (b2 & 63u8) as int == b2 as int % 64,
        (b2 & 63u8) < 64,
{
    assert((((b1 & 15u8) << 2u8) | (b2 >> 6u8)) == (b1 % 16) * 4 + b2 / 64) by (bit_vector);
    assert((((b1 & 15u8) << 2u8) | (b2 >> 6u8)) < 64) by (bit_vector);
    assert((b2 & 63u8) == b2 % 64) by (bit_vector);
    assert((b2 & 63u8) < 64) by (bit_vector);
}

/// Encodes `bytes` as unpadded base64url text.
pub fn encode_base64url(bytes: &[u8]) -> (out: String)
    ensures
        out@ == encode_spec(bytes@),
{
    let ghost b = bytes@;
    let len = bytes.len();
    let mut out = String::new();
    let mut index: usize = 0;
    let ghost mut g: int = 0;
    while index < len
        invariant
            len == b.len(),
            b == bytes@,
            index <= len,
            index < len ==> index == 3 * g,
            0 <= g,
            index < len ==> out@ =~= encode_spec(b).take(4 * g),
            index == len ==> out@ =~= encode_spec(b),
        decreases len - index,
    {
        let b0 = bytes[index];
        let b1: u8 = if index + 1 < len { bytes[index + 1] } else { 0 };
        let b2: u8 = if index + 2 < len { bytes[index + 2] } else { 0 };
        proof {
            lemma_first_group_bits(b0, b1);
            lemma_second_group_bits(b1, b2);
        }
        let ghost before = out@;
        let c0 = symbol(b0 >> 2);
        let c1 = symbol(((b0 & 0x03) << 4) | (b1 >> 4));
        push_char(&mut out, c0);
        push_char(&mut out, c1);
        if index + 1 < len {
            let c2 = symbol(((b1 & 0x0f) << 2) | (b2 >> 6));
            push_char(&mut out, c2);
        }
        if index + 2 < len {
            let c3 = symbol(b2 & 0x3f);
            push_char(&mut out, c3);
        }
        let ghost count: int = if index + 2 < len { 4 } else if index + 1 < len { 3 } else { 2 };
        proof {
            assert((4 * g) / 4 == g && (4 * g + 1) / 4 == g && (4 * g + 2) / 4 == g && (4 * g
                + 3) / 4 == g);
            assert((4 * g) % 4 == 0 && (4 * g + 1) % 4 == 1 && (4 * g + 2) % 4 == 2 && (4 * g
                + 3) % 4 == 3);
            assert(encoded_len(index + (if len - index > 3 { 3int } else { len - index })) == 4 * g
                + count);
        }
        if len - index > 3 {
            index = index + 3;
            proof {
                g = g + 1;
                assert(out@ =~= encode_spec(b).take(4 * g));
            }
        } else {
            index = len;
            proof {
                assert(out@ =~= encode_spec(b));
            }
        }
    }
    out
}

fn sextet(b: u8) -> (r: Option<u32>)
    ensures
        match sextet_value(b) {
            Some(v) => r == Some(v as u32),
            None => r is None,
        },
{
    if b >= 65 && b <= 90 {
        Some((b - 65) as u32)
    } else if b >= 97 && b <= 122 {
        Some((b - 71) as u32)
    } else if b >= 48 && b <= 57 {
        Some((b + 4) as u32)
    } else if b == 45 {
        Some(62)
    } else if b == 95 {
        Some(63)
    } else {
        None
    }
}

/// What the low bits of the bit buffer hold after `done` has been consumed.
spec fn pending_ok(done: Seq<u8>, bits: u32, bit_count: u8) -> bool {
    let q = done.len() % 4;
    &&& q == 0 ==> bit_count == 0
    &&& q == 1 ==> bit_count == 6 && (bits & 63u32) == done.last() as u32
    &&& q == 2 ==> bit_count == 4 && (bits & 15u32) == (done.last() % 16) as u32
    &&& q == 3 ==> bit_count == 2 && (bits & 3u32) == (done.last() % 4) as u32
}

proof fn lemma_bits_step(bits: u32, v: u32)
    requires
        v < 64,
    ensures
        (((bits << 6u32) | v) & 63u32) == v,
        (((bits << 6u32) | v) & 15u32) == v % 16,
        (((bits << 6u32) | v) & 3u32) == v % 4,
        ((((bits << 6u32) | v) >> 4u32) & 255u32) == (bits & 63u32) * 4 + v / 16,
        ((((bits << 6u32) | v) >> 2u32) & 255u32) == (bits & 15u32) * 16 + v / 4,
        ((((bits << 6u32) | v) >> 0u32) & 255u32) == (bits & 3u32) * 64 + v,
        (bits & 63u32) * 4 + v / 16 < 256,
        (bits & 15u32) * 16 + v / 4 < 256,
        (bits & 3u32) * 64 + v < 256,
{
    assert(v < 64 ==> (((bits << 6u32) | v) & 63u32) == v) by (bit_vector);
    assert(v < 64 ==> (((bits << 6u32) | v) & 15u32) == v % 16) by (bit_vector);
    assert(v < 64 ==> (((bits << 6u32) | v) & 3u32) == v % 4) by (bit_vector);
    assert(v < 64 ==> ((((bits << 6u32) | v) >> 4u32) & 255u32) == (bits & 63u32) * 4 + v / 16)
        by (bit_vector);
    assert(v < 64 ==> ((((bits << 6u32) | v) >> 2u32) & 255u32) == (bits & 15u32) * 16 + v / 4)
        by (bit_vector);
    assert(v < 64 ==> ((((bits << 6u32) | v) >> 0u32) & 255u32) == (bits & 3u32) * 64 + v)
        by (bit_vector);
    assert(v < 64 ==> (bits & 63u32) * 4 + v / 16 < 256) by (bit_vector);
    assert(v < 64 ==> (bits & 15u32) * 16 + v / 4 < 256) by (bit_vector);
    assert(v < 64 ==> (bits & 3u32) * 64 + v < 256) by (bit_vector);
}

proof fn lemma_bytes_of_sextets_push(done: Seq<u8>, v: u8)
    ensures
        done.len() % 4 == 0 ==> bytes_of_sextets(done.push(v)) =~= bytes_of_sextets(done),
        done.len() % 4 != 0 ==> bytes_of_sextets(done.push(v)) =~= bytes_of_sextets(done).push(
            decoded_byte(done.push(v), decoded_len(done.len() as int)),
        ),
{
    let m = done.len() as int;
    let nv = done.push(v);
    assert(decoded_len(m + 1) == decoded_len(m) + (if m % 4 == 0 { 0int } else { 1int }));
    assert forall|j: int| 0 <= j < decoded_len(m) implies decoded_byte(nv, j) == decoded_byte(
        done,
        j,
    ) by {
        assert(4 * (j / 3) + j % 3 + 1 < m);
    }
}

/// Decodes base64url symbols into bytes with a six-bit accumulator.
fn decode_symbols(text: &[u8], skip_whitespace: bool) -> (res: Option<Vec<u8>>)
    ensures
        match res {
            Some(out) => decode_spec(text@, skip_whitespace) == Some(out@),
            None => decode_spec(text@, skip_whitespace) is None,
        },
{
    let mut bits: u32 = 0;
    let mut bit_count: u8 = 0;
    let mut output: Vec<u8> = Vec::new();
    let mut i: usize = 0;
    let ghost mut done: Seq<u8> = Seq::empty();
    assert(text@.skip(0) =~= text@);
    while i < text.len()
        invariant
            i <= text@.len(),
            sextets_of(text@, skip_whitespace) == (match sextets_of(
                text@.skip(i as int),
                skip_whitespace,
            ) {
                Some(r) => Some(done + r),
                None => None,
            }),
            forall|k: int| 0 <= k < done.len() ==> #[trigger] done[k] < 64,
            pending_ok(done, bits, bit_count),
            output@ == bytes_of_sextets(done),
        decreases text@.len() - i,
    {
        let byte = text[i];
        let ghost rest = text@.skip(i as int);
        assert(rest[0] == byte);
        assert(rest.drop_first() =~= text@.skip(i + 1));
        if skip_whitespace && (byte == 0x20 || byte == 0x09 || byte == 0x0a || byte == 0x0c || byte
            == 0x0d) {
            i = i + 1;
            continue ;
        }
        let value = match sextet(byte) {
            Some(v) => v,
            None => {
                return None;
            },
        };
        proof {
            lemma_bits_step(bits, value);
            lemma_bytes_of_sextets_push(done, value as u8);
            assert(done + (seq![value as u8] + text@.skip(i + 1)) =~= done.push(value as u8)
                + text@.skip(i + 1));
        }
        let ghost q = done.len() % 4;
        let ghost old_bits = bits;
        bits = (bits << 6) | value;
        bit_count = bit_count + 6;
        if bit_count >= 8 {
            bit_count = bit_count - 8;
            let out = ((bits >> bit_count) & 0xff) as u8;
            proof {
                if q == 1 {
                    assert(bit_count == 4);
                    assert(out as int == (old_bits & 63u32) * 4 + value / 16);
                } else if q == 2 {
                    assert(bit_count == 2);
                } else {
                    assert(bit_count == 0);
                }
            }
            output.push(out);
        }
        proof {
            done = done.push(value as u8);
        }
        i = i + 1;
    }
    assert(text@.skip(i as int) =~= Seq::<u8>::empty());
    assert(done + Seq::<u8>::empty() =~= done);
    Some(output)
}

/// Decodes unpadded base64url text, ignoring ASCII whitespace; `None` when
/// any other byte is not a base64url symbol.
pub fn decode_base64url(value: &str) -> (res: Option<Vec<u8>>)
    ensures
        match res {
            Some(out) => decode_spec(encode_utf8(value@), true) == Some(out@),
            None => decode_spec(encode_utf8(value@), true) is None,
        },
{
    decode_symbols(value.as_bytes(), true)
}

/// Decodes unpadded base64url text; `None` when any byte, whitespace
/// included, is not a base64url symbol.
pub fn decode_base64url_strict(value: &str) -> (res: Option<Vec<u8>>)
    ensures
        match res {
            Some(out) => decode_spec(encode_utf8(value@), false) == Some(out@),
            None => decode_spec(encode_utf8(value@), false) is None,
        },
{
    decode_symbols(value.as_bytes(), false)
}

proof fn lemma_symbol_roundtrip(v: int)
    requires
        0 <= v < 64,
    ensures
        sextet_value(symbol_byte(v)) == Some(v as u8),
        !is_ascii_whitespace_byte(symbol_byte(v)),
        symbol_byte(v) < 128,
{
}

proof fn lemma_encoded_sextet_range(b: Seq<u8>, k: int)
    requires
        0 <= k < encoded_len(b.len() as int),
    ensures
        3 * (k / 4) < b.len(),
        0 <= encoded_sextet(b, k) < 64,
{
    assert(3 * (k / 4) < b.len()) by (nonlinear_arith)
        requires
            0 <= k,
            k < (4 * b.len() + 2) / 3,
    ;
}

/// Symbols that are all base64url symbols decode to their six-bit values.
proof fn lemma_sextets_of_symbols(t: Seq<u8>, vals: Seq<u8>, skip_whitespace: bool)
    requires
        t.len() == vals.len(),
        forall|i: int| 0 <= i < t.len() ==> #[trigger] vals[i] < 64 && t[i] == symbol_byte(
            vals[i] as int,
        ),
    ensures
        sextets_of(t, skip_whitespace) == Some(vals),
    decreases t.len(),
{
    if t.len() > 0 {
        lemma_symbol_roundtrip(vals[0] as int);
        lemma_sextets_of_symbols(t.drop_first(), vals.drop_first(), skip_whitespace);
        assert(seq![vals[0]] + vals.drop_first() =~= vals);
    } else {
        assert(vals =~= Seq::<u8>::empty());
    }
}

proof fn lemma_regroup(b0: int, b1: int, b2: int)
    requires
        0 <= b0 < 256,
        0 <= b1 < 256,
        0 <= b2 < 256,
    ensures
        (b0 / 4) * 4 + ((b0 % 4) * 16 + b1 / 16) / 16 == b0,
        (((b0 % 4) * 16 + b1 / 16) % 16) * 16 + ((b1 % 16) * 4 + b2 / 64) / 4 == b1,
        (((b1 % 16) * 4 + b2 / 64) % 4) * 64 + b2 % 64 == b2,
{
}

/// Decoding the text that `encode_base64url` writes gives back the bytes,
/// whether or not whitespace is skipped.
pub proof fn law_decode_encode_roundtrip(b: Seq<u8>, skip_whitespace: bool)
    ensures
        decode_spec(encode_utf8(encode_spec(b)), skip_whitespace) == Some(b),
{
    let chars = encode_spec(b);
    let m = encoded_len(b.len() as int);
    let vals = Seq::new(m as nat, |k: int| encoded_sextet(b, k) as u8);
    assert forall|k: int| 0 <= k < m implies #[trigger] vals[k] < 64 && symbol_byte(
        vals[k] as int,
    ) < 128 by {
        lemma_encoded_sextet_range(b, k);
        lemma_symbol_roundtrip(encoded_sextet(b, k));
    }
    assert(is_ascii_chars(chars)) by {
        assert forall|k: int| 0 <= k < chars.len() implies '\0' <= #[trigger] chars[k] <= '\u{7f}' by {
            lemma_encoded_sextet_range(b, k);
            lemma_symbol_roundtrip(encoded_sextet(b, k));
        }
    }
    is_ascii_chars_encode_utf8(chars);
    let t = encode_utf8(chars);
    assert forall|i: int| 0 <= i < t.len() implies #[trigger] vals[i] < 64 && t[i] == symbol_byte(
        vals[i] as int,
    ) by {
        lemma_encoded_sextet_range(b, i);
        assert(chars[i] as u8 == t[i]);
    }
    lemma_sextets_of_symbols(t, vals, skip_whitespace);
    let n = b.len() as int;
    assert(decoded_len(m) == n) by {
        assert(n % 3 == 0 || n % 3 == 1 || n % 3 == 2);
    }
    assert forall|j: int| 0 <= j < n implies #[trigger] decoded_byte(vals, j) == b[j] by {
        let g = j / 3;
        assert(4 * g + (j % 3) + 1 < m);
        let b0 = b[3 * g] as int;
        let b1 = if 3 * g + 1 < n { b[3 * g + 1] as int } else { 0 };
        let b2 = if 3 * g + 2 < n { b[3 * g + 2] as int } else { 0 };
        lemma_regroup(b0, b1, b2);
        assert((4 * g) / 4 == g && (4 * g + 1) / 4 == g && (4 * g + 2) / 4 == g && (4 * g + 3) / 4
            == g);
        assert((4 * g) % 4 == 0 && (4 * g + 1) % 4 == 1 && (4 * g + 2) % 4 == 2 && (4 * g + 3) % 4
            == 3);
        if j % 3 == 2 {
            assert(4 * g + 3 < m);
        }
    }
    assert(bytes_of_sextets(vals) =~= b);
}

/// Decoding with whitespace skipped ignores a whitespace byte wherever it is
/// inserted into the text.
pub proof fn law_decode_ignores_inserted_whitespace(a: Seq<u8>, w: u8, c: Seq<u8>)
    requires
        is_ascii_whitespace_byte(w),
    ensures
        decode_spec(a + seq![w] + c, true) == decode_spec(a + c, true),
{
    lemma_sextets_insert(a, w, c);
}

proof fn lemma_sextets_insert(a: Seq<u8>, w: u8, c: Seq<u8>)
    requires
        is_ascii_whitespace_byte(w),
    ensures
        sextets_of(a + seq![w] + c, true) == sextets_of(a + c, true),
    decreases a.len(),
{
    if a.len() == 0 {
        assert(a + seq![w] + c =~= seq![w] + c);
        assert((seq![w] + c).drop_first() =~= c);
        assert(a + c =~= c);
    } else {
        lemma_sextets_insert(a.drop_first(), w, c);
        assert((a + seq![w] + c).drop_first() =~= a.drop_first() + seq![w] + c);
        assert((a + c).drop_first() =~= a.drop_first() + c);
        assert((a + seq![w] + c)[0] == a[0]);
        assert((a + c)[0] == a[0]);
    }
}

/// A character a bundle's text may hold: a base64url symbol or ASCII
/// whitespace.
pub open spec fn bundle_char(c: char) -> bool {
    ('A' <= c <= 'Z') || ('a' <= c <= 'z') || ('0' <= c <= '9') || c == '-' || c == '_'
        || c == ' ' || c == '\t' || c == '\n' || c == '\x0C' || c == '\r'
}

/// Text made only of base64url symbols and ASCII whitespace, of any length.
pub open spec fn base64url_text(text: Seq<char>) -> bool {
    forall|i: int| 0 <= i < text.len() ==> bundle_char(#[trigger] text[i])
}

proof fn lemma_symbol_bytes_decode(b: Seq<u8>)
    requires
        forall|i: int|
            0 <= i < b.len() ==> is_ascii_whitespace_byte(#[trigger] b[i]) || sextet_value(b[i])
                is Some,
    ensures
        sextets_of(b, true) is Some,
    decreases b.len(),
{
    if b.len() > 0 {
        assert forall|i: int| 0 <= i < b.drop_first().len() implies is_ascii_whitespace_byte(
            #[trigger] b.drop_first()[i],
        ) || sextet_value(b.drop_first()[i]) is Some by {
            assert(b.drop_first()[i] == b[i + 1]);
        }
        lemma_symbol_bytes_decode(b.drop_first());
        assert(is_ascii_whitespace_byte(b[0]) || sextet_value(b[0]) is Some);
    }
}

/// Any text of base64url symbols and ASCII whitespace decodes, whatever its
/// length, when whitespace is skipped.
pub proof fn law_base64url_text_decodes(text: Seq<char>)
    requires
        base64url_text(text),
    ensures
        decode_spec(encode_utf8(text), true) is Some,
{
    broadcast use is_ascii_chars_encode_utf8;

    assert(is_ascii_chars(text)) by {
        assert forall|i: int| 0 <= i < text.len() implies '\0' <= #[trigger] text[i] <= '\u{7f}' by {
            assert(bundle_char(text[i]));
        }
    }
    let b = encode_utf8(text);
    assert forall|i: int| 0 <= i < b.len() implies is_ascii_whitespace_byte(#[trigger] b[i])
        || sextet_value(b[i]) is Some by {
        assert(b[i] == text[i] as u8);
        assert(bundle_char(text[i]));
    }
    lemma_symbol_bytes_decode(b);
}

/// The text `encode_base64url` writes is made of base64url symbols.
pub proof fn lemma_encoded_text_is_base64url(b: Seq<u8>)
    ensures
        base64url_text(encode_spec(b)),
{
    let t = encode_spec(b);
    assert forall|k: int| 0 <= k < t.len() implies bundle_char(#[trigger] t[k]) by {
        lemma_encoded_sextet_range(b, k);
        let v = encoded_sextet(b, k);
        assert(t[k] == symbol_byte(v) as char);
    }
}

} // verus!
