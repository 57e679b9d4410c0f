//! UUIDs as 128-bit integers, with the text forms that the `uuid` crate
//! reads and writes.

use vstd::prelude::*;
use vstd::utf8::*;
use crate::text::str_eq;

verus! {

pub open spec fn pow16(e: nat) -> int
    decreases e,
{
    if e == 0 {
        1
    } else {
        16 * pow16((e - 1) as nat)
    }
}

/// Lowercase hexadecimal digit for `0 <= n < 16`.
pub open spec fn hex_digit(n: int) -> char {
    if n < 10 {
        (48 + n) as char
    } else {
        (87 + n) as char
    }
}

/// The `k`-th of the 32 hexadecimal digits of `v`, most significant first.
pub open spec fn nibble(v: u128, k: int) -> int {
    (v as int / pow16((31 - k) as nat)) % 16
}

/// The lowercase hyphenated text of a UUID, `xxxxxxxx-xxxx-xxxx-xxxx-xxxxxxxxxxxx`.
pub open spec fn uuid_hyphenated(v: u128) -> Seq<char> {
    Seq::new(
        36,
        |p: int|
            if p == 8 || p == 13 || p == 18 || p == 23 {
                '-'
            } else {
                let k = if p < 8 {
                    p
                } else if p < 13 {
                    p - 1
                } else if p < 18 {
                    p - 2
                } else if p < 23 {
                    p - 3
                } else {
                    p - 4
                };
                hex_digit(nibble(v, k))
            },
    )
}

/// The value of an ASCII hexadecimal digit, either case.
pub open spec fn hex_value(b: u8) -> Option<int> {
    if 48 <= b <= 57 {
        Some(b - 48)
    } else if 97 <= b <= 102 {
        Some(b - 87)
    } else if 65 <= b <= 70 {
        Some(b - 55)
    } else {
        None
    }
}

/// The number written by a run of hexadecimal digits, most significant first.
pub open spec fn hex_number(s: Seq<u8>) -> Option<int>
    decreases s.len(),
{
    if s.len() == 0 {
        Some(0)
    } else {
        match (hex_number(s.drop_last()), hex_value(s.last())) {
            (Some(high), Some(low)) => Some(high * 16 + low),
            _ => None,
        }
    }
}

/// A hyphenated UUID: 36 bytes with hyphens at 8, 13, 18 and 23 and
/// hexadecimal digits elsewhere.
pub open spec fn hyphenated_number(s: Seq<u8>) -> Option<int> {
    if s.len() == 36 && s[8] == 45 && s[13] == 45 && s[18] == 45 && s[23] == 45 {
        hex_number(s.take(8) + s.subrange(9, 13) + s.subrange(14, 18) + s.subrange(19, 23) + s.skip(24))
    } else {
        None
    }
}

/// ASCII lowercase of a byte.
pub open spec fn ascii_lower_byte(b: u8) -> u8 {
    if 65 <= b <= 90 {
        (b + 32) as u8
    } else {
        b
    }
}

/// The forms `uuid::Uuid::parse_str` accepts: 32 hexadecimal digits; the
/// hyphenated form; the hyphenated form in braces; the hyphenated form after
/// `urn:uuid:` in any ASCII case.
pub open spec fn uuid_parse_spec(s: Seq<u8>) -> Option<u128> {
    let n = if s.len() == 32 {
        hex_number(s)
    } else if s.len() == 36 {
        hyphenated_number(s)
    } else if s.len() == 38 && s[0] == 123 && s[37] == 125 {
        hyphenated_number(s.subrange(1, 37))
    } else if s.len() == 45 && s.take(9).map_values(|b: u8| ascii_lower_byte(b)) =~= seq![
        117u8,
        114u8,
        110u8,
        58u8,
        117u8,
        117u8,
        105u8,
        100u8,
        58u8,
    ] {
        hyphenated_number(s.skip(9))
    } else {
        None
    };
    match n {
        Some(v) => Some(v as u128),
        None => None,
    }
}

/// The text of the error `uuid::Uuid::parse_str` returns for a text it rejects.
pub uninterp spec fn uuid_parse_error_text(text: Seq<char>) -> Seq<char>;

/// `uuid::Uuid::from_u128(v).to_string()`: the lowercase hyphenated text.
#[verifier::external_body]
pub(crate) fn uuid_text(v: u128) -> (s: String)
    ensures
        s@ == uuid_hyphenated(v),
{
    uuid::Uuid::from_u128(v).to_string()
}

/// `uuid::Uuid::parse_str(text)`, as a 128-bit integer; the error is the
/// text of the `uuid::Error`, which is named and not stated.
#[verifier::external_body]
pub(crate) fn parse_uuid_text(text: &str) -> (r: Result<u128, String>)
    ensures
        match r {
            Ok(v) => uuid_parse_spec(encode_utf8(text@)) == Some(v),
            Err(e) => uuid_parse_spec(encode_utf8(text@)) is None && e@ == uuid_parse_error_text(
                text@,
            ),
        },
{
    uuid::Uuid::parse_str(text).map(|id| id.as_u128()).map_err(|error| error.to_string())
}

/// The version number of a UUID: the high nibble of its seventh byte.
pub open spec fn uuid_version(v: u128) -> int {
    nibble(v, 12)
}

pub fn version_of(v: u128) -> (n: u128)
    ensures
        n == uuid_version(v),
{
    let n = (v >> 76u128) & 15u128;
    assert(pow16(19) == 0x10000000000000000000int) by {
        reveal_with_fuel(pow16, 20);
    }
    assert((v >> 76u128) & 15u128 == (v / 0x10000000000000000000u128) % 16) by (bit_vector);
    n
}

proof fn lemma_pow16_positive(e: nat)
    ensures
        pow16(e) > 0,
    decreases e,
{
    if e > 0 {
        lemma_pow16_positive((e - 1) as nat);
    }
}

/// The 32 hexadecimal digit bytes of a UUID, most significant first.
pub open spec fn digit_bytes(v: u128) -> Seq<u8> {
    Seq::new(32, |k: int| hex_digit(nibble(v, k)) as u8)
}

proof fn lemma_hex_digit_value(n: int)
    requires
        0 <= n < 16,
    ensures
        hex_value(hex_digit(n) as u8) == Some(n),
        hex_digit(n) as u32 == hex_digit(n) as u8,
        hex_digit(n) != '-',
{
}

proof fn lemma_digits_prefix(v: u128, m: int)
    requires
        0 <= m <= 32,
    ensures
        hex_number(digit_bytes(v).take(m)) == Some(v as int / pow16((32 - m) as nat)),
    decreases m,
{
    let d = digit_bytes(v);
    lemma_pow16_positive((32 - m) as nat);
    if m == 0 {
        assert(d.take(0) =~= Seq::<u8>::empty());
        assert(pow16(32) == 0x100000000000000000000000000000000int) by {
            reveal_with_fuel(pow16, 33);
        }
        assert(v as int / pow16(32) == 0) by (nonlinear_arith)
            requires
                0 <= v < pow16(32),
        ;
    } else {
        lemma_digits_prefix(v, m - 1);
        assert(d.take(m).drop_last() =~= d.take(m - 1));
        let p = pow16((32 - m) as nat);
        lemma_pow16_positive((32 - m) as nat);
        assert(pow16((33 - m) as nat) == 16 * p);
        let n = nibble(v, m - 1);
        assert(n == (v as int / p) % 16);
        assert(0 <= n < 16);
        lemma_hex_digit_value(n);
        assert(d.take(m).last() == hex_digit(n) as u8);
        let x = v as int / p;
        vstd::arithmetic::div_mod::lemma_div_denominator(v as int, p, 16);
        assert(p * 16 == 16 * p) by (nonlinear_arith);
        vstd::arithmetic::div_mod::lemma_fundamental_div_mod(x, 16);
        assert(x / 16 * 16 + x % 16 == x) by (nonlinear_arith)
            requires
                x == 16 * (x / 16) + (x % 16),
        ;
    }
}

/// The text of a UUID reads back as the same UUID.
pub proof fn law_uuid_text_parses_back(v: u128)
    ensures
        uuid_parse_spec(encode_utf8(uuid_hyphenated(v))) == Some(v),
{
    let t = uuid_hyphenated(v);
    assert forall|p: int| 0 <= p < t.len() implies '\0' <= #[trigger] t[p] <= '\u{7f}' by {
        if !(p == 8 || p == 13 || p == 18 || p == 23) {
            let k = if p < 8 {
                p
            } else if p < 13 {
                p - 1
            } else if p < 18 {
                p - 2
            } else if p < 23 {
                p - 3
            } else {
                p - 4
            };
            lemma_pow16_positive((31 - k) as nat);
        }
    }
    assert(is_ascii_chars(t));
    is_ascii_chars_encode_utf8(t);
    let b = encode_utf8(t);
    let d = digit_bytes(v);
    assert forall|k: int| 0 <= k < 32 implies 0 <= #[trigger] nibble(v, k) < 16 by {
        lemma_pow16_positive((31 - k) as nat);
    }
    assert(b[8] == 45 && b[13] == 45 && b[18] == 45 && b[23] == 45) by {
        assert(t[8] == '-' && t[13] == '-' && t[18] == '-' && t[23] == '-');
    }
    let joined = b.take(8) + b.subrange(9, 13) + b.subrange(14, 18) + b.subrange(19, 23) + b.skip(24);
    assert(joined =~= d) by {
        assert forall|k: int| 0 <= k < 32 implies #[trigger] joined[k] == d[k] by {
            let p = if k < 8 {
                k
            } else if k < 12 {
                k + 1
            } else if k < 16 {
                k + 2
            } else if k < 20 {
                k + 3
            } else {
                k + 4
            };
            assert(joined[k] == b[p]);
            assert(t[p] as u8 == b[p]);
            lemma_hex_digit_value(nibble(v, k));
        }
    }
    lemma_digits_prefix(v, 32);
    assert(d.take(32) =~= d);
    assert(pow16(0) == 1);
}

} // verus!
