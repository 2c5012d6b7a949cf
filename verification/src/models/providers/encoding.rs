//! Base64 text.

use vstd::prelude::*;

verus! {

/// The character for six bits in the standard alphabet.
pub open spec fn base64_char(n: int) -> char {
    if n < 26 {
        ('A' as int + n) as char
    } else if n < 52 {
        ('a' as int + n - 26) as char
    } else if n < 62 {
        ('0' as int + n - 52) as char
    } else if n == 62 {
        '+'
    } else {
        '/'
    }
}

/// Bytes in base64 with the standard alphabet and padding: four characters for three bytes.
pub open spec fn base64_of(b: Seq<u8>) -> Seq<char>
    decreases b.len(),
{
    if b.len() == 0 {
        Seq::empty()
    } else if b.len() == 1 {
        seq![base64_char((b[0] / 4) as int), base64_char((b[0] % 4) * 16), '=', '=']
    } else if b.len() == 2 {
        seq![
            base64_char((b[0] / 4) as int),
            base64_char((b[0] % 4) * 16 + b[1] / 16),
            base64_char((b[1] % 16) * 4),
            '=',
        ]
    } else {
        seq![
            base64_char((b[0] / 4) as int),
            base64_char((b[0] % 4) * 16 + b[1] / 16),
            base64_char((b[1] % 16) * 4 + b[2] / 64),
            base64_char((b[2] % 64) as int),
        ] + base64_of(b.skip(3))
    }
}

/// `base64::Engine::encode` of `base64::engine::general_purpose::STANDARD`: base64 with the
/// standard alphabet and padding.
#[verifier::external_body]
pub(crate) fn base64_encode(bytes: &Vec<u8>) -> (r: String)
    ensures
        r@ == base64_of(bytes@),
{
    base64::Engine::encode(&base64::engine::general_purpose::STANDARD, bytes)
}

// ---------------------------------------------------------------------------
// Laws
// ---------------------------------------------------------------------------

/// The six bits that a character of the standard alphabet stands for.
pub open spec fn six_bits(c: char) -> int {
    if 'A' <= c <= 'Z' {
        c as int - 'A' as int
    } else if 'a' <= c <= 'z' {
        c as int - 'a' as int + 26
    } else if '0' <= c <= '9' {
        c as int - '0' as int + 52
    } else if c == '+' {
        62
    } else if c == '/' {
        63
    } else {
        -1
    }
}

/// Four characters stand for three bytes: read as numbers of six bits, they make the same
/// number as the bytes, and what follows stands for the bytes that follow. At the end the
/// missing bytes count as zero, with an equals sign for each.
pub proof fn four_characters_stand_for_three_bytes(b: Seq<u8>)
    ensures
        base64_of(Seq::empty()) == Seq::<char>::empty(),
        b.len() > 0 ==> base64_of(b).len() >= 4,
        b.len() >= 3 ==> base64_of(b).skip(4) == base64_of(b.skip(3)),
        b.len() >= 3 ==> {
            let t = base64_of(b);
            ((six_bits(t[0]) * 64 + six_bits(t[1])) * 64 + six_bits(t[2])) * 64 + six_bits(t[3])
                == (b[0] * 256 + b[1]) * 256 + b[2]
        },
        b.len() == 2 ==> {
            let t = base64_of(b);
            t.len() == 4 && t[3] == '=' && ((six_bits(t[0]) * 64 + six_bits(t[1])) * 64 + six_bits(
                t[2],
            )) * 64 == (b[0] * 256 + b[1]) * 256
        },
        b.len() == 1 ==> {
            let t = base64_of(b);
            t.len() == 4 && t[2] == '=' && t[3] == '=' && (six_bits(t[0]) * 64 + six_bits(t[1]))
                * 4096 == b[0] * 65536
        },
{
    if b.len() >= 3 {
        assert(base64_of(b).skip(4) =~= base64_of(b.skip(3)));
    }
}

} // verus!
