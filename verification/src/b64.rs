//! A mathematical model of standard base64 (padded) together with trusted
//! bindings to the `base64` crate for the executable encoder and decoder.

use vstd::prelude::*;

use base64::Engine;

verus! {

/// The character the standard base64 alphabet assigns to a six-bit value.
/// Values outside `0..64` map to a character outside the alphabet.
pub open spec fn b64_char(v: int) -> char {
    if v == 0 {
        'A'
    } else if v == 1 {
        'B'
    } else if v == 2 {
        'C'
    } else if v == 3 {
        'D'
    } else if v == 4 {
        'E'
    } else if v == 5 {
        'F'
    } else if v == 6 {
        'G'
    } else if v == 7 {
        'H'
    } else if v == 8 {
        'I'
    } else if v == 9 {
        'J'
    } else if v == 10 {
        'K'
    } else if v == 11 {
        'L'
    } else if v == 12 {
        'M'
    } else if v == 13 {
        'N'
    } else if v == 14 {
        'O'
    } else if v == 15 {
        'P'
    } else if v == 16 {
        'Q'
    } else if v == 17 {
        'R'
    } else if v == 18 {
        'S'
    } else if v == 19 {
        'T'
    } else if v == 20 {
        'U'
    } else if v == 21 {
        'V'
    } else if v == 22 {
        'W'
    } else if v == 23 {
        'X'
    } else if v == 24 {
        'Y'
    } else if v == 25 {
        'Z'
    } else if v == 26 {
        'a'
    } else if v == 27 {
        'b'
    } else if v == 28 {
        'c'
    } else if v == 29 {
        'd'
    } else if v == 30 {
        'e'
    } else if v == 31 {
        'f'
    } else if v == 32 {
        'g'
    } else if v == 33 {
        'h'
    } else if v == 34 {
        'i'
    } else if v == 35 {
        'j'
    } else if v == 36 {
        'k'
    } else if v == 37 {
        'l'
    } else if v == 38 {
        'm'
    } else if v == 39 {
        'n'
    } else if v == 40 {
        'o'
    } else if v == 41 {
        'p'
    } else if v == 42 {
        'q'
    } else if v == 43 {
        'r'
    } else if v == 44 {
        's'
    } else if v == 45 {
        't'
    } else if v == 46 {
        'u'
    } else if v == 47 {
        'v'
    } else if v == 48 {
        'w'
    } else if v == 49 {
        'x'
    } else if v == 50 {
        'y'
    } else if v == 51 {
        'z'
    } else if v == 52 {
        '0'
    } else if v == 53 {
        '1'
    } else if v == 54 {
        '2'
    } else if v == 55 {
        '3'
    } else if v == 56 {
        '4'
    } else if v == 57 {
        '5'
    } else if v == 58 {
        '6'
    } else if v == 59 {
        '7'
    } else if v == 60 {
        '8'
    } else if v == 61 {
        '9'
    } else if v == 62 {
        '+'
    } else if v == 63 {
        '/'
    } else {
        '?'
    }
}

/// Standard padded base64 of a byte sequence: each group of three bytes
/// becomes four alphabet characters, and a final group of one or two bytes
/// becomes two or three characters followed by `=` padding.
pub open spec fn base64_of(s: Seq<u8>) -> Seq<char>
    decreases s.len(),
{
    if s.len() == 0 {
        Seq::empty()
    } else if s.len() == 1 {
        seq![
            b64_char(s[0] as int / 4),
            b64_char((s[0] as int % 4) * 16),
            '=',
            '=',
        ]
    } else if s.len() == 2 {
        seq![
            b64_char(s[0] as int / 4),
            b64_char((s[0] as int % 4) * 16 + s[1] as int / 16),
            b64_char((s[1] as int % 16) * 4),
            '=',
        ]
    } else {
        seq![
            b64_char(s[0] as int / 4),
            b64_char((s[0] as int % 4) * 16 + s[1] as int / 16),
            b64_char((s[1] as int % 16) * 4 + s[2] as int / 64),
            b64_char(s[2] as int % 64),
        ] + base64_of(s.skip(3))
    }
}

/// A character sequence is canonical base64 when some byte sequence encodes
/// to it.
pub open spec fn is_base64(s: Seq<char>) -> bool {
    exists|b: Seq<u8>| base64_of(b) == s
}

/// Alphabet characters never collide with the padding character.
pub proof fn lemma_b64_char_ne_pad(v: int)
    requires
        0 <= v < 64,
    ensures
        b64_char(v) != '=',
{
}

/// The alphabet assigns distinct characters to distinct six-bit values.
pub proof fn lemma_b64_char_injective(x: int, y: int)
    requires
        0 <= x < 64,
        0 <= y < 64,
        b64_char(x) == b64_char(y),
    ensures
        x == y,
{
}

/// The encoding of `n` bytes spans exactly `4 * ceil(n / 3)` characters.
pub proof fn lemma_base64_len(s: Seq<u8>)
    ensures
        base64_of(s).len() == 4 * ((s.len() + 2) / 3),
    decreases s.len(),
{
    if s.len() >= 3 {
        lemma_base64_len(s.skip(3));
    }
}

/// Two byte sequences with the same encoding are equal, so a character
/// sequence is the encoding of at most one byte sequence.
pub proof fn lemma_base64_of_injective(a: Seq<u8>, b: Seq<u8>)
    requires
        base64_of(a) == base64_of(b),
    ensures
        a == b,
    decreases a.len(),
{
    lemma_base64_len(a);
    lemma_base64_len(b);
    if a.len() == 0 {
        assert(a =~= b);
    } else if a.len() == 1 {
        if b.len() == 1 {
            lemma_b64_char_injective(a[0] as int / 4, b[0] as int / 4);
            lemma_b64_char_injective((a[0] as int % 4) * 16, (b[0] as int % 4) * 16);
            assert(a[0] == b[0]);
            assert(a =~= b);
        } else if b.len() == 2 {
            lemma_b64_char_ne_pad((b[1] as int % 16) * 4);
            assert(false);
        } else {
            assert(b.len() >= 3);
            lemma_b64_char_ne_pad((b[1] as int % 16) * 4 + b[2] as int / 64);
            assert(false);
        }
    } else if a.len() == 2 {
        if b.len() == 1 {
            lemma_b64_char_ne_pad((a[1] as int % 16) * 4);
            assert(false);
        } else if b.len() == 2 {
            assert(base64_of(a)[0] == b64_char(a[0] as int / 4));
            assert(base64_of(b)[0] == b64_char(b[0] as int / 4));
            assert(base64_of(a)[1] == b64_char((a[0] as int % 4) * 16 + a[1] as int / 16));
            assert(base64_of(b)[1] == b64_char((b[0] as int % 4) * 16 + b[1] as int / 16));
            assert(base64_of(a)[2] == b64_char((a[1] as int % 16) * 4));
            assert(base64_of(b)[2] == b64_char((b[1] as int % 16) * 4));
            lemma_b64_char_injective(a[0] as int / 4, b[0] as int / 4);
            lemma_b64_char_injective(
                (a[0] as int % 4) * 16 + a[1] as int / 16,
                (b[0] as int % 4) * 16 + b[1] as int / 16,
            );
            lemma_b64_char_injective((a[1] as int % 16) * 4, (b[1] as int % 16) * 4);
            assert(a[0] == b[0]);
            assert(a[1] == b[1]);
            assert(a =~= b);
        } else {
            assert(b.len() >= 3);
            lemma_b64_char_ne_pad(b[2] as int % 64);
            assert(false);
        }
    } else {
        if b.len() == 1 {
            lemma_b64_char_ne_pad((a[1] as int % 16) * 4 + a[2] as int / 64);
            assert(false);
        } else if b.len() == 2 {
            lemma_b64_char_ne_pad(a[2] as int % 64);
            assert(false);
        } else {
            assert(b.len() >= 3);
            assert(base64_of(a)[0] == b64_char(a[0] as int / 4));
            assert(base64_of(b)[0] == b64_char(b[0] as int / 4));
            assert(base64_of(a)[1] == b64_char((a[0] as int % 4) * 16 + a[1] as int / 16));
            assert(base64_of(b)[1] == b64_char((b[0] as int % 4) * 16 + b[1] as int / 16));
            assert(base64_of(a)[2] == b64_char((a[1] as int % 16) * 4 + a[2] as int / 64));
            assert(base64_of(b)[2] == b64_char((b[1] as int % 16) * 4 + b[2] as int / 64));
            assert(base64_of(a)[3] == b64_char(a[2] as int % 64));
            assert(base64_of(b)[3] == b64_char(b[2] as int % 64));
            lemma_b64_char_injective(a[0] as int / 4, b[0] as int / 4);
            lemma_b64_char_injective(
                (a[0] as int % 4) * 16 + a[1] as int / 16,
                (b[0] as int % 4) * 16 + b[1] as int / 16,
            );
            lemma_b64_char_injective(
                (a[1] as int % 16) * 4 + a[2] as int / 64,
                (b[1] as int % 16) * 4 + b[2] as int / 64,
            );
            lemma_b64_char_injective(a[2] as int % 64, b[2] as int % 64);
            assert(a[0] == b[0]);
            assert(a[1] == b[1]);
            assert(a[2] == b[2]);
            assert(base64_of(a.skip(3)) =~= base64_of(a).skip(4));
            assert(base64_of(b.skip(3)) =~= base64_of(b).skip(4));
            lemma_base64_of_injective(a.skip(3), b.skip(3));
            assert forall|i: int| 0 <= i < a.len() implies a[i] == b[i] by {
                if i >= 3 {
                    assert(a[i] == a.skip(3)[i - 3]);
                    assert(b[i] == b.skip(3)[i - 3]);
                }
            }
            assert(a =~= b);
        }
    }
}

/// Relies on `base64::engine::general_purpose::STANDARD.encode`: padded
/// encoding with the standard alphabet, a function of the bytes alone.
#[verifier::external_body]
pub(crate) fn base64_encode(data: &[u8]) -> (r: String)
    ensures
        r@ == base64_of(data@),
{
    base64::engine::general_purpose::STANDARD.encode(data)
}

/// Relies on `base64::engine::general_purpose::STANDARD.decode`: with this
/// engine decoding demands canonical padding and rejects set trailing bits,
/// so it succeeds exactly on canonical encodings and inverts the encoder.
#[verifier::external_body]
pub(crate) fn base64_decode(text: &str) -> (r: Option<Vec<u8>>)
    ensures
        r is Some <==> is_base64(text@),
        r matches Some(v) ==> base64_of(v@) == text@,
{
    match base64::engine::general_purpose::STANDARD.decode(text) {
        Ok(v) => Some(v),
        Err(_) => None,
    }
}

} // verus!
