//! Standard base64 (RFC 4648 alphabet, with `=` padding), as used for every
//! byte string that crosses the library's boundary.
use vstd::prelude::*;
use base64::Engine;

verus! {

/// The character that stands for a 6-bit value in the standard alphabet.
pub open spec fn sextet_char(v: int) -> char {
    if v < 26 {
        ((v + 65) as u32) as char
    } else if v < 52 {
        ((v + 71) as u32) as char
    } else if v < 62 {
        ((v - 4) as u32) as char
    } else if v == 62 {
        '+'
    } else {
        '/'
    }
}

/// The 6-bit value that a character of the standard alphabet stands for.
pub open spec fn char_sextet(c: char) -> int {
    let u = c as u32;
    if 65 <= u <= 90 {
        u - 65
    } else if 97 <= u <= 122 {
        u - 71
    } else if 48 <= u <= 57 {
        u + 4
    } else if c == '+' {
        62
    } else if c == '/' {
        63
    } else {
        -1
    }
}

/// The four characters that encode three bytes.
pub open spec fn encode_triple(b0: u8, b1: u8, b2: u8) -> Seq<char> {
    seq![
        sextet_char((b0 as int) / 4),
        sextet_char(((b0 as int) % 4) * 16 + (b1 as int) / 16),
        sextet_char(((b1 as int) % 16) * 4 + (b2 as int) / 64),
        sextet_char((b2 as int) % 64),
    ]
}

/// Standard base64 with padding: every three bytes become four characters,
/// and a final group of one or two bytes is padded with `=` to four.
pub open spec fn base64_of(b: Seq<u8>) -> Seq<char>
    decreases b.len(),
{
    if b.len() == 0 {
        seq![]
    } else if b.len() == 1 {
        seq![sextet_char((b[0] as int) / 4), sextet_char(((b[0] as int) % 4) * 16), '=', '=']
    } else if b.len() == 2 {
        seq![
            sextet_char((b[0] as int) / 4),
            sextet_char(((b[0] as int) % 4) * 16 + (b[1] as int) / 16),
            sextet_char(((b[1] as int) % 16) * 4),
            '=',
        ]
    } else {
        encode_triple(b[0], b[1], b[2]) + base64_of(b.subrange(3, b.len() as int))
    }
}

/// The text is the standard base64 encoding of some byte string.
pub open spec fn is_base64(s: Seq<char>) -> bool {
    exists|b: Seq<u8>| base64_of(b) == s
}

/// The byte string whose encoding a base64 text is.
pub open spec fn base64_decoded(s: Seq<char>) -> Seq<u8>
    recommends
        is_base64(s),
{
    choose|b: Seq<u8>| base64_of(b) == s
}

proof fn lemma_sextet_round_trip(v: int)
    requires
        0 <= v < 64,
    ensures
        char_sextet(sextet_char(v)) == v,
        sextet_char(v) != '=',
{
}

proof fn lemma_base64_len(b: Seq<u8>)
    ensures
        base64_of(b).len() == 4 * ((b.len() + 2) / 3),
    decreases b.len(),
{
    if b.len() >= 3 {
        lemma_base64_len(b.subrange(3, b.len() as int));
    }
}

proof fn lemma_triple_injective(a0: u8, a1: u8, a2: u8, b0: u8, b1: u8, b2: u8)
    requires
        encode_triple(a0, a1, a2) == encode_triple(b0, b1, b2),
    ensures
        a0 == b0 && a1 == b1 && a2 == b2,
{
    let ea = encode_triple(a0, a1, a2);
    let eb = encode_triple(b0, b1, b2);
    lemma_sextet_round_trip(((a0 as int) / 4) as int);
    lemma_sextet_round_trip(((b0 as int) / 4) as int);
    lemma_sextet_round_trip((((a0 as int) % 4) * 16 + (a1 as int) / 16) as int);
    lemma_sextet_round_trip((((b0 as int) % 4) * 16 + (b1 as int) / 16) as int);
    lemma_sextet_round_trip((((a1 as int) % 16) * 4 + (a2 as int) / 64) as int);
    lemma_sextet_round_trip((((b1 as int) % 16) * 4 + (b2 as int) / 64) as int);
    lemma_sextet_round_trip(((a2 as int) % 64) as int);
    lemma_sextet_round_trip(((b2 as int) % 64) as int);
    assert(ea[0] == eb[0] && ea[1] == eb[1] && ea[2] == eb[2] && ea[3] == eb[3]);
}

/// Two byte strings with the same encoding are equal.
pub proof fn lemma_base64_injective(a: Seq<u8>, b: Seq<u8>)
    requires
        base64_of(a) == base64_of(b),
    ensures
        a == b,
    decreases a.len(),
{
    let ea = base64_of(a);
    let eb = base64_of(b);
    lemma_base64_len(a);
    lemma_base64_len(b);
    if a.len() == 0 || b.len() == 0 {
        assert(a =~= b);
    } else {
        lemma_sextet_round_trip(((a[0] as int) / 4) as int);
        lemma_sextet_round_trip(((b[0] as int) / 4) as int);
        if a.len() >= 3 {
            lemma_sextet_round_trip((((a[1] as int) % 16) * 4 + (a[2] as int) / 64) as int);
            lemma_sextet_round_trip(((a[2] as int) % 64) as int);
        }
        if b.len() >= 3 {
            lemma_sextet_round_trip((((b[1] as int) % 16) * 4 + (b[2] as int) / 64) as int);
            lemma_sextet_round_trip(((b[2] as int) % 64) as int);
        }
        if a.len() == 2 {
            lemma_sextet_round_trip((((a[1] as int) % 16) * 4) as int);
            lemma_sextet_round_trip((((a[0] as int) % 4) * 16 + (a[1] as int) / 16) as int);
        }
        if b.len() == 2 {
            lemma_sextet_round_trip((((b[1] as int) % 16) * 4) as int);
            lemma_sextet_round_trip((((b[0] as int) % 4) * 16 + (b[1] as int) / 16) as int);
        }
        if a.len() == 1 {
            lemma_sextet_round_trip((((a[0] as int) % 4) * 16) as int);
        }
        if b.len() == 1 {
            lemma_sextet_round_trip((((b[0] as int) % 4) * 16) as int);
        }
        assert(ea[2] == eb[2] && ea[3] == eb[3]);
        assert(ea[0] == eb[0] && ea[1] == eb[1]);
        if a.len() >= 3 {
            assert(b.len() >= 3);
            let ra = a.subrange(3, a.len() as int);
            let rb = b.subrange(3, b.len() as int);
            assert(ea.subrange(0, 4) == encode_triple(a[0], a[1], a[2]));
            assert(eb.subrange(0, 4) == encode_triple(b[0], b[1], b[2]));
            lemma_triple_injective(a[0], a[1], a[2], b[0], b[1], b[2]);
            assert(ea.subrange(4, ea.len() as int) == base64_of(ra));
            assert(eb.subrange(4, eb.len() as int) == base64_of(rb));
            lemma_base64_injective(ra, rb);
            assert(a =~= seq![a[0], a[1], a[2]] + ra);
            assert(b =~= seq![b[0], b[1], b[2]] + rb);
        } else if a.len() == 2 {
            lemma_sextet_round_trip((((b[0] as int) % 4) * 16 + (b[1] as int) / 16) as int);
            assert(a =~= b);
        } else {
            lemma_sextet_round_trip((((b[0] as int) % 4) * 16) as int);
            assert(a =~= b);
        }
    }
}

/// Relies on base64's `STANDARD.encode`: the padded standard encoding.
#[verifier::external_body]
pub fn encode_base64(bytes: &[u8]) -> (r: String)
    ensures
        r@ == base64_of(bytes@),
{
    base64::engine::general_purpose::STANDARD.encode(bytes)
}

} // verus!

verus! {

#[verifier::external_type_specification]
#[verifier::external_body]
pub struct ExDecodeError(base64::DecodeError);

/// Relies on base64's `STANDARD.decode`: the standard engine requires
/// canonical padding and zero trailing bits, so it accepts exactly the texts
/// that its encoder writes, and gives back the bytes they encode.
#[verifier::external_body]
fn standard_decode(s: &str) -> (r: Result<Vec<u8>, base64::DecodeError>)
    ensures
        r is Ok <==> is_base64(s@),
        r matches Ok(v) ==> base64_of(v@) == s@,
{
    base64::engine::general_purpose::STANDARD.decode(s)
}

/// Decodes standard padded base64; `None` when the text is not such an
/// encoding.
pub fn decode_base64(s: &str) -> (r: Option<Vec<u8>>)
    ensures
        r is Some <==> is_base64(s@),
        r matches Some(v) ==> v@ == base64_decoded(s@),
{
    match standard_decode(s) {
        Ok(v) => {
            proof {
                lemma_base64_injective(v@, base64_decoded(s@));
            }
            Some(v)
        },
        Err(_) => None,
    }
}

/// Decoding an encoding gives back the bytes.
pub proof fn lemma_decode_encode(b: Seq<u8>)
    ensures
        is_base64(base64_of(b)),
        base64_decoded(base64_of(b)) == b,
{
    assert(base64_of(b) == base64_of(b));
    lemma_base64_injective(base64_decoded(base64_of(b)), b);
}

} // verus!
