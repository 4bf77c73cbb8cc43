//! Standard-alphabet base64 with `=` padding: encoding and strict
//! decoding (canonical padding, no trailing bits), each proved against
//! a character-exact specification.

use vstd::prelude::*;
use vstd::string::StrSliceExecFns;
use vstd::string::StringSliceAdditionalSpecFns;
use vstd::utf8::{decode_utf8, valid_utf8};

verus! {

/// The alphabet byte for a 6-bit value.
pub open spec fn b64_byte(d: int) -> u8 {
    if 0 <= d < 26 {
        (65 + d) as u8
    } else if 26 <= d < 52 {
        (97 + (d - 26)) as u8
    } else if 52 <= d < 62 {
        (48 + (d - 52)) as u8
    } else if d == 62 {
        43
    } else {
        47
    }
}

/// The alphabet character for a 6-bit value.
pub open spec fn b64_char(d: int) -> char {
    b64_byte(d) as char
}

/// The four characters of one full three-byte group.
pub open spec fn enc_group(b0: u8, b1: u8, b2: u8) -> Seq<char> {
    seq![
        b64_char((b0 >> 2) as int),
        b64_char((((b0 & 3) << 4) | (b1 >> 4)) as int),
        b64_char((((b1 & 15) << 2) | (b2 >> 6)) as int),
        b64_char((b2 & 63) as int),
    ]
}

/// The base64 text of a byte sequence: full groups of three bytes,
/// then a padded group for one or two trailing bytes.
pub open spec fn b64_encode(bs: Seq<u8>) -> Seq<char>
    decreases bs.len(),
{
    if bs.len() == 0 {
        Seq::empty()
    } else if bs.len() == 1 {
        seq![
            b64_char((bs[0] >> 2) as int),
            b64_char(((bs[0] & 3) << 4) as int),
            '=',
            '=',
        ]
    } else if bs.len() == 2 {
        seq![
            b64_char((bs[0] >> 2) as int),
            b64_char((((bs[0] & 3) << 4) | (bs[1] >> 4)) as int),
            b64_char(((bs[1] & 15) << 2) as int),
            '=',
        ]
    } else {
        enc_group(bs[0], bs[1], bs[2]) + b64_encode(bs.skip(3))
    }
}

/// Encoding emits full groups independently.
pub proof fn lemma_b64_encode_concat(a: Seq<u8>, b: Seq<u8>)
    requires
        a.len() % 3 == 0,
    ensures
        b64_encode(a + b) == b64_encode(a) + b64_encode(b),
    decreases a.len(),
{
    if a.len() == 0 {
        assert(a + b =~= b);
        assert(b64_encode(a) + b64_encode(b) =~= b64_encode(b));
    } else {
        assert(a.len() >= 3);
        assert((a + b).skip(3) =~= a.skip(3) + b);
        if b.len() == 0 {
            assert(a + b =~= a);
            lemma_b64_encode_concat(a.skip(3), b);
            assert(b64_encode(a) + b64_encode(b) =~= b64_encode(a));
        } else {
            assert((a + b).len() >= 3);
            lemma_b64_encode_concat(a.skip(3), b);
            assert(enc_group(a[0], a[1], a[2]) + (b64_encode(a.skip(3)) + b64_encode(b)) =~= (
            enc_group(a[0], a[1], a[2]) + b64_encode(a.skip(3))) + b64_encode(b));
        }
    }
}

/// The alphabet byte, executable form.
fn b64_byte_exec(d: u8) -> (r: u8)
    requires
        d < 64,
    ensures
        r == b64_byte(d as int),
{
    if d < 26 {
        65 + d
    } else if d < 52 {
        97 + (d - 26)
    } else if d < 62 {
        48 + (d - 52)
    } else if d == 62 {
        43
    } else {
        47
    }
}

/// The base64 characters of `bs`.
pub fn encode_chars(bs: &Vec<u8>) -> (r: Vec<char>)
    ensures
        r@ == b64_encode(bs@),
{
    let n = bs.len();
    let mut out: Vec<char> = Vec::new();
    let mut i: usize = 0;
    proof {
        assert(bs@.subrange(0, 0) =~= Seq::<u8>::empty());
    }
    while i < n && n - i >= 3
        invariant
            n == bs@.len(),
            i <= n,
            i % 3 == 0,
            out@ == b64_encode(bs@.subrange(0, i as int)),
        decreases n - i,
    {
        let b0 = bs[i];
        let b1 = bs[i + 1];
        let b2 = bs[i + 2];
        proof {
            assert((b0 >> 2) < 64 && (((b0 & 3) << 4) | (b1 >> 4)) < 64 && (((b1 & 15) << 2) | (b2
                >> 6)) < 64 && (b2 & 63) < 64) by (bit_vector);
        }
        out.push(b64_byte_exec(b0 >> 2) as char);
        out.push(b64_byte_exec(((b0 & 3) << 4) | (b1 >> 4)) as char);
        out.push(b64_byte_exec(((b1 & 15) << 2) | (b2 >> 6)) as char);
        out.push(b64_byte_exec(b2 & 63) as char);
        proof {
            let pre = bs@.subrange(0, i as int);
            let grp = bs@.subrange(i as int, i + 3);
            lemma_b64_encode_concat(pre, grp);
            assert(pre + grp =~= bs@.subrange(0, i + 3));
            assert(grp.skip(3) =~= Seq::<u8>::empty());
            assert(b64_encode(Seq::<u8>::empty()) =~= Seq::<char>::empty());
            assert(enc_group(grp[0], grp[1], grp[2]) + Seq::<char>::empty() =~= enc_group(
                grp[0],
                grp[1],
                grp[2],
            ));
            assert(b64_encode(grp) =~= enc_group(grp[0], grp[1], grp[2]));
            assert(out@ =~= b64_encode(bs@.subrange(0, i + 3)));
        }
        i = i + 3;
    }
    proof {
        let pre = bs@.subrange(0, i as int);
        let tail = bs@.skip(i as int);
        lemma_b64_encode_concat(pre, tail);
        assert(pre + tail =~= bs@);
    }
    if i == n {
        proof {
            assert(bs@.skip(i as int) =~= Seq::<u8>::empty());
            assert(out@ =~= b64_encode(bs@));
        }
    } else if i + 1 == n {
        let b0 = bs[i];
        proof {
            assert((b0 >> 2) < 64 && ((b0 & 3) << 4) < 64) by (bit_vector);
        }
        out.push(b64_byte_exec(b0 >> 2) as char);
        out.push(b64_byte_exec((b0 & 3) << 4) as char);
        out.push('=');
        out.push('=');
        proof {
            let tail = bs@.skip(i as int);
            assert(tail.len() == 1 && tail[0] == bs@[i as int]);
            assert(out@ =~= b64_encode(bs@.subrange(0, i as int)) + b64_encode(tail));
        }
    } else {
        let b0 = bs[i];
        let b1 = bs[i + 1];
        proof {
            assert((b0 >> 2) < 64 && (((b0 & 3) << 4) | (b1 >> 4)) < 64 && ((b1 & 15) << 2)
                < 64) by (bit_vector);
        }
        out.push(b64_byte_exec(b0 >> 2) as char);
        out.push(b64_byte_exec(((b0 & 3) << 4) | (b1 >> 4)) as char);
        out.push(b64_byte_exec((b1 & 15) << 2) as char);
        out.push('=');
        proof {
            let tail = bs@.skip(i as int);
            assert(tail.len() == 2 && tail[0] == bs@[i as int] && tail[1] == bs@[i + 1]);
            assert(out@ =~= b64_encode(bs@.subrange(0, i as int)) + b64_encode(tail));
        }
    }
    out
}

/// Encodes a byte vector to base64 text.
pub fn encode_bytes(input: Vec<u8>) -> (r: String)
    ensures
        r@ == b64_encode(input@),
{
    let chars = encode_chars(&input);
    crate::text::string_from_chars(&chars)
}

/// Encodes the UTF-8 bytes of a string to base64 text.
pub fn encode(input: &str) -> (r: String)
    ensures
        r@ == b64_encode(input.spec_bytes()),
{
    let bytes = input.as_bytes_vec();
    encode_bytes(bytes)
}

/// The 6-bit value of an alphabet character; `-1` for anything else.
pub open spec fn b64_val(c: char) -> int {
    let u = c as int;
    if 65 <= u < 91 {
        u - 65
    } else if 97 <= u < 123 {
        (u - 97) + 26
    } else if 48 <= u < 58 {
        (u - 48) + 52
    } else if u == 43 {
        62
    } else if u == 47 {
        63
    } else {
        -1
    }
}

pub open spec fn is_b64_char(c: char) -> bool {
    b64_val(c) >= 0
}

/// The value as a byte, for a valid alphabet character.
pub open spec fn val_u8(c: char) -> u8 {
    b64_val(c) as u8
}

/// The bytes of one group of four 6-bit values.
pub open spec fn dec3(v0: u8, v1: u8, v2: u8, v3: u8) -> Seq<u8> {
    seq![(v0 << 2) | (v1 >> 4), ((v1 & 15) << 4) | (v2 >> 2), ((v2 & 3) << 6) | v3]
}

/// A group in the middle of the text: four alphabet characters.
pub open spec fn valid_full_group(g: Seq<char>) -> bool {
    g.len() == 4 && is_b64_char(g[0]) && is_b64_char(g[1]) && is_b64_char(g[2]) && is_b64_char(
        g[3],
    )
}

/// The final group: either full, or padded with one or two `=`, the
/// unused bits of the last value zero (strict, canonical padding).
pub open spec fn valid_last_group(g: Seq<char>) -> bool {
    g.len() == 4 && is_b64_char(g[0]) && is_b64_char(g[1]) && ((is_b64_char(g[2]) && is_b64_char(
        g[3],
    )) || (is_b64_char(g[2]) && g[3] == '=' && val_u8(g[2]) & 3 == 0) || (g[2] == '=' && g[3] == '='
        && val_u8(g[1]) & 15 == 0))
}

/// Valid base64 text: whole groups, padding only in the last.
pub open spec fn valid_b64(s: Seq<char>) -> bool
    decreases s.len(),
{
    if s.len() == 0 {
        true
    } else if s.len() == 4 {
        valid_last_group(s)
    } else if s.len() % 4 == 0 && s.len() > 4 {
        valid_full_group(s.take(4)) && valid_b64(s.skip(4))
    } else {
        false
    }
}

/// The bytes of one group of four characters, padding dropped.
pub open spec fn dec_group(g: Seq<char>) -> Seq<u8> {
    let b = dec3(val_u8(g[0]), val_u8(g[1]), val_u8(g[2]), val_u8(g[3]));
    if g[3] == '=' {
        if g[2] == '=' {
            seq![(val_u8(g[0]) << 2) | (val_u8(g[1]) >> 4)]
        } else {
            seq![
                (val_u8(g[0]) << 2) | (val_u8(g[1]) >> 4),
                ((val_u8(g[1]) & 15) << 4) | (val_u8(g[2]) >> 2),
            ]
        }
    } else {
        b
    }
}

/// The bytes a valid text decodes to.
pub open spec fn b64_decode(s: Seq<char>) -> Seq<u8>
    decreases s.len(),
{
    if s.len() < 4 {
        Seq::empty()
    } else if s.len() == 4 {
        dec_group(s)
    } else {
        dec_group(s.take(4)) + b64_decode(s.skip(4))
    }
}

/// A decode rejection: the text is not valid base64, or its decoded
/// bytes are not UTF-8 where a string is asked for.
#[derive(PartialEq, Eq, Structural, Clone, Copy, Debug)]
pub enum DecodeError {
    InvalidBase64,
    InvalidUtf8,
}

/// The 6-bit value of a character, executable form.
fn b64_val_exec(c: char) -> (r: Option<u8>)
    ensures
        match r {
            Some(v) => is_b64_char(c) && v == val_u8(c) && v < 64,
            None => !is_b64_char(c),
        },
{
    let u = c as u32;
    if 65 <= u && u < 91 {
        Some((u - 65) as u8)
    } else if 97 <= u && u < 123 {
        Some(((u - 97) + 26) as u8)
    } else if 48 <= u && u < 58 {
        Some(((u - 48) + 52) as u8)
    } else if u == 43 {
        Some(62)
    } else if u == 47 {
        Some(63)
    } else {
        None
    }
}

/// Decodes base64 characters to bytes; fails, with `InvalidBase64`,
/// exactly on texts that are not valid.
pub fn decode_chars(s: &Vec<char>) -> (r: Result<Vec<u8>, DecodeError>)
    ensures
        match r {
            Ok(b) => valid_b64(s@) && b@ == b64_decode(s@),
            Err(e) => !valid_b64(s@) && e == DecodeError::InvalidBase64,
        },
{
    let n = s.len();
    if n % 4 != 0 {
        return Err(DecodeError::InvalidBase64);
    }
    let mut out: Vec<u8> = Vec::new();
    let mut i: usize = 0;
    proof {
        assert(s@.skip(0) =~= s@);
        assert(out@ + b64_decode(s@) =~= b64_decode(s@));
    }
    while i < n && n - i > 4
        invariant
            n == s@.len(),
            n % 4 == 0,
            i % 4 == 0,
            i <= n,
            valid_b64(s@) <==> valid_b64(s@.skip(i as int)),
            valid_b64(s@.skip(i as int)) ==> b64_decode(s@) =~= out@ + b64_decode(
                s@.skip(i as int),
            ),
        decreases n - i,
    {
        let v0 = match b64_val_exec(s[i]) {
            Some(v) => v,
            None => {
                return Err(DecodeError::InvalidBase64);
            },
        };
        let v1 = match b64_val_exec(s[i + 1]) {
            Some(v) => v,
            None => {
                return Err(DecodeError::InvalidBase64);
            },
        };
        let v2 = match b64_val_exec(s[i + 2]) {
            Some(v) => v,
            None => {
                return Err(DecodeError::InvalidBase64);
            },
        };
        let v3 = match b64_val_exec(s[i + 3]) {
            Some(v) => v,
            None => {
                return Err(DecodeError::InvalidBase64);
            },
        };
        out.push((v0 << 2) | (v1 >> 4));
        out.push(((v1 & 15) << 4) | (v2 >> 2));
        out.push(((v2 & 3) << 6) | v3);
        proof {
            let t = s@.skip(i as int);
            assert(t.len() > 4);
            assert(t.take(4) =~= s@.subrange(i as int, i + 4));
            assert(t.skip(4) =~= s@.skip(i + 4));
            assert(valid_full_group(t.take(4)));
            assert(dec_group(t.take(4)) =~= seq![
                (v0 << 2) | (v1 >> 4),
                ((v1 & 15) << 4) | (v2 >> 2),
                ((v2 & 3) << 6) | v3,
            ]);
            assert(valid_b64(t) <==> valid_b64(t.skip(4)));
            assert(valid_b64(t) ==> b64_decode(t) =~= dec_group(t.take(4)) + b64_decode(t.skip(4)));
        }
        i = i + 4;
    }
    if i == n {
        proof {
            assert(s@.skip(i as int) =~= Seq::<char>::empty());
            assert(out@ =~= b64_decode(s@));
        }
        return Ok(out);
    }
    let v0 = match b64_val_exec(s[i]) {
        Some(v) => v,
        None => {
            return Err(DecodeError::InvalidBase64);
        },
    };
    let v1 = match b64_val_exec(s[i + 1]) {
        Some(v) => v,
        None => {
            return Err(DecodeError::InvalidBase64);
        },
    };
    let c2 = s[i + 2];
    let c3 = s[i + 3];
    let ghost t = s@.skip(i as int);
    proof {
        assert(t.len() == 4);
        assert(t[0] == s@[i as int] && t[1] == s@[i + 1] && t[2] == s@[i + 2] && t[3] == s@[i + 3]);
    }
    if c3 == '=' {
        if c2 == '=' {
            if v1 & 15 != 0 {
                return Err(DecodeError::InvalidBase64);
            }
            out.push((v0 << 2) | (v1 >> 4));
            proof {
                assert(valid_last_group(t));
                assert(dec_group(t) =~= seq![(v0 << 2) | (v1 >> 4)]);
                assert(out@ =~= b64_decode(s@));
            }
            Ok(out)
        } else {
            let v2 = match b64_val_exec(c2) {
                Some(v) => v,
                None => {
                    return Err(DecodeError::InvalidBase64);
                },
            };
            if v2 & 3 != 0 {
                return Err(DecodeError::InvalidBase64);
            }
            out.push((v0 << 2) | (v1 >> 4));
            out.push(((v1 & 15) << 4) | (v2 >> 2));
            proof {
                assert(valid_last_group(t));
                assert(dec_group(t) =~= seq![
                    (v0 << 2) | (v1 >> 4),
                    ((v1 & 15) << 4) | (v2 >> 2),
                ]);
                assert(out@ =~= b64_decode(s@));
            }
            Ok(out)
        }
    } else {
        let v2 = match b64_val_exec(c2) {
            Some(v) => v,
            None => {
                return Err(DecodeError::InvalidBase64);
            },
        };
        let v3 = match b64_val_exec(c3) {
            Some(v) => v,
            None => {
                return Err(DecodeError::InvalidBase64);
            },
        };
        out.push((v0 << 2) | (v1 >> 4));
        out.push(((v1 & 15) << 4) | (v2 >> 2));
        out.push(((v2 & 3) << 6) | v3);
        proof {
            assert(valid_last_group(t));
            assert(dec_group(t) =~= seq![
                (v0 << 2) | (v1 >> 4),
                ((v1 & 15) << 4) | (v2 >> 2),
                ((v2 & 3) << 6) | v3,
            ]);
            assert(out@ =~= b64_decode(s@));
        }
        Ok(out)
    }
}

/// Decodes base64 text to bytes.
pub fn decode_bytes(input: &str) -> (r: Result<Vec<u8>, DecodeError>)
    ensures
        match r {
            Ok(b) => valid_b64(input@) && b@ == b64_decode(input@),
            Err(e) => !valid_b64(input@) && e == DecodeError::InvalidBase64,
        },
{
    let chars = crate::text::chars_of(input);
    decode_chars(&chars)
}

/// Relies on `String::from_utf8`: it returns the string read from
/// exactly the given bytes when they are valid UTF-8, and an error
/// otherwise.
#[verifier::external_body]
fn string_from_utf8(bytes: Vec<u8>) -> (r: Option<String>)
    ensures
        match r {
            Some(s) => valid_utf8(bytes@) && s@ == decode_utf8(bytes@),
            None => !valid_utf8(bytes@),
        },
{
    match String::from_utf8(bytes) {
        Ok(s) => Some(s),
        Err(_) => None,
    }
}

/// Decodes base64 text to the string its bytes spell.
pub fn decode(input: &str) -> (r: Result<String, DecodeError>)
    ensures
        match r {
            Ok(s) => valid_b64(input@) && valid_utf8(b64_decode(input@)) && s@ == decode_utf8(
                b64_decode(input@),
            ),
            Err(DecodeError::InvalidBase64) => !valid_b64(input@),
            Err(DecodeError::InvalidUtf8) => valid_b64(input@) && !valid_utf8(b64_decode(input@)),
        },
{
    let bytes = match decode_bytes(input) {
        Ok(b) => b,
        Err(e) => {
            return Err(e);
        },
    };
    match string_from_utf8(bytes) {
        Some(s) => Ok(s),
        None => Err(DecodeError::InvalidUtf8),
    }
}

} // verus!
