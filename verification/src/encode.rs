//! Percent-encoding of query-string values.
//!
//! The client-supplied `state` is carried back verbatim inside a redirect's
//! query string, so it is percent-encoded: unreserved characters pass
//! through, every other character becomes `%xx` escapes of its UTF-8 bytes,
//! with vstd's [`vstd::utf8::encode_scalar`] as the byte-level reference.

use crate::text::{digit_char, digit_str};
use vstd::prelude::*;
use vstd::utf8::encode_scalar;

verus! {

/// An unreserved URI character: letters, digits, `-` `.` `_` `~`.
pub open spec fn unreserved(c: char) -> bool {
    (0x41 <= c as u32 && c as u32 <= 0x5a) || (0x61 <= c as u32 && c as u32 <= 0x7a) || (0x30
        <= c as u32 && c as u32 <= 0x39) || c == '-' || c == '.' || c == '_' || c == '~'
}

/// One byte as a `%xx` escape.
pub open spec fn pct_byte(b: u8) -> Seq<char> {
    seq!['%', digit_char(b as int / 16), digit_char(b as int % 16)]
}

/// A byte string as a run of `%xx` escapes.
pub open spec fn pct_bytes(bs: Seq<u8>) -> Seq<char>
    decreases bs.len(),
{
    if bs.len() == 0 {
        Seq::<char>::empty()
    } else {
        pct_byte(bs[0]) + pct_bytes(bs.drop_first())
    }
}

/// One character percent-encoded: unreserved characters stand as they are,
/// all others as escapes of their UTF-8 bytes.
pub open spec fn pct_char(c: char) -> Seq<char> {
    if unreserved(c) {
        seq![c]
    } else {
        pct_bytes(encode_scalar(c as u32))
    }
}

/// A string percent-encoded character by character.
pub open spec fn pct_encoded(s: Seq<char>) -> Seq<char>
    decreases s.len(),
{
    if s.len() == 0 {
        Seq::<char>::empty()
    } else {
        pct_char(s[0]) + pct_encoded(s.drop_first())
    }
}

/// The UTF-8 bytes of one character, matching [`encode_scalar`].
fn scalar_bytes(c: char) -> (r: Vec<u8>)
    ensures
        r@ == encode_scalar(c as u32),
{
    proof {
        vstd::utf8::char_is_scalar(c);
    }
    let v = c as u32;
    let mut out: Vec<u8> = Vec::new();
    if v <= 0x7F {
        out.push((v & 0x7F) as u8);
    } else if v <= 0x7FF {
        out.push(0xC0 | (((v >> 6) & 0x1F) as u8));
        out.push(0x80 | ((v & 0x3F) as u8));
    } else if v <= 0xFFFF {
        out.push(0xE0 | (((v >> 12) & 0x0F) as u8));
        out.push(0x80 | (((v >> 6) & 0x3F) as u8));
        out.push(0x80 | ((v & 0x3F) as u8));
    } else {
        out.push(0xF0 | (((v >> 18) & 0x7) as u8));
        out.push(0x80 | (((v >> 12) & 0x3F) as u8));
        out.push(0x80 | (((v >> 6) & 0x3F) as u8));
        out.push(0x80 | ((v & 0x3F) as u8));
    }
    proof {
        assert(out@ =~= encode_scalar(c as u32));
    }
    out
}

/// Renders the bytes from position `from` on as `%xx` escapes.
fn pct_bytes_str(bs: &Vec<u8>, from: usize) -> (r: String)
    requires
        from <= bs.len(),
    ensures
        r@ == pct_bytes(bs@.skip(from as int)),
    decreases bs.len() - from,
{
    if from == bs.len() {
        proof {
            assert(bs@.skip(from as int).len() == 0);
        }
        String::new()
    } else {
        let b = bs[from];
        let mut s = String::new();
        s.append("%");
        s.append(digit_str(b / 16));
        s.append(digit_str(b % 16));
        let t = pct_bytes_str(bs, from + 1);
        s.append(t.as_str());
        proof {
            reveal_strlit("%");
            assert("%"@ =~= seq!['%']);
            assert(bs@.skip(from as int)[0] == bs@[from as int]);
            assert(bs@.skip(from as int).drop_first() =~= bs@.skip(from as int + 1));
            assert(s@ =~= pct_byte(bs@[from as int]) + pct_bytes(bs@.skip(from as int + 1)));
        }
        s
    }
}

/// Percent-encodes `s` from position `from` on.
fn pct_encode_from(s: &str, from: usize) -> (r: String)
    requires
        from <= s@.len(),
    ensures
        r@ == pct_encoded(s@.skip(from as int)),
    decreases s@.len() - from,
{
    let len = s.unicode_len();
    if from == len {
        proof {
            assert(s@.skip(from as int).len() == 0);
        }
        String::new()
    } else {
        let c = s.get_char(from);
        let v = c as u32;
        let mut piece: String;
        if (0x41 <= v && v <= 0x5a) || (0x61 <= v && v <= 0x7a) || (0x30 <= v && v <= 0x39) || c
            == '-' || c == '.' || c == '_' || c == '~' {
            piece = s.substring_char(from, from + 1).to_owned();
            proof {
                assert(piece@ =~= pct_char(c));
            }
        } else {
            let bytes = scalar_bytes(c);
            proof {
                assert(bytes@.skip(0) =~= bytes@);
            }
            piece = pct_bytes_str(&bytes, 0);
        }
        let t = pct_encode_from(s, from + 1);
        piece.append(t.as_str());
        proof {
            assert(s@.skip(from as int)[0] == s@[from as int]);
            assert(s@.skip(from as int).drop_first() =~= s@.skip(from as int + 1));
            assert(piece@ =~= pct_char(s@[from as int]) + pct_encoded(s@.skip(from as int + 1)));
        }
        piece
    }
}

/// Percent-encodes a whole string.
pub fn pct_encode(s: &str) -> (r: String)
    ensures
        r@ == pct_encoded(s@),
{
    proof {
        assert(s@.skip(0) =~= s@);
    }
    pct_encode_from(s, 0)
}

} // verus!
