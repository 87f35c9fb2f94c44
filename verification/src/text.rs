//! Rendering of numbers as fixed-width hexadecimal and decimal text.
//!
//! Grant codes and tokens are opaque strings: 32 hex digits of random
//! material followed by 16 hex digits of a store serial.  The serial part
//! makes every generated string unique, which [`lemma_code_chars_serial_inj`]
//! captures; the random part carries the entropy.

use vstd::prelude::*;

verus! {

/// The character for one digit value, `0` to `15`.
pub open spec fn digit_char(n: int) -> char {
    if n == 0 {
        '0'
    } else if n == 1 {
        '1'
    } else if n == 2 {
        '2'
    } else if n == 3 {
        '3'
    } else if n == 4 {
        '4'
    } else if n == 5 {
        '5'
    } else if n == 6 {
        '6'
    } else if n == 7 {
        '7'
    } else if n == 8 {
        '8'
    } else if n == 9 {
        '9'
    } else if n == 10 {
        'a'
    } else if n == 11 {
        'b'
    } else if n == 12 {
        'c'
    } else if n == 13 {
        'd'
    } else if n == 14 {
        'e'
    } else {
        'f'
    }
}

/// `16` to the power `n`.
pub open spec fn pow16(n: nat) -> int
    decreases n,
{
    if n == 0 {
        1
    } else {
        16 * pow16((n - 1) as nat)
    }
}

/// The value `v` written as exactly `n` hex digits, most significant first.
pub open spec fn hex_seq(v: int, n: nat) -> Seq<char>
    decreases n,
{
    if n == 0 {
        Seq::empty()
    } else {
        hex_seq(v / 16, (n - 1) as nat).push(digit_char(v % 16))
    }
}

/// The value `v >= 0` written in decimal with no leading zero.
pub open spec fn dec_seq(v: int) -> Seq<char>
    recommends
        v >= 0,
    decreases v,
{
    if v < 10 {
        seq![digit_char(v)]
    } else {
        dec_seq(v / 10).push(digit_char(v % 10))
    }
}

pub proof fn lemma_hex_seq_len(v: int, n: nat)
    ensures
        hex_seq(v, n).len() == n,
    decreases n,
{
    if n > 0 {
        lemma_hex_seq_len(v / 16, (n - 1) as nat);
    }
}

proof fn lemma_digit_char_inj(a: int, b: int)
    requires
        0 <= a < 16,
        0 <= b < 16,
        digit_char(a) == digit_char(b),
    ensures
        a == b,
{
}

/// Two equal fixed-width hex renderings come from the same value.
pub proof fn lemma_hex_seq_inj(a: int, b: int, n: nat)
    requires
        0 <= a < pow16(n),
        0 <= b < pow16(n),
        hex_seq(a, n) == hex_seq(b, n),
    ensures
        a == b,
    decreases n,
{
    if n == 0 {
        assert(pow16(0) == 1);
    } else {
        let m = (n - 1) as nat;
        lemma_hex_seq_len(a / 16, m);
        lemma_hex_seq_len(b / 16, m);
        assert(hex_seq(a, n).last() == digit_char(a % 16));
        assert(hex_seq(b, n).last() == digit_char(b % 16));
        vstd::arithmetic::div_mod::lemma_mod_division_less_than_divisor(a, 16);
        vstd::arithmetic::div_mod::lemma_mod_division_less_than_divisor(b, 16);
        lemma_digit_char_inj(a % 16, b % 16);
        assert(hex_seq(a, n).drop_last() =~= hex_seq(a / 16, m));
        assert(hex_seq(b, n).drop_last() =~= hex_seq(b / 16, m));
        vstd::arithmetic::div_mod::lemma_multiply_divide_lt(a, 16, pow16(m));
        vstd::arithmetic::div_mod::lemma_multiply_divide_lt(b, 16, pow16(m));
        vstd::arithmetic::div_mod::lemma_div_pos_is_pos(a, 16);
        vstd::arithmetic::div_mod::lemma_div_pos_is_pos(b, 16);
        lemma_hex_seq_inj(a / 16, b / 16, m);
        vstd::arithmetic::div_mod::lemma_fundamental_div_mod(a, 16);
        vstd::arithmetic::div_mod::lemma_fundamental_div_mod(b, 16);
    }
}

/// Powers of sixteen multiply when exponents add.
pub proof fn lemma_pow16_add(a: nat, b: nat)
    ensures
        pow16(a + b) == pow16(a) * pow16(b),
    decreases a,
{
    if a == 0 {
    } else {
        lemma_pow16_add((a - 1) as nat, b);
        assert(pow16(a + b) == 16 * pow16((a + b - 1) as nat));
        vstd::arithmetic::mul::lemma_mul_is_associative(16, pow16((a - 1) as nat), pow16(b));
    }
}

/// The two digit widths the opaque strings use: 32 hex digits cover any
/// `u128`, 16 cover any `u64`.
pub proof fn lemma_pow16_code_widths()
    ensures
        pow16(32) == 0x1_0000_0000_0000_0000_0000_0000_0000_0000,
        pow16(16) == 0x1_0000_0000_0000_0000,
{
    assert(pow16(16) == 0x1_0000_0000_0000_0000) by {
        reveal_with_fuel(pow16, 17);
    }
    assert(pow16(32) == pow16(16) * pow16(16)) by {
        lemma_pow16_add(16, 16);
    }
}

/// An opaque grant-code or token string: 32 hex digits of random material,
/// then 16 hex digits of the issuing store's serial number.
pub open spec fn code_chars(rand: int, serial: int) -> Seq<char> {
    hex_seq(rand, 32) + hex_seq(serial, 16)
}

/// Two opaque strings built from different serials differ, whatever random
/// material went into them.
pub proof fn lemma_code_chars_serial_inj(r1: int, s1: int, r2: int, s2: int)
    requires
        0 <= s1 < pow16(16),
        0 <= s2 < pow16(16),
        code_chars(r1, s1) == code_chars(r2, s2),
    ensures
        s1 == s2,
{
    lemma_hex_seq_len(r1, 32);
    lemma_hex_seq_len(r2, 32);
    lemma_hex_seq_len(s1, 16);
    lemma_hex_seq_len(s2, 16);
    assert(code_chars(r1, s1).subrange(32, 48) =~= hex_seq(s1, 16));
    assert(code_chars(r2, s2).subrange(32, 48) =~= hex_seq(s2, 16));
    lemma_hex_seq_inj(s1, s2, 16);
}

/// Whether `code` is an opaque string whose serial part lies below `bound`.
pub open spec fn serial_coded(code: Seq<char>, bound: u64) -> bool {
    exists|r: int, c: int| 0 <= c < bound && code == code_chars(r, c)
}

/// A serial bound only ever grows, and the coding survives that.
pub proof fn lemma_serial_coded_mono(code: Seq<char>, b1: u64, b2: u64)
    requires
        serial_coded(code, b1),
        b1 <= b2,
    ensures
        serial_coded(code, b2),
{
    let (r0, c0) = choose|r0: int, c0: int| 0 <= c0 < b1 && code == code_chars(r0, c0);
    assert(0 <= c0 < b2 && code == code_chars(r0, c0));
}

/// Opaque strings built from different serials are different strings.
pub proof fn lemma_code_chars_distinct(r1: int, s1: int, r2: int, s2: int)
    requires
        0 <= s1 < pow16(16),
        0 <= s2 < pow16(16),
        s1 != s2,
    ensures
        code_chars(r1, s1) != code_chars(r2, s2),
{
    if code_chars(r1, s1) == code_chars(r2, s2) {
        lemma_code_chars_serial_inj(r1, s1, r2, s2);
    }
}

/// The one-character string for a digit value below 16.
pub fn digit_str(d: u8) -> (r: &'static str)
    requires
        d < 16,
    ensures
        r@ =~= seq![digit_char(d as int)],
{
    proof {
        reveal_strlit("0");
        reveal_strlit("1");
        reveal_strlit("2");
        reveal_strlit("3");
        reveal_strlit("4");
        reveal_strlit("5");
        reveal_strlit("6");
        reveal_strlit("7");
        reveal_strlit("8");
        reveal_strlit("9");
        reveal_strlit("a");
        reveal_strlit("b");
        reveal_strlit("c");
        reveal_strlit("d");
        reveal_strlit("e");
        reveal_strlit("f");
    }
    if d == 0 {
        "0"
    } else if d == 1 {
        "1"
    } else if d == 2 {
        "2"
    } else if d == 3 {
        "3"
    } else if d == 4 {
        "4"
    } else if d == 5 {
        "5"
    } else if d == 6 {
        "6"
    } else if d == 7 {
        "7"
    } else if d == 8 {
        "8"
    } else if d == 9 {
        "9"
    } else if d == 10 {
        "a"
    } else if d == 11 {
        "b"
    } else if d == 12 {
        "c"
    } else if d == 13 {
        "d"
    } else if d == 14 {
        "e"
    } else {
        "f"
    }
}

/// Renders `v` as exactly `n` hex digits, most significant first.
pub fn hex_fixed(v: u128, n: u8) -> (r: String)
    ensures
        r@ == hex_seq(v as int, n as nat),
    decreases n,
{
    if n == 0 {
        String::new()
    } else {
        let mut s = hex_fixed(v / 16, n - 1);
        s.append(digit_str((v % 16) as u8));
        proof {
            assert(s@ =~= hex_seq(v as int, n as nat));
        }
        s
    }
}

/// Renders `v` in decimal.
pub fn dec_u64(v: u64) -> (r: String)
    ensures
        r@ == dec_seq(v as int),
    decreases v,
{
    if v < 10 {
        digit_str(v as u8).to_owned()
    } else {
        let mut s = dec_u64(v / 10);
        s.append(digit_str((v % 10) as u8));
        proof {
            assert(s@ =~= dec_seq(v as int));
        }
        s
    }
}

/// Renders the opaque string for one draw of random material and one serial.
pub fn render_code(rand: u128, serial: u64) -> (r: String)
    ensures
        r@ == code_chars(rand as int, serial as int),
{
    let mut s = hex_fixed(rand, 32);
    let t = hex_fixed(serial as u128, 16);
    s.append(t.as_str());
    s
}

/// Compares two string slices by contents.
pub fn str_eq(a: &str, b: &str) -> (r: bool)
    ensures
        r == (a@ == b@),
{
    let x = a.to_owned();
    let y = b.to_owned();
    x == y
}

} // verus!
