//! Base64 rendering, for HTTP Basic credentials.
//!
//! Only the encoding direction exists here: the token flow checks a
//! presented `Authorization` header by rendering the expected
//! `Basic base64(id ":" credential)` value itself and comparing the two
//! strings in constant time, so no decoder needs to be trusted or written.
//! [`b64_chars`] is the specification (RFC 4648, standard alphabet, with
//! padding); [`base64_encode`] is proved to render exactly that.

use vstd::prelude::*;

verus! {

/// The character for one 6-bit digit value.
pub open spec fn b64_digit(n: int) -> char {
    if n == 0 {
        'A'
    } else if n == 1 {
        'B'
    } else if n == 2 {
        'C'
    } else if n == 3 {
        'D'
    } else if n == 4 {
        'E'
    } else if n == 5 {
        'F'
    } else if n == 6 {
        'G'
    } else if n == 7 {
        'H'
    } else if n == 8 {
        'I'
    } else if n == 9 {
        'J'
    } else if n == 10 {
        'K'
    } else if n == 11 {
        'L'
    } else if n == 12 {
        'M'
    } else if n == 13 {
        'N'
    } else if n == 14 {
        'O'
    } else if n == 15 {
        'P'
    } else if n == 16 {
        'Q'
    } else if n == 17 {
        'R'
    } else if n == 18 {
        'S'
    } else if n == 19 {
        'T'
    } else if n == 20 {
        'U'
    } else if n == 21 {
        'V'
    } else if n == 22 {
        'W'
    } else if n == 23 {
        'X'
    } else if n == 24 {
        'Y'
    } else if n == 25 {
        'Z'
    } else if n == 26 {
        'a'
    } else if n == 27 {
        'b'
    } else if n == 28 {
        'c'
    } else if n == 29 {
        'd'
    } else if n == 30 {
        'e'
    } else if n == 31 {
        'f'
    } else if n == 32 {
        'g'
    } else if n == 33 {
        'h'
    } else if n == 34 {
        'i'
    } else if n == 35 {
        'j'
    } else if n == 36 {
        'k'
    } else if n == 37 {
        'l'
    } else if n == 38 {
        'm'
    } else if n == 39 {
        'n'
    } else if n == 40 {
        'o'
    } else if n == 41 {
        'p'
    } else if n == 42 {
        'q'
    } else if n == 43 {
        'r'
    } else if n == 44 {
        's'
    } else if n == 45 {
        't'
    } else if n == 46 {
        'u'
    } else if n == 47 {
        'v'
    } else if n == 48 {
        'w'
    } else if n == 49 {
        'x'
    } else if n == 50 {
        'y'
    } else if n == 51 {
        'z'
    } else if n == 52 {
        '0'
    } else if n == 53 {
        '1'
    } else if n == 54 {
        '2'
    } else if n == 55 {
        '3'
    } else if n == 56 {
        '4'
    } else if n == 57 {
        '5'
    } else if n == 58 {
        '6'
    } else if n == 59 {
        '7'
    } else if n == 60 {
        '8'
    } else if n == 61 {
        '9'
    } else if n == 62 {
        '+'
    } else {
        '/'
    }
}

/// The base64 rendering of a byte string: full 3-byte groups become four
/// digits; a 1- or 2-byte tail is padded with `=` to a four-character block.
pub open spec fn b64_chars(bs: Seq<u8>) -> Seq<char>
    decreases bs.len(),
{
    if bs.len() == 0 {
        Seq::<char>::empty()
    } else if bs.len() == 1 {
        let a = bs[0] as int;
        seq![b64_digit(a / 4), b64_digit((a % 4) * 16), '=', '=']
    } else if bs.len() == 2 {
        let a = bs[0] as int;
        let b = bs[1] as int;
        seq![b64_digit(a / 4), b64_digit((a % 4) * 16 + b / 16), b64_digit((b % 16) * 4), '=']
    } else {
        let a = bs[0] as int;
        let b = bs[1] as int;
        let c = bs[2] as int;
        seq![
            b64_digit(a / 4),
            b64_digit((a % 4) * 16 + b / 16),
            b64_digit((b % 16) * 4 + c / 64),
            b64_digit(c % 64),
        ] + b64_chars(bs.skip(3))
    }
}

/// The one-character string for a 6-bit digit value.
fn b64_digit_str(d: u8) -> (r: &'static str)
    requires
        d < 64,
    ensures
        r@ =~= seq![b64_digit(d as int)],
{
    proof {
        reveal_strlit("A");
        reveal_strlit("B");
        reveal_strlit("C");
        reveal_strlit("D");
        reveal_strlit("E");
        reveal_strlit("F");
        reveal_strlit("G");
        reveal_strlit("H");
        reveal_strlit("I");
        reveal_strlit("J");
        reveal_strlit("K");
        reveal_strlit("L");
        reveal_strlit("M");
        reveal_strlit("N");
        reveal_strlit("O");
        reveal_strlit("P");
        reveal_strlit("Q");
        reveal_strlit("R");
        reveal_strlit("S");
        reveal_strlit("T");
        reveal_strlit("U");
        reveal_strlit("V");
        reveal_strlit("W");
        reveal_strlit("X");
        reveal_strlit("Y");
        reveal_strlit("Z");
        reveal_strlit("a");
        reveal_strlit("b");
        reveal_strlit("c");
        reveal_strlit("d");
        reveal_strlit("e");
        reveal_strlit("f");
        reveal_strlit("g");
        reveal_strlit("h");
        reveal_strlit("i");
        reveal_strlit("j");
        reveal_strlit("k");
        reveal_strlit("l");
        reveal_strlit("m");
        reveal_strlit("n");
        reveal_strlit("o");
        reveal_strlit("p");
        reveal_strlit("q");
        reveal_strlit("r");
        reveal_strlit("s");
        reveal_strlit("t");
        reveal_strlit("u");
        reveal_strlit("v");
        reveal_strlit("w");
        reveal_strlit("x");
        reveal_strlit("y");
        reveal_strlit("z");
        reveal_strlit("0");
        reveal_strlit("1");
        reveal_strlit("2");
        reveal_strlit("3");
        reveal_strlit("4");
        reveal_strlit("5");
        reveal_strlit("6");
        reveal_strlit("7");
        reveal_strlit("8");
        reveal_strlit("9");
        reveal_strlit("+");
        reveal_strlit("/");
    }
    if d == 0 {
        "A"
    } else if d == 1 {
        "B"
    } else if d == 2 {
        "C"
    } else if d == 3 {
        "D"
    } else if d == 4 {
        "E"
    } else if d == 5 {
        "F"
    } else if d == 6 {
        "G"
    } else if d == 7 {
        "H"
    } else if d == 8 {
        "I"
    } else if d == 9 {
        "J"
    } else if d == 10 {
        "K"
    } else if d == 11 {
        "L"
    } else if d == 12 {
        "M"
    } else if d == 13 {
        "N"
    } else if d == 14 {
        "O"
    } else if d == 15 {
        "P"
    } else if d == 16 {
        "Q"
    } else if d == 17 {
        "R"
    } else if d == 18 {
        "S"
    } else if d == 19 {
        "T"
    } else if d == 20 {
        "U"
    } else if d == 21 {
        "V"
    } else if d == 22 {
        "W"
    } else if d == 23 {
        "X"
    } else if d == 24 {
        "Y"
    } else if d == 25 {
        "Z"
    } else if d == 26 {
        "a"
    } else if d == 27 {
        "b"
    } else if d == 28 {
        "c"
    } else if d == 29 {
        "d"
    } else if d == 30 {
        "e"
    } else if d == 31 {
        "f"
    } else if d == 32 {
        "g"
    } else if d == 33 {
        "h"
    } else if d == 34 {
        "i"
    } else if d == 35 {
        "j"
    } else if d == 36 {
        "k"
    } else if d == 37 {
        "l"
    } else if d == 38 {
        "m"
    } else if d == 39 {
        "n"
    } else if d == 40 {
        "o"
    } else if d == 41 {
        "p"
    } else if d == 42 {
        "q"
    } else if d == 43 {
        "r"
    } else if d == 44 {
        "s"
    } else if d == 45 {
        "t"
    } else if d == 46 {
        "u"
    } else if d == 47 {
        "v"
    } else if d == 48 {
        "w"
    } else if d == 49 {
        "x"
    } else if d == 50 {
        "y"
    } else if d == 51 {
        "z"
    } else if d == 52 {
        "0"
    } else if d == 53 {
        "1"
    } else if d == 54 {
        "2"
    } else if d == 55 {
        "3"
    } else if d == 56 {
        "4"
    } else if d == 57 {
        "5"
    } else if d == 58 {
        "6"
    } else if d == 59 {
        "7"
    } else if d == 60 {
        "8"
    } else if d == 61 {
        "9"
    } else if d == 62 {
        "+"
    } else {
        "/"
    }
}

/// Renders the bytes from position `from` on.
fn b64_from(bs: &Vec<u8>, from: usize) -> (r: String)
    requires
        from <= bs.len(),
    ensures
        r@ == b64_chars(bs@.skip(from as int)),
    decreases bs.len() - from,
{
    proof {
        reveal_strlit("=");
        reveal_strlit("==");
    }
    let n = bs.len();
    let mut s = String::new();
    if from == n {
        proof {
            assert(bs@.skip(from as int).len() == 0);
        }
        s
    } else if from + 1 == n {
        let a = bs[from];
        s.append(b64_digit_str(a / 4));
        s.append(b64_digit_str((a % 4) * 16));
        s.append("==");
        proof {
            assert("=="@ =~= seq!['=', '=']);
            assert(bs@.skip(from as int)[0] == bs@[from as int]);
            assert(s@ =~= b64_chars(bs@.skip(from as int)));
        }
        s
    } else if from + 2 == n {
        let a = bs[from];
        let b = bs[from + 1];
        s.append(b64_digit_str(a / 4));
        s.append(b64_digit_str((a % 4) * 16 + b / 16));
        s.append(b64_digit_str((b % 16) * 4));
        s.append("=");
        proof {
            assert("="@ =~= seq!['=']);
            assert(bs@.skip(from as int)[0] == bs@[from as int]);
            assert(bs@.skip(from as int)[1] == bs@[from as int + 1]);
            assert(s@ =~= b64_chars(bs@.skip(from as int)));
        }
        s
    } else {
        let a = bs[from];
        let b = bs[from + 1];
        let c = bs[from + 2];
        s.append(b64_digit_str(a / 4));
        s.append(b64_digit_str((a % 4) * 16 + b / 16));
        s.append(b64_digit_str((b % 16) * 4 + c / 64));
        s.append(b64_digit_str(c % 64));
        let t = b64_from(bs, from + 3);
        s.append(t.as_str());
        proof {
            assert(bs@.skip(from as int)[0] == bs@[from as int]);
            assert(bs@.skip(from as int)[1] == bs@[from as int + 1]);
            assert(bs@.skip(from as int)[2] == bs@[from as int + 2]);
            assert(bs@.skip(from as int).skip(3) =~= bs@.skip(from as int + 3));
            assert(s@ =~= b64_chars(bs@.skip(from as int)));
        }
        s
    }
}

/// Renders a whole byte string in base64.
pub fn base64_encode(bytes: &[u8]) -> (r: String)
    ensures
        r@ == b64_chars(bytes@),
{
    let v = vstd::slice::slice_to_vec(bytes);
    proof {
        assert(v@.skip(0) =~= bytes@);
    }
    b64_from(&v, 0)
}

} // verus!
