//! Verified text building: decimal and hexadecimal digit strings,
//! and digit grouping with commas.
//!
//! Each builder's contract gives the exact character sequence of the
//! result, so callers can state what they display.

use vstd::prelude::*;
use vstd::string::StringExecFns;
use vstd::arithmetic::div_mod::lemma_div_decreases;

verus! {

pub open spec fn dec_digit_char(d: int) -> char {
    if d == 0 {
        '0'
    } else if d == 1 {
        '1'
    } else if d == 2 {
        '2'
    } else if d == 3 {
        '3'
    } else if d == 4 {
        '4'
    } else if d == 5 {
        '5'
    } else if d == 6 {
        '6'
    } else if d == 7 {
        '7'
    } else if d == 8 {
        '8'
    } else {
        '9'
    }
}

pub open spec fn hex_digit_char(d: int) -> char {
    if d < 10 {
        dec_digit_char(d)
    } else if d == 10 {
        'a'
    } else if d == 11 {
        'b'
    } else if d == 12 {
        'c'
    } else if d == 13 {
        'd'
    } else if d == 14 {
        'e'
    } else {
        'f'
    }
}

/// The decimal digits of `n`, most significant first, no sign, no
/// leading zeros (a single `0` for zero).
pub open spec fn spec_dec_digits(n: int) -> Seq<char>
    decreases n,
    via spec_dec_digits_decreases
{
    if n < 10 {
        seq![dec_digit_char(n)]
    } else {
        spec_dec_digits(n / 10) + seq![dec_digit_char(n % 10)]
    }
}

#[via_fn]
proof fn spec_dec_digits_decreases(n: int) {
    if n >= 10 {
        lemma_div_decreases(n, 10);
    }
}

/// The lowercase hexadecimal digits of `n`.
pub open spec fn spec_hex_digits(n: int) -> Seq<char>
    decreases n,
    via spec_hex_digits_decreases
{
    if n < 16 {
        seq![hex_digit_char(n)]
    } else {
        spec_hex_digits(n / 16) + seq![hex_digit_char(n % 16)]
    }
}

#[via_fn]
proof fn spec_hex_digits_decreases(n: int) {
    if n >= 16 {
        lemma_div_decreases(n, 16);
    }
}

/// `n` as exactly three decimal digits, zero padded (`n < 1000`).
pub open spec fn spec_pad3(n: int) -> Seq<char> {
    seq![dec_digit_char(n / 100), dec_digit_char(n / 10 % 10), dec_digit_char(n % 10)]
}

/// Decimal digits of `n` grouped by thousands with commas.
pub open spec fn spec_group_digits(n: int) -> Seq<char>
    decreases n,
    via spec_group_digits_decreases
{
    if n < 1000 {
        spec_dec_digits(n)
    } else {
        spec_group_digits(n / 1000) + seq![','] + spec_pad3(n % 1000)
    }
}

#[via_fn]
proof fn spec_group_digits_decreases(n: int) {
    if n >= 1000 {
        lemma_div_decreases(n, 1000);
    }
}

/// One decimal digit as a string slice.
fn dec_digit_str(d: u64) -> (r: &'static str)
    requires
        d < 10,
    ensures
        r@ == seq![dec_digit_char(d as int)],
{
    let r = match d {
        0 => "0",
        1 => "1",
        2 => "2",
        3 => "3",
        4 => "4",
        5 => "5",
        6 => "6",
        7 => "7",
        8 => "8",
        _ => "9",
    };
    proof {
        reveal_strlit("0");
        reveal_strlit("1");
        reveal_strlit("2");
        reveal_strlit("3");
        reveal_strlit("4");
        reveal_strlit("5");
        reveal_strlit("6");
        reveal_strlit("7");
        reveal_strlit("8");
        reveal_strlit("9");
        assert(r@ =~= seq![dec_digit_char(d as int)]);
    }
    r
}

/// One hexadecimal digit as a string slice.
fn hex_digit_str(d: u64) -> (r: &'static str)
    requires
        d < 16,
    ensures
        r@ == seq![hex_digit_char(d as int)],
{
    if d < 10 {
        dec_digit_str(d)
    } else {
        let r = match d {
            10 => "a",
            11 => "b",
            12 => "c",
            13 => "d",
            14 => "e",
            _ => "f",
        };
        proof {
            reveal_strlit("a");
            reveal_strlit("b");
            reveal_strlit("c");
            reveal_strlit("d");
            reveal_strlit("e");
            reveal_strlit("f");
            assert(r@ =~= seq![hex_digit_char(d as int)]);
        }
        r
    }
}

/// Appends the decimal digits of `n`.
pub fn push_dec_u64(s: &mut String, n: u64)
    ensures
        final(s)@ == old(s)@ + spec_dec_digits(n as int),
    decreases n,
{
    if n >= 10 {
        push_dec_u64(s, n / 10);
        s.append(dec_digit_str(n % 10));
        proof {
            assert(old(s)@ + spec_dec_digits((n / 10) as int) + seq![
                dec_digit_char((n % 10) as int),
            ] =~= old(s)@ + spec_dec_digits(n as int));
        }
    } else {
        s.append(dec_digit_str(n));
    }
}

/// Appends the lowercase hexadecimal digits of `n`.
pub fn push_hex_u64(s: &mut String, n: u64)
    ensures
        final(s)@ == old(s)@ + spec_hex_digits(n as int),
    decreases n,
{
    if n >= 16 {
        push_hex_u64(s, n / 16);
        s.append(hex_digit_str(n % 16));
        proof {
            assert(old(s)@ + spec_hex_digits((n / 16) as int) + seq![
                hex_digit_char((n % 16) as int),
            ] =~= old(s)@ + spec_hex_digits(n as int));
        }
    } else {
        s.append(hex_digit_str(n));
    }
}

/// `n` in decimal.
pub fn u64_to_string(n: u64) -> (r: String)
    ensures
        r@ == spec_dec_digits(n as int),
{
    let mut s = String::new();
    push_dec_u64(&mut s, n);
    proof {
        assert(Seq::<char>::empty() + spec_dec_digits(n as int) =~= spec_dec_digits(n as int));
    }
    s
}

/// `n` as a `0x`-prefixed lowercase hexadecimal quantity, the way
/// chain RPC interfaces write numbers.
pub fn hex_quantity(n: u64) -> (r: String)
    ensures
        r@ == "0x"@ + spec_hex_digits(n as int),
{
    let mut s = String::new();
    s.append("0x");
    push_hex_u64(&mut s, n);
    proof {
        assert(Seq::<char>::empty() + "0x"@ =~= "0x"@);
    }
    s
}

/// Appends `n` as exactly three digits, zero padded.
fn push_pad3(s: &mut String, n: u64)
    requires
        n < 1000,
    ensures
        final(s)@ == old(s)@ + spec_pad3(n as int),
{
    s.append(dec_digit_str(n / 100));
    s.append(dec_digit_str(n / 10 % 10));
    s.append(dec_digit_str(n % 10));
    proof {
        assert(old(s)@ + seq![dec_digit_char(n as int / 100)] + seq![
            dec_digit_char(n as int / 10 % 10),
        ] + seq![dec_digit_char(n as int % 10)] =~= old(s)@ + spec_pad3(n as int));
    }
}

/// Appends the decimal digits of `n` grouped with commas.
pub fn push_grouped_u64(s: &mut String, n: u64)
    ensures
        final(s)@ == old(s)@ + spec_group_digits(n as int),
    decreases n,
{
    if n >= 1000 {
        push_grouped_u64(s, n / 1000);
        s.append(",");
        proof {
            reveal_strlit(",");
        }
        push_pad3(s, n % 1000);
        proof {
            assert(old(s)@ + spec_group_digits((n / 1000) as int) + ","@ + spec_pad3(
                (n % 1000) as int,
            ) =~= old(s)@ + spec_group_digits(n as int));
        }
    } else {
        push_dec_u64(s, n);
    }
}

} // verus!
