//! Decimal-number text: powers of ten, digit-sequence arithmetic, and
//! the truncating fixed-point reader used for exposition values and
//! storage-tool sizes.
//!
//! A value such as `4.1929095e+07` is read exactly: the digit string
//! and the decimal shift determine `floor(value * 10^scale)`, clamped
//! into `u64`.  Negative values clamp to 0 and infinities to
//! `u64::MAX`, mirroring Rust's saturating float-to-integer cast.

use vstd::prelude::*;
use vstd::arithmetic::div_mod::{
    lemma_basic_div_specific_divisor, lemma_div_basics, lemma_div_denominator,
    lemma_fundamental_div_mod_converse,
};
use vstd::arithmetic::mul::{
    lemma_mul_basics, lemma_mul_inequality, lemma_mul_is_associative, lemma_mul_strict_inequality,
};
use crate::text::{
    all_digits, digit_val, digits_val, find_char, is_digit, is_digit_c, lemma_digits_val_prefix,
};

verus! {

pub open spec fn pow10(e: nat) -> int
    decreases e,
{
    if e == 0 {
        1
    } else {
        10 * pow10((e - 1) as nat)
    }
}

pub proof fn lemma_pow10_pos(e: nat)
    ensures
        pow10(e) >= 1,
    decreases e,
{
    if e > 0 {
        lemma_pow10_pos((e - 1) as nat);
    }
}

pub proof fn lemma_pow10_mono(a: nat, b: nat)
    requires
        a <= b,
    ensures
        pow10(a) <= pow10(b),
    decreases b,
{
    if a < b {
        lemma_pow10_mono(a, (b - 1) as nat);
        lemma_pow10_pos((b - 1) as nat);
    }
}

pub proof fn lemma_pow10_add(a: nat, b: nat)
    ensures
        pow10(a + b) == pow10(a) * pow10(b),
    decreases a,
{
    if a == 0 {
    } else {
        lemma_pow10_add((a - 1) as nat, b);
        lemma_mul_is_associative(10, pow10((a - 1) as nat), pow10(b));
    }
}

/// The value of a digit string is below `10^len`.
pub proof fn lemma_digits_val_upper(s: Seq<char>)
    requires
        all_digits(s),
    ensures
        0 <= digits_val(s) < pow10(s.len()),
    decreases s.len(),
{
    if s.len() > 0 {
        assert(is_digit(s[s.len() - 1]));
        assert forall|j: int| 0 <= j < s.len() - 1 implies is_digit(#[trigger] s.drop_last()[j]) by {
            assert(s.drop_last()[j] == s[j]);
        }
        lemma_digits_val_upper(s.drop_last());
    }
}

/// A digit string with a nonzero leading digit is at least `10^(len-1)`.
pub proof fn lemma_digits_val_lower(s: Seq<char>)
    requires
        all_digits(s),
        s.len() >= 1,
        s[0] != '0',
    ensures
        digits_val(s) >= pow10((s.len() - 1) as nat),
    decreases s.len(),
{
    assert(is_digit(s[s.len() - 1]));
    if s.len() == 1 {
        assert(is_digit(s[0]));
    } else {
        assert forall|j: int| 0 <= j < s.len() - 1 implies is_digit(#[trigger] s.drop_last()[j]) by {
            assert(s.drop_last()[j] == s[j]);
        }
        assert(s.drop_last()[0] == s[0]);
        lemma_digits_val_lower(s.drop_last());
        assert(digits_val(s) == digits_val(s.drop_last()) * 10 + digit_val(s.last()));
        assert(digit_val(s.last()) >= 0);
        assert(pow10((s.len() - 1) as nat) == 10 * pow10((s.len() - 2) as nat));
        assert(digits_val(s.drop_last()) * 10 >= pow10((s.len() - 2) as nat) * 10);
    }
}

/// Leading zero digits do not affect the value.
pub proof fn lemma_digits_drop_zero(s: Seq<char>)
    requires
        s.len() >= 1,
        s[0] == '0',
    ensures
        digits_val(s) == digits_val(s.drop_first()),
    decreases s.len(),
{
    if s.len() == 1 {
        assert(s.drop_first() =~= Seq::<char>::empty());
        assert(s.last() == s[0]);
        assert(digit_val('0') == 0);
        assert(digits_val(s) == digits_val(s.drop_last()) * 10 + digit_val(s.last()));
        assert(s.drop_last() =~= Seq::<char>::empty());
    } else {
        assert(s.drop_last()[0] == s[0]);
        lemma_digits_drop_zero(s.drop_last());
        assert(s.drop_last().drop_first() =~= s.drop_first().drop_last());
        assert(s.drop_first().last() == s.last());
        assert(digits_val(s) == digits_val(s.drop_last()) * 10 + digit_val(s.last()));
        assert(digits_val(s.drop_first()) == digits_val(s.drop_first().drop_last()) * 10
            + digit_val(s.drop_first().last()));
    }
}

pub proof fn lemma_digits_skip_zeros(s: Seq<char>, z: int)
    requires
        0 <= z <= s.len(),
        forall|j: int| 0 <= j < z ==> s[j] == '0',
    ensures
        digits_val(s) == digits_val(s.skip(z)),
    decreases z,
{
    if z == 0 {
        assert(s.skip(0) =~= s);
    } else {
        lemma_digits_drop_zero(s);
        assert(s.drop_first() =~= s.skip(1));
        lemma_digits_skip_zeros(s.skip(1), z - 1);
        assert(s.skip(1).skip(z - 1) =~= s.skip(z));
    }
}

/// Dividing a digit string's value by `10^k` is dropping its last `k`
/// digits.
pub proof fn lemma_digits_div(s: Seq<char>, k: int)
    requires
        all_digits(s),
        0 <= k <= s.len(),
    ensures
        digits_val(s) / pow10(k as nat) == digits_val(s.take(s.len() - k)),
    decreases k,
{
    lemma_digits_val_upper(s);
    if k == 0 {
        lemma_div_basics(digits_val(s));
        assert(s.take(s.len() as int) =~= s);
    } else {
        let a = digits_val(s.drop_last());
        let d = digit_val(s.last());
        assert(is_digit(s[s.len() - 1]));
        assert forall|j: int| 0 <= j < s.len() - 1 implies is_digit(#[trigger] s.drop_last()[j]) by {
            assert(s.drop_last()[j] == s[j]);
        }
        lemma_digits_val_upper(s.drop_last());
        lemma_fundamental_div_mod_converse(digits_val(s), 10, a, d);
        assert(digits_val(s) / 10 == a);
        lemma_pow10_pos((k - 1) as nat);
        lemma_div_denominator(digits_val(s), 10, pow10((k - 1) as nat));
        assert(digits_val(s) / pow10(k as nat) == a / pow10((k - 1) as nat));
        lemma_digits_div(s.drop_last(), k - 1);
        assert(s.drop_last().take(s.len() - k) =~= s.take(s.len() - k));
    }
}

/// A saturation bound for exponent digits: far beyond any exponent a
/// real input can need, and still far below `u128::MAX / 10`.
pub const EXP_CAP: u128 = 1000000000000000000000000000000;

/// One more than `u64::MAX`.
pub const ABOVE_U64: u128 = 18446744073709551616;

/// Case-insensitive match of one character against a lowercase letter.
pub open spec fn lower_eq(c: char, l: char) -> bool {
    c == l || ('A' <= c && c <= 'Z' && c as int + 32 == l as int)
}

pub fn lower_eq_c(c: char, l: char) -> (r: bool)
    ensures
        r == lower_eq(c, l),
{
    c == l || ('A' <= c && c <= 'Z' && (c as u32) + 32 == (l as u32))
}

/// `inf` or `infinity`, in any letter case.
pub open spec fn is_inf_word(s: Seq<char>) -> bool {
    (s.len() == 3 && lower_eq(s[0], 'i') && lower_eq(s[1], 'n') && lower_eq(s[2], 'f')) || (s.len()
        == 8 && lower_eq(s[0], 'i') && lower_eq(s[1], 'n') && lower_eq(s[2], 'f') && lower_eq(
        s[3],
        'i',
    ) && lower_eq(s[4], 'n') && lower_eq(s[5], 'i') && lower_eq(s[6], 't') && lower_eq(s[7], 'y'))
}

/// `nan`, in any letter case.
pub open spec fn is_nan_word(s: Seq<char>) -> bool {
    s.len() == 3 && lower_eq(s[0], 'n') && lower_eq(s[1], 'a') && lower_eq(s[2], 'n')
}

pub fn word_is_inf(a: &[char]) -> (r: bool)
    ensures
        r == is_inf_word(a@),
{
    if a.len() == 3 {
        lower_eq_c(a[0], 'i') && lower_eq_c(a[1], 'n') && lower_eq_c(a[2], 'f')
    } else if a.len() == 8 {
        lower_eq_c(a[0], 'i') && lower_eq_c(a[1], 'n') && lower_eq_c(a[2], 'f') && lower_eq_c(
            a[3],
            'i',
        ) && lower_eq_c(a[4], 'n') && lower_eq_c(a[5], 'i') && lower_eq_c(a[6], 't') && lower_eq_c(
            a[7],
            'y',
        )
    } else {
        false
    }
}

pub fn word_is_nan(a: &[char]) -> (r: bool)
    ensures
        r == is_nan_word(a@),
{
    a.len() == 3 && lower_eq_c(a[0], 'n') && lower_eq_c(a[1], 'a') && lower_eq_c(a[2], 'n')
}

pub open spec fn is_exp_char(c: char) -> bool {
    c == 'e' || c == 'E'
}

/// Index of the first exponent marker in `s`, if any.
pub open spec fn spec_find_exp(s: Seq<char>) -> Option<int>
    decreases s.len(),
{
    if s.len() == 0 {
        None
    } else if is_exp_char(s[0]) {
        Some(0)
    } else {
        match spec_find_exp(s.drop_first()) {
            Some(i) => Some(i + 1),
            None => None,
        }
    }
}

pub proof fn lemma_spec_find_exp(s: Seq<char>)
    ensures
        match spec_find_exp(s) {
            Some(i) => 0 <= i < s.len() && is_exp_char(s[i]) && forall|j: int|
                0 <= j < i ==> !is_exp_char(#[trigger] s[j]),
            None => forall|j: int| 0 <= j < s.len() ==> !is_exp_char(#[trigger] s[j]),
        },
    decreases s.len(),
{
    if s.len() > 0 && !is_exp_char(s[0]) {
        lemma_spec_find_exp(s.drop_first());
        match spec_find_exp(s.drop_first()) {
            Some(i) => {
                assert forall|j: int| 0 <= j < i + 1 implies !is_exp_char(#[trigger] s[j]) by {
                    if j > 0 {
                        assert(!is_exp_char(s.drop_first()[j - 1]));
                    }
                }
            },
            None => {
                assert forall|j: int| 0 <= j < s.len() implies !is_exp_char(#[trigger] s[j]) by {
                    if j > 0 {
                        assert(!is_exp_char(s.drop_first()[j - 1]));
                    }
                }
            },
        }
    }
}

pub proof fn lemma_find_exp_first(s: Seq<char>, i: int)
    requires
        0 <= i < s.len(),
        is_exp_char(s[i]),
        forall|j: int| 0 <= j < i ==> !is_exp_char(#[trigger] s[j]),
    ensures
        spec_find_exp(s) == Some(i),
    decreases s.len(),
{
    if i > 0 {
        lemma_find_exp_first(s.drop_first(), i - 1);
    }
}

pub fn find_exp_char(a: &[char]) -> (r: Option<usize>)
    ensures
        match r {
            Some(i) => spec_find_exp(a@) == Some(i as int),
            None => spec_find_exp(a@) is None,
        },
{
    let n = a.len();
    let mut i: usize = 0;
    while i < n
        invariant
            i <= n,
            n == a@.len(),
            forall|j: int| 0 <= j < i ==> !is_exp_char(#[trigger] a@[j]),
        decreases n - i,
    {
        if a[i] == 'e' || a[i] == 'E' {
            proof {
                lemma_find_exp_first(a@, i as int);
            }
            return Some(i);
        }
        i = i + 1;
    }
    proof {
        lemma_spec_find_exp(a@);
    }
    None
}

/// The unsigned mantissa: digits, optionally around one decimal point,
/// with at least one digit in all.
pub open spec fn valid_mantissa(m: Seq<char>) -> bool {
    match crate::text::spec_find(m, '.') {
        Some(d) => all_digits(m.take(d)) && all_digits(m.skip(d + 1)) && m.len() >= 2,
        None => all_digits(m) && m.len() >= 1,
    }
}

/// The mantissa's digits with the decimal point removed.
pub open spec fn mantissa_digits(m: Seq<char>) -> Seq<char> {
    match crate::text::spec_find(m, '.') {
        Some(d) => m.take(d) + m.skip(d + 1),
        None => m,
    }
}

/// How many of the mantissa's digits are fractional.
pub open spec fn mantissa_frac_len(m: Seq<char>) -> int {
    match crate::text::spec_find(m, '.') {
        Some(d) => m.len() - d - 1,
        None => 0,
    }
}

/// The exponent text after `e`/`E`: an optional sign, then digits.
pub open spec fn valid_exp(e: Seq<char>) -> bool {
    let t = if e.len() > 0 && (e[0] == '+' || e[0] == '-') {
        e.drop_first()
    } else {
        e
    };
    t.len() >= 1 && all_digits(t)
}

pub open spec fn exp_value(e: Seq<char>) -> int {
    let t = if e.len() > 0 && (e[0] == '+' || e[0] == '-') {
        e.drop_first()
    } else {
        e
    };
    if e.len() > 0 && e[0] == '-' {
        -digits_val(t)
    } else {
        digits_val(t)
    }
}

/// A finite decimal number without its sign: mantissa, optional
/// exponent part.
pub open spec fn valid_number_body(s: Seq<char>) -> bool {
    match spec_find_exp(s) {
        Some(i) => valid_mantissa(s.take(i)) && valid_exp(s.skip(i + 1)),
        None => valid_mantissa(s),
    }
}

pub open spec fn body_digits(s: Seq<char>) -> Seq<char> {
    match spec_find_exp(s) {
        Some(i) => mantissa_digits(s.take(i)),
        None => mantissa_digits(s),
    }
}

/// The net decimal shift of the digit string: exponent minus the
/// number of fractional digits.
pub open spec fn body_shift(s: Seq<char>) -> int {
    match spec_find_exp(s) {
        Some(i) => exp_value(s.skip(i + 1)) - mantissa_frac_len(s.take(i)),
        None => -mantissa_frac_len(s),
    }
}

/// `floor(digits * 10^sh)`, the truncated value of a digit string
/// shifted by `sh` decimal places.
pub open spec fn scaled_trunc(digits: Seq<char>, sh: int) -> int {
    if sh >= 0 {
        digits_val(digits) * pow10(sh as nat)
    } else {
        digits_val(digits) / pow10((-sh) as nat)
    }
}

/// Clamp an integer into `u64`, as a saturating cast does.
pub open spec fn cap_u64(v: int) -> u64 {
    if v > u64::MAX {
        u64::MAX
    } else if v < 0 {
        0
    } else {
        v as u64
    }
}

/// The numeric value of decimal text `s`, multiplied by `10^scale` and
/// truncated into a `u64`.  `None` exactly when `s` is not a number
/// that `str::parse::<f64>` would accept; negative values give 0 and
/// positive infinities `u64::MAX`.
pub open spec fn spec_parse_scaled(s: Seq<char>, scale: nat) -> Option<u64> {
    let neg = s.len() > 0 && s[0] == '-';
    let b = if s.len() > 0 && (s[0] == '+' || s[0] == '-') {
        s.drop_first()
    } else {
        s
    };
    if is_inf_word(b) {
        Some(
            if neg {
                0
            } else {
                u64::MAX
            },
        )
    } else if is_nan_word(b) {
        Some(0)
    } else if valid_number_body(b) {
        if neg {
            Some(0)
        } else {
            Some(cap_u64(scaled_trunc(body_digits(b), body_shift(b) + scale)))
        }
    } else {
        None
    }
}

/// Digit check over a range of a character slice.
pub fn check_digits(a: &[char], lo: usize, hi: usize) -> (r: bool)
    requires
        lo <= hi <= a@.len(),
    ensures
        r == all_digits(a@.subrange(lo as int, hi as int)),
{
    let ghost sub = a@.subrange(lo as int, hi as int);
    let mut i: usize = lo;
    while i < hi
        invariant
            lo <= i <= hi <= a@.len(),
            sub == a@.subrange(lo as int, hi as int),
            forall|j: int| lo <= j < i ==> is_digit(#[trigger] a@[j]),
        decreases hi - i,
    {
        if !is_digit_c(a[i]) {
            proof {
                assert(sub[i - lo] == a@[i as int]);
                assert(!is_digit(sub[i - lo]));
            }
            return false;
        }
        i = i + 1;
    }
    proof {
        assert forall|j: int| 0 <= j < sub.len() implies is_digit(#[trigger] sub[j]) by {
            assert(sub[j] == a@[lo + j]);
        }
    }
    true
}

/// The value of a digit range, saturated at `cap`.
pub fn digits_val_sat(a: &[char], lo: usize, hi: usize, cap: u128) -> (v: u128)
    requires
        lo <= hi <= a@.len(),
        all_digits(a@.subrange(lo as int, hi as int)),
        cap <= (u128::MAX - 9) / 10,
    ensures
        v as int == ({
            let dv = digits_val(a@.subrange(lo as int, hi as int));
            if dv > cap as int {
                cap as int
            } else {
                dv
            }
        }),
{
    let ghost sub = a@.subrange(lo as int, hi as int);
    let mut acc: u128 = 0;
    let mut i: usize = lo;
    while i < hi
        invariant
            lo <= i <= hi <= a@.len(),
            sub == a@.subrange(lo as int, hi as int),
            all_digits(sub),
            cap <= (u128::MAX - 9) / 10,
            acc as int == ({
                let dv = digits_val(a@.subrange(lo as int, i as int));
                if dv > cap as int {
                    cap as int
                } else {
                    dv
                }
            }),
        decreases hi - i,
    {
        let c = a[i];
        proof {
            assert(sub[i - lo] == a@[i as int]);
            assert(is_digit(sub[i - lo]));
        }
        let d: u128 = (c as u32 as u128) - 48;
        let ghost prev = a@.subrange(lo as int, i as int);
        let ghost cur = a@.subrange(lo as int, i + 1);
        proof {
            assert(cur.drop_last() =~= prev);
            assert(cur.last() == a@[i as int]);
            assert forall|j: int| 0 <= j < prev.len() implies is_digit(#[trigger] prev[j]) by {
                assert(prev[j] == sub[j]);
            }
            lemma_digits_val_upper(prev);
            assert(digits_val(cur) == digits_val(prev) * 10 + digit_val(cur.last()));
        }
        let mut next = acc * 10 + d;
        if next > cap {
            next = cap;
        }
        proof {
            if digits_val(prev) > cap as int {
                assert(digits_val(prev) * 10 >= digits_val(prev));
                assert(digits_val(cur) > cap as int);
            }
        }
        acc = next;
        i = i + 1;
    }
    proof {
        assert(a@.subrange(lo as int, i as int) =~= sub);
    }
    acc
}

/// First index in `a` that is not the digit zero, or the length.
pub fn scan_zeros(a: &[char]) -> (z: usize)
    ensures
        z <= a@.len(),
        forall|k: int| 0 <= k < z ==> a@[k] == '0',
        z == a@.len() || a@[z as int] != '0',
{
    let n = a.len();
    let mut z: usize = 0;
    while z < n
        invariant
            z <= n,
            n == a@.len(),
            forall|k: int| 0 <= k < z ==> a@[k] == '0',
        decreases n - z,
    {
        if a[z] != '0' {
            return z;
        }
        z = z + 1;
    }
    z
}

/// Exact power of ten, for small exponents.
pub fn pow10_u128(e: u32) -> (r: u128)
    requires
        e <= 30,
    ensures
        r as int == pow10(e as nat),
{
    let mut r: u128 = 1;
    let mut i: u32 = 0;
    while i < e
        invariant
            i <= e,
            e <= 30,
            r as int == pow10(i as nat),
        decreases e - i,
    {
        proof {
            lemma_pow10_mono((i + 1) as nat, 30);
            reveal_with_fuel(pow10, 31);
            assert(pow10(30) == 1000000000000000000000000000000int);
        }
        r = r * 10;
        i = i + 1;
    }
    r
}

/// With a shift of at least 21 places up, only whether the digits are
/// all zero matters: the clamped result is 0 or `u64::MAX`.
pub proof fn lemma_trunc_huge_up(d: Seq<char>, sh: int)
    requires
        all_digits(d),
        sh >= 21,
    ensures
        cap_u64(scaled_trunc(d, sh)) == (if digits_val(d) == 0 {
            0u64
        } else {
            u64::MAX
        }),
{
    lemma_digits_val_upper(d);
    lemma_pow10_pos(sh as nat);
    if digits_val(d) == 0 {
        lemma_mul_basics(pow10(sh as nat));
    } else {
        lemma_mul_inequality(1, digits_val(d), pow10(sh as nat));
        lemma_mul_basics(pow10(sh as nat));
        lemma_pow10_mono(21, sh as nat);
        reveal_with_fuel(pow10, 22);
        assert(pow10(21) == 1000000000000000000000int);
        assert(scaled_trunc(d, sh) >= pow10(sh as nat));
    }
}

/// With a shift down of at least the digit count, the truncated value
/// is 0.
pub proof fn lemma_trunc_huge_down(d: Seq<char>, k: int)
    requires
        all_digits(d),
        k >= d.len(),
    ensures
        cap_u64(scaled_trunc(d, -k)) == 0,
{
    lemma_digits_val_upper(d);
    lemma_pow10_mono(d.len(), k as nat);
    lemma_pow10_pos(k as nat);
    lemma_basic_div_specific_divisor(pow10(k as nat));
}

/// Truncated value of a digit string shifted `sh` places up, clamped
/// into `u64`.
pub fn trunc_shift_up(d: &[char], sh: u128) -> (r: u64)
    requires
        all_digits(d@),
    ensures
        r == cap_u64(scaled_trunc(d@, sh as int)),
{
    let dn = d.len();
    let z = scan_zeros(d);
    let sig = dn - z;
    proof {
        lemma_digits_skip_zeros(d@, z as int);
        reveal_with_fuel(pow10, 21);
        assert(pow10(20) == 100000000000000000000int);
    }
    if sig == 0 {
        proof {
            assert(d@.skip(z as int) =~= Seq::<char>::empty());
            assert(digits_val(d@) == 0);
            lemma_mul_basics(pow10(sh as nat));
        }
        return 0;
    }
    if sh > 20 || sh + (sig as u128) > 20 {
        proof {
            let t = d@.skip(z as int);
            assert forall|j: int| 0 <= j < t.len() implies is_digit(#[trigger] t[j]) by {
                assert(t[j] == d@[z + j]);
            }
            assert(t[0] == d@[z as int]);
            lemma_digits_val_lower(t);
            lemma_pow10_pos(sh as nat);
            lemma_mul_inequality(pow10((sig - 1) as nat), digits_val(d@), pow10(sh as nat));
            lemma_pow10_add((sig - 1) as nat, sh as nat);
            lemma_pow10_mono(20, ((sig - 1) + sh as int) as nat);
            assert(scaled_trunc(d@, sh as int) >= pow10(((sig - 1) + sh as int) as nat));
        }
        return u64::MAX;
    }
    let ghost skipped = d@.skip(z as int);
    proof {
        assert forall|j: int| 0 <= j < skipped.len() implies is_digit(#[trigger] skipped[j]) by {
            assert(skipped[j] == d@[z + j]);
        }
        lemma_digits_val_upper(skipped);
        lemma_pow10_mono(sig as nat, 20);
        assert(d@.subrange(0, dn as int) =~= d@);
        reveal_with_fuel(pow10, 31);
        assert(EXP_CAP as int == pow10(30));
        lemma_pow10_mono(20, 30);
    }
    let val = digits_val_sat(d, 0, dn, EXP_CAP);
    let p = pow10_u128(sh as u32);
    proof {
        lemma_pow10_pos(sh as nat);
        lemma_mul_strict_inequality(val as int, pow10(sig as nat), pow10(sh as nat));
        lemma_pow10_add(sig as nat, sh as nat);
        lemma_pow10_mono((sig + sh as int) as nat, 20);
    }
    let prod = val * p;
    proof {
        assert(scaled_trunc(d@, sh as int) == val as int * p as int);
    }
    if prod > u64::MAX as u128 {
        u64::MAX
    } else {
        prod as u64
    }
}

/// Truncated value of a digit string shifted `k` places down, clamped
/// into `u64`.
pub fn trunc_shift_down(d: &[char], k: u128) -> (r: u64)
    requires
        all_digits(d@),
    ensures
        r == cap_u64(scaled_trunc(d@, -(k as int))),
{
    let dn = d.len();
    if k >= dn as u128 {
        proof {
            lemma_trunc_huge_down(d@, k as int);
        }
        return 0;
    }
    let keep = dn - (k as usize);
    proof {
        lemma_digits_div(d@, k as int);
        assert(d@.take(dn - k as int) =~= d@.subrange(0, keep as int));
        assert forall|j: int| 0 <= j < keep implies is_digit(
            #[trigger] d@.subrange(0, keep as int)[j],
        ) by {
            assert(d@.subrange(0, keep as int)[j] == d@[j]);
        }
        if k == 0 {
            lemma_div_basics(digits_val(d@));
        } else {
            lemma_pow10_pos(k as nat);
        }
        lemma_digits_val_upper(d@.subrange(0, keep as int));
    }
    let val = digits_val_sat(d, 0, keep, ABOVE_U64);
    proof {
        assert(scaled_trunc(d@, -(k as int)) == digits_val(d@.subrange(0, keep as int)));
    }
    if val > u64::MAX as u128 {
        u64::MAX
    } else {
        val as u64
    }
}

/// Reads decimal text the way `str::parse::<f64>` accepts it, scales
/// the value by `10^scale`, and truncates it into a `u64`.
#[verifier::rlimit(60)]
pub fn parse_scaled_chars(a: &[char], scale: u32) -> (r: Option<u64>)
    requires
        scale <= 6,
    ensures
        r == spec_parse_scaled(a@, scale as nat),
{
    let n = a.len();
    let signed = n > 0 && (a[0] == '+' || a[0] == '-');
    let neg = n > 0 && a[0] == '-';
    let start: usize = if signed {
        1
    } else {
        0
    };
    let b = &a[start..n];
    proof {
        assert(b@ =~= (if a@.len() > 0 && (a@[0] == '+' || a@[0] == '-') {
            a@.drop_first()
        } else {
            a@
        }));
    }
    if word_is_inf(b) {
        return Some(
            if neg {
                0
            } else {
                u64::MAX
            },
        );
    }
    if word_is_nan(b) {
        return Some(0);
    }
    let bn = b.len();
    proof {
        lemma_spec_find_exp(b@);
    }
    let (mlen, has_exp): (usize, bool) = match find_exp_char(b) {
        Some(i) => (i, true),
        None => (bn, false),
    };
    let m = &b[0..mlen];
    proof {
        assert(m@ =~= b@.take(mlen as int));
        if !has_exp {
            assert(m@ =~= b@);
        }
        crate::text::lemma_spec_find(m@, '.');
    }
    let (int_hi, frac_lo): (usize, usize) = match find_char(m, '.') {
        Some(d) => (d, d + 1),
        None => (mlen, mlen),
    };
    let f_len: usize = mlen - frac_lo;
    let int_ok = check_digits(m, 0, int_hi);
    let frac_ok = check_digits(m, frac_lo, mlen);
    let mantissa_ok = int_ok && frac_ok && int_hi + f_len >= 1;
    proof {
        match crate::text::spec_find(m@, '.') {
            Some(dd) => {
                assert(dd == int_hi as int);
                assert(m@.take(dd) =~= m@.subrange(0, int_hi as int));
                assert(m@.skip(dd + 1) =~= m@.subrange(frac_lo as int, mlen as int));
                assert(mantissa_ok == valid_mantissa(m@));
            },
            None => {
                assert(m@.subrange(0, int_hi as int) =~= m@);
                assert(m@.subrange(frac_lo as int, mlen as int) =~= Seq::<char>::empty());
                assert(mantissa_ok == valid_mantissa(m@));
            },
        }
    }
    if !mantissa_ok {
        proof {
            assert(!valid_number_body(b@));
        }
        return None;
    }
    let mut eneg = false;
    let mut ev: u128 = 0;
    let ghost mut tev: int = 0;
    if has_exp {
        let e = &b[mlen + 1..bn];
        proof {
            assert(e@ =~= b@.skip(mlen + 1));
        }
        let en = e.len();
        let esigned = en > 0 && (e[0] == '+' || e[0] == '-');
        eneg = en > 0 && e[0] == '-';
        let elo: usize = if esigned {
            1
        } else {
            0
        };
        proof {
            assert(e@.subrange(elo as int, en as int) =~= (if e@.len() > 0 && (e@[0] == '+'
                || e@[0] == '-') {
                e@.drop_first()
            } else {
                e@
            }));
        }
        if elo == en {
            proof {
                assert(!valid_exp(b@.skip(mlen + 1)));
            }
            return None;
        }
        if !check_digits(e, elo, en) {
            proof {
                assert(!valid_exp(b@.skip(mlen + 1)));
            }
            return None;
        }
        ev = digits_val_sat(e, elo, en, EXP_CAP);
        proof {
            tev = digits_val(e@.subrange(elo as int, en as int));
            lemma_digits_val_prefix(e@.subrange(elo as int, en as int), 0);
            assert(valid_exp(b@.skip(mlen + 1)));
            assert(exp_value(b@.skip(mlen + 1)) == (if eneg {
                -tev
            } else {
                tev
            }));
        }
    }
    proof {
        assert(valid_number_body(b@));
        assert(tev >= 0);
        assert(ev as int == (if tev > EXP_CAP as int {
            EXP_CAP as int
        } else {
            tev
        }));
        assert(mantissa_frac_len(m@) == f_len as int);
        assert(body_shift(b@) == (if eneg {
            -tev
        } else {
            tev
        }) - f_len as int);
    }
    if neg {
        return Some(0);
    }
    let mut dvec: Vec<char> = vstd::slice::slice_to_vec(&m[0..int_hi]);
    let mut fvec: Vec<char> = vstd::slice::slice_to_vec(&m[frac_lo..mlen]);
    dvec.append(&mut fvec);
    let ghost dseq = dvec@;
    proof {
        assert(dseq =~= mantissa_digits(m@));
        assert(body_digits(b@) == mantissa_digits(m@));
        assert forall|j: int| 0 <= j < dseq.len() implies is_digit(#[trigger] dseq[j]) by {
            if j < int_hi {
                assert(m@.subrange(0, int_hi as int)[j] == dseq[j]);
                assert(is_digit(m@.subrange(0, int_hi as int)[j]));
            } else {
                assert(m@.subrange(frac_lo as int, mlen as int)[j - int_hi] == dseq[j]);
                assert(is_digit(m@.subrange(frac_lo as int, mlen as int)[j - int_hi]));
            }
        }
    }
    let dn = dvec.len();
    let pos: u128 = scale as u128 + (if eneg {
        0
    } else {
        ev
    });
    let negt: u128 = f_len as u128 + (if eneg {
        ev
    } else {
        0
    });
    let ghost tsh: int = body_shift(b@) + scale as int;
    let result: u64;
    if pos >= negt {
        let sh = pos - negt;
        result = trunc_shift_up(dvec.as_slice(), sh);
        proof {
            if tev > EXP_CAP as int {
                if eneg {
                    assert(negt as int >= EXP_CAP as int);
                    assert(pos as int <= 6);
                    assert(false);
                }
                assert(sh as int >= EXP_CAP as int - negt as int);
                assert(negt as int <= usize::MAX as int);
                assert(sh as int >= 21);
                assert(tsh >= sh as int);
                lemma_trunc_huge_up(dseq, sh as int);
                lemma_trunc_huge_up(dseq, tsh);
            } else {
                assert(tsh == sh as int);
            }
            assert(cap_u64(scaled_trunc(dseq, tsh)) == result);
        }
    } else {
        let k = negt - pos;
        result = trunc_shift_down(dvec.as_slice(), k);
        proof {
            if tev > EXP_CAP as int {
                if !eneg {
                    assert(pos as int >= EXP_CAP as int);
                    assert(negt as int <= usize::MAX as int);
                    assert(false);
                }
                assert(k as int >= EXP_CAP as int - 6);
                assert(dn as int <= usize::MAX as int);
                assert(k as int >= dn as int);
                assert(-tsh >= k as int);
                lemma_trunc_huge_down(dseq, k as int);
                lemma_trunc_huge_down(dseq, -tsh);
            } else {
                assert(tsh == -(k as int));
            }
            assert(cap_u64(scaled_trunc(dseq, tsh)) == result);
        }
    }
    proof {
        assert(spec_parse_scaled(a@, scale as nat) == Some(result));
    }
    Some(result)
}

} // verus!
