//! Character-level scanning utilities shared by the parsers.
//!
//! All parsing in this crate is specified over `Seq<char>` (the view of
//! `str`) and executed over `Vec<char>` / `&[char]`.  Whitespace means
//! ASCII whitespace throughout.

use vstd::prelude::*;
use vstd::string::StrSliceExecFns;

verus! {

/// ASCII whitespace: space, tab, line feed, vertical tab, form feed,
/// carriage return.
pub open spec fn is_space(c: char) -> bool {
    c == ' ' || c == '\t' || c == '\n' || c == '\u{b}' || c == '\u{c}' || c == '\r'
}

pub open spec fn is_digit(c: char) -> bool {
    '0' <= c && c <= '9'
}

/// Numeric value of a decimal digit character.
pub open spec fn digit_val(c: char) -> int {
    c as int - '0' as int
}

/// Value of a string of decimal digits, most significant first.
pub open spec fn digits_val(s: Seq<char>) -> int
    decreases s.len(),
{
    if s.len() == 0 {
        0
    } else {
        digits_val(s.drop_last()) * 10 + digit_val(s.last())
    }
}

pub open spec fn all_digits(s: Seq<char>) -> bool {
    forall|i: int| 0 <= i < s.len() ==> is_digit(#[trigger] s[i])
}

/// Index of the first occurrence of `c` in `s`, if any.
pub open spec fn spec_find(s: Seq<char>, c: char) -> Option<int>
    decreases s.len(),
{
    if s.len() == 0 {
        None
    } else if s[0] == c {
        Some(0)
    } else {
        match spec_find(s.drop_first(), c) {
            Some(i) => Some(i + 1),
            None => None,
        }
    }
}

pub proof fn lemma_spec_find(s: Seq<char>, c: char)
    ensures
        match spec_find(s, c) {
            Some(i) => 0 <= i < s.len() && s[i] == c && forall|j: int| 0 <= j < i ==> s[j] != c,
            None => forall|j: int| 0 <= j < s.len() ==> s[j] != c,
        },
    decreases s.len(),
{
    if s.len() > 0 && s[0] != c {
        lemma_spec_find(s.drop_first(), c);
        match spec_find(s.drop_first(), c) {
            Some(i) => {
                assert forall|j: int| 0 <= j < i + 1 implies s[j] != c by {
                    if j > 0 {
                        assert(s.drop_first()[j - 1] != c);
                    }
                }
            },
            None => {
                assert forall|j: int| 0 <= j < s.len() implies s[j] != c by {
                    if j > 0 {
                        assert(s.drop_first()[j - 1] != c);
                    }
                }
            },
        }
    }
}

pub proof fn lemma_find_first(s: Seq<char>, c: char, i: int)
    requires
        0 <= i < s.len(),
        s[i] == c,
        forall|j: int| 0 <= j < i ==> s[j] != c,
    ensures
        spec_find(s, c) == Some(i),
    decreases s.len(),
{
    if i > 0 {
        lemma_find_first(s.drop_first(), c, i - 1);
    }
}

/// Turns a `&str` into the vector of its characters.
pub fn str_to_chars(s: &str) -> (v: Vec<char>)
    ensures
        v@ == s@,
{
    let n = s.unicode_len();
    let mut v: Vec<char> = Vec::with_capacity(n);
    let mut i: usize = 0;
    while i < n
        invariant
            i <= n,
            n == s@.len(),
            v@ == s@.subrange(0, i as int),
        decreases n - i,
    {
        v.push(s.get_char(i));
        i = i + 1;
        proof {
            assert(v@ =~= s@.subrange(0, i as int));
        }
    }
    proof {
        assert(v@ =~= s@);
    }
    v
}

/// Compares a slice of characters against a string.
pub fn chars_eq_str(a: &[char], s: &str) -> (r: bool)
    ensures
        r == (a@ == s@),
{
    let n = s.unicode_len();
    if a.len() != n {
        proof {
            assert(a@ != s@);
        }
        return false;
    }
    let mut i: usize = 0;
    while i < n
        invariant
            i <= n,
            n == s@.len(),
            a@.len() == n,
            forall|j: int| 0 <= j < i ==> a@[j] == s@[j],
        decreases n - i,
    {
        if a[i] != s.get_char(i) {
            return false;
        }
        i = i + 1;
    }
    proof {
        assert(a@ =~= s@);
    }
    true
}

/// Compares two strings character by character.
pub fn str_eq(a: &str, b: &str) -> (r: bool)
    ensures
        r == (a@ == b@),
{
    let n = a.unicode_len();
    if n != b.unicode_len() {
        proof {
            assert(a@ != b@);
        }
        return false;
    }
    let mut i: usize = 0;
    while i < n
        invariant
            i <= n,
            n == a@.len(),
            n == b@.len(),
            forall|j: int| 0 <= j < i ==> a@[j] == b@[j],
        decreases n - i,
    {
        if a.get_char(i) != b.get_char(i) {
            return false;
        }
        i = i + 1;
    }
    proof {
        assert(a@ =~= b@);
    }
    true
}

pub fn is_space_c(c: char) -> (r: bool)
    ensures
        r == is_space(c),
{
    c == ' ' || c == '\t' || c == '\n' || c == '\u{b}' || c == '\u{c}' || c == '\r'
}

pub fn is_digit_c(c: char) -> (r: bool)
    ensures
        r == is_digit(c),
{
    '0' <= c && c <= '9'
}

/// Index of the first whitespace character in `s`, if any.
pub open spec fn spec_find_ws(s: Seq<char>) -> Option<int>
    decreases s.len(),
{
    if s.len() == 0 {
        None
    } else if is_space(s[0]) {
        Some(0)
    } else {
        match spec_find_ws(s.drop_first()) {
            Some(i) => Some(i + 1),
            None => None,
        }
    }
}

pub proof fn lemma_find_ws_first(s: Seq<char>, i: int)
    requires
        0 <= i < s.len(),
        is_space(s[i]),
        forall|j: int| 0 <= j < i ==> !is_space(#[trigger] s[j]),
    ensures
        spec_find_ws(s) == Some(i),
    decreases s.len(),
{
    if i > 0 {
        lemma_find_ws_first(s.drop_first(), i - 1);
    }
}

pub proof fn lemma_find_ws_none(s: Seq<char>)
    requires
        forall|j: int| 0 <= j < s.len() ==> !is_space(#[trigger] s[j]),
    ensures
        spec_find_ws(s) is None,
    decreases s.len(),
{
    if s.len() > 0 {
        assert forall|j: int| 0 <= j < s.len() - 1 implies !is_space(
            #[trigger] s.drop_first()[j],
        ) by {
            assert(s.drop_first()[j] == s[j + 1]);
        }
        lemma_find_ws_none(s.drop_first());
    }
}

/// A token is a maximal run of non-space characters starting at the
/// head of `s`; empty if `s` starts with a space or is empty.
pub open spec fn spec_take_token(s: Seq<char>) -> Seq<char>
    decreases s.len(),
{
    if s.len() > 0 && !is_space(s[0]) {
        seq![s[0]] + spec_take_token(s.drop_first())
    } else {
        seq![]
    }
}

pub proof fn lemma_take_token_len(s: Seq<char>)
    ensures
        spec_take_token(s).len() <= s.len(),
    decreases s.len(),
{
    if s.len() > 0 && !is_space(s[0]) {
        lemma_take_token_len(s.drop_first());
    }
}

/// If the first `t` characters are not spaces and position `t` is a
/// space (or the end), the head token is exactly the first `t` chars.
pub proof fn lemma_take_token_exact(s: Seq<char>, t: int)
    requires
        0 <= t <= s.len(),
        forall|j: int| 0 <= j < t ==> !is_space(#[trigger] s[j]),
        t == s.len() || is_space(s[t]),
    ensures
        spec_take_token(s) == s.take(t),
    decreases s.len(),
{
    if t == 0 {
        assert(s.take(0) =~= seq![]);
    } else {
        assert(!is_space(s[0]));
        lemma_take_token_exact(s.drop_first(), t - 1);
        assert forall|j: int| 0 <= j < t - 1 implies !is_space(#[trigger] s.drop_first()[j]) by {
            assert(s.drop_first()[j] == s[j + 1]);
        }
        assert(s.take(t) =~= seq![s[0]] + s.drop_first().take(t - 1));
    }
}

/// The whitespace-separated tokens of `s`, in order.
pub open spec fn spec_tokens(s: Seq<char>) -> Seq<Seq<char>>
    decreases s.len(),
    via spec_tokens_decreases
{
    if s.len() == 0 {
        seq![]
    } else if is_space(s[0]) {
        spec_tokens(s.drop_first())
    } else {
        seq![spec_take_token(s)] + spec_tokens(s.skip(spec_take_token(s).len() as int))
    }
}

#[via_fn]
proof fn spec_tokens_decreases(s: Seq<char>) {
    if s.len() > 0 && !is_space(s[0]) {
        lemma_take_token_len(s);
        assert(spec_take_token(s).len() >= 1);
    }
}

/// Index of the first space at or after `start`, or the length.
pub fn scan_non_space(a: &[char], start: usize) -> (j: usize)
    requires
        start <= a@.len(),
    ensures
        start <= j <= a@.len(),
        forall|k: int| start <= k < j ==> !is_space(#[trigger] a@[k]),
        j == a@.len() || is_space(a@[j as int]),
{
    let n = a.len();
    let mut j = start;
    while j < n
        invariant
            start <= j <= n,
            n == a@.len(),
            forall|k: int| start <= k < j ==> !is_space(#[trigger] a@[k]),
        decreases n - j,
    {
        if is_space_c(a[j]) {
            return j;
        }
        j = j + 1;
    }
    j
}

/// Index of the first non-space at or after `start`, or the length.
pub fn scan_space(a: &[char], start: usize) -> (j: usize)
    requires
        start <= a@.len(),
    ensures
        start <= j <= a@.len(),
        forall|k: int| start <= k < j ==> is_space(#[trigger] a@[k]),
        j == a@.len() || !is_space(a@[j as int]),
{
    let n = a.len();
    let mut j = start;
    while j < n
        invariant
            start <= j <= n,
            n == a@.len(),
            forall|k: int| start <= k < j ==> is_space(#[trigger] a@[k]),
        decreases n - j,
    {
        if !is_space_c(a[j]) {
            return j;
        }
        j = j + 1;
    }
    j
}

/// Dropping leading spaces does not change the token decomposition.
pub proof fn lemma_tokens_skip_spaces(s: Seq<char>, t: int)
    requires
        0 <= t <= s.len(),
        forall|j: int| 0 <= j < t ==> is_space(#[trigger] s[j]),
    ensures
        spec_tokens(s) == spec_tokens(s.skip(t)),
    decreases t,
{
    if t > 0 {
        assert(is_space(s[0]));
        assert(s.drop_first() =~= s.skip(1));
        lemma_tokens_skip_spaces(s.skip(1), t - 1);
        assert(s.skip(1).skip(t - 1) =~= s.skip(t));
    } else {
        assert(s.skip(0) =~= s);
    }
}

/// The whitespace-separated tokens of `a`, each as its own vector.
pub fn tokens_of(a: &[char]) -> (r: Vec<Vec<char>>)
    ensures
        r@.len() == spec_tokens(a@).len(),
        forall|k: int| 0 <= k < r@.len() ==> #[trigger] r@[k]@ == spec_tokens(a@)[k],
{
    let n = a.len();
    let mut r: Vec<Vec<char>> = Vec::new();
    let ghost mut done: Seq<Seq<char>> = seq![];
    let mut i: usize = 0;
    proof {
        assert(a@.skip(0) =~= a@);
    }
    while i < n
        invariant
            i <= n,
            n == a@.len(),
            r@.len() == done.len(),
            forall|k: int| 0 <= k < r@.len() ==> #[trigger] r@[k]@ == done[k],
            spec_tokens(a@) == done + spec_tokens(a@.skip(i as int)),
        decreases n - i,
    {
        let start = scan_space(a, i);
        proof {
            let rem0 = a@.skip(i as int);
            assert forall|k: int| 0 <= k < start - i implies is_space(#[trigger] rem0[k]) by {
                assert(rem0[k] == a@[i + k]);
            }
            lemma_tokens_skip_spaces(rem0, start - i);
            assert(rem0.skip(start - i) =~= a@.skip(start as int));
        }
        if start == n {
            i = n;
        } else {
            let j = scan_non_space(a, start);
            let tok: Vec<char> = vstd::slice::slice_to_vec(&a[start..j]);
            proof {
                let rem = a@.skip(start as int);
                assert forall|k: int| 0 <= k < j - start implies !is_space(#[trigger] rem[k]) by {
                    assert(rem[k] == a@[start + k]);
                }
                if j < n {
                    assert(rem[j - start] == a@[j as int]);
                }
                lemma_take_token_exact(rem, j - start);
                assert(rem.take(j - start) =~= a@.subrange(start as int, j as int));
                assert(rem.skip(j - start) =~= a@.skip(j as int));
                assert(tok@ == spec_take_token(rem));
                done = done + seq![tok@];
                assert(spec_tokens(a@) == done + spec_tokens(a@.skip(j as int)));
            }
            r.push(tok);
            i = j;
        }
    }
    proof {
        assert(spec_tokens(a@.skip(n as int)) =~= seq![]);
        assert(spec_tokens(a@) =~= done);
    }
    r
}

/// Leading whitespace removed.
pub open spec fn spec_trim_start(s: Seq<char>) -> Seq<char>
    decreases s.len(),
{
    if s.len() > 0 && is_space(s[0]) {
        spec_trim_start(s.drop_first())
    } else {
        s
    }
}

/// Trailing whitespace removed.
pub open spec fn spec_trim_end(s: Seq<char>) -> Seq<char>
    decreases s.len(),
{
    if s.len() > 0 && is_space(s.last()) {
        spec_trim_end(s.drop_last())
    } else {
        s
    }
}

/// Leading and trailing whitespace removed.
pub open spec fn spec_trim(s: Seq<char>) -> Seq<char> {
    spec_trim_end(spec_trim_start(s))
}

pub proof fn lemma_trim_start_exact(s: Seq<char>, t: int)
    requires
        0 <= t <= s.len(),
        forall|j: int| 0 <= j < t ==> is_space(#[trigger] s[j]),
        t == s.len() || !is_space(s[t]),
    ensures
        spec_trim_start(s) == s.skip(t),
    decreases s.len(),
{
    if t == 0 {
        assert(s.skip(0) =~= s);
    } else {
        lemma_trim_start_exact(s.drop_first(), t - 1);
        assert forall|j: int| 0 <= j < t - 1 implies is_space(#[trigger] s.drop_first()[j]) by {
            assert(s.drop_first()[j] == s[j + 1]);
        }
        assert(s.drop_first().skip(t - 1) =~= s.skip(t));
    }
}

pub proof fn lemma_trim_end_exact(s: Seq<char>, t: int)
    requires
        0 <= t <= s.len(),
        forall|j: int| t <= j < s.len() ==> is_space(#[trigger] s[j]),
        t == 0 || !is_space(s[t - 1]),
    ensures
        spec_trim_end(s) == s.take(t),
    decreases s.len(),
{
    if t == s.len() {
        assert(s.take(t) =~= s);
    } else {
        lemma_trim_end_exact(s.drop_last(), t);
        assert(s.drop_last().take(t) =~= s.take(t));
    }
}

/// Index after the last non-space at or after `lo`, or `lo` itself.
pub fn scan_space_rev(a: &[char], lo: usize) -> (hi: usize)
    requires
        lo <= a@.len(),
    ensures
        lo <= hi <= a@.len(),
        forall|k: int| hi <= k < a@.len() ==> is_space(#[trigger] a@[k]),
        hi == lo || !is_space(a@[hi - 1]),
{
    let n = a.len();
    let mut hi = n;
    while hi > lo
        invariant
            lo <= hi <= n,
            n == a@.len(),
            forall|k: int| hi <= k < n ==> is_space(#[trigger] a@[k]),
        decreases hi,
    {
        if !is_space_c(a[hi - 1]) {
            return hi;
        }
        hi = hi - 1;
    }
    hi
}

/// Copy of `a` with surrounding whitespace removed.
pub fn trim_chars(a: &[char]) -> (v: Vec<char>)
    ensures
        v@ == spec_trim(a@),
{
    let n = a.len();
    let lo = scan_space(a, 0);
    proof {
        lemma_trim_start_exact(a@, lo as int);
    }
    let hi = if lo == n {
        n
    } else {
        scan_space_rev(a, lo)
    };
    proof {
        if lo < n && hi == lo {
            assert(is_space(a@[lo as int]));
        }
    }
    let v = vstd::slice::slice_to_vec(&a[lo..hi]);
    proof {
        let t = a@.skip(lo as int);
        assert forall|j: int| hi - lo <= j < t.len() implies is_space(#[trigger] t[j]) by {
            assert(t[j] == a@[lo + j]);
        }
        if hi > lo {
            assert(t[hi - lo - 1] == a@[hi - 1]);
        }
        lemma_trim_end_exact(t, hi - lo);
        assert(t.take(hi - lo) =~= a@.subrange(lo as int, hi as int));
    }
    v
}

/// One trailing carriage return removed, as `str::lines` does.
pub open spec fn strip_cr(s: Seq<char>) -> Seq<char> {
    if s.len() > 0 && s.last() == '\r' {
        s.drop_last()
    } else {
        s
    }
}

/// The lines of `s`: split at `'\n'`, with a carriage return before
/// the newline removed; a final unterminated line is kept.
pub open spec fn spec_lines(s: Seq<char>) -> Seq<Seq<char>>
    decreases s.len(),
    via spec_lines_decreases
{
    if s.len() == 0 {
        seq![]
    } else {
        match spec_find(s, '\n') {
            Some(i) => seq![strip_cr(s.take(i))] + spec_lines(s.skip(i + 1)),
            None => seq![s],
        }
    }
}

#[via_fn]
proof fn spec_lines_decreases(s: Seq<char>) {
    if s.len() > 0 {
        lemma_spec_find(s, '\n');
    }
}

/// The lines of `a`, each as its own vector.
pub fn lines_of(a: &[char]) -> (r: Vec<Vec<char>>)
    ensures
        r@.len() == spec_lines(a@).len(),
        forall|k: int| 0 <= k < r@.len() ==> #[trigger] r@[k]@ == spec_lines(a@)[k],
{
    let n = a.len();
    let mut r: Vec<Vec<char>> = Vec::new();
    let ghost mut done: Seq<Seq<char>> = seq![];
    let mut pos: usize = 0;
    proof {
        assert(a@.skip(0) =~= a@);
    }
    while pos < n
        invariant
            pos <= n,
            n == a@.len(),
            r@.len() == done.len(),
            forall|k: int| 0 <= k < r@.len() ==> #[trigger] r@[k]@ == done[k],
            spec_lines(a@) == done + spec_lines(a@.skip(pos as int)),
        decreases n - pos,
    {
        let rest = &a[pos..n];
        proof {
            assert(rest@ =~= a@.skip(pos as int));
            lemma_spec_find(rest@, '\n');
        }
        match find_char(rest, '\n') {
            Some(i) => {
                let end = if i > 0 && rest[i - 1] == '\r' {
                    pos + i - 1
                } else {
                    pos + i
                };
                let line: Vec<char> = vstd::slice::slice_to_vec(&a[pos..end]);
                proof {
                    assert(rest@.take(i as int) =~= a@.subrange(pos as int, pos + i));
                    assert(strip_cr(rest@.take(i as int)) =~= a@.subrange(pos as int, end as int));
                    assert(rest@.skip(i + 1) =~= a@.skip(pos + i + 1));
                    done = done + seq![line@];
                }
                r.push(line);
                pos = pos + i + 1;
            },
            None => {
                let line: Vec<char> = vstd::slice::slice_to_vec(rest);
                proof {
                    done = done + seq![line@];
                    assert(spec_lines(a@.skip(n as int)) =~= seq![]);
                }
                r.push(line);
                pos = n;
            },
        }
    }
    proof {
        assert(spec_lines(a@.skip(n as int)) =~= seq![]);
        assert(spec_lines(a@) =~= done);
    }
    r
}

/// An unsigned decimal number as `str::parse::<u64>` reads it: an
/// optional leading `+`, then at least one digit, value within range.
pub open spec fn spec_parse_u64(s: Seq<char>) -> Option<u64> {
    let t = if s.len() > 0 && s[0] == '+' {
        s.drop_first()
    } else {
        s
    };
    if t.len() > 0 && all_digits(t) && digits_val(t) <= u64::MAX {
        Some(digits_val(t) as u64)
    } else {
        None
    }
}

/// Appending digit characters never lowers the value.
pub proof fn lemma_digits_val_prefix(s: Seq<char>, k: int)
    requires
        0 <= k <= s.len(),
        all_digits(s),
    ensures
        digits_val(s.take(k)) <= digits_val(s),
        digits_val(s) >= 0,
    decreases s.len(),
{
    if s.len() == 0 {
        assert(s.take(k) =~= s);
    } else {
        assert(is_digit(s[s.len() - 1]));
        lemma_digits_val_prefix(s.drop_last(), if k <= s.len() - 1 { k } else { k - 1 });
        if k <= s.len() - 1 {
            assert(s.drop_last().take(k) =~= s.take(k));
        } else {
            assert(s.take(k) =~= s);
        }
    }
}

pub fn parse_u64_chars(a: &[char]) -> (r: Option<u64>)
    ensures
        r == spec_parse_u64(a@),
{
    let n = a.len();
    let start: usize = if n > 0 && a[0] == '+' {
        1
    } else {
        0
    };
    let ghost t = if a@.len() > 0 && a@[0] == '+' {
        a@.drop_first()
    } else {
        a@
    };
    proof {
        assert(t =~= a@.skip(start as int));
    }
    if start == n {
        return None;
    }
    let mut acc: u64 = 0;
    let mut i: usize = start;
    while i < n
        invariant
            start <= i <= n,
            start < n,
            n == a@.len(),
            t == a@.skip(start as int),
            t == (if a@.len() > 0 && a@[0] == '+' {
                a@.drop_first()
            } else {
                a@
            }),
            forall|j: int| start <= j < i ==> is_digit(#[trigger] a@[j]),
            acc == digits_val(a@.subrange(start as int, i as int)),
        decreases n - i,
    {
        let c = a[i];
        proof {
            assert(t[i - start] == a@[i as int]);
        }
        if !is_digit_c(c) {
            proof {
                assert(!is_digit(t[i - start]));
                assert(!all_digits(t));
                assert(spec_parse_u64(a@) is None);
            }
            return None;
        }
        let d: u64 = (c as u32 as u64) - 48;
        proof {
            assert(a@.subrange(start as int, i + 1).drop_last() =~= a@.subrange(
                start as int,
                i as int,
            ));
        }
        let next = match acc.checked_mul(10) {
            Some(m) => m.checked_add(d),
            None => None,
        };
        match next {
            Some(v) => {
                acc = v;
                i = i + 1;
            },
            None => {
                proof {
                    assert(digits_val(a@.subrange(start as int, i + 1)) > u64::MAX);
                    if all_digits(t) {
                        assert(a@.subrange(start as int, i + 1) =~= t.take(i + 1 - start));
                        lemma_digits_val_prefix(t, i + 1 - start);
                        assert(digits_val(t) > u64::MAX);
                    }
                    assert(spec_parse_u64(a@) is None);
                }
                return None;
            },
        }
    }
    proof {
        assert(a@.subrange(start as int, n as int) =~= t);
        assert forall|j: int| 0 <= j < t.len() implies is_digit(#[trigger] t[j]) by {
            assert(t[j] == a@[start + j]);
        }
    }
    Some(acc)
}

/// An unsigned decimal number as `str::parse::<u32>` reads it.
pub open spec fn spec_parse_u32(s: Seq<char>) -> Option<u32> {
    let t = if s.len() > 0 && s[0] == '+' {
        s.drop_first()
    } else {
        s
    };
    if t.len() > 0 && all_digits(t) && digits_val(t) <= u32::MAX {
        Some(digits_val(t) as u32)
    } else {
        None
    }
}

pub fn parse_u32_chars(a: &[char]) -> (r: Option<u32>)
    ensures
        r == spec_parse_u32(a@),
{
    let ghost t = if a@.len() > 0 && a@[0] == '+' {
        a@.drop_first()
    } else {
        a@
    };
    proof {
        if t.len() > 0 && all_digits(t) {
            lemma_digits_val_prefix(t, 0);
        }
    }
    match parse_u64_chars(a) {
        Some(v) => {
            if v <= u32::MAX as u64 {
                Some(v as u32)
            } else {
                None
            }
        },
        None => {
            proof {
                if t.len() > 0 && all_digits(t) {
                    assert(digits_val(t) > u64::MAX);
                }
            }
            None
        },
    }
}

/// The members of `ps` that read as `u32`, in order.
pub open spec fn spec_parsed_u32s(ps: Seq<Seq<char>>) -> Seq<u32>
    decreases ps.len(),
{
    if ps.len() == 0 {
        seq![]
    } else {
        match spec_parse_u32(ps[0]) {
            Some(v) => seq![v] + spec_parsed_u32s(ps.drop_first()),
            None => spec_parsed_u32s(ps.drop_first()),
        }
    }
}

/// The members of `ps` that read as `u64`, in order.
pub open spec fn spec_parsed_u64s(ps: Seq<Seq<char>>) -> Seq<u64>
    decreases ps.len(),
{
    if ps.len() == 0 {
        seq![]
    } else {
        match spec_parse_u64(ps[0]) {
            Some(v) => seq![v] + spec_parsed_u64s(ps.drop_first()),
            None => spec_parsed_u64s(ps.drop_first()),
        }
    }
}

/// Whether `s` starts with `pat`.
pub open spec fn spec_starts_with(s: Seq<char>, pat: Seq<char>) -> bool {
    s.len() >= pat.len() && s.subrange(0, pat.len() as int) == pat
}

/// Whether `a` starts with the string `pat`.
pub fn starts_with_str(a: &[char], pat: &str) -> (r: bool)
    ensures
        r == spec_starts_with(a@, pat@),
{
    let m = pat.unicode_len();
    if a.len() < m {
        return false;
    }
    let mut i: usize = 0;
    while i < m
        invariant
            i <= m,
            m == pat@.len(),
            m <= a@.len(),
            forall|j: int| 0 <= j < i ==> a@[j] == pat@[j],
        decreases m - i,
    {
        if a[i] != pat.get_char(i) {
            proof {
                assert(a@.subrange(0, m as int)[i as int] != pat@[i as int]);
            }
            return false;
        }
        i = i + 1;
    }
    proof {
        assert(a@.subrange(0, m as int) =~= pat@);
    }
    true
}

/// Whether `pat` occurs somewhere in `s`.
pub open spec fn spec_contains(s: Seq<char>, pat: Seq<char>) -> bool {
    exists|i: int|
        0 <= i <= s.len() - pat.len() && #[trigger] s.subrange(i, i + pat.len() as int) == pat
}

/// Whether the string `pat` occurs in `a`.
pub fn contains_str(a: &[char], pat: &str) -> (r: bool)
    ensures
        r == spec_contains(a@, pat@),
{
    let n = a.len();
    let m = pat.unicode_len();
    if m == 0 {
        proof {
            assert(a@.subrange(0, 0 + pat@.len() as int) =~= pat@);
        }
        return true;
    }
    if m > n {
        proof {
            assert(!spec_contains(a@, pat@));
        }
        return false;
    }
    let mut i: usize = 0;
    while i <= n - m
        invariant
            1 <= m <= n,
            i <= n - m + 1,
            n == a@.len(),
            m == pat@.len(),
            forall|k: int| 0 <= k < i ==> #[trigger] a@.subrange(k, k + m as int) != pat@,
        decreases n - m - i + 1,
    {
        let mut j: usize = 0;
        let mut matched = true;
        while j < m
            invariant
                j <= m,
                1 <= m,
                i + m <= n,
                n == a@.len(),
                m == pat@.len(),
                matched ==> forall|k: int| 0 <= k < j ==> a@[i + k] == pat@[k],
                !matched ==> a@.subrange(i as int, i + m as int) != pat@,
            decreases m - j,
        {
            if a[i + j] != pat.get_char(j) {
                matched = false;
                proof {
                    assert(a@.subrange(i as int, i + m as int)[j as int] != pat@[j as int]);
                }
                j = m;
            } else {
                j = j + 1;
            }
        }
        if matched {
            proof {
                assert(a@.subrange(i as int, i + m as int) =~= pat@);
            }
            return true;
        }
        i = i + 1;
    }
    proof {
        assert(!spec_contains(a@, pat@));
    }
    false
}

/// `s` split at every occurrence of `sep`; empty pieces are kept.
pub open spec fn spec_split(s: Seq<char>, sep: char) -> Seq<Seq<char>>
    decreases s.len(),
    via spec_split_decreases
{
    match spec_find(s, sep) {
        Some(i) => seq![s.take(i)] + spec_split(s.skip(i + 1), sep),
        None => seq![s],
    }
}

#[via_fn]
proof fn spec_split_decreases(s: Seq<char>, sep: char) {
    lemma_spec_find(s, sep);
}

/// The pieces of `a` split at `sep`, each as its own vector.
pub fn split_char(a: &[char], sep: char) -> (r: Vec<Vec<char>>)
    ensures
        r@.len() == spec_split(a@, sep).len(),
        forall|k: int| 0 <= k < r@.len() ==> #[trigger] r@[k]@ == spec_split(a@, sep)[k],
{
    let n = a.len();
    let mut r: Vec<Vec<char>> = Vec::new();
    let ghost mut done: Seq<Seq<char>> = seq![];
    let mut pos: usize = 0;
    proof {
        assert(a@.skip(0) =~= a@);
    }
    loop
        invariant
            pos <= n,
            n == a@.len(),
            r@.len() == done.len(),
            forall|k: int| 0 <= k < r@.len() ==> #[trigger] r@[k]@ == done[k],
            spec_split(a@, sep) == done + spec_split(a@.skip(pos as int), sep),
        decreases n - pos + 1,
    {
        let rest = &a[pos..n];
        proof {
            assert(rest@ =~= a@.skip(pos as int));
            lemma_spec_find(rest@, sep);
        }
        match find_char(rest, sep) {
            Some(i) => {
                let piece: Vec<char> = vstd::slice::slice_to_vec(&a[pos..pos + i]);
                proof {
                    assert(rest@.take(i as int) =~= a@.subrange(pos as int, pos + i));
                    assert(rest@.skip(i + 1) =~= a@.skip(pos + i + 1));
                    done = done + seq![piece@];
                }
                r.push(piece);
                pos = pos + i + 1;
            },
            None => {
                let piece: Vec<char> = vstd::slice::slice_to_vec(rest);
                proof {
                    done = done + seq![piece@];
                    assert(spec_split(a@, sep) =~= done);
                }
                r.push(piece);
                return r;
            },
        }
    }
}

/// First occurrence of `c` in `a`, if any.
pub fn find_char(a: &[char], c: char) -> (r: Option<usize>)
    ensures
        match r {
            Some(i) => spec_find(a@, c) == Some(i as int),
            None => spec_find(a@, c) is None,
        },
{
    let n = a.len();
    let mut i: usize = 0;
    while i < n
        invariant
            i <= n,
            n == a@.len(),
            forall|j: int| 0 <= j < i ==> a@[j] != c,
        decreases n - i,
    {
        if a[i] == c {
            proof {
                lemma_find_first(a@, c, i as int);
            }
            return Some(i);
        }
        i = i + 1;
    }
    proof {
        lemma_spec_find(a@, c);
        if spec_find(a@, c) is Some {
            let k = spec_find(a@, c)->Some_0;
            assert(a@[k] == c);
        }
    }
    None
}

} // verus!
