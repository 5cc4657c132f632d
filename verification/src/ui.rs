//! Pure helpers behind the renderer: number grouping and the festive
//! snow animation's cell rules.  The drawing itself lives outside the
//! library and only reads these values.

use vstd::prelude::*;
use vstd::string::StringExecFns;
use crate::fmt::{push_grouped_u64, spec_group_digits};

verus! {

/// Whether one of the three snow streams passes through a cell: each
/// stream owns a sparse set of columns and falls one row per tick,
/// wrapping at the bottom.
pub open spec fn spec_is_snowflake(row: int, col: int, tick: int, height: int) -> bool {
    if height == 0 {
        false
    } else {
        let f1 = (col * 7 + 3) % 11 < 2;
        let r1 = (tick + col * 3) % height;
        let f2 = (col * 13 + 7) % 17 < 2;
        let r2 = (tick + col * 5 + height / 2) % height;
        let f3 = (col * 11 + 2) % 23 < 2;
        let r3 = (tick + col * 7 + height / 3) % height;
        (f1 && row == r1) || (f2 && row == r2) || (f3 && row == r3)
    }
}

pub fn is_snowflake(row: usize, col: usize, tick: usize, height: usize) -> (r: bool)
    ensures
        r == spec_is_snowflake(row as int, col as int, tick as int, height as int),
{
    if height == 0 {
        return false;
    }
    let row = row as u128;
    let col = col as u128;
    let tick = tick as u128;
    let height = height as u128;
    let f1 = (col * 7 + 3) % 11 < 2;
    let r1 = (tick + col * 3) % height;
    let f2 = (col * 13 + 7) % 17 < 2;
    let r2 = (tick + col * 5 + height / 2) % height;
    let f3 = (col * 11 + 2) % 23 < 2;
    let r3 = (tick + col * 7 + height / 3) % height;
    (f1 && row == r1) || (f2 && row == r2) || (f3 && row == r3)
}

/// The flake glyph for a cell, cycling through six shapes.
pub open spec fn spec_snowflake_char(row: int, col: int, tick: int) -> char {
    let idx = (row + col + tick) % 6;
    if idx == 0 {
        '*'
    } else if idx == 1 {
        '.'
    } else if idx == 2 {
        '+'
    } else if idx == 3 {
        '`'
    } else if idx == 4 {
        '.'
    } else {
        '*'
    }
}

pub fn get_snowflake(row: usize, col: usize, tick: usize) -> (r: String)
    ensures
        r@ == seq![spec_snowflake_char(row as int, col as int, tick as int)],
{
    let idx = ((row as u128 + col as u128 + tick as u128) % 6) as u64;
    let r = match idx {
        0 => "*",
        1 => ".",
        2 => "+",
        3 => "`",
        4 => ".",
        _ => "*",
    };
    proof {
        reveal_strlit("*");
        reveal_strlit(".");
        reveal_strlit("+");
        reveal_strlit("`");
        assert(r@ =~= seq![spec_snowflake_char(row as int, col as int, tick as int)]);
    }
    r.to_owned()
}

/// A number with its digits grouped by thousands.
pub fn format_number(n: u64) -> (r: String)
    ensures
        r@ == spec_group_digits(n as int),
{
    let mut s = String::new();
    push_grouped_u64(&mut s, n);
    proof {
        assert(Seq::<char>::empty() + spec_group_digits(n as int) =~= spec_group_digits(n as int));
    }
    s
}

} // verus!
