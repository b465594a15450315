use vstd::prelude::*;
use vstd::string::*;

use crate::usage::{Bar, Fraction};

verus! {

/// The decimal digits, in order.
pub open spec fn digits() -> Seq<char> {
    seq!['0', '1', '2', '3', '4', '5', '6', '7', '8', '9']
}

/// The decimal numeral of `n`, without leading zeros.
pub open spec fn decimal(n: nat) -> Seq<char>
    decreases n,
{
    if n < 10 {
        seq![digits()[n as int]]
    } else {
        decimal(n / 10).push(digits()[(n % 10) as int])
    }
}

/// `a / b` rounded to the nearest integer, ties to the even one.
pub open spec fn round_half_even(a: nat, b: nat) -> nat
    recommends
        b > 0,
{
    let q = a / b;
    let r = a % b;
    if 2 * r > b || (2 * r == b && q % 2 == 1) {
        q + 1
    } else {
        q
    }
}

/// The one-character string of a digit.
fn digit_str(d: u64) -> (r: &'static str)
    requires
        d < 10,
    ensures
        r@ == seq![digits()[d as int]],
{
    proof {
        reveal_strlit("0123456789");
    }
    assert("0123456789"@ =~= digits());
    let r = "0123456789".substring_char(d as usize, (d + 1) as usize);
    assert(r@ =~= seq![digits()[d as int]]);
    r
}

/// Writes `n` in decimal.
pub fn decimal_text(n: u64) -> (r: String)
    ensures
        r@ == decimal(n as nat),
    decreases n,
{
    if n < 10 {
        String::from_str(digit_str(n))
    } else {
        let mut s = decimal_text(n / 10);
        s.append(digit_str(n % 10));
        s
    }
}

/// `value / unit` written with two decimals, rounded to the nearest hundredth,
/// ties to even.
pub open spec fn scaled(value: nat, unit: nat) -> Seq<char> {
    let h = round_half_even(value * 100, unit);
    decimal(h / 100) + seq!['.', digits()[((h % 100) / 10) as int], digits()[(h % 10) as int]]
}

pub const KB: u64 = 1024;
pub const MB: u64 = 1048576;
pub const GB: u64 = 1073741824;
pub const TB: u64 = 1099511627776;

/// A byte count in the largest binary unit that it reaches, with two decimals,
/// or in bytes below one kibibyte.
pub open spec fn size_text(size: u64) -> Seq<char> {
    if size >= TB {
        scaled(size as nat, TB as nat).push('T')
    } else if size >= GB {
        scaled(size as nat, GB as nat).push('G')
    } else if size >= MB {
        scaled(size as nat, MB as nat).push('M')
    } else if size >= KB {
        scaled(size as nat, KB as nat).push('K')
    } else {
        decimal(size as nat).push('B')
    }
}

fn scaled_text(value: u64, unit: u64) -> (r: String)
    requires
        0 < unit,
    ensures
        r@ == scaled(value as nat, unit as nat),
{
    let a: u128 = (value as u128) * 100;
    let q: u128 = a / (unit as u128);
    let rem: u128 = a % (unit as u128);
    let h: u128 = if 2 * rem > (unit as u128) || (2 * rem == (unit as u128) && q % 2 == 1) {
        q + 1
    } else {
        q
    };
    assert(h == round_half_even(value as nat * 100, unit as nat));
    assert(h / 100 <= u64::MAX) by (nonlinear_arith)
        requires
            h <= q + 1,
            q == (value as nat * 100) / (unit as nat),
            unit >= 1,
            value <= u64::MAX,
    ;
    let mut s = decimal_text((h / 100) as u64);
    let frac: u64 = (h % 100) as u64;
    s.append(".");
    s.append(digit_str(frac / 10));
    s.append(digit_str(frac % 10));
    proof {
        reveal_strlit(".");
    }
    assert(s@ =~= scaled(value as nat, unit as nat));
    s
}

/// Writes a byte count for display: `1.50K`, `2.00G`, `512B`.
pub fn format_size(size: u64) -> (r: String)
    ensures
        r@ == size_text(size),
{
    proof {
        reveal_strlit("T");
        reveal_strlit("G");
        reveal_strlit("M");
        reveal_strlit("K");
        reveal_strlit("B");
    }
    if size >= TB {
        let mut s = scaled_text(size, TB);
        s.append("T");
        assert(s@ =~= size_text(size));
        s
    } else if size >= GB {
        let mut s = scaled_text(size, GB);
        s.append("G");
        assert(s@ =~= size_text(size));
        s
    } else if size >= MB {
        let mut s = scaled_text(size, MB);
        s.append("M");
        assert(s@ =~= size_text(size));
        s
    } else if size >= KB {
        let mut s = scaled_text(size, KB);
        s.append("K");
        assert(s@ =~= size_text(size));
        s
    } else {
        let mut s = decimal_text(size);
        s.append("B");
        assert(s@ =~= size_text(size));
        s
    }
}

/// A usage fraction as a whole percentage, rounded to the nearest, ties to even.
pub open spec fn percent_of(f: Fraction) -> nat {
    round_half_even(100 * f.num as nat, f.den as nat)
}

/// Rounds a usage fraction to a whole percentage.
pub fn percent(f: Fraction) -> (r: u64)
    requires
        f.wf(),
    ensures
        r == percent_of(f),
        r <= 100,
{
    let a: u128 = 100 * (f.num as u128);
    let d: u128 = f.den as u128;
    let q: u128 = a / d;
    let rem: u128 = a % d;
    assert(q <= 100) by (nonlinear_arith)
        requires
            q == a / d,
            a == 100 * f.num,
            d == f.den,
            f.num <= f.den,
            0 < d,
    ;
    assert(q == 100 ==> rem == 0) by (nonlinear_arith)
        requires
            q == a / d,
            rem == a % d,
            a == 100 * f.num,
            d == f.den,
            f.num <= f.den,
            0 < d,
    ;
    if 2 * rem > d || (2 * rem == d && q % 2 == 1) {
        (q + 1) as u64
    } else {
        q as u64
    }
}

/// `n` copies of the character `c`.
pub open spec fn repeat(c: char, n: nat) -> Seq<char> {
    Seq::new(n, |i: int| c)
}

/// The text of a bar: a dark shade cell for each filled cell, a light shade
/// cell for each remaining one.
pub open spec fn bar_text_of(b: Bar) -> Seq<char> {
    repeat('\u{2593}', b.filled as nat) + repeat('\u{2591}', b.remaining as nat)
}

fn append_cells(s: &mut String, cell: &str, n: u64)
    requires
        cell@.len() == 1,
    ensures
        final(s)@ == old(s)@ + repeat(cell@[0], n as nat),
{
    let mut i: u64 = 0;
    while i < n
        invariant
            cell@.len() == 1,
            i <= n,
            s@ == old(s)@ + repeat(cell@[0], i as nat),
        decreases n - i,
    {
        let ghost s0 = s@;
        s.append(cell);
        assert(s@ =~= old(s)@ + repeat(cell@[0], (i + 1) as nat)) by {
            assert(s0 =~= old(s)@ + repeat(cell@[0], i as nat));
        }
        i = i + 1;
    }
}

/// Draws a bar as text.
pub fn bar_text(b: Bar) -> (r: String)
    ensures
        r@ == bar_text_of(b),
{
    proof {
        reveal_strlit("\u{2593}");
        reveal_strlit("\u{2591}");
    }
    let mut s = String::new();
    append_cells(&mut s, "\u{2593}", b.filled);
    append_cells(&mut s, "\u{2591}", b.remaining);
    assert(s@ =~= bar_text_of(b));
    s
}

} // verus!
