//! Number and rate rendering used by the display rows.

use vstd::prelude::*;

verus! {

/// The character for a digit below sixteen (lowercase for a to f).
pub open spec fn digit_char(d: nat) -> char {
    if d == 0 { '0' }
    else if d == 1 { '1' }
    else if d == 2 { '2' }
    else if d == 3 { '3' }
    else if d == 4 { '4' }
    else if d == 5 { '5' }
    else if d == 6 { '6' }
    else if d == 7 { '7' }
    else if d == 8 { '8' }
    else if d == 9 { '9' }
    else if d == 10 { 'a' }
    else if d == 11 { 'b' }
    else if d == 12 { 'c' }
    else if d == 13 { 'd' }
    else if d == 14 { 'e' }
    else { 'f' }
}

/// `n` written in `base` (2 to 16) with no leading zeros; zero is "0".
pub open spec fn digits(n: nat, base: nat) -> Seq<char>
    decreases n
    via digits_decreases
{
    if base < 2 || n < base {
        seq![digit_char(n)]
    } else {
        digits(n / base, base) + seq![digit_char(n % base)]
    }
}

#[via_fn]
proof fn digits_decreases(n: nat, base: nat) {
    if !(base < 2 || n < base) {
        assert(n / base < n) by (nonlinear_arith)
            requires
                base >= 2,
                n >= base,
        ;
    }
}

/// `n` in decimal.
pub open spec fn decimal(n: nat) -> Seq<char> {
    digits(n, 10)
}

/// `h` hundredths written with two decimals: `1234` is "12.34".
pub open spec fn hundredths_text(h: nat) -> Seq<char> {
    decimal(h / 100) + seq!['.', digit_char((h % 100) / 10), digit_char(h % 10)]
}

/// A byte rate in its display tier. The two-decimal tiers round to the
/// nearest hundredth, halves upward.
pub open spec fn rate_text(r: nat) -> Seq<char> {
    if r < 1000 {
        decimal(r) + " bps"@
    } else if r < 1000000 {
        hundredths_text((r + 5) / 10) + " kbps"@
    } else {
        hundredths_text((r + 5000) / 10000) + " mbps"@
    }
}

/// Appends the character of digit `d`.
fn push_digit(s: &mut String, d: u64)
    requires
        d < 16,
    ensures
        final(s)@ == old(s)@ + seq![digit_char(d as nat)],
{
    let t: &str = if d == 0 { "0" }
        else if d == 1 { "1" }
        else if d == 2 { "2" }
        else if d == 3 { "3" }
        else if d == 4 { "4" }
        else if d == 5 { "5" }
        else if d == 6 { "6" }
        else if d == 7 { "7" }
        else if d == 8 { "8" }
        else if d == 9 { "9" }
        else if d == 10 { "a" }
        else if d == 11 { "b" }
        else if d == 12 { "c" }
        else if d == 13 { "d" }
        else if d == 14 { "e" }
        else { "f" };
    proof {
        reveal_strlit("0");
        reveal_strlit("1");
        reveal_strlit("2");
        reveal_strlit("3");
        reveal_strlit("4");
        reveal_strlit("5");
        reveal_strlit("6");
        reveal_strlit("7");
        reveal_strlit("8");
        reveal_strlit("9");
        reveal_strlit("a");
        reveal_strlit("b");
        reveal_strlit("c");
        reveal_strlit("d");
        reveal_strlit("e");
        reveal_strlit("f");
    }
    assert(t@ =~= seq![digit_char(d as nat)]);
    s.append(t);
}

/// Appends `n` written in `base`.
pub fn push_digits(s: &mut String, n: u64, base: u64)
    requires
        2 <= base <= 16,
    ensures
        final(s)@ == old(s)@ + digits(n as nat, base as nat),
    decreases n,
{
    if n >= base {
        assert(n / base < n) by (nonlinear_arith)
            requires
                base >= 2,
                n >= base,
        ;
        push_digits(s, n / base, base);
        push_digit(s, n % base);
        assert(final(s)@ =~= old(s)@ + digits(n as nat, base as nat));
    } else {
        push_digit(s, n);
    }
}

/// `n` in decimal, as a new string.
pub fn decimal_string(n: u64) -> (r: String)
    ensures
        r@ == decimal(n as nat),
{
    let mut s = String::new();
    push_digits(&mut s, n, 10);
    assert(s@ =~= decimal(n as nat));
    s
}

/// Appends `h` hundredths with two decimals.
fn push_hundredths(s: &mut String, h: u64)
    ensures
        final(s)@ == old(s)@ + hundredths_text(h as nat),
{
    push_digits(s, h / 100, 10);
    proof {
        reveal_strlit(".");
    }
    s.append(".");
    push_digit(s, (h % 100) / 10);
    push_digit(s, h % 10);
    assert(final(s)@ =~= old(s)@ + hundredths_text(h as nat));
}

/// Whether a rate falls in the plain bits-per-second tier.
pub fn is_bps(n: u64) -> (r: bool)
    ensures
        r == (n < 1000),
{
    n < 1000
}

/// Whether a rate falls in the thousands tier.
pub fn is_kbps(n: u64) -> (r: bool)
    ensures
        r == (1000 <= n && n < 1000000),
{
    n >= 1000 && n < 1000000
}

/// Whether a rate falls in the millions tier.
pub fn is_mbps(n: u64) -> (r: bool)
    ensures
        r == (n >= 1000000),
{
    n >= 1000000
}

/// A byte rate scaled to its tier: "999 bps", "9.91 kbps", "1.11 mbps".
pub fn friendly_transfer_str(rate: u64) -> (r: String)
    ensures
        r@ == rate_text(rate as nat),
{
    let mut s = String::new();
    if is_bps(rate) {
        push_digits(&mut s, rate, 10);
        s.append(" bps");
    } else if is_kbps(rate) {
        push_hundredths(&mut s, (rate + 5) / 10);
        s.append(" kbps");
    } else {
        let h: u64 = rate / 10000 + (if rate % 10000 >= 5000 { 1 } else { 0 });
        assert(h == (rate as nat + 5000) / 10000) by (nonlinear_arith)
            requires
                h == rate / 10000 + (if rate % 10000 >= 5000 { 1int } else { 0int }),
        ;
        push_hundredths(&mut s, h);
        s.append(" mbps");
    }
    assert(s@ =~= rate_text(rate as nat));
    s
}

} // verus!
