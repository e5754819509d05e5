//! Decimal rendering of whole numbers, the one primitive every read-out in
//! the app is spelled with.

use vstd::prelude::*;

verus! {

/// The ASCII digit for `d` (taken modulo ten).
pub open spec fn digit(d: nat) -> char {
    let d = d % 10;
    if d == 0 { '0' }
    else if d == 1 { '1' }
    else if d == 2 { '2' }
    else if d == 3 { '3' }
    else if d == 4 { '4' }
    else if d == 5 { '5' }
    else if d == 6 { '6' }
    else if d == 7 { '7' }
    else if d == 8 { '8' }
    else { '9' }
}

/// `n` in decimal, most significant digit first, without leading zeros.
pub open spec fn dec(n: nat) -> Seq<char>
    decreases n,
{
    if n < 10 {
        seq![digit(n)]
    } else {
        dec(n / 10).push(digit(n % 10))
    }
}

/// `n` in decimal, at least two digits wide (a leading zero below ten).
pub open spec fn dec2(n: nat) -> Seq<char> {
    if n < 10 { seq!['0', digit(n)] } else { dec(n) }
}

/// Append the single digit `d`.
pub fn push_digit(s: &mut String, d: u64)
    requires
        d < 10,
    ensures
        final(s)@ == old(s)@.push(digit(d as nat)),
{
    let lit: &str = if d == 0 {
        proof { reveal_strlit("0"); }
        "0"
    } else if d == 1 {
        proof { reveal_strlit("1"); }
        "1"
    } else if d == 2 {
        proof { reveal_strlit("2"); }
        "2"
    } else if d == 3 {
        proof { reveal_strlit("3"); }
        "3"
    } else if d == 4 {
        proof { reveal_strlit("4"); }
        "4"
    } else if d == 5 {
        proof { reveal_strlit("5"); }
        "5"
    } else if d == 6 {
        proof { reveal_strlit("6"); }
        "6"
    } else if d == 7 {
        proof { reveal_strlit("7"); }
        "7"
    } else if d == 8 {
        proof { reveal_strlit("8"); }
        "8"
    } else {
        proof { reveal_strlit("9"); }
        "9"
    };
    assert(lit@ =~= seq![digit(d as nat)]);
    s.append(lit);
    assert(final(s)@ =~= old(s)@.push(digit(d as nat)));
}

/// Append `n` in decimal.
pub fn push_dec(s: &mut String, n: u64)
    ensures
        final(s)@ == old(s)@ + dec(n as nat),
    decreases n,
{
    if n >= 10 {
        push_dec(s, n / 10);
    }
    push_digit(s, n % 10);
    proof {
        if n < 10 {
            assert(n % 10 == n);
            assert(dec(n as nat) =~= seq![digit(n as nat)]);
        }
    }
    assert(final(s)@ =~= old(s)@ + dec(n as nat));
}

/// Append `n` in decimal, padded to two digits with a leading zero.
pub fn push_dec2(s: &mut String, n: u64)
    ensures
        final(s)@ == old(s)@ + dec2(n as nat),
{
    if n < 10 {
        push_digit(s, 0);
        push_digit(s, n);
        assert(final(s)@ =~= old(s)@ + dec2(n as nat));
    } else {
        push_dec(s, n);
    }
}

/// Append a string literal (or any `&str`).
pub fn push_str(s: &mut String, t: &str)
    ensures
        final(s)@ == old(s)@ + t@,
{
    s.append(t);
}

/// `n` in decimal, as a new string.
pub fn dec_string(n: u64) -> (r: String)
    ensures
        r@ == dec(n as nat),
{
    let mut s = String::new();
    push_dec(&mut s, n);
    assert(s@ =~= dec(n as nat));
    s
}

} // verus!
