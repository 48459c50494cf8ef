//! Integers in decimal notation.

use vstd::prelude::*;

verus! {

/// The digit for a number below ten.
pub open spec fn digit(d: int) -> char {
    (('0' as u32 + d) as u32) as char
}

/// A natural number in decimal notation, without leading zeros.
pub open spec fn digits(n: nat) -> Seq<char>
    decreases n,
{
    if n < 10 {
        seq![digit(n as int)]
    } else {
        digits(n / 10).push(digit((n % 10) as int))
    }
}

/// An integer in decimal notation.
pub open spec fn decimal(n: int) -> Seq<char> {
    if n < 0 {
        seq!['-'] + digits((-n) as nat)
    } else {
        digits(n as nat)
    }
}

/// Only digits and the minus sign stand in a number.
pub proof fn lemma_decimal_chars(n: int)
    ensures
        forall|c: char|
            #[trigger] decimal(n).contains(c) ==> c == '-' || '0' <= c <= '9',
        decimal(n).len() > 0,
{
    if n < 0 {
        lemma_digits_chars((-n) as nat);
        assert forall|c: char| #[trigger] decimal(n).contains(c) implies c == '-' || '0'
            <= c <= '9' by {
            let i = choose|i: int| 0 <= i < decimal(n).len() && decimal(n)[i] == c;
            if i > 0 {
                assert(digits((-n) as nat)[i - 1] == c);
                assert(digits((-n) as nat).contains(c));
            }
        }
    } else {
        lemma_digits_chars(n as nat);
    }
}

/// Only digits stand in a natural number.
proof fn lemma_digits_chars(n: nat)
    ensures
        forall|c: char| #[trigger] digits(n).contains(c) ==> '0' <= c <= '9',
        digits(n).len() > 0,
    decreases n,
{
    if n >= 10 {
        lemma_digits_chars(n / 10);
        assert forall|c: char| #[trigger] digits(n).contains(c) implies '0' <= c
            <= '9' by {
            let d = digits(n);
            let i = choose|i: int| 0 <= i < d.len() && d[i] == c;
            if i < d.len() - 1 {
                assert(digits(n / 10)[i] == c);
                assert(digits(n / 10).contains(c));
            }
        }
    }
}

/// Appends a number in decimal notation.
pub fn push_unsigned(out: &mut String, n: u64)
    ensures
        final(out)@ == old(out)@ + decimal(n as int),
    decreases n,
{
    if n >= 10 {
        push_unsigned(out, n / 10);
    }
    let d: u8 = (n % 10) as u8;
    out.push((48 + d) as char);
    assert(out@ == old(out)@ + digits(n as nat));
}

/// Appends a number in decimal notation.
pub fn push_signed(out: &mut String, n: i32)
    ensures
        final(out)@ == old(out)@ + decimal(n as int),
{
    if n < 0 {
        let m: i64 = -(n as i64);
        out.push('-');
        push_unsigned(out, m as u64);
        assert(out@ == old(out)@ + decimal(n as int));
    } else {
        push_unsigned(out, n as u64);
    }
}

/// A number in decimal notation.
pub fn signed_text(n: i32) -> (r: String)
    ensures
        r@ == decimal(n as int),
{
    let mut r = String::new();
    push_signed(&mut r, n);
    assert(r@ == decimal(n as int));
    r
}

} // verus!
