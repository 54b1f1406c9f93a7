//! Decimal digit strings and repeated-character runs, the textual
//! building blocks of the grid renderer.

use vstd::prelude::*;

verus! {

/// The character for the decimal digit `d` (digits ten and above never
/// arise; they fall into the last branch).
pub open spec fn digit_char(d: nat) -> char {
    if d == 0 {
        '0'
    } else if d == 1 {
        '1'
    } else if d == 2 {
        '2'
    } else if d == 3 {
        '3'
    } else if d == 4 {
        '4'
    } else if d == 5 {
        '5'
    } else if d == 6 {
        '6'
    } else if d == 7 {
        '7'
    } else if d == 8 {
        '8'
    } else {
        '9'
    }
}

/// The decimal digits of `n`, most significant first (`"0"` for zero).
pub open spec fn dec_digits(n: nat) -> Seq<char>
    decreases n,
{
    if n < 10 {
        seq![digit_char(n)]
    } else {
        dec_digits(n / 10) + seq![digit_char(n % 10)]
    }
}

/// `n` copies of the character `c`.
pub open spec fn char_run(c: char, n: nat) -> Seq<char> {
    Seq::new(n, |i: int| c)
}

/// A decimal rendering has at least one digit, and never more characters
/// than the value itself (for positive values) or than the value plus one.
pub proof fn lemma_dec_digits_len_bounds(n: nat)
    ensures
        1 <= dec_digits(n).len(),
        dec_digits(n).len() <= n + 1,
        1 <= n ==> dec_digits(n).len() <= n,
    decreases n,
{
    if n >= 10 {
        lemma_dec_digits_len_bounds(n / 10);
    }
}

/// A smaller value never needs more digits than a larger one.
pub proof fn lemma_dec_digits_len_monotonic(m: nat, n: nat)
    requires
        m <= n,
    ensures
        dec_digits(m).len() <= dec_digits(n).len(),
    decreases n,
{
    if n < 10 {
    } else if m < 10 {
        lemma_dec_digits_len_bounds(n);
    } else {
        lemma_dec_digits_len_monotonic(m / 10, n / 10);
    }
}

/// The one-character string for the decimal digit `d`.
fn digit_text(d: usize) -> (s: &'static str)
    requires
        d < 10,
    ensures
        s@ == seq![digit_char(d as nat)],
{
    proof {
        reveal_strlit("0");
        reveal_strlit("1");
        reveal_strlit("2");
        reveal_strlit("3");
        reveal_strlit("4");
        reveal_strlit("5");
        reveal_strlit("6");
        reveal_strlit("7");
        reveal_strlit("8");
        reveal_strlit("9");
    }
    match d {
        0 => "0",
        1 => "1",
        2 => "2",
        3 => "3",
        4 => "4",
        5 => "5",
        6 => "6",
        7 => "7",
        8 => "8",
        _ => "9",
    }
}

/// Appends the decimal digits of `n` to `out`.
pub fn push_decimal(out: &mut String, n: usize)
    ensures
        final(out)@ == old(out)@ + dec_digits(n as nat),
    decreases n,
{
    if n >= 10 {
        push_decimal(out, n / 10);
    }
    out.append(digit_text(n % 10));
    proof {
        if n >= 10 {
            assert(old(out)@ + dec_digits((n / 10) as nat) + seq![digit_char((n % 10) as nat)]
                =~= old(out)@ + dec_digits(n as nat));
        } else {
            assert(old(out)@ + seq![digit_char(n as nat)] =~= old(out)@ + dec_digits(n as nat));
        }
    }
}

/// The number of decimal digits of `n`.
pub fn decimal_width(n: usize) -> (w: usize)
    ensures
        w == dec_digits(n as nat).len(),
    decreases n,
{
    if n < 10 {
        1
    } else {
        let rest = decimal_width(n / 10);
        proof {
            lemma_dec_digits_len_bounds((n / 10) as nat);
        }
        rest + 1
    }
}

/// Appends `n` copies of the single character of `piece` to `out`.
pub fn push_repeated(out: &mut String, piece: &str, n: usize)
    requires
        piece@.len() == 1,
    ensures
        final(out)@ == old(out)@ + char_run(piece@[0], n as nat),
{
    let mut i: usize = 0;
    while i < n
        invariant
            piece@.len() == 1,
            i <= n,
            out@ == old(out)@ + char_run(piece@[0], i as nat),
        decreases n - i,
    {
        out.append(piece);
        proof {
            assert(old(out)@ + char_run(piece@[0], i as nat) + piece@
                =~= old(out)@ + char_run(piece@[0], (i + 1) as nat));
        }
        i += 1;
    }
}

} // verus!
