//! Numbers as decimal text.

use vstd::prelude::*;
use vstd::string::StringExecFns;

verus! {

/// The character that writes the digit `d`.
pub open spec fn digit_char(d: int) -> char {
    if d == 0 {
        '0'
    } else if d == 1 {
        '1'
    } else if d == 2 {
        '2'
    } else if d == 3 {
        '3'
    } else if d == 4 {
        '4'
    } else if d == 5 {
        '5'
    } else if d == 6 {
        '6'
    } else if d == 7 {
        '7'
    } else if d == 8 {
        '8'
    } else {
        '9'
    }
}

/// The decimal digits of `n`, the most significant first, with no
/// leading zero but for zero itself.
pub open spec fn decimal_digits(n: nat) -> Seq<char>
    decreases n,
{
    if n < 10 {
        seq![digit_char(n as int)]
    } else {
        decimal_digits(n / 10).push(digit_char((n % 10) as int))
    }
}

/// The digits of a number of which `rest` is still to be split, the
/// digits in `low` having been split off, the least significant first.
spec fn joined(rest: nat, low: Seq<u8>) -> Seq<char> {
    let high = if rest > 0 {
        decimal_digits(rest)
    } else {
        Seq::<char>::empty()
    };
    high + Seq::new(low.len(), |i: int| digit_char(low[low.len() - 1 - i] as int))
}

fn digit_text(d: u8) -> (r: &'static str)
    requires
        d < 10,
    ensures
        r@ == seq![digit_char(d as int)],
{
    proof {
        reveal_strlit("0");
        reveal_strlit("1");
        reveal_strlit("2");
        reveal_strlit("3");
        reveal_strlit("4");
        reveal_strlit("5");
        reveal_strlit("6");
        reveal_strlit("7");
        reveal_strlit("8");
        reveal_strlit("9");
    }
    if d == 0 {
        "0"
    } else if d == 1 {
        "1"
    } else if d == 2 {
        "2"
    } else if d == 3 {
        "3"
    } else if d == 4 {
        "4"
    } else if d == 5 {
        "5"
    } else if d == 6 {
        "6"
    } else if d == 7 {
        "7"
    } else if d == 8 {
        "8"
    } else {
        "9"
    }
}

/// Appends the decimal digits of `n` to `text`.
pub fn append_decimal(text: &mut String, n: u64)
    ensures
        final(text)@ == old(text)@ + decimal_digits(n as nat),
{
    let mut low: Vec<u8> = Vec::new();
    low.push((n % 10) as u8);
    let mut rest: u64 = n / 10;
    while rest > 0
        invariant
            joined(rest as nat, low@) == decimal_digits(n as nat),
            low@.len() > 0,
            forall|i: int| 0 <= i < low@.len() ==> #[trigger] low@[i] < 10,
        decreases rest,
    {
        low.push((rest % 10) as u8);
        rest = rest / 10;
    }
    let mut k: usize = low.len();
    while k > 0
        invariant
            k <= low@.len(),
            joined(0, low@) == decimal_digits(n as nat),
            forall|i: int| 0 <= i < low@.len() ==> #[trigger] low@[i] < 10,
            text@ == old(text)@ + decimal_digits(n as nat).take(low@.len() - k),
        decreases k,
    {
        k = k - 1;
        text.append(digit_text(low[k]));
    }
}

} // verus!
