//! Numbers as decimal text.

use vstd::prelude::*;

verus! {

/// The character for one decimal digit.
pub open spec fn digit_char(digit: nat) -> char {
    if digit == 0 {
        '0'
    } else if digit == 1 {
        '1'
    } else if digit == 2 {
        '2'
    } else if digit == 3 {
        '3'
    } else if digit == 4 {
        '4'
    } else if digit == 5 {
        '5'
    } else if digit == 6 {
        '6'
    } else if digit == 7 {
        '7'
    } else if digit == 8 {
        '8'
    } else {
        '9'
    }
}

/// The decimal digits of `n`, most significant first, without leading
/// zeros; zero is the single digit `0`.
pub open spec fn decimal(n: nat) -> Seq<char>
    decreases n,
{
    if n < 10 {
        seq![digit_char(n)]
    } else {
        decimal(n / 10).push(digit_char(n % 10))
    }
}

/// `count` zeros.
pub open spec fn zeros(count: nat) -> Seq<char> {
    Seq::new(count, |i: int| '0')
}

/// The decimal digits of `n`, with zeros in front where there are fewer
/// than `width` of them.
pub open spec fn padded_decimal(n: nat, width: nat) -> Seq<char> {
    if decimal(n).len() >= width {
        decimal(n)
    } else {
        zeros((width - decimal(n).len()) as nat) + decimal(n)
    }
}

/// A number has at least one digit, and a number of 64 bits at most twenty.
pub proof fn lemma_decimal_len(n: nat)
    ensures
        1 <= decimal(n).len(),
        n <= u64::MAX ==> decimal(n).len() <= 20,
    decreases n,
{
    if n >= 10 {
        lemma_decimal_len(n / 10);
        if n <= u64::MAX {
            assert(power_of_ten(20) == 100_000_000_000_000_000_000nat) by {
                reveal_with_fuel(power_of_ten, 21);
            }
            lemma_decimal_len_bound(n, 20);
        }
    }
}

/// Ten to the power of `exponent`.
pub open spec fn power_of_ten(exponent: nat) -> nat
    decreases exponent,
{
    if exponent == 0 {
        1
    } else {
        10 * power_of_ten((exponent - 1) as nat)
    }
}

/// A number below the `digits`-th power of ten has at most `digits` digits.
pub proof fn lemma_decimal_len_bound(n: nat, digits: nat)
    requires
        digits >= 1,
        n < power_of_ten(digits),
    ensures
        decimal(n).len() <= digits,
    decreases digits,
{
    reveal_with_fuel(power_of_ten, 2);
    if n >= 10 {
        if digits > 1 {
            lemma_decimal_len_bound(n / 10, (digits - 1) as nat);
        }
    }
}

/// The text of one decimal digit.
fn digit_str(digit: u8) -> (text: &'static str)
    requires
        digit < 10,
    ensures
        text@ == seq![digit_char(digit as nat)],
{
    proof {
        reveal_strlit("0");
        reveal_strlit("1");
        reveal_strlit("2");
        reveal_strlit("3");
        reveal_strlit("4");
        reveal_strlit("5");
        reveal_strlit("6");
        reveal_strlit("7");
        reveal_strlit("8");
        reveal_strlit("9");
    }
    let text = if digit == 0 {
        "0"
    } else if digit == 1 {
        "1"
    } else if digit == 2 {
        "2"
    } else if digit == 3 {
        "3"
    } else if digit == 4 {
        "4"
    } else if digit == 5 {
        "5"
    } else if digit == 6 {
        "6"
    } else if digit == 7 {
        "7"
    } else if digit == 8 {
        "8"
    } else {
        "9"
    };
    assert(text@ =~= seq![digit_char(digit as nat)]);
    text
}

/// The number of decimal digits of `n`.
pub fn decimal_len(n: u64) -> (len: usize)
    ensures
        len == decimal(n as nat).len(),
        1 <= len <= 20,
    decreases n,
{
    proof {
        lemma_decimal_len(n as nat);
    }
    if n < 10 {
        1
    } else {
        proof {
            lemma_decimal_len((n / 10) as nat);
        }
        decimal_len(n / 10) + 1
    }
}

/// Appends the decimal digits of `n` to `out`.
pub fn push_decimal(out: &mut String, n: u64)
    ensures
        final(out)@ == old(out)@ + decimal(n as nat),
    decreases n,
{
    if n >= 10 {
        push_decimal(out, n / 10);
    }
    out.append(digit_str((n % 10) as u8));
    assert(out@ =~= old(out)@ + decimal(n as nat));
}

/// Appends the decimal digits of `n` to `out`, with zeros in front where
/// there are fewer than `width` of them.
pub fn push_padded_decimal(out: &mut String, n: u64, width: usize)
    ensures
        final(out)@ == old(out)@ + padded_decimal(n as nat, width as nat),
{
    let len = decimal_len(n);
    let mut written: usize = len;
    while written < width
        invariant
            len <= written,
            len == decimal(n as nat).len(),
            len < width ==> written <= width,
            len >= width ==> written == len,
            out@ == old(out)@ + zeros((written - len) as nat),
        decreases width - written,
    {
        out.append(digit_str(0));
        written += 1;
        assert(out@ =~= old(out)@ + zeros((written - len) as nat));
    }
    let ghost padding = zeros((written - len) as nat);
    push_decimal(out, n);
    assert(out@ =~= old(out)@ + (padding + decimal(n as nat)));
    assert(zeros(0) + decimal(n as nat) =~= decimal(n as nat));
    assert(padding + decimal(n as nat) == padded_decimal(n as nat, width as nat)) by {
        if len >= width {
            assert(written == len);
        } else {
            assert(written == width);
        }
    }
}

/// The decimal digits of `n` as a string.
pub fn decimal_string(n: u64) -> (text: String)
    ensures
        text@ == decimal(n as nat),
{
    let mut text = String::new();
    push_decimal(&mut text, n);
    assert(text@ =~= decimal(n as nat));
    text
}

} // verus!
