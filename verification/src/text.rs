//! Rendering numbers and factor lists as text.

use vstd::prelude::*;
use vstd::string::*;

verus! {

/// The character for one decimal digit.
pub open spec fn digit_char(d: int) -> char {
    if d == 0 {
        '0'
    } else if d == 1 {
        '1'
    } else if d == 2 {
        '2'
    } else if d == 3 {
        '3'
    } else if d == 4 {
        '4'
    } else if d == 5 {
        '5'
    } else if d == 6 {
        '6'
    } else if d == 7 {
        '7'
    } else if d == 8 {
        '8'
    } else {
        '9'
    }
}

/// The decimal digits of a natural number, most significant first, without
/// leading zeros.
pub open spec fn decimal_nat(n: nat) -> Seq<char>
    decreases n,
{
    if n < 10 {
        seq![digit_char(n as int)]
    } else {
        decimal_nat(n / 10).push(digit_char((n % 10) as int))
    }
}

/// The decimal text of an integer, with a leading `-` when it is negative.
pub open spec fn decimal(n: int) -> Seq<char> {
    if n < 0 {
        seq!['-'] + decimal_nat((-n) as nat)
    } else {
        decimal_nat(n as nat)
    }
}

/// The decimal texts of `items`, separated by a comma and a space.
pub open spec fn comma_separated(items: Seq<int>) -> Seq<char>
    decreases items.len(),
{
    if items.len() == 0 {
        Seq::empty()
    } else if items.len() == 1 {
        decimal(items[0])
    } else {
        comma_separated(items.drop_last()) + seq![',', ' '] + decimal(items.last())
    }
}

fn digit_text(d: u64) -> (text: &'static str)
    requires
        d < 10,
    ensures
        text@ == seq![digit_char(d as int)],
{
    proof {
        reveal_strlit("0");
        reveal_strlit("1");
        reveal_strlit("2");
        reveal_strlit("3");
        reveal_strlit("4");
        reveal_strlit("5");
        reveal_strlit("6");
        reveal_strlit("7");
        reveal_strlit("8");
        reveal_strlit("9");
    }
    let text = if d == 0 {
        "0"
    } else if d == 1 {
        "1"
    } else if d == 2 {
        "2"
    } else if d == 3 {
        "3"
    } else if d == 4 {
        "4"
    } else if d == 5 {
        "5"
    } else if d == 6 {
        "6"
    } else if d == 7 {
        "7"
    } else if d == 8 {
        "8"
    } else {
        "9"
    };
    assert(text@ =~= seq![digit_char(d as int)]);
    text
}

/// Appends the decimal digits of `n` to `text`.
pub fn push_decimal_nat(text: &mut String, n: u64)
    ensures
        final(text)@ == old(text)@ + decimal_nat(n as nat),
    decreases n,
{
    if n >= 10 {
        push_decimal_nat(text, n / 10);
    }
    text.append(digit_text(n % 10));
    assert(text@ =~= old(text)@ + decimal_nat(n as nat));
}

/// Appends the decimal text of `n` to `text`.
pub fn push_decimal(text: &mut String, n: i64)
    ensures
        final(text)@ == old(text)@ + decimal(n as int),
{
    if n < 0 {
        proof {
            reveal_strlit("-");
        }
        text.append("-");
        let magnitude: u64 = (-(n as i128)) as u64;
        push_decimal_nat(text, magnitude);
        assert(text@ =~= old(text)@ + decimal(n as int));
    } else {
        push_decimal_nat(text, n as u64);
    }
}

/// The decimal text of `n`.
pub fn decimal_text(n: i64) -> (text: String)
    ensures
        text@ == decimal(n as int),
{
    let mut text = String::new();
    push_decimal(&mut text, n);
    assert(text@ =~= decimal(n as int));
    text
}

/// The numbers of `items` in decimal, separated by a comma and a space.
pub fn comma_separated_text(items: &Vec<i64>) -> (text: String)
    ensures
        text@ == comma_separated(items@.map_values(|x: i64| x as int)),
{
    let ghost ints = items@.map_values(|x: i64| x as int);
    let mut text = String::new();
    let mut k: usize = 0;
    assert(ints.take(0) =~= Seq::<int>::empty());
    while k < items.len()
        invariant
            k <= items.len(),
            ints == items@.map_values(|x: i64| x as int),
            text@ == comma_separated(ints.take(k as int)),
        decreases items.len() - k,
    {
        let ghost before = text@;
        proof {
            let next = ints.take(k + 1);
            assert(next.drop_last() =~= ints.take(k as int));
            assert(next.last() == items@[k as int] as int);
            if k == 0 {
                assert(next[0] == items@[0] as int);
            }
        }
        if k > 0 {
            proof {
                reveal_strlit(", ");
            }
            text.append(", ");
            assert(text@ =~= before + seq![',', ' ']);
        }
        push_decimal(&mut text, items[k]);
        assert(text@ =~= comma_separated(ints.take(k + 1)));
        k += 1;
    }
    assert(ints.take(k as int) =~= ints);
    text
}

} // verus!
