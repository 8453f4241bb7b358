//! Axis labels: whole numbers and halves written out in decimal.

use vstd::prelude::*;
use vstd::string::*;

verus! {

/// The character that writes the digit `d`.
pub open spec fn digit_char(d: int) -> char {
    if d == 0 {
        '0'
    } else if d == 1 {
        '1'
    } else if d == 2 {
        '2'
    } else if d == 3 {
        '3'
    } else if d == 4 {
        '4'
    } else if d == 5 {
        '5'
    } else if d == 6 {
        '6'
    } else if d == 7 {
        '7'
    } else if d == 8 {
        '8'
    } else {
        '9'
    }
}

/// The decimal digits of `n`, most significant first, without leading zeros.
pub open spec fn decimal(n: nat) -> Seq<char>
    decreases n,
{
    if n < 10 {
        seq![digit_char(n as int)]
    } else {
        decimal(n / 10).push(digit_char((n % 10) as int))
    }
}

/// The integer `v` in decimal, with a minus sign if it is negative.
pub open spec fn signed_decimal(v: int) -> Seq<char> {
    if v < 0 {
        seq!['-'] + decimal((-v) as nat)
    } else {
        decimal(v as nat)
    }
}

/// Half of `twice` in decimal: a whole number, or one that ends in `.5`.
pub open spec fn half_decimal(twice: int) -> Seq<char> {
    let m = if twice < 0 {
        -twice
    } else {
        twice
    };
    let whole = decimal((m / 2) as nat);
    let text = if m % 2 == 1 {
        whole + seq!['.', '5']
    } else {
        whole
    };
    if twice < 0 {
        seq!['-'] + text
    } else {
        text
    }
}

fn digit_text(d: u128) -> (text: &'static str)
    requires
        d < 10,
    ensures
        text@ == seq![digit_char(d as int)],
{
    proof {
        reveal_strlit("0");
        reveal_strlit("1");
        reveal_strlit("2");
        reveal_strlit("3");
        reveal_strlit("4");
        reveal_strlit("5");
        reveal_strlit("6");
        reveal_strlit("7");
        reveal_strlit("8");
        reveal_strlit("9");
    }
    let text = if d == 0 {
        "0"
    } else if d == 1 {
        "1"
    } else if d == 2 {
        "2"
    } else if d == 3 {
        "3"
    } else if d == 4 {
        "4"
    } else if d == 5 {
        "5"
    } else if d == 6 {
        "6"
    } else if d == 7 {
        "7"
    } else if d == 8 {
        "8"
    } else {
        "9"
    };
    assert(text@ =~= seq![digit_char(d as int)]);
    text
}

fn push_decimal(text: &mut String, n: u128)
    ensures
        final(text)@ == old(text)@ + decimal(n as nat),
    decreases n,
{
    if n >= 10 {
        push_decimal(text, n / 10);
    }
    text.append(digit_text(n % 10));
    assert(text@ =~= old(text)@ + decimal(n as nat));
}

/// The label of the whole number `v`.
pub fn whole_label(v: i64) -> (text: String)
    ensures
        text@ == signed_decimal(v as int),
{
    let mut text = String::new();
    let wide: i128 = v as i128;
    if wide < 0 {
        proof {
            reveal_strlit("-");
        }
        text.append("-");
        push_decimal(&mut text, (-wide) as u128);
    } else {
        push_decimal(&mut text, wide as u128);
    }
    assert(text@ =~= signed_decimal(v as int));
    text
}

/// The label of the point midway between `low` and `high`.
pub fn middle_label(low: i64, high: i64) -> (text: String)
    ensures
        text@ == half_decimal(low + high),
{
    let mut text = String::new();
    let twice: i128 = low as i128 + high as i128;
    let m: u128 = if twice < 0 {
        (-twice) as u128
    } else {
        twice as u128
    };
    if twice < 0 {
        proof {
            reveal_strlit("-");
        }
        text.append("-");
    }
    push_decimal(&mut text, m / 2);
    if m % 2 == 1 {
        proof {
            reveal_strlit(".5");
        }
        text.append(".5");
    }
    assert(text@ =~= half_decimal(low + high));
    text
}

/// The three labels of an axis.
#[derive(Debug, Clone, PartialEq, Eq)]
pub struct AxisLabels {
    pub low: String,
    pub middle: String,
    pub high: String,
}

/// The labels of an axis that runs from `low` to `high`: its two ends and the
/// point midway between them.
pub fn axis_labels(low: i64, high: i64) -> (labels: AxisLabels)
    ensures
        labels.low@ == signed_decimal(low as int),
        labels.middle@ == half_decimal(low + high),
        labels.high@ == signed_decimal(high as int),
{
    AxisLabels { low: whole_label(low), middle: middle_label(low, high), high: whole_label(high) }
}

/// The lower end of the y axis.
pub const Y_MIN: i64 = -20;

/// The upper end of the y axis.
pub const Y_MAX: i64 = 20;

} // verus!
