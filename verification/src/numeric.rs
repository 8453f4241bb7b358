//! Numeric text: which cells count as an integer or as a decimal number.
//!
//! Cells arrive as text. An integer cell is read to its value; a measurement
//! cell is only recognised, and kept as text, because its value is a binary
//! floating-point number that callers produce from the text themselves.

use vstd::prelude::*;
use vstd::string::*;

verus! {

/// The value of `c` as a digit in `radix` (at most 16), if it is one.
pub open spec fn digit_value(c: char, radix: int) -> Option<int> {
    let v = if '0' <= c && c <= '9' {
        c as int - '0' as int
    } else if 'a' <= c && c <= 'f' {
        c as int - 'a' as int + 10
    } else if 'A' <= c && c <= 'F' {
        c as int - 'A' as int + 10
    } else {
        radix
    };
    if v < radix {
        Some(v)
    } else {
        None
    }
}

/// `s` is one or more digits of `radix`.
pub open spec fn all_digits(s: Seq<char>, radix: int) -> bool {
    s.len() > 0 && forall|i: int| 0 <= i < s.len() ==> digit_value(#[trigger] s[i], radix) is Some
}

/// The number that the digits `s` write in `radix`, most significant first.
pub open spec fn magnitude(s: Seq<char>, radix: int) -> int
    decreases s.len(),
{
    if s.len() == 0 {
        0
    } else {
        magnitude(s.drop_last(), radix) * radix + match digit_value(s.last(), radix) {
            Some(d) => d,
            None => 0,
        }
    }
}

/// An optional sign followed by one or more digits of `radix`.
pub open spec fn signed_value(s: Seq<char>, radix: int) -> Option<int> {
    if s.len() > 0 && s[0] == '-' {
        if all_digits(s.skip(1), radix) {
            Some(-magnitude(s.skip(1), radix))
        } else {
            None
        }
    } else if s.len() > 0 && s[0] == '+' {
        if all_digits(s.skip(1), radix) {
            Some(magnitude(s.skip(1), radix))
        } else {
            None
        }
    } else if all_digits(s, radix) {
        Some(magnitude(s, radix))
    } else {
        None
    }
}

/// `s` starts with the hexadecimal marker `0x`.
pub open spec fn has_hex_marker(s: Seq<char>) -> bool {
    s.len() >= 2 && s[0] == '0' && s[1] == 'x'
}

/// The integer that `s` writes: signed decimal, or `0x` and signed hexadecimal.
pub open spec fn integer_value(s: Seq<char>) -> Option<int> {
    if has_hex_marker(s) {
        signed_value(s.skip(2), 16)
    } else {
        signed_value(s, 10)
    }
}

/// The integer that `s` writes, if it fits in 32 bits.
pub open spec fn i32_value(s: Seq<char>) -> Option<i32> {
    match integer_value(s) {
        Some(v) => if i32::MIN <= v <= i32::MAX {
            Some(v as i32)
        } else {
            None
        },
        None => None,
    }
}

/// Where the run of decimal digits that starts at `from` ends.
pub open spec fn digit_run(s: Seq<char>, from: int) -> int
    decreases s.len() - from,
{
    if 0 <= from < s.len() && digit_value(s[from], 10) is Some {
        digit_run(s, from + 1)
    } else {
        from
    }
}

/// 1 if a sign stands at `at`, else 0.
pub open spec fn sign_len(s: Seq<char>, at: int) -> int {
    if 0 <= at < s.len() && (s[at] == '+' || s[at] == '-') {
        1
    } else {
        0
    }
}

/// From `at` to the end, `s` is an exponent: `e` or `E`, an optional sign,
/// one or more digits.
pub open spec fn is_exponent(s: Seq<char>, at: int) -> bool {
    let digits = at + 1 + sign_len(s, at + 1);
    &&& 0 <= at < s.len()
    &&& (s[at] == 'e' || s[at] == 'E')
    &&& digit_run(s, digits) > digits
    &&& digit_run(s, digits) == s.len()
}

/// `s` is a decimal number: an optional sign, digits with at most one point
/// among them and at least one digit in all, then an optional exponent.
pub open spec fn is_decimal_text(s: Seq<char>) -> bool {
    let whole = sign_len(s, 0);
    let point = digit_run(s, whole);
    let has_point = point < s.len() && s[point] == '.';
    let end = if has_point {
        digit_run(s, point + 1)
    } else {
        point
    };
    let digits = if has_point {
        end - whole - 1
    } else {
        end - whole
    };
    digits > 0 && (end == s.len() || is_exponent(s, end))
}

/// `c` with an upper-case ASCII letter folded to lower case.
pub open spec fn folded(c: char) -> int {
    if 'A' <= c && c <= 'Z' {
        c as int + 32
    } else {
        c as int
    }
}

/// From `from` to the end, `s` spells `word`, letter case aside.
pub open spec fn spells(s: Seq<char>, from: int, word: Seq<char>) -> bool {
    &&& 0 <= from
    &&& s.len() - from == word.len()
    &&& forall|i: int| 0 <= i < word.len() ==> folded(#[trigger] s[from + i]) == word[i] as int
}

/// `s` names a value that is no finite number: `inf`, `infinity` or `nan`,
/// in any letter case, after an optional sign.
pub open spec fn is_special_text(s: Seq<char>) -> bool {
    let from = sign_len(s, 0);
    ||| spells(s, from, seq!['i', 'n', 'f'])
    ||| spells(s, from, seq!['i', 'n', 'f', 'i', 'n', 'i', 't', 'y'])
    ||| spells(s, from, seq!['n', 'a', 'n'])
}

/// `s` is the text of a floating-point measurement.
pub open spec fn is_float_text(s: Seq<char>) -> bool {
    is_decimal_text(s) || is_special_text(s)
}

/// The characters of `text`, in order.
pub fn chars_of(text: &str) -> (chars: Vec<char>)
    ensures
        chars@ == text@,
{
    let mut chars: Vec<char> = Vec::new();
    for c in it: text.chars()
        invariant
            chars@ == it.seq().take(it.index() as int),
            it.seq() == text@,
    {
        chars.push(c);
    }
    chars
}

fn digit_of(c: char, radix: u32) -> (d: Option<u32>)
    requires
        radix == 10 || radix == 16,
    ensures
        match d {
            Some(v) => digit_value(c, radix as int) == Some(v as int) && v < radix,
            None => digit_value(c, radix as int) is None,
        },
{
    let code: u32 = c as u32;
    let v: u32 = if 48 <= code && code <= 57 {
        code - 48
    } else if 97 <= code && code <= 102 {
        code - 97 + 10
    } else if 65 <= code && code <= 70 {
        code - 65 + 10
    } else {
        radix
    };
    if v < radix {
        Some(v)
    } else {
        None
    }
}

fn plain_code(c: char) -> (code: u32)
    ensures
        code == c as int,
{
    c as u32
}

fn folded_code(c: char) -> (code: u32)
    ensures
        code == folded(c),
{
    let code: u32 = c as u32;
    if 65 <= code && code <= 90 {
        code + 32
    } else {
        code
    }
}

/// Reads a signed integer from `chars[from..]`, in `radix`.
fn parse_signed(chars: &Vec<char>, from: usize, radix: u32) -> (r: Option<i32>)
    requires
        from <= chars.len(),
        radix == 10 || radix == 16,
    ensures
        r == match signed_value(chars@.skip(from as int), radix as int) {
            Some(v) => if i32::MIN <= v <= i32::MAX {
                Some(v as i32)
            } else {
                None
            },
            None => None,
        },
{
    let n = chars.len();
    let ghost body = chars@.skip(from as int);
    if from >= n {
        return None;
    }
    let negative = chars[from] == '-';
    let start: usize = if chars[from] == '-' || chars[from] == '+' {
        from + 1
    } else {
        from
    };
    let ghost digits = chars@.skip(start as int);
    assert(digits == if start == from {
        body
    } else {
        body.skip(1)
    });
    if start >= n {
        return None;
    }
    assert(signed_value(body, radix as int) == if all_digits(digits, radix as int) {
        Some(if negative {
            -magnitude(digits, radix as int)
        } else {
            magnitude(digits, radix as int)
        })
    } else {
        None
    });
    let limit: i64 = 0x8000_0000;
    let mut acc: i64 = 0;
    let mut over = false;
    let mut i: usize = start;
    while i < n
        invariant
            start <= i <= n,
            n == chars.len(),
            radix == 10 || radix == 16,
            limit == 0x8000_0000,
            digits == chars@.skip(start as int),
            !all_digits(digits, radix as int) ==> signed_value(chars@.skip(from as int), radix as int)
                is None,
            forall|k: int| 0 <= k < i - start ==> digit_value(#[trigger] digits[k], radix as int) is Some,
            0 <= acc <= limit,
            !over ==> acc == magnitude(chars@.subrange(start as int, i as int), radix as int),
            over ==> magnitude(chars@.subrange(start as int, i as int), radix as int) > limit,
        decreases n - i,
    {
        let ghost before = chars@.subrange(start as int, i as int);
        let ghost after = chars@.subrange(start as int, i + 1);
        assert(after.drop_last() == before);
        assert(after.last() == chars[i as int]);
        assert(digits[i - start] == chars[i as int]);
        match digit_of(chars[i], radix) {
            None => {
                return None;
            },
            Some(d) => {
                assert(magnitude(after, radix as int) == magnitude(before, radix as int) * radix + d);
                if over {
                    assert(magnitude(before, radix as int) * radix >= magnitude(before, radix as int))
                        by (nonlinear_arith)
                        requires
                            magnitude(before, radix as int) >= 0,
                            radix >= 1,
                    ;
                } else {
                    let next: i64 = acc * (radix as i64) + (d as i64);
                    if next > limit {
                        over = true;
                    } else {
                        acc = next;
                    }
                }
            },
        }
        i = i + 1;
    }
    assert(chars@.subrange(start as int, n as int) == digits);
    assert(all_digits(digits, radix as int));
    if over {
        None
    } else if negative {
        Some((-acc) as i32)
    } else if acc > 0x7fff_ffff {
        None
    } else {
        Some(acc as i32)
    }
}

/// Reads a 32-bit integer: an optional sign and decimal digits, or `0x`, an
/// optional sign and hexadecimal digits. `None` for any other text and for a
/// value that does not fit.
pub fn parse_i32(text: &str) -> (r: Option<i32>)
    ensures
        r == i32_value(text@),
{
    let chars = chars_of(text);
    if chars.len() >= 2 && chars[0] == '0' && chars[1] == 'x' {
        parse_signed(&chars, 2, 16)
    } else {
        assert(chars@.skip(0) == chars@);
        parse_signed(&chars, 0, 10)
    }
}

fn skip_digits(chars: &Vec<char>, from: usize) -> (to: usize)
    requires
        from <= chars.len(),
    ensures
        to == digit_run(chars@, from as int),
        from <= to <= chars.len(),
    decreases chars.len() - from,
{
    if from < chars.len() {
        match digit_of(chars[from], 10) {
            Some(_) => skip_digits(chars, from + 1),
            None => from,
        }
    } else {
        from
    }
}

fn sign_at(chars: &Vec<char>, at: usize) -> (n: usize)
    ensures
        n == sign_len(chars@, at as int),
{
    if at < chars.len() && (chars[at] == '+' || chars[at] == '-') {
        1
    } else {
        0
    }
}

fn spells_word(chars: &Vec<char>, from: usize, word: &Vec<char>) -> (b: bool)
    requires
        from <= chars.len(),
    ensures
        b == spells(chars@, from as int, word@),
{
    if chars.len() - from != word.len() {
        return false;
    }
    let mut i: usize = 0;
    while i < word.len()
        invariant
            i <= word.len(),
            from <= chars.len(),
            chars.len() - from == word.len(),
            forall|k: int| 0 <= k < i ==> folded(#[trigger] chars@[from + k]) == word@[k] as int,
        decreases word.len() - i,
    {
        if folded_code(chars[from + i]) != plain_code(word[i]) {
            return false;
        }
        i = i + 1;
    }
    true
}

/// Whether `text` is a floating-point measurement: a decimal number with an
/// optional exponent, or one of `inf`, `infinity`, `nan` in any letter case,
/// each after an optional sign.
pub fn is_float(text: &str) -> (b: bool)
    ensures
        b == is_float_text(text@),
{
    let chars = chars_of(text);
    let n = chars.len();
    let whole = sign_at(&chars, 0);
    if spells_word(&chars, whole, &vec!['i', 'n', 'f']) || spells_word(
        &chars,
        whole,
        &vec!['i', 'n', 'f', 'i', 'n', 'i', 't', 'y'],
    ) || spells_word(&chars, whole, &vec!['n', 'a', 'n']) {
        return true;
    }
    let point = skip_digits(&chars, whole);
    let has_point = point < n && chars[point] == '.';
    let end = if has_point {
        skip_digits(&chars, point + 1)
    } else {
        point
    };
    let digits = if has_point {
        end - whole - 1
    } else {
        end - whole
    };
    if digits == 0 {
        return false;
    }
    if end == n {
        return true;
    }
    if chars[end] != 'e' && chars[end] != 'E' {
        return false;
    }
    let first = end + 1 + sign_at(&chars, end + 1);
    if first > n {
        return false;
    }
    let last = skip_digits(&chars, first);
    last > first && last == n
}

} // verus!
