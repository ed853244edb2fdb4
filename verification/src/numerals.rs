//! Decimal numerals: what a digit sequence denotes, and verified parsers
//! for the unsigned and signed integer parameters of the command line.

use vstd::prelude::*;
use vstd::string::*;

verus! {

/// A decimal digit, `'0'` through `'9'`.
pub open spec fn is_digit(c: char) -> bool {
    48 <= c as int <= 57
}

/// The value of one digit; 0 on anything that is not a digit.
pub open spec fn digit_val(c: char) -> nat {
    if is_digit(c) {
        (c as nat - 48) as nat
    } else {
        0
    }
}

/// Every character of `s` is a decimal digit.
pub open spec fn all_digits(s: Seq<char>) -> bool {
    forall|i: int| 0 <= i < s.len() ==> is_digit(s[i])
}

/// A non-empty run of decimal digits.
pub open spec fn is_numeral(s: Seq<char>) -> bool {
    s.len() > 0 && all_digits(s)
}

/// The number a digit sequence denotes, read most significant digit first.
pub open spec fn digits_val(s: Seq<char>) -> nat
    decreases s.len(),
{
    if s.len() == 0 {
        0
    } else {
        digits_val(s.drop_last()) * 10 + digit_val(s.last())
    }
}

/// Reading one more digit multiplies the value so far by ten and adds it.
pub proof fn lemma_digits_val_step(s: Seq<char>, from: int, i: int)
    requires
        0 <= from <= i < s.len(),
    ensures
        digits_val(s.subrange(from, i + 1)) == digits_val(s.subrange(from, i)) * 10 + digit_val(
            s[i],
        ),
{
    let t = s.subrange(from, i + 1);
    assert(t.drop_last() =~= s.subrange(from, i));
    assert(t.last() == s[i]);
}

/// A longer run of digits never denotes a smaller number.
pub proof fn lemma_digits_val_mono(s: Seq<char>, from: int, i: int, j: int)
    requires
        0 <= from <= i <= j <= s.len(),
    ensures
        digits_val(s.subrange(from, j)) >= digits_val(s.subrange(from, i)),
    decreases j - i,
{
    if i < j {
        lemma_digits_val_mono(s, from, i, j - 1);
        lemma_digits_val_step(s, from, j - 1);
    }
}

/// Reads the digits of `s` between `from` and `to` as a `u32`;
/// `None` exactly when the denoted number does not fit.
pub fn digits_to_u32(s: &str, from: usize, to: usize) -> (r: Option<u32>)
    requires
        from <= to <= s@.len(),
        forall|t: int| from <= t < to ==> is_digit(s@[t]),
    ensures
        match r {
            Some(v) => digits_val(s@.subrange(from as int, to as int)) == v,
            None => digits_val(s@.subrange(from as int, to as int)) > u32::MAX,
        },
{
    let mut acc: u32 = 0;
    let mut i: usize = from;
    proof {
        assert(s@.subrange(from as int, from as int) =~= Seq::<char>::empty());
    }
    while i < to
        invariant
            from <= i <= to <= s@.len(),
            forall|t: int| from <= t < to ==> is_digit(s@[t]),
            acc == digits_val(s@.subrange(from as int, i as int)),
        decreases to - i,
    {
        let c = s.get_char(i);
        assert(is_digit(c));
        let d: u32 = (c as u32) - 48;
        proof {
            lemma_digits_val_step(s@, from as int, i as int);
        }
        if acc > (u32::MAX - d) / 10 {
            proof {
                lemma_digits_val_mono(s@, from as int, i as int + 1, to as int);
                assert(acc * 10 + d > u32::MAX) by (nonlinear_arith)
                    requires
                        acc > (u32::MAX - d) / 10,
                        d <= 9,
                ;
            }
            return None;
        }
        proof {
            assert(acc * 10 + d <= u32::MAX) by (nonlinear_arith)
                requires
                    acc <= (u32::MAX - d) / 10,
                    d <= 9,
            ;
        }
        acc = acc * 10 + d;
        i = i + 1;
    }
    Some(acc)
}

/// The digit character for a value below ten.
pub open spec fn digit_char(d: int) -> char {
    if d == 0 {
        '0'
    } else if d == 1 {
        '1'
    } else if d == 2 {
        '2'
    } else if d == 3 {
        '3'
    } else if d == 4 {
        '4'
    } else if d == 5 {
        '5'
    } else if d == 6 {
        '6'
    } else if d == 7 {
        '7'
    } else if d == 8 {
        '8'
    } else {
        '9'
    }
}

/// The decimal numeral denoting `v`: most significant digit first, a
/// single `0` for zero, no leading zeroes otherwise.
pub open spec fn decimal_digits(v: int) -> Seq<char>
    decreases v,
{
    if v < 10 {
        seq![digit_char(v)]
    } else {
        decimal_digits(v / 10).push(digit_char(v % 10))
    }
}

/// Rendering and reading are inverse: the numeral for `v` is a non-empty
/// run of digits that denotes `v` again, and only `0` starts with a zero.
pub proof fn lemma_decimal_digits_denote_their_value(v: int)
    requires
        0 <= v,
    ensures
        is_numeral(decimal_digits(v)),
        digits_val(decimal_digits(v)) == v,
        v >= 10 ==> decimal_digits(v)[0] != '0',
    decreases v,
{
    if v < 10 {
        let s1 = seq![digit_char(v)];
        assert(decimal_digits(v) == s1);
        assert(s1.drop_last() =~= Seq::<char>::empty());
        assert(digits_val(Seq::<char>::empty()) == 0);
        assert(s1.last() == digit_char(v));
        assert(digits_val(s1) == digits_val(s1.drop_last()) * 10 + digit_val(s1.last()));
        assert(digit_val(digit_char(v)) == v);
    } else {
        lemma_decimal_digits_denote_their_value(v / 10);
        let s = decimal_digits(v / 10);
        let c = digit_char(v % 10);
        assert(digit_val(c) == v % 10);
        assert(s.push(c).drop_last() =~= s);
        assert(s.push(c).last() == c);
        assert(digits_val(s.push(c)) == digits_val(s) * 10 + digit_val(c));
        assert(digits_val(s) * 10 + digit_val(c) == v);
        assert(decimal_digits(v)[0] == s[0]);
    }
}

/// The digit character for `d`, as a one-character string.
fn digit_str(d: u32) -> (r: &'static str)
    requires
        d < 10,
    ensures
        r@ =~= seq![digit_char(d as int)],
{
    proof {
        reveal_strlit("0");
        reveal_strlit("1");
        reveal_strlit("2");
        reveal_strlit("3");
        reveal_strlit("4");
        reveal_strlit("5");
        reveal_strlit("6");
        reveal_strlit("7");
        reveal_strlit("8");
        reveal_strlit("9");
    }
    match d {
        0 => "0",
        1 => "1",
        2 => "2",
        3 => "3",
        4 => "4",
        5 => "5",
        6 => "6",
        7 => "7",
        8 => "8",
        _ => "9",
    }
}

/// Renders `v` in decimal.
pub fn u32_to_string(v: u32) -> (r: String)
    ensures
        r@ == decimal_digits(v as int),
    decreases v,
{
    let low = digit_str(v % 10);
    if v < 10 {
        low.to_owned()
    } else {
        let mut s = u32_to_string(v / 10);
        s.append(low);
        proof {
            assert(s@ =~= decimal_digits(v as int));
        }
        s
    }
}

/// The position after an optional leading sign.
pub open spec fn sign_len(s: Seq<char>) -> int {
    if s.len() > 0 && (s[0] == '+' || s[0] == '-') {
        1
    } else {
        0
    }
}

/// The digits of a signed numeral, with any sign stripped.
pub open spec fn magnitude_part(s: Seq<char>) -> Seq<char> {
    s.subrange(sign_len(s), s.len() as int)
}

/// `s` is a numeral that `i32` can hold: an optional sign, then digits,
/// with the denoted value in `i32`'s range.
pub open spec fn is_i32_numeral(s: Seq<char>) -> bool {
    &&& is_numeral(magnitude_part(s))
    &&& if s.len() > 0 && s[0] == '-' {
        digits_val(magnitude_part(s)) <= 0x8000_0000
    } else {
        digits_val(magnitude_part(s)) <= 0x7fff_ffff
    }
}

/// The value a signed numeral denotes.
pub open spec fn i32_numeral_val(s: Seq<char>) -> int {
    if s.len() > 0 && s[0] == '-' {
        -(digits_val(magnitude_part(s)) as int)
    } else {
        digits_val(magnitude_part(s)) as int
    }
}

/// Parses `s` as an `i32`, with the meaning `str::parse::<i32>` gives it:
/// an optional `+` or `-` sign followed by at least one decimal digit,
/// rejected when the value falls outside `i32`'s range.
pub fn parse_i32(s: &str) -> (r: Option<i32>)
    ensures
        is_i32_numeral(s@) ==> r == Some(i32_numeral_val(s@) as i32),
        !is_i32_numeral(s@) ==> r is None,
{
    let len = s.unicode_len();
    if len == 0 {
        return None;
    }
    let c0 = s.get_char(0);
    let negative = c0 == '-';
    let start: usize = if c0 == '-' || c0 == '+' {
        1
    } else {
        0
    };
    if start >= len {
        // a sign with no digits after it
        return None;
    }
    let mut i: usize = start;
    while i < len
        invariant
            start <= i <= len,
            len == s@.len(),
            start == sign_len(s@),
            forall|t: int| start <= t < i ==> is_digit(s@[t]),
        decreases len - i,
    {
        if !digit_at(s, i) {
            proof {
                assert(magnitude_part(s@)[i - start] == s@[i as int]);
                assert(!all_digits(magnitude_part(s@)));
            }
            return None;
        }
        i = i + 1;
    }
    assert(magnitude_part(s@) =~= s@.subrange(start as int, len as int));
    let magnitude = digits_to_u32(s, start, len);
    match magnitude {
        None => {
            assert(!is_i32_numeral(s@));
            None
        },
        Some(m) => {
            if negative {
                if m > 0x8000_0000u32 {
                    None
                } else if m == 0x8000_0000u32 {
                    Some(i32::MIN)
                } else {
                    Some(-(m as i32))
                }
            } else {
                if m > 0x7fff_ffffu32 {
                    None
                } else {
                    Some(m as i32)
                }
            }
        },
    }
}

/// True when the character of `s` at `i` is a decimal digit.
fn digit_at(s: &str, i: usize) -> (r: bool)
    requires
        i < s@.len(),
    ensures
        r == is_digit(s@[i as int]),
{
    let c = s.get_char(i);
    let v = c as u32;
    48 <= v && v <= 57
}

} // verus!
