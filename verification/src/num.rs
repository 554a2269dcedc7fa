//! Decimal digits: parsing integers from text and rendering them back.

use vstd::prelude::*;

verus! {

/// The character for a decimal digit value.
pub open spec fn digit_char(d: int) -> char {
    if d == 0 {
        '0'
    } else if d == 1 {
        '1'
    } else if d == 2 {
        '2'
    } else if d == 3 {
        '3'
    } else if d == 4 {
        '4'
    } else if d == 5 {
        '5'
    } else if d == 6 {
        '6'
    } else if d == 7 {
        '7'
    } else if d == 8 {
        '8'
    } else {
        '9'
    }
}

/// The numeric value of a decimal digit character, or 10 for any other character.
pub open spec fn digit_val(c: char) -> int {
    if c == '0' {
        0
    } else if c == '1' {
        1
    } else if c == '2' {
        2
    } else if c == '3' {
        3
    } else if c == '4' {
        4
    } else if c == '5' {
        5
    } else if c == '6' {
        6
    } else if c == '7' {
        7
    } else if c == '8' {
        8
    } else if c == '9' {
        9
    } else {
        10
    }
}

/// Whether a character is a decimal digit.
pub open spec fn is_digit(c: char) -> bool {
    digit_val(c) < 10
}

/// Whether every character of a string is a decimal digit.
pub open spec fn all_digits(s: Seq<char>) -> bool {
    forall|i: int| 0 <= i < s.len() ==> is_digit(#[trigger] s[i])
}

/// The numeric value of a digit string, most significant digit first.
pub open spec fn dec_val(s: Seq<char>) -> int
    decreases s.len(),
{
    if s.len() == 0 {
        0
    } else {
        dec_val(s.drop_last()) * 10 + digit_val(s.last())
    }
}

/// Ten to the given power.
pub open spec fn pow10(n: nat) -> int
    decreases n,
{
    if n == 0 {
        1
    } else {
        10 * pow10((n - 1) as nat)
    }
}

/// The canonical decimal rendering of a non-negative integer.
pub open spec fn dec_of(n: int) -> Seq<char>
    recommends
        n >= 0,
    decreases n,
{
    if n < 10 {
        seq![digit_char(n)]
    } else {
        dec_of(n / 10).push(digit_char(n % 10))
    }
}

/// The decimal rendering of an integer, with a leading minus sign when negative.
pub open spec fn dec_int(n: int) -> Seq<char> {
    if n < 0 {
        seq!['-'] + dec_of(-n)
    } else {
        dec_of(n)
    }
}

/// The decimal rendering of a non-negative integer, zero-padded to a fixed width.
pub open spec fn dec_pad(n: int, width: nat) -> Seq<char>
    decreases width,
{
    if width == 0 {
        Seq::empty()
    } else {
        dec_pad(n / 10, (width - 1) as nat).push(digit_char(n % 10))
    }
}

/// The value of a digit string is non-negative and below ten to its length.
pub proof fn lemma_dec_val_bounds(s: Seq<char>)
    requires
        all_digits(s),
    ensures
        0 <= dec_val(s) < pow10(s.len()),
    decreases s.len(),
{
    if s.len() > 0 {
        assert(all_digits(s.drop_last()));
        lemma_dec_val_bounds(s.drop_last());
        assert(digit_val(s.last()) <= 9);
    }
}

/// Powers of ten grow with the exponent.
pub proof fn lemma_pow10_mono(a: nat, b: nat)
    requires
        a <= b,
    ensures
        pow10(a) <= pow10(b),
    decreases b,
{
    if a < b {
        lemma_pow10_mono(a, (b - 1) as nat);
        assert(pow10((b - 1) as nat) >= 1) by {
            lemma_pow10_mono(0, (b - 1) as nat);
        }
    }
}

/// Whether a character classifies as a digit, decided executably.
pub fn check_digit(c: char) -> (r: bool)
    ensures
        r == is_digit(c),
{
    c >= '0' && c <= '9'
}

/// The numeric value of a digit character, computed executably.
pub fn digit_value(c: char) -> (r: u32)
    requires
        is_digit(c),
    ensures
        r == digit_val(c),
        r < 10,
{
    if c == '0' {
        0
    } else if c == '1' {
        1
    } else if c == '2' {
        2
    } else if c == '3' {
        3
    } else if c == '4' {
        4
    } else if c == '5' {
        5
    } else if c == '6' {
        6
    } else if c == '7' {
        7
    } else if c == '8' {
        8
    } else {
        9
    }
}

/// The one-character string for a decimal digit value.
pub fn digit_to_str(d: u32) -> (r: &'static str)
    requires
        d < 10,
    ensures
        r@ =~= seq![digit_char(d as int)],
{
    proof {
        reveal_strlit("0");
        reveal_strlit("1");
        reveal_strlit("2");
        reveal_strlit("3");
        reveal_strlit("4");
        reveal_strlit("5");
        reveal_strlit("6");
        reveal_strlit("7");
        reveal_strlit("8");
        reveal_strlit("9");
    }
    if d == 0 {
        "0"
    } else if d == 1 {
        "1"
    } else if d == 2 {
        "2"
    } else if d == 3 {
        "3"
    } else if d == 4 {
        "4"
    } else if d == 5 {
        "5"
    } else if d == 6 {
        "6"
    } else if d == 7 {
        "7"
    } else if d == 8 {
        "8"
    } else {
        "9"
    }
}

/// Renders a non-negative integer in decimal.
pub fn u32_to_string(n: u32) -> (r: String)
    ensures
        r@ == dec_of(n as int),
    decreases n,
{
    if n < 10 {
        String::from_str(digit_to_str(n))
    } else {
        let mut s = u32_to_string(n / 10);
        s.append(digit_to_str(n % 10));
        proof {
            assert(s@ =~= dec_of((n / 10) as int).push(digit_char((n % 10) as int)));
        }
        s
    }
}

/// Renders a signed integer in decimal, with a leading minus sign when negative.
pub fn i32_to_string(n: i32) -> (r: String)
    ensures
        r@ == dec_int(n as int),
{
    if n >= 0 {
        u32_to_string(n as u32)
    } else {
        let m: u32 = (-(n as i64)) as u32;
        let mut s = String::from_str("-");
        s.append(u32_to_string(m).as_str());
        proof {
            reveal_strlit("-");
            assert(s@ =~= seq!['-'] + dec_of(m as int));
        }
        s
    }
}

/// Renders a non-negative integer in decimal, zero-padded to a fixed width.
pub fn u32_to_padded(n: u32, width: usize) -> (r: String)
    ensures
        r@ == dec_pad(n as int, width as nat),
    decreases width,
{
    if width == 0 {
        String::new()
    } else {
        let mut s = u32_to_padded(n / 10, width - 1);
        s.append(digit_to_str(n % 10));
        proof {
            assert(s@ =~= dec_pad((n / 10) as int, (width - 1) as nat).push(
                digit_char((n % 10) as int),
            ));
        }
        s
    }
}

/// Whether a string has the shape of a decimal integer literal: an optional
/// sign followed by at least one digit and nothing else.
pub open spec fn int_literal_shape(s: Seq<char>) -> bool {
    s.len() > 0 && {
        let digits = if s[0] == '+' || s[0] == '-' {
            s.subrange(1, s.len() as int)
        } else {
            s
        };
        digits.len() > 0 && all_digits(digits)
    }
}

/// The signed value of a decimal integer literal.
pub open spec fn int_literal_val(s: Seq<char>) -> int
    recommends
        int_literal_shape(s),
{
    if s.len() > 0 && s[0] == '-' {
        -dec_val(s.subrange(1, s.len() as int))
    } else if s.len() > 0 && s[0] == '+' {
        dec_val(s.subrange(1, s.len() as int))
    } else {
        dec_val(s)
    }
}

/// What parsing a field as a 32-bit signed integer yields: the literal's value
/// when the shape is right and the value fits, nothing otherwise.
pub open spec fn spec_parse_i32(s: Seq<char>) -> Option<i32> {
    if int_literal_shape(s) && i32::MIN <= int_literal_val(s) <= i32::MAX {
        Some(int_literal_val(s) as i32)
    } else {
        None
    }
}

/// A digit string whose value is already over `u32::MAX` only grows with more digits.
proof fn lemma_dec_val_grows(s: Seq<char>)
    requires
        s.len() > 0,
        all_digits(s),
    ensures
        dec_val(s) >= dec_val(s.drop_last()),
{
    assert(all_digits(s.drop_last()));
    lemma_dec_val_bounds(s.drop_last());
}

/// Parses a string as a 32-bit signed integer: an optional sign, then digits.
pub fn parse_i32(s: &str) -> (r: Option<i32>)
    ensures
        r == spec_parse_i32(s@),
{
    let len: usize = s.unicode_len();
    if len == 0 {
        return None;
    }
    let first = s.get_char(0);
    let neg = first == '-';
    let off: usize = if first == '-' || first == '+' {
        1
    } else {
        0
    };
    if len == off {
        return None;
    }
    let ghost digits = s@.subrange(off as int, len as int);
    let mut acc: u64 = 0;
    let mut big = false;
    let mut i: usize = off;
    while i < len
        invariant
            off <= i <= len,
            len == s@.len(),
            off == 0 || off == 1,
            off == 1 <==> (s@[0] == '-' || s@[0] == '+'),
            all_digits(s@.subrange(off as int, i as int)),
            !big ==> acc == dec_val(s@.subrange(off as int, i as int)) && acc <= u32::MAX,
            big ==> dec_val(s@.subrange(off as int, i as int)) > u32::MAX,
        decreases len - i,
    {
        let c = s.get_char(i);
        if !check_digit(c) {
            proof {
                assert(s@.subrange(0, len as int) =~= s@);
                if off == 1 {
                    assert(s@.subrange(1, len as int)[i - 1] == s@[i as int]);
                    assert(!all_digits(s@.subrange(1, len as int)));
                } else {
                    assert(!is_digit(s@[i as int]));
                }
                assert(!int_literal_shape(s@));
            }
            return None;
        }
        let d = digit_value(c);
        proof {
            assert(s@.subrange(off as int, i + 1).drop_last() =~= s@.subrange(
                off as int,
                i as int,
            ));
            assert(s@.subrange(off as int, i + 1).last() == s@[i as int]);
            assert(all_digits(s@.subrange(off as int, i + 1)));
            if big {
                lemma_dec_val_bounds(s@.subrange(off as int, i as int));
            }
        }
        if !big {
            let next: u64 = acc * 10 + (d as u64);
            if next > (u32::MAX as u64) {
                big = true;
            }
            acc = next;
        }
        i += 1;
    }
    proof {
        assert(s@.subrange(off as int, len as int) =~= s@.subrange(off as int, i as int));
        assert(s@.subrange(0, len as int) =~= s@);
        if off == 1 {
            assert(s@[0] == '-' || s@[0] == '+');
        } else {
            assert(!(s@[0] == '-' || s@[0] == '+'));
            assert(all_digits(s@));
        }
        assert(int_literal_shape(s@));
        assert(int_literal_val(s@) == if s@[0] == '-' {
            -dec_val(digits)
        } else {
            dec_val(digits)
        });
        lemma_dec_val_bounds(digits);
    }
    if big {
        return None;
    }
    if neg {
        if acc <= 2147483648 {
            proof {
                assert(int_literal_val(s@) == -(acc as int));
            }
            Some((-(acc as i64)) as i32)
        } else {
            None
        }
    } else {
        if acc <= 2147483647 {
            proof {
                assert(int_literal_val(s@) == acc as int);
            }
            Some(acc as i32)
        } else {
            None
        }
    }
}

/// Reads the fixed-width run of digits `s[start..end]` as a number.
pub fn fixed_val(s: &str, start: usize, end: usize) -> (r: u32)
    requires
        start <= end <= s@.len(),
        end - start <= 9,
        all_digits(s@.subrange(start as int, end as int)),
    ensures
        r == dec_val(s@.subrange(start as int, end as int)),
{
    let mut acc: u32 = 0;
    let mut i: usize = start;
    while i < end
        invariant
            start <= i <= end <= s@.len(),
            end - start <= 9,
            all_digits(s@.subrange(start as int, end as int)),
            acc == dec_val(s@.subrange(start as int, i as int)),
            acc < pow10((i - start) as nat),
        decreases end - i,
    {
        proof {
            assert(s@.subrange(start as int, i + 1).drop_last() =~= s@.subrange(
                start as int,
                i as int,
            ));
            assert(s@.subrange(start as int, i + 1).last() == s@[i as int]);
            assert(s@.subrange(start as int, end as int)[i - start] == s@[i as int]);
            lemma_pow10_mono(((i - start) + 1) as nat, 9);
            assert(pow10(9) == 1000000000) by {
                reveal_with_fuel(pow10, 10);
            }
        }
        let c = s.get_char(i);
        let d = digit_value(c);
        acc = acc * 10 + d;
        i += 1;
    }
    proof {
        assert(s@.subrange(start as int, end as int) =~= s@.subrange(start as int, i as int));
    }
    acc
}

} // verus!
