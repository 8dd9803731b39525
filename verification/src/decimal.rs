//! Decimal rendering and parsing of the integers that cross the wire:
//! pids and exit encodings are written in decimal, and the `signal` command
//! carries a decimal pid that must be parsed back.

use vstd::prelude::*;
use crate::text::push_char;

verus! {

/// The character for one decimal digit.
pub open spec fn dec_digit(d: nat) -> char
    recommends
        d < 10,
{
    ((d + 0x30) as u8) as char
}

/// The decimal rendering of a natural number, most significant digit first,
/// with no sign and no leading zeros (except for `0` itself).
pub open spec fn dec_str(n: nat) -> Seq<char>
    decreases n,
{
    if n < 10 {
        seq![dec_digit(n)]
    } else {
        dec_str(n / 10).push(dec_digit(n % 10))
    }
}

/// Renders a `u32` in decimal, exactly as `dec_str` describes.
pub fn u32_to_string(n: u32) -> (s: String)
    ensures
        s@ == dec_str(n as nat),
{
    let mut digits: Vec<char> = Vec::new();
    let mut m: u32 = n;
    let ghost mut seen: Seq<char> = Seq::empty();
    loop
        invariant_except_break
            digits@ == seen,
            (m as nat) < 10 ==> dec_str(n as nat) == seq![dec_digit(m as nat)] + seen,
            (m as nat) >= 10 ==> dec_str(n as nat) == dec_str(m as nat / 10).push(
                dec_digit(m as nat % 10),
            ) + seen,
        ensures
            digits@ == dec_str(n as nat),
        decreases m,
    {
        let d: u32 = m % 10;
        let c: char = (0x30u8 + d as u8) as char;
        assert(c == dec_digit(d as nat));
        digits.insert(0, c);
        proof {
            seen = seq![dec_digit(d as nat)] + seen;
        }
        if m < 10 {
            assert(digits@ =~= dec_str(n as nat));
            break;
        }
        m = m / 10;
        assert(dec_str(n as nat) =~= dec_str(m as nat) + seen);
    }
    let mut s = String::new();
    let mut i: usize = 0;
    while i < digits.len()
        invariant
            i <= digits@.len(),
            s@ == digits@.take(i as int),
        decreases digits@.len() - i,
    {
        push_char(&mut s, digits[i]);
        i = i + 1;
        assert(s@ =~= digits@.take(i as int));
    }
    assert(s@ =~= digits@);
    s
}

/// True when the character is an ASCII decimal digit.
pub open spec fn is_digit(c: char) -> bool {
    '0' <= c && c <= '9'
}

/// The numeric value of one digit character.
pub open spec fn digit_val(c: char) -> nat
    recommends
        is_digit(c),
{
    (c as nat - 0x30) as nat
}

/// True when every character of the sequence is a decimal digit.
pub open spec fn all_digits(s: Seq<char>) -> bool {
    forall|i: int| 0 <= i < s.len() ==> is_digit(#[trigger] s[i])
}

/// The value of a digit string read in base ten.
pub open spec fn digits_val(s: Seq<char>) -> nat
    decreases s.len(),
{
    if s.len() == 0 {
        0
    } else {
        digits_val(s.drop_last()) * 10 + digit_val(s.last())
    }
}

/// What `<i32 as FromStr>::from_str` accepts: an optional sign followed by
/// one or more digits, whose value fits in an `i32`.
pub open spec fn parse_i32_spec(s: Seq<char>) -> Option<i32> {
    if s.len() == 0 {
        None
    } else {
        let neg = s[0] == '-';
        let body = if s[0] == '-' || s[0] == '+' {
            s.skip(1)
        } else {
            s
        };
        if body.len() == 0 || !all_digits(body) {
            None
        } else if neg && digits_val(body) <= 0x8000_0000 {
            Some((-(digits_val(body) as int)) as i32)
        } else if !neg && digits_val(body) <= 0x7fff_ffff {
            Some(digits_val(body) as i32)
        } else {
            None
        }
    }
}

/// Decimal rendering is faithful: what `dec_str` writes is one or more
/// digits and nothing else, and read back in base ten it gives back exactly
/// the number it was written from.
pub proof fn lemma_dec_str_value(n: nat)
    ensures
        dec_str(n).len() >= 1,
        all_digits(dec_str(n)),
        digits_val(dec_str(n)) == n,
    decreases n,
{
    if n < 10 {
        let s = seq![dec_digit(n)];
        assert(dec_str(n) == s);
        assert(is_digit(dec_digit(n)));
        assert(s.last() == dec_digit(n));
        assert(s.drop_last() =~= Seq::<char>::empty());
        assert(digits_val(Seq::<char>::empty()) == 0);
        assert(digits_val(s) == digit_val(dec_digit(n)));
        assert(digit_val(dec_digit(n)) == n);
    } else {
        lemma_dec_str_value(n / 10);
        let s = dec_str(n / 10);
        assert(dec_str(n) == s.push(dec_digit(n % 10)));
        assert(s.push(dec_digit(n % 10)).drop_last() =~= s);
        assert(s.push(dec_digit(n % 10)).last() == dec_digit(n % 10));
        assert(digits_val(dec_str(n)) == digits_val(s) * 10 + digit_val(dec_digit(n % 10)));
        assert(is_digit(dec_digit(n % 10)));
        assert forall|i: int| 0 <= i < dec_str(n).len() implies is_digit(
            #[trigger] dec_str(n)[i],
        ) by {
            if i < s.len() {
                assert(dec_str(n)[i] == s[i]);
            }
        }
    }
}

/// A digit string's value only grows as more digits follow.
proof fn lemma_digits_val_take(s: Seq<char>, i: int)
    requires
        0 <= i <= s.len(),
    ensures
        digits_val(s.take(i)) <= digits_val(s),
    decreases s.len(),
{
    if i < s.len() {
        assert(s.take(i) =~= s.drop_last().take(i));
        lemma_digits_val_take(s.drop_last(), i);
    } else {
        assert(s.take(i) =~= s);
    }
}

/// Parses a decimal `i32` from a string, matching `parse_i32_spec`.
pub fn parse_i32(s: &str) -> (r: Option<i32>)
    ensures
        r == parse_i32_spec(s@),
{
    let n = s.unicode_len();
    if n == 0 {
        return None;
    }
    let first = s.get_char(0);
    let neg = first == '-';
    let start: usize = if first == '-' || first == '+' {
        1
    } else {
        0
    };
    let ghost body = if first == '-' || first == '+' {
        s@.skip(1)
    } else {
        s@
    };
    if start == n {
        return None;
    }
    let mut acc: u64 = 0;
    let mut i: usize = start;
    while i < n
        invariant
            start <= i <= n,
            n == s@.len(),
            n > 0,
            start == 0 || start == 1,
            neg == (s@[0] == '-'),
            (s@[0] == '-' || s@[0] == '+') <==> start == 1,
            start == 1 ==> body =~= s@.skip(1),
            start == 0 ==> body =~= s@,
            body.len() == n - start,
            forall|j: int| 0 <= j < body.len() ==> body[j] == s@[j + start],
            all_digits(body.take(i - start)),
            acc == digits_val(body.take(i - start)),
            acc <= 0x8000_0000,
        decreases n - i,
    {
        let c = s.get_char(i);
        assert(body[i - start] == c);
        if !('0' <= c && c <= '9') {
            assert(!all_digits(body)) by {
                assert(!is_digit(body[i - start]));
            }
            return None;
        }
        let d: u64 = (c as u32 - 0x30) as u64;
        proof {
            assert(body.take(i + 1 - start).drop_last() =~= body.take(i - start));
            assert(body.take(i + 1 - start).last() == body[i - start]);
            assert(digit_val(body[i - start]) == d);
        }
        acc = acc * 10 + d;
        i = i + 1;
        if acc > 0x8000_0000 {
            proof {
                lemma_digits_val_take(body, i - (start as int));
                assert(digits_val(body) > 0x8000_0000);
            }
            return None;
        }
    }
    assert(body.take(n - start) =~= body);
    if neg {
        if acc == 0x8000_0000 {
            Some(i32::MIN)
        } else {
            Some(-(acc as i32))
        }
    } else {
        if acc > 0x7fff_ffff {
            None
        } else {
            Some(acc as i32)
        }
    }
}

} // verus!
