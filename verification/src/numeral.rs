//! Numbers written in base 10 and base 16: reading them from text and writing them out.

use vstd::prelude::*;
use crate::text::push_char;

verus! {

/// What the character `c` is worth as a digit in base `radix` (10 or 16), if it is one.
/// Letters count in either case.
pub open spec fn digit_value(c: char, radix: nat) -> Option<nat> {
    if '0' <= c <= '9' {
        Some((c as nat - '0' as nat) as nat)
    } else if radix == 16 && 'a' <= c <= 'f' {
        Some((c as nat - 'a' as nat + 10) as nat)
    } else if radix == 16 && 'A' <= c <= 'F' {
        Some((c as nat - 'A' as nat + 10) as nat)
    } else {
        None
    }
}

/// The number that the digits `s` spell in base `radix`, most significant first.
/// `None` where `s` is empty or holds anything but digits.
pub open spec fn digits_value(s: Seq<char>, radix: nat) -> Option<nat>
    decreases s.len(),
{
    if s.len() == 0 {
        None
    } else {
        match digit_value(s.last(), radix) {
            None => None,
            Some(d) => if s.len() == 1 {
                Some(d)
            } else {
                match digits_value(s.drop_last(), radix) {
                    None => None,
                    Some(v) => Some(v * radix + d),
                }
            },
        }
    }
}

/// Every non-empty start of a number spells a number that is no greater.
pub proof fn lemma_digits_prefix(s: Seq<char>, radix: nat, k: int)
    requires
        radix >= 1,
        1 <= k <= s.len(),
        digits_value(s, radix) is Some,
    ensures
        digits_value(s.take(k), radix) is Some,
        digits_value(s.take(k), radix)->0 <= digits_value(s, radix)->0,
    decreases s.len(),
{
    if k == s.len() {
        assert(s.take(k) =~= s);
    } else {
        assert(s.drop_last().take(k) =~= s.take(k));
        lemma_digits_prefix(s.drop_last(), radix, k);
        let v = digits_value(s.drop_last(), radix)->0;
        assert(v <= v * radix) by (nonlinear_arith)
            requires
                radix >= 1,
        ;
    }
}

/// The worth of `c` as a digit in base `radix`.
pub fn digit_of(c: char, radix: u32) -> (r: Option<u32>)
    requires
        radix == 10 || radix == 16,
    ensures
        r matches Some(d) ==> d < radix,
        match r {
            Some(d) => digit_value(c, radix as nat) == Some(d as nat),
            None => digit_value(c, radix as nat) is None,
        },
{
    let n: u32 = c as u32;
    if n >= 48 && n <= 57 {
        Some(n - 48)
    } else if radix == 16 && n >= 97 && n <= 102 {
        Some(n - 97 + 10)
    } else if radix == 16 && n >= 65 && n <= 70 {
        Some(n - 65 + 10)
    } else {
        None
    }
}

/// The value that `parse_digits` owes for the digits `s`: their number, unless it is above
/// `limit`.
pub open spec fn bounded_value(s: Seq<char>, radix: nat, limit: nat) -> Option<nat> {
    match digits_value(s, radix) {
        Some(v) => if v <= limit {
            Some(v)
        } else {
            None
        },
        None => None,
    }
}

/// Reads `v[from..]` as a number in base `radix` that is at most `limit`.
pub fn parse_digits(v: &Vec<char>, from: usize, radix: u32, limit: u64) -> (r: Option<u64>)
    requires
        radix == 10 || radix == 16,
        from <= v.len(),
    ensures
        match r {
            Some(x) => bounded_value(v@.skip(from as int), radix as nat, limit as nat) == Some(
                x as nat,
            ),
            None => bounded_value(v@.skip(from as int), radix as nat, limit as nat) is None,
        },
{
    let ghost s = v@.skip(from as int);
    if from == v.len() {
        return None;
    }
    let mut acc: u128 = 0;
    let mut i: usize = from;
    while i < v.len()
        invariant
            radix == 10 || radix == 16,
            from <= i <= v.len(),
            s == v@.skip(from as int),
            acc <= limit,
            i > from ==> digits_value(s.take(i - from), radix as nat) == Some(acc as nat),
            i == from ==> acc == 0,
        decreases v.len() - i,
    {
        let ghost prefix = s.take(i - from + 1);
        proof {
            assert(prefix.last() == v@[i as int]);
            assert(prefix.drop_last() =~= s.take(i - from));
            if digits_value(s, radix as nat) is Some {
                lemma_digits_prefix(s, radix as nat, i - from + 1);
            }
        }
        match digit_of(v[i], radix) {
            None => {
                return None;
            },
            Some(d) => {
                assert(acc * radix + d <= u64::MAX * 16 + 16) by (nonlinear_arith)
                    requires
                        acc <= u64::MAX,
                        radix <= 16,
                        d < 16,
                ;
                let next: u128 = acc * (radix as u128) + (d as u128);
                assert(digits_value(prefix, radix as nat) == Some(next as nat));
                if next > limit as u128 {
                    return None;
                }
                acc = next;
            },
        }
        i = i + 1;
    }
    assert(s.take(i - from) =~= s);
    Some(acc as u64)
}

/// The 32-bit signed integer that `s` spells in base 16: an optional `+` or `-`, then at
/// least one digit, the whole within the range of `i32`. Anything else is `None`.
pub open spec fn hex_i32_value(s: Seq<char>) -> Option<int> {
    if s.len() > 0 && s[0] == '-' {
        match bounded_value(s.skip(1), 16, 0x8000_0000) {
            Some(v) => Some(-(v as int)),
            None => None,
        }
    } else if s.len() > 0 && s[0] == '+' {
        match bounded_value(s.skip(1), 16, 0x7fff_ffff) {
            Some(v) => Some(v as int),
            None => None,
        }
    } else {
        match bounded_value(s, 16, 0x7fff_ffff) {
            Some(v) => Some(v as int),
            None => None,
        }
    }
}

/// Reads `v[from..]` as a 32-bit signed integer in base 16.
pub fn parse_hex_i32(v: &Vec<char>, from: usize) -> (r: Option<i32>)
    requires
        from <= v.len(),
    ensures
        match r {
            Some(x) => hex_i32_value(v@.skip(from as int)) == Some(x as int),
            None => hex_i32_value(v@.skip(from as int)) is None,
        },
{
    let ghost s = v@.skip(from as int);
    if from < v.len() && v[from] == '-' {
        assert(s.skip(1) =~= v@.skip(from + 1));
        match parse_digits(v, from + 1, 16, 0x8000_0000) {
            Some(x) => Some((0 - (x as i64)) as i32),
            None => None,
        }
    } else if from < v.len() && v[from] == '+' {
        assert(s.skip(1) =~= v@.skip(from + 1));
        match parse_digits(v, from + 1, 16, 0x7fff_ffff) {
            Some(x) => Some(x as i32),
            None => None,
        }
    } else {
        match parse_digits(v, from, 16, 0x7fff_ffff) {
            Some(x) => Some(x as i32),
            None => None,
        }
    }
}

/// The unsigned 64-bit integer that `s` spells in base 10: an optional `+`, then at least one
/// digit, the whole within the range of `u64`. Anything else is `None`.
pub open spec fn decimal_u64_value(s: Seq<char>) -> Option<nat> {
    if s.len() > 0 && s[0] == '+' {
        bounded_value(s.skip(1), 10, u64::MAX as nat)
    } else {
        bounded_value(s, 10, u64::MAX as nat)
    }
}

/// Reads `v` as an unsigned 64-bit integer in base 10.
pub fn parse_decimal_u64(v: &Vec<char>) -> (r: Option<u64>)
    ensures
        match r {
            Some(x) => decimal_u64_value(v@) == Some(x as nat),
            None => decimal_u64_value(v@) is None,
        },
{
    assert(v@.skip(0) =~= v@);
    if v.len() > 0 && v[0] == '+' {
        parse_digits(v, 1, 10, u64::MAX)
    } else {
        parse_digits(v, 0, 10, u64::MAX)
    }
}

/// The character for a digit below 16, letters in lower case.
pub open spec fn digit_char(d: nat) -> char {
    if d < 10 {
        ((d + '0' as nat) as u8) as char
    } else {
        ((d - 10 + 'a' as nat) as u8) as char
    }
}

/// `n` written in base `radix`, most significant digit first, with zeros in front where it
/// has fewer than `width` digits. Zero at width zero is written with no digit at all.
pub open spec fn digits_text(n: nat, radix: nat, width: nat) -> Seq<char>
    decreases n + width,
{
    if (radix != 10 && radix != 16) || (n == 0 && width == 0) {
        Seq::empty()
    } else {
        let rest_width = if width == 0 {
            0
        } else {
            (width - 1) as nat
        };
        if radix == 10 {
            digits_text(n / 10, radix, rest_width).push(digit_char(n % 10))
        } else {
            digits_text(n / 16, radix, rest_width).push(digit_char(n % 16))
        }
    }
}

/// Appends to `out` the digits of `n` in base `radix`, at least `width` of them.
pub fn push_digits(out: &mut String, n: u64, radix: u64, width: usize)
    requires
        radix == 10 || radix == 16,
    ensures
        final(out)@ == old(out)@ + digits_text(n as nat, radix as nat, width as nat),
{
    let mut rev: Vec<char> = Vec::new();
    let mut m: u64 = n;
    let mut w: usize = width;
    while m > 0 || w > 0
        invariant
            radix == 10 || radix == 16,
            digits_text(n as nat, radix as nat, width as nat) == digits_text(
                m as nat,
                radix as nat,
                w as nat,
            ) + rev@.reverse(),
        decreases m + w,
    {
        let d: u64 = m % radix;
        let c: char = if d < 10 {
            ((d + 48) as u8) as char
        } else {
            ((d - 10 + 97) as u8) as char
        };
        assert(c == digit_char(d as nat));
        let ghost before = rev@;
        rev.push(c);
        let ghost rest_w: nat = if w == 0 { 0 } else { (w - 1) as nat };
        proof {
            assert(rev@.reverse() =~= seq![c] + before.reverse());
            assert(digits_text((m / radix) as nat, radix as nat, rest_w).push(c) + before.reverse()
                =~= digits_text((m / radix) as nat, radix as nat, rest_w) + rev@.reverse());
        }
        m = m / radix;
        if w > 0 {
            w = w - 1;
        }
    }
    assert(digits_text(0, radix as nat, 0) =~= Seq::<char>::empty());
    let mut i: usize = rev.len();
    let ghost start = out@;
    while i > 0
        invariant
            i <= rev.len(),
            out@ == start + rev@.reverse().take(rev.len() - i),
        decreases i,
    {
        i = i - 1;
        push_char(out, rev[i]);
        assert(rev@.reverse().take(rev.len() - i) =~= rev@.reverse().take(rev.len() - i - 1).push(
            rev@[i as int],
        ));
    }
    assert(rev@.reverse().take(rev.len() as int) =~= rev@.reverse());
    assert(start + (Seq::<char>::empty() + rev@.reverse()) =~= start + rev@.reverse());
}

/// What is written is what is read back: the digits of a number spell that number, as
/// long as there is a digit at all.
pub proof fn lemma_digits_round_trip(n: nat, radix: nat, width: nat)
    requires
        radix == 10 || radix == 16,
        n > 0 || width > 0,
    ensures
        digits_value(digits_text(n, radix, width), radix) == Some(n),
    decreases n + width,
{
    let rest_width: nat = if width == 0 {
        0
    } else {
        (width - 1) as nat
    };
    let text = digits_text(n, radix, width);
    let d = n % radix;
    assert(text == digits_text(n / radix, radix, rest_width).push(digit_char(d)));
    assert(text.last() == digit_char(d));
    assert(text.drop_last() =~= digits_text(n / radix, radix, rest_width));
    assert(digit_value(digit_char(d), radix) == Some(d));
    if n / radix == 0 && rest_width == 0 {
        assert(text.len() == 1);
    } else {
        lemma_digits_round_trip(n / radix, radix, rest_width);
        assert(text.len() > 1);
    }
}

} // verus!
