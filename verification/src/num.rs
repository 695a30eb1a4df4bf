//! Integer parsing (`str::parse` / `from_str_radix` on the integer types) and decimal/hex
//! formatting, stated over `Seq<char>`.
use vstd::prelude::*;

verus! {

/// `char::to_digit(radix)`, or `-1` when `c` is not a digit of that radix.
pub open spec fn digit_value(c: char, radix: int) -> int {
    let d = if '0' <= c && c <= '9' {
        c as int - '0' as int
    } else if 'a' <= c && c <= 'z' {
        c as int - 'a' as int + 10
    } else if 'A' <= c && c <= 'Z' {
        c as int - 'A' as int + 10
    } else {
        -1
    };
    if 0 <= d < radix {
        d
    } else {
        -1
    }
}

/// Every character of `s` is a digit of `radix`.
pub open spec fn all_digits(s: Seq<char>, radix: int) -> bool {
    forall|i: int| 0 <= i < s.len() ==> digit_value(#[trigger] s[i], radix) >= 0
}

/// The number the digits of `s` spell in `radix` (most significant first).
pub open spec fn digits_value(s: Seq<char>, radix: int) -> int
    decreases s.len(),
{
    if s.len() == 0 {
        0
    } else {
        digits_value(s.drop_last(), radix) * radix + digit_value(s.last(), radix)
    }
}

/// The digits of an unsigned literal: `s` without one optional leading `+`.
pub open spec fn unsigned_body(s: Seq<char>) -> Seq<char> {
    if s.len() > 0 && s[0] == '+' {
        s.drop_first()
    } else {
        s
    }
}

/// `from_str_radix` of an unsigned integer type whose largest value is `max`.
pub open spec fn parse_unsigned(s: Seq<char>, radix: int, max: int) -> Option<int> {
    let body = unsigned_body(s);
    if body.len() > 0 && all_digits(body, radix) && digits_value(body, radix) <= max {
        Some(digits_value(body, radix))
    } else {
        None
    }
}

/// `from_str_radix` of a signed integer type with range `min..=max`.
pub open spec fn parse_signed(s: Seq<char>, radix: int, min: int, max: int) -> Option<int> {
    if s.len() > 0 && s[0] == '-' {
        let body = s.drop_first();
        if body.len() > 0 && all_digits(body, radix) && -digits_value(body, radix) >= min {
            Some(-digits_value(body, radix))
        } else {
            None
        }
    } else {
        parse_unsigned(s, radix, max)
    }
}

pub proof fn lemma_digits_value_nonneg(s: Seq<char>, radix: int)
    requires
        all_digits(s, radix),
        radix >= 1,
    ensures
        digits_value(s, radix) >= 0,
    decreases s.len(),
{
    if s.len() > 0 {
        let t = s.drop_last();
        assert(all_digits(t, radix)) by {
            assert forall|i: int| 0 <= i < t.len() implies digit_value(#[trigger] t[i], radix)
                >= 0 by {
                assert(t[i] == s[i]);
            }
        }
        lemma_digits_value_nonneg(t, radix);
        let x = digits_value(t, radix);
        assert(x * radix >= 0) by (nonlinear_arith)
            requires
                x >= 0,
                radix >= 1,
        ;
    }
}

/// A longer run of digits never spells a smaller number than its prefix.
pub proof fn lemma_digits_value_prefix(s: Seq<char>, radix: int, k: int)
    requires
        all_digits(s, radix),
        radix >= 1,
        0 <= k <= s.len(),
    ensures
        digits_value(s.take(k), radix) <= digits_value(s, radix),
    decreases s.len() - k,
{
    if k < s.len() {
        let t = s.drop_last();
        assert(all_digits(t, radix)) by {
            assert forall|i: int| 0 <= i < t.len() implies digit_value(#[trigger] t[i], radix)
                >= 0 by {
                assert(t[i] == s[i]);
            }
        }
        lemma_digits_value_prefix(t, radix, k);
        assert(t.take(k) =~= s.take(k));
        lemma_digits_value_nonneg(t, radix);
        let x = digits_value(t, radix);
        assert(x * radix >= x) by (nonlinear_arith)
            requires
                x >= 0,
                radix >= 1,
        ;
        assert(digit_value(s.last(), radix) >= 0);
    } else {
        assert(s.take(k) =~= s);
    }
}

/// `char::to_digit(radix)`.
pub fn digit_of(c: char, radix: u32) -> (r: Option<u32>)
    requires
        2 <= radix <= 36,
    ensures
        match r {
            Some(d) => d == digit_value(c, radix as int) && d < radix,
            None => digit_value(c, radix as int) == -1,
        },
{
    let d: u32 = if '0' <= c && c <= '9' {
        (c as u32) - ('0' as u32)
    } else if 'a' <= c && c <= 'z' {
        (c as u32) - ('a' as u32) + 10
    } else if 'A' <= c && c <= 'Z' {
        (c as u32) - ('A' as u32) + 10
    } else {
        return None;
    };
    if d < radix {
        Some(d)
    } else {
        None
    }
}

/// The value of the digits `v[start..]` in `radix`, when they are all digits, at least one,
/// and spell at most `max`.
pub fn parse_digits(v: &[char], start: usize, radix: u32, max: u128) -> (r: Option<u128>)
    requires
        2 <= radix <= 36,
        start <= v@.len(),
    ensures
        ({
            let body = v@.skip(start as int);
            match r {
                Some(x) => body.len() > 0 && all_digits(body, radix as int) && digits_value(
                    body,
                    radix as int,
                ) == x && x <= max,
                None => !(body.len() > 0 && all_digits(body, radix as int) && digits_value(
                    body,
                    radix as int,
                ) <= max),
            }
        }),
{
    let ghost body = v@.skip(start as int);
    let n = v.len();
    if start == n {
        return None;
    }
    let mut acc: u128 = 0;
    let mut i: usize = start;
    while i < n
        invariant
            n == v@.len(),
            start <= i <= n,
            body == v@.skip(start as int),
            2 <= radix <= 36,
            acc <= max,
            all_digits(body.take(i - start), radix as int),
            digits_value(body.take(i - start), radix as int) == acc,
        decreases n - i,
    {
        let ghost pre = body.take(i - start);
        let ghost nxt = body.take(i - start + 1);
        assert(nxt.drop_last() =~= pre);
        assert(nxt.last() == v@[i as int]);
        let d = match digit_of(v[i], radix) {
            Some(d) => d,
            None => {
                assert(body[i - start] == v@[i as int]);
                return None;
            },
        };
        assert(all_digits(nxt, radix as int)) by {
            assert forall|j: int| 0 <= j < nxt.len() implies digit_value(
                #[trigger] nxt[j],
                radix as int,
            ) >= 0 by {
                if j < pre.len() {
                    assert(nxt[j] == pre[j]);
                }
            }
        }
        let next = match acc.checked_mul(radix as u128) {
            Some(m) => m.checked_add(d as u128),
            None => None,
        };
        match next {
            Some(x) if x <= max => {
                acc = x;
            },
            _ => {
                proof {
                    if all_digits(body, radix as int) {
                        lemma_digits_value_prefix(body, radix as int, i - start + 1);
                        assert(body.take(i - start + 1) == nxt);
                        let a = acc as int;
                        assert(a * radix >= 0) by (nonlinear_arith)
                            requires
                                a >= 0,
                                radix >= 1,
                        ;
                    }
                }
                return None;
            },
        }
        i += 1;
    }
    assert(body.take(i - start) =~= body);
    Some(acc)
}

/// `from_str_radix` for an unsigned type whose largest value is `max`.
pub fn parse_unsigned_exec(v: &[char], radix: u32, max: u128) -> (r: Option<u128>)
    requires
        2 <= radix <= 36,
    ensures
        match r {
            Some(x) => parse_unsigned(v@, radix as int, max as int) == Some(x as int),
            None => parse_unsigned(v@, radix as int, max as int) is None,
        },
{
    let start: usize = if v.len() > 0 && v[0] == '+' {
        1
    } else {
        0
    };
    assert(v@.skip(start as int) =~= unsigned_body(v@));
    parse_digits(v, start, radix, max)
}

/// `from_str_radix` for a signed type with range `-neg_max..=max`.
pub fn parse_signed_exec(v: &[char], radix: u32, neg_max: u128, max: u128) -> (r: Option<(bool, u128)>)
    requires
        2 <= radix <= 36,
    ensures
        match r {
            Some((neg, x)) => (if neg {
                x <= neg_max
            } else {
                x <= max
            }) && parse_signed(v@, radix as int, -(neg_max as int), max as int) == Some(
                if neg {
                    -(x as int)
                } else {
                    x as int
                },
            ),
            None => parse_signed(v@, radix as int, -(neg_max as int), max as int) is None,
        },
{
    if v.len() > 0 && v[0] == '-' {
        assert(v@.skip(1) =~= v@.drop_first());
        match parse_digits(v, 1, radix, neg_max) {
            Some(x) => Some((true, x)),
            None => None,
        }
    } else {
        match parse_unsigned_exec(v, radix, max) {
            Some(x) => Some((false, x)),
            None => None,
        }
    }
}

/// `str::parse::<u8>`.
pub fn parse_u8(v: &[char]) -> (r: Option<u8>)
    ensures
        match r {
            Some(x) => parse_unsigned(v@, 10, u8::MAX as int) == Some(x as int),
            None => parse_unsigned(v@, 10, u8::MAX as int) is None,
        },
{
    match parse_unsigned_exec(v, 10, u8::MAX as u128) {
        Some(x) => Some(x as u8),
        None => None,
    }
}

/// `str::parse::<u16>`.
pub fn parse_u16(v: &[char]) -> (r: Option<u16>)
    ensures
        match r {
            Some(x) => parse_unsigned(v@, 10, u16::MAX as int) == Some(x as int),
            None => parse_unsigned(v@, 10, u16::MAX as int) is None,
        },
{
    match parse_unsigned_exec(v, 10, u16::MAX as u128) {
        Some(x) => Some(x as u16),
        None => None,
    }
}

/// `str::parse::<u32>`.
pub fn parse_u32(v: &[char]) -> (r: Option<u32>)
    ensures
        match r {
            Some(x) => parse_unsigned(v@, 10, u32::MAX as int) == Some(x as int),
            None => parse_unsigned(v@, 10, u32::MAX as int) is None,
        },
{
    match parse_unsigned_exec(v, 10, u32::MAX as u128) {
        Some(x) => Some(x as u32),
        None => None,
    }
}

/// `str::parse::<u64>`.
pub fn parse_u64(v: &[char]) -> (r: Option<u64>)
    ensures
        match r {
            Some(x) => parse_unsigned(v@, 10, u64::MAX as int) == Some(x as int),
            None => parse_unsigned(v@, 10, u64::MAX as int) is None,
        },
{
    match parse_unsigned_exec(v, 10, u64::MAX as u128) {
        Some(x) => Some(x as u64),
        None => None,
    }
}

/// `str::parse::<usize>`.
pub fn parse_usize(v: &[char]) -> (r: Option<usize>)
    ensures
        match r {
            Some(x) => parse_unsigned(v@, 10, usize::MAX as int) == Some(x as int),
            None => parse_unsigned(v@, 10, usize::MAX as int) is None,
        },
{
    match parse_unsigned_exec(v, 10, usize::MAX as u128) {
        Some(x) => Some(x as usize),
        None => None,
    }
}

/// `str::parse::<i16>`.
pub fn parse_i16(v: &[char]) -> (r: Option<i16>)
    ensures
        match r {
            Some(x) => parse_signed(v@, 10, i16::MIN as int, i16::MAX as int) == Some(x as int),
            None => parse_signed(v@, 10, i16::MIN as int, i16::MAX as int) is None,
        },
{
    match parse_signed_exec(v, 10, 32768, 32767) {
        Some((neg, x)) => {
            if neg {
                Some((0 - (x as i32)) as i16)
            } else {
                Some(x as i16)
            }
        },
        None => None,
    }
}

/// The ASCII digit (`0-9`, then lowercase `a-z`) for `d`.
pub open spec fn digit_char(d: int) -> char {
    if d < 10 {
        (d + 48) as char
    } else {
        (d + 87) as char
    }
}

pub fn digit_char_exec(d: u32) -> (c: char)
    requires
        d < 16,
    ensures
        c == digit_char(d as int),
{
    if d < 10 {
        ((d as u8) + 48) as char
    } else {
        ((d as u8) + 87) as char
    }
}

/// The decimal representation of `n` (no sign, no leading zeros).
pub open spec fn decimal(n: nat) -> Seq<char>
    decreases n,
{
    if n < 10 {
        seq![digit_char(n as int)]
    } else {
        decimal(n / 10).push(digit_char((n % 10) as int))
    }
}

/// Appends the decimal representation of `n` to `out`.
pub fn push_decimal(out: &mut Vec<char>, n: u128)
    ensures
        final(out)@ == old(out)@ + decimal(n as nat),
    decreases n,
{
    let ghost o = out@;
    if n < 10 {
        out.push(digit_char_exec(n as u32));
        assert(out@ =~= o + decimal(n as nat));
    } else {
        push_decimal(out, n / 10);
        out.push(digit_char_exec((n % 10) as u32));
        assert(out@ =~= o + decimal(n as nat));
    }
}

/// The decimal digits of `n` are all digits, start with a digit, and spell `n`.
pub proof fn lemma_decimal_digits(n: nat)
    ensures
        decimal(n).len() > 0,
        all_digits(decimal(n), 10),
        '0' <= decimal(n)[0] <= '9',
        digits_value(decimal(n), 10) == n,
    decreases n,
{
    let d = decimal(n);
    if n < 10 {
        assert(d.drop_last() =~= Seq::<char>::empty());
        assert(d.last() == digit_char(n as int));
        assert(digits_value(Seq::<char>::empty(), 10) == 0);
        assert(digit_value(digit_char(n as int), 10) == n);
    } else {
        let q = n / 10;
        let r = n % 10;
        lemma_decimal_digits(q);
        let dq = decimal(q);
        assert(d.drop_last() =~= dq);
        assert(d.last() == digit_char(r as int));
        assert(digit_value(digit_char(r as int), 10) == r);
        assert(d[0] == dq[0]);
        assert forall|i: int| 0 <= i < d.len() implies digit_value(#[trigger] d[i], 10) >= 0 by {
            if i < d.len() - 1 {
                assert(d[i] == dq[i]);
            }
        }
        assert(q * 10 + r == n) by (nonlinear_arith)
            requires
                q == n / 10,
                r == n % 10,
        ;
        assert(digits_value(d, 10) == digits_value(dq, 10) * 10 + r);
    }
}

/// The decimal text of a number reads back as that number, in any type that holds it.
pub proof fn lemma_decimal_parses(n: nat, max: int)
    requires
        n <= max,
    ensures
        parse_unsigned(decimal(n), 10, max) == Some(n as int),
{
    lemma_decimal_digits(n);
    assert(unsigned_body(decimal(n)) == decimal(n));
}

} // verus!
