//! Numbers as text: writing them in decimal and reading them in any radix up
//! to sixteen.
use crate::text::to_chars;
use vstd::prelude::*;

verus! {

/// The decimal digit for a number below ten.
pub open spec fn digit(d: nat) -> char {
    (48 + d) as char
}

/// The decimal notation of `n`, without leading zeros.
pub open spec fn decimal(n: nat) -> Seq<char>
    decreases n,
{
    if n < 10 {
        seq![digit(n)]
    } else {
        decimal(n / 10).push(digit(n % 10))
    }
}

/// Appends the decimal notation of `n` to `s`.
pub fn push_decimal(s: &mut String, n: u64)
    ensures
        final(s)@ == old(s)@ + decimal(n as nat),
    decreases n,
{
    if n >= 10 {
        push_decimal(s, n / 10);
    }
    s.push((48u8 + (n % 10) as u8) as char);
    assert(s@ =~= old(s)@ + decimal(n as nat));
}

/// The decimal notation of `n`.
pub fn to_decimal(n: u64) -> (r: String)
    ensures
        r@ == decimal(n as nat),
{
    let mut r = String::new();
    push_decimal(&mut r, n);
    assert(r@ =~= decimal(n as nat));
    r
}

/// The value of a digit, where letters of either case stand for ten and up.
pub open spec fn digit_value(c: char) -> nat {
    let n = c as u32;
    if 48 <= n <= 57 {
        (n - 48) as nat
    } else if 97 <= n <= 122 {
        (n - 87) as nat
    } else if 65 <= n <= 90 {
        (n - 55) as nat
    } else {
        36
    }
}

fn value_of_digit(c: char) -> (r: u32)
    ensures
        r as nat == digit_value(c),
{
    let n: u32 = c as u32;
    if 48 <= n && n <= 57 {
        n - 48
    } else if 97 <= n && n <= 122 {
        n - 87
    } else if 65 <= n && n <= 90 {
        n - 55
    } else {
        36
    }
}

/// Whether every character of `s` is a digit in the given radix.
pub open spec fn all_digits(s: Seq<char>, radix: nat) -> bool {
    forall|i: int| 0 <= i < s.len() ==> digit_value(#[trigger] s[i]) < radix
}

/// The number that a row of digits denotes.
pub open spec fn digits_value(s: Seq<char>, radix: nat) -> nat
    decreases s.len(),
{
    if s.len() == 0 {
        0
    } else {
        digits_value(s.drop_last(), radix) * radix + digit_value(s.last())
    }
}

/// The text without a leading plus sign that something follows.
pub open spec fn unsigned_digits(s: Seq<char>) -> Seq<char> {
    if s.len() > 1 && s[0] == '+' {
        s.skip(1)
    } else {
        s
    }
}

/// The number that `s` denotes: an optional plus sign and at least one digit,
/// with a value of at most `max`.
pub open spec fn parsed(s: Seq<char>, radix: nat, max: nat) -> Option<nat> {
    let d = unsigned_digits(s);
    if d.len() > 0 && all_digits(d, radix) && digits_value(d, radix) <= max {
        Some(digits_value(d, radix))
    } else {
        None
    }
}

/// A longer row of digits denotes at least as much as its front.
proof fn lemma_value_grows(s: Seq<char>, k: int, radix: nat)
    requires
        0 <= k <= s.len(),
        radix >= 1,
    ensures
        digits_value(s.take(k), radix) <= digits_value(s, radix),
    decreases s.len() - k,
{
    if k == s.len() {
        assert(s.take(k) =~= s);
    } else {
        lemma_value_grows(s, k + 1, radix);
        assert(s.take(k + 1).drop_last() =~= s.take(k));
        let v = digits_value(s.take(k), radix);
        assert(v <= v * radix) by (nonlinear_arith)
            requires
                radix >= 1,
                v >= 0,
        ;
    }
}

/// Reads an unsigned number of at most `max`.
pub fn parse_unsigned(s: &str, radix: u32, max: u64) -> (r: Option<u64>)
    requires
        2 <= radix <= 16,
    ensures
        r matches Some(n) ==> parsed(s@, radix as nat, max as nat) == Some(n as nat),
        r is None ==> parsed(s@, radix as nat, max as nat) is None,
{
    let cs = to_chars(s);
    let n: usize = cs.len();
    let from: usize = if n > 1 && cs[0] == '+' {
        1
    } else {
        0
    };
    let ghost d = unsigned_digits(s@);
    assert(d =~= s@.skip(from as int));
    if n == from {
        return None;
    }
    let mut value: u64 = 0;
    assert(d.take(0) =~= Seq::<char>::empty());
    for i in from..n
        invariant
            2 <= radix <= 16,
            cs@ == s@,
            n == s@.len(),
            from <= 1,
            from <= n,
            d == s@.skip(from as int),
            d == unsigned_digits(s@),
            value <= max,
            value as nat == digits_value(d.take(i - from), radix as nat),
            forall|j: int| 0 <= j < i - from ==> digit_value(#[trigger] d[j]) < radix,
    {
        let ghost k = i - from;
        assert(d[k] == cs@[i as int]);
        let v: u32 = value_of_digit(cs[i]);
        if v >= radix {
            assert(!all_digits(d, radix as nat));
            return None;
        }
        proof {
            lemma_value_grows(d, k + 1, radix as nat);
            assert(d.take(k + 1).drop_last() =~= d.take(k));
            assert(d.take(k + 1).last() == d[k]);
        }
        let wide: u128 = value as u128;
        assert(wide * radix <= 0xffff_ffff_ffff_ffff * 16) by (nonlinear_arith)
            requires
                wide <= 0xffff_ffff_ffff_ffff,
                radix <= 16,
        ;
        let next: u128 = wide * (radix as u128) + v as u128;
        if next > max as u128 {
            return None;
        }
        value = next as u64;
    }
    assert(d.take(n - from) =~= d);
    Some(value)
}

/// Reading the decimal notation of a number gives the number back.
pub proof fn lemma_decimal_round_trip(n: nat, max: nat)
    ensures
        all_digits(decimal(n), 10),
        decimal(n).len() > 0,
        digits_value(decimal(n), 10) == n,
        decimal(n)[0] != '+',
        parsed(decimal(n), 10, max) == if n <= max {
            Some(n)
        } else {
            None::<nat>
        },
    decreases n,
{
    if n < 10 {
        let s = decimal(n);
        assert(s.drop_last() =~= Seq::<char>::empty());
        assert(digits_value(s.drop_last(), 10) == 0);
    } else {
        lemma_decimal_round_trip(n / 10, max);
        let s = decimal(n);
        assert(s.drop_last() =~= decimal(n / 10));
        assert forall|i: int| 0 <= i < s.len() implies digit_value(#[trigger] s[i]) < 10 by {
            if i < s.len() - 1 {
                assert(s[i] == decimal(n / 10)[i]);
            }
        }
        assert(s[0] == decimal(n / 10)[0]);
    }
}

/// A number below ten is written as its digit, and ten times a number plus a
/// digit as the number with the digit behind it.
pub proof fn law_decimal_places(n: nat, d: nat)
    requires
        d < 10,
    ensures
        decimal(d) == seq![(48 + d) as char],
        n > 0 ==> decimal(10 * n + d) == decimal(n).push((48 + d) as char),
{
    if n > 0 {
        assert((10 * n + d) / 10 == n);
        assert((10 * n + d) % 10 == d);
    }
}

/// The digits of a radix are those from `0` to `9` and, from ten on, the
/// letters from `a` or from `A`; nothing else is a digit.
pub proof fn law_digits(c: char)
    ensures
        48 <= c as u32 <= 57 ==> digit_value(c) == c as u32 - 48,
        97 <= c as u32 <= 102 ==> digit_value(c) == c as u32 - 87,
        65 <= c as u32 <= 70 ==> digit_value(c) == c as u32 - 55,
        digit_value(c) < 16 ==> 48 <= c as u32 <= 57 || 97 <= c as u32 <= 102 || 65 <= c as u32
            <= 70,
{
}

/// A number is read from a row of digits of its radix, with a plus sign in
/// front or not, unless it is too large; one more digit at the end counts as
/// in any notation by places.
pub proof fn law_reading_numbers(s: Seq<char>, c: char, radix: nat, max: nat, n: nat)
    requires
        2 <= radix <= 16,
        s.len() > 0 ==> s[0] != '+' && parsed(s, radix, max) == Some(n),
        s.len() == 0 ==> n == 0,
    ensures
        digit_value(c) < radix && n * radix + digit_value(c) <= max ==> parsed(
            s.push(c),
            radix,
            max,
        ) == Some(n * radix + digit_value(c)) && parsed(seq!['+'] + s.push(c), radix, max) == Some(
            n * radix + digit_value(c),
        ),
        digit_value(c) < radix && n * radix + digit_value(c) > max ==> parsed(
            s.push(c),
            radix,
            max,
        ) is None,
        digit_value(c) >= radix && (s.len() > 0 || c != '+') ==> parsed(
            s.push(c),
            radix,
            max,
        ) is None,
{
    let t = s.push(c);
    let plus = seq!['+'] + t;
    assert(plus.skip(1) =~= t);
    assert(t.drop_last() =~= s);
    if s.len() == 0 {
        assert(digits_value(s, radix) == 0);
        assert(0 * radix == 0);
    } else {
        assert(t[0] == s[0]);
    }
    assert(t[t.len() - 1] == c);
    if digit_value(c) < radix {
        assert forall|i: int| 0 <= i < t.len() implies digit_value(#[trigger] t[i]) < radix by {
            if i < s.len() {
                assert(t[i] == s[i]);
            }
        }
        if s.len() == 0 && c == '+' {
            assert(digit_value('+') == 36);
        }
    } else {
        assert(!all_digits(t, radix));
    }
}

/// Nothing but digits, with a plus sign in front of them or not, is a number.
pub proof fn law_only_digits_are_numbers(s: Seq<char>, radix: nat, max: nat, i: int)
    requires
        parsed(s, radix, max) is Some,
    ensures
        s.len() > 0,
        parsed(s, radix, max)->0 <= max,
        s[0] == '+' ==> radix > 36 || s.len() > 1,
        0 < i < s.len() ==> digit_value(s[i]) < radix,
        s[0] != '+' ==> digit_value(s[0]) < radix,
{
    let d = unsigned_digits(s);
    if s.len() > 1 && s[0] == '+' {
        if 0 < i < s.len() {
            assert(d[i - 1] == s[i]);
        }
    } else {
        assert(digit_value(d[0]) < radix);
        if 0 < i < s.len() {
            assert(d[i] == s[i]);
        }
    }
}

} // verus!
