//! The gas-rate calculator: from a hex gas figure and an elapsed time to a
//! throughput in gas per second, and its text.

use vstd::prelude::*;
use crate::text::{chars_of, decimal_digits, digit_char, push_decimal};

verus! {

/// The number of microseconds in one second.
pub const MICROS_PER_SECOND: u128 = 1_000_000;

/// From this rate on, a rate is shown in millions of gas per second.
pub const MGAS: u128 = 1_000_000;

/// From this rate on, a rate is shown in billions of gas per second.
pub const GGAS: u128 = 1_000_000_000;

/// Whether `c` is one of `0-9`, `a-f`, `A-F`.
pub open spec fn is_hex_digit(c: char) -> bool {
    ||| '0' <= c <= '9'
    ||| 'a' <= c <= 'f'
    ||| 'A' <= c <= 'F'
}

/// The value of a hex digit, in either case.
pub open spec fn hex_digit_value(c: char) -> nat {
    if '0' <= c <= '9' {
        (c as u32 - '0' as u32) as nat
    } else if 'a' <= c <= 'f' {
        (c as u32 - 'a' as u32 + 10) as nat
    } else {
        (c as u32 - 'A' as u32 + 10) as nat
    }
}

/// Whether every character of `s` is a hex digit.
pub open spec fn all_hex_digits(s: Seq<char>) -> bool {
    forall|i: int| 0 <= i < s.len() ==> is_hex_digit(#[trigger] s[i])
}

/// The number that the hex digits `s` write, most significant digit first.
pub open spec fn hex_value(s: Seq<char>) -> nat
    decreases s.len(),
{
    if s.len() == 0 {
        0
    } else {
        16 * hex_value(s.drop_last()) + hex_digit_value(s.last())
    }
}

/// `s` without one leading `0x`, where it has one.
pub open spec fn without_prefix(s: Seq<char>) -> Seq<char> {
    if s.len() >= 2 && s[0] == '0' && s[1] == 'x' {
        s.skip(2)
    } else {
        s
    }
}

/// `s` without one leading `+`, where it has one.
pub open spec fn without_sign(s: Seq<char>) -> Seq<char> {
    if s.len() >= 1 && s[0] == '+' {
        s.skip(1)
    } else {
        s
    }
}

/// The digits of a gas figure: what follows the optional `0x` and the
/// optional `+`.
pub open spec fn gas_digits(s: Seq<char>) -> Seq<char> {
    without_sign(without_prefix(s))
}

/// Whether `s` is a well-formed gas figure: an optional `0x`, an optional
/// `+`, then at least one hex digit, the whole no larger than `u128::MAX`.
pub open spec fn is_gas_hex(s: Seq<char>) -> bool {
    &&& gas_digits(s).len() > 0
    &&& all_hex_digits(gas_digits(s))
    &&& hex_value(gas_digits(s)) <= u128::MAX
}

/// The amount of gas that a well-formed gas figure writes.
pub open spec fn gas_value(s: Seq<char>) -> nat {
    hex_value(gas_digits(s))
}

/// Whether `h` has the form `0x` followed by at least one hex digit.
pub open spec fn is_prefixed_hex(h: Seq<char>) -> bool {
    &&& h.len() >= 3
    &&& h[0] == '0'
    &&& h[1] == 'x'
    &&& all_hex_digits(h.skip(2))
}

/// The lower-case hex digit for `d`.
pub open spec fn hex_digit_char(d: nat) -> char {
    if d < 10 {
        digit_char(d)
    } else if d == 10 {
        'a'
    } else if d == 11 {
        'b'
    } else if d == 12 {
        'c'
    } else if d == 13 {
        'd'
    } else if d == 14 {
        'e'
    } else {
        'f'
    }
}

/// The hex digits of `n`: lower case, no leading zero but for zero itself.
pub open spec fn hex_digits(n: nat) -> Seq<char>
    decreases n,
{
    if n < 16 {
        seq![hex_digit_char(n)]
    } else {
        hex_digits(n / 16).push(hex_digit_char(n % 16))
    }
}

/// The canonical gas figure for `n`: `0x` and the hex digits of `n`.
pub open spec fn gas_hex(n: nat) -> Seq<char> {
    seq!['0', 'x'] + hex_digits(n)
}

/// The value of the hex digit `c`, or `None` where `c` is no hex digit.
fn hex_digit(c: char) -> (d: Option<u8>)
    ensures
        d is Some <==> is_hex_digit(c),
        d matches Some(v) ==> v == hex_digit_value(c) && v < 16,
{
    if '0' <= c && c <= '9' {
        Some((c as u32 - '0' as u32) as u8)
    } else if 'a' <= c && c <= 'f' {
        Some((c as u32 - 'a' as u32 + 10) as u8)
    } else if 'A' <= c && c <= 'F' {
        Some((c as u32 - 'A' as u32 + 10) as u8)
    } else {
        None
    }
}

/// A number written with more digits in front is no smaller than the number
/// that its first `k` digits write.
proof fn lemma_hex_value_grows(s: Seq<char>, k: int)
    requires
        0 <= k <= s.len(),
    ensures
        hex_value(s.take(k)) <= hex_value(s),
    decreases s.len() - k,
{
    if k == s.len() {
        assert(s.take(k) == s);
    } else {
        lemma_hex_value_grows(s, k + 1);
        assert(s.take(k + 1).drop_last() == s.take(k));
    }
}

/// Reads a gas figure: `Some` with its value where `s` is well formed, and
/// `None` where it is not.
pub fn checked_parse_gas_used(gas_used_hex_str: &str) -> (gas: Option<u128>)
    ensures
        gas is Some <==> is_gas_hex(gas_used_hex_str@),
        gas matches Some(v) ==> v == gas_value(gas_used_hex_str@),
{
    let chars = chars_of(gas_used_hex_str);
    let mut start: usize = 0;
    if chars.len() >= 2 && chars[0] == '0' && chars[1] == 'x' {
        start = 2;
    }
    if chars.len() > start && chars[start] == '+' {
        start = start + 1;
    }
    let ghost digits = gas_digits(chars@);
    assert(digits == chars@.skip(start as int));
    if start == chars.len() {
        return None;
    }
    let mut value: u128 = 0;
    let mut i: usize = start;
    while i < chars.len()
        invariant
            start <= i <= chars.len(),
            chars@ == gas_used_hex_str@,
            digits == gas_digits(chars@),
            digits == chars@.skip(start as int),
            all_hex_digits(digits.take(i - start)),
            value == hex_value(digits.take(i - start)),
        decreases chars.len() - i,
    {
        let ghost seen = digits.take(i - start);
        let ghost next = digits.take(i - start + 1);
        proof {
            assert(next.drop_last() == seen);
            assert(next.last() == chars@[i as int]);
            assert(hex_value(next) == 16 * hex_value(seen) + hex_digit_value(next.last()));
            lemma_hex_value_grows(digits, i - start + 1);
        }
        let d = match hex_digit(chars[i]) {
            Some(d) => d,
            None => {
                assert(!is_hex_digit(digits[i - start]));
                return None;
            },
        };
        let shifted = match value.checked_mul(16) {
            Some(v) => v,
            None => {
                return None;
            },
        };
        value = match shifted.checked_add(d as u128) {
            Some(v) => v,
            None => {
                return None;
            },
        };
        i = i + 1;
        proof {
            assert forall|j: int| 0 <= j < next.len() implies is_hex_digit(#[trigger] next[j]) by {
                if j < seen.len() {
                    assert(next[j] == seen[j]);
                }
            }
        }
    }
    assert(digits.take(i - start) == digits);
    Some(value)
}

/// Reads a well-formed gas figure.
pub fn parse_gas_used(gas_used_hex_str: &str) -> (gas: u128)
    requires
        is_gas_hex(gas_used_hex_str@),
    ensures
        gas == gas_value(gas_used_hex_str@),
{
    match checked_parse_gas_used(gas_used_hex_str) {
        Some(gas) => gas,
        None => vstd::pervasive::unreached(),
    }
}

/// The one-character text of a hex digit.
fn hex_digit_text(d: u8) -> (t: &'static str)
    requires
        d < 16,
    ensures
        t@ == seq![hex_digit_char(d as nat)],
{
    proof {
        reveal_strlit("0");
        reveal_strlit("1");
        reveal_strlit("2");
        reveal_strlit("3");
        reveal_strlit("4");
        reveal_strlit("5");
        reveal_strlit("6");
        reveal_strlit("7");
        reveal_strlit("8");
        reveal_strlit("9");
        reveal_strlit("a");
        reveal_strlit("b");
        reveal_strlit("c");
        reveal_strlit("d");
        reveal_strlit("e");
        reveal_strlit("f");
    }
    if d == 0 {
        "0"
    } else if d == 1 {
        "1"
    } else if d == 2 {
        "2"
    } else if d == 3 {
        "3"
    } else if d == 4 {
        "4"
    } else if d == 5 {
        "5"
    } else if d == 6 {
        "6"
    } else if d == 7 {
        "7"
    } else if d == 8 {
        "8"
    } else if d == 9 {
        "9"
    } else if d == 10 {
        "a"
    } else if d == 11 {
        "b"
    } else if d == 12 {
        "c"
    } else if d == 13 {
        "d"
    } else if d == 14 {
        "e"
    } else {
        "f"
    }
}

/// Appends the hex digits of `n` to `out`.
fn push_hex(out: &mut String, n: u128)
    ensures
        final(out)@ == old(out)@ + hex_digits(n as nat),
    decreases n,
{
    if n >= 16 {
        push_hex(out, n / 16);
    }
    let d: u8 = (n % 16) as u8;
    out.append(hex_digit_text(d));
}

/// Writes an amount of gas as its canonical gas figure.
pub fn format_gas_used(gas: u128) -> (hex: String)
    ensures
        hex@ == gas_hex(gas as nat),
{
    proof {
        reveal_strlit("0x");
    }
    let mut hex = String::from_str("0x");
    push_hex(&mut hex, gas);
    hex
}

/// The hex digits of a number are hex digits, and they write that number.
pub proof fn lemma_hex_digits_value(n: nat)
    ensures
        hex_digits(n).len() > 0,
        all_hex_digits(hex_digits(n)),
        hex_value(hex_digits(n)) == n,
    decreases n,
{
    if n < 16 {
        let s = hex_digits(n);
        assert(s.drop_last().len() == 0);
        assert(hex_value(s) == 16 * hex_value(s.drop_last()) + hex_digit_value(s.last()));
    } else {
        lemma_hex_digits_value(n / 16);
        let front = hex_digits(n / 16);
        let s = hex_digits(n);
        assert(s == front.push(hex_digit_char(n % 16)));
        assert(s.drop_last() == front);
        assert(hex_value(s) == 16 * hex_value(s.drop_last()) + hex_digit_value(s.last()));
        assert forall|i: int| 0 <= i < s.len() implies is_hex_digit(#[trigger] s[i]) by {
            if i < front.len() {
                assert(s[i] == front[i]);
            }
        }
    }
}

/// Every amount of gas is read back from its canonical gas figure.
pub proof fn lemma_format_then_parse(gas: u128)
    ensures
        is_prefixed_hex(gas_hex(gas as nat)),
        is_gas_hex(gas_hex(gas as nat)),
        gas_value(gas_hex(gas as nat)) == gas,
{
    let n = gas as nat;
    lemma_hex_digits_value(n);
    let h = gas_hex(n);
    assert(h.skip(2) == hex_digits(n));
    assert(is_hex_digit(hex_digits(n)[0]));
    assert(gas_digits(h) == hex_digits(n));
}

/// A gas figure of the form `0x` and hex digits, no larger than `u128::MAX`,
/// has the same value as the canonical gas figure of its value.
pub proof fn lemma_parse_round_trip(h: Seq<char>)
    requires
        is_prefixed_hex(h),
        hex_value(h.skip(2)) <= u128::MAX,
    ensures
        is_gas_hex(h),
        is_gas_hex(gas_hex(gas_value(h))),
        gas_value(gas_hex(gas_value(h))) == gas_value(h),
{
    assert(is_hex_digit(h.skip(2)[0]));
    assert(gas_digits(h) == h.skip(2));
    lemma_format_then_parse(gas_value(h) as u128);
}

/// The product `gas * 1_000_000`, held at `u128::MAX` where it would pass it.
pub open spec fn scaled_gas(gas: nat) -> nat {
    if gas * MICROS_PER_SECOND > u128::MAX {
        u128::MAX as nat
    } else {
        gas * MICROS_PER_SECOND as nat
    }
}

/// Gas per second for `gas` spent in `micros` microseconds: the saturated
/// product divided by the duration, and zero for a duration of zero.
pub open spec fn gas_per_second(gas: nat, micros: nat) -> nat {
    if micros == 0 {
        0
    } else {
        scaled_gas(gas) / micros
    }
}

/// Computes the throughput in gas per second from the gas used and the time
/// taken in microseconds.
pub fn compute_gas_per_second(gas_used: u128, time_ms: u128) -> (rate: u128)
    ensures
        rate == gas_per_second(gas_used as nat, time_ms as nat),
        time_ms == 0 ==> rate == 0,
        gas_used == 0 ==> rate == 0,
{
    if time_ms == 0 {
        return 0;
    }
    match gas_used.checked_mul(MICROS_PER_SECOND) {
        Some(scaled) => scaled / time_ms,
        None => u128::MAX / time_ms,
    }
}

/// Converts a rate in gas per second to whole millions of gas per second.
pub fn gas_per_second_to_mgas_per_second(gps: u128) -> (mgps: u128)
    ensures
        mgps == gps / MGAS,
{
    gps / MGAS
}

/// A rate in hundredths of `unit`, rounded to the nearest hundredth, a half
/// upwards.
pub open spec fn hundredths(rate: nat, unit: nat) -> nat {
    (rate * 100 + unit / 2) / unit
}

/// A count of hundredths as text with two decimal places.
pub open spec fn two_places(h: nat) -> Seq<char> {
    decimal_digits(h / 100) + seq!['.', digit_char(h % 100 / 10), digit_char(h % 10)]
}

/// The text of a rate: in Ggas/s with two decimal places from a billion on,
/// in Mgas/s with two decimal places from a million on, else in whole gas/s.
pub open spec fn gas_rate_text(rate: nat) -> Seq<char> {
    if rate >= GGAS {
        two_places(hundredths(rate, GGAS as nat)) + " Ggas/s"@
    } else if rate >= MGAS {
        two_places(hundredths(rate, MGAS as nat)) + " Mgas/s"@
    } else {
        decimal_digits(rate) + " gas/s"@
    }
}

/// The hundredths of `rate / unit` split into the whole part and the part
/// after the point.
proof fn lemma_hundredths_split(rate: nat, unit: nat)
    requires
        unit > 0,
    ensures
        hundredths(rate, unit) == (rate / unit) * 100 + hundredths(rate % unit, unit),
        hundredths(rate % unit, unit) <= 100,
{
    let q = rate / unit;
    let r = rate % unit;
    vstd::arithmetic::div_mod::lemma_fundamental_div_mod(rate as int, unit as int);
    assert((unit * q + r) * 100 + unit / 2 == (r * 100 + unit / 2) + (q * 100) * unit)
        by (nonlinear_arith);
    vstd::arithmetic::div_mod::lemma_hoist_over_denominator(
        (r * 100 + unit / 2) as int,
        (q * 100) as int,
        unit,
    );
    assert((r * 100 + unit / 2) / unit <= 100) by (nonlinear_arith)
        requires
            r < unit,
            unit > 0,
    ;
}

/// Appends `rate / unit` with two decimal places to `out`.
fn push_two_places(out: &mut String, rate: u128, unit: u128)
    requires
        MGAS <= unit <= GGAS,
        rate >= unit,
    ensures
        final(out)@ == old(out)@ + two_places(hundredths(rate as nat, unit as nat)),
{
    proof {
        lemma_hundredths_split(rate as nat, unit as nat);
        reveal_strlit(".");
    }
    let mut whole: u128 = rate / unit;
    let rest: u128 = rate % unit;
    let mut part: u128 = (rest * 100 + unit / 2) / unit;
    assert(whole < u128::MAX) by (nonlinear_arith)
        requires
            whole == rate / unit,
            unit >= 2,
    ;
    if part == 100 {
        whole = whole + 1;
        part = 0;
    }
    let ghost h = hundredths(rate as nat, unit as nat);
    assert(h == whole * 100 + part);
    assert(h / 100 == whole && h % 100 == part);
    push_decimal(out, whole);
    out.append(".");
    push_decimal(out, part / 10);
    push_decimal(out, part % 10);
    assert(decimal_digits((part / 10) as nat) == seq![digit_char((part / 10) as nat)]);
    assert(decimal_digits((part % 10) as nat) == seq![digit_char((part % 10) as nat)]);
    assert(final(out)@ == old(out)@ + two_places(h));
}

/// Writes a rate for display.
pub fn format_gas_rate(gas_per_second: u128) -> (text: String)
    ensures
        text@ == gas_rate_text(gas_per_second as nat),
{
    let mut text = String::new();
    if gas_per_second >= GGAS {
        push_two_places(&mut text, gas_per_second, GGAS);
        text.append(" Ggas/s");
    } else if gas_per_second >= MGAS {
        push_two_places(&mut text, gas_per_second, MGAS);
        text.append(" Mgas/s");
    } else {
        push_decimal(&mut text, gas_per_second);
        text.append(" gas/s");
    }
    text
}

} // verus!
