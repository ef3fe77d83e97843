//! Numbers as text: decimal and hexadecimal numerals, and fixed-point labels.

use vstd::prelude::*;

use crate::text::chars_of;

verus! {

// ---------------------------------------------------------------------------
// Numerals
// ---------------------------------------------------------------------------

/// The decimal digit for a value below ten.
pub open spec fn digit_char(d: nat) -> char {
    (48 + d) as char
}

/// The decimal numeral of a number, without leading zeros.
pub open spec fn decimal_text(n: nat) -> Seq<char>
    decreases n,
{
    if n < 10 {
        seq![digit_char(n)]
    } else {
        decimal_text(n / 10).push(digit_char(n % 10))
    }
}

/// The decimal numeral of a signed number.
pub open spec fn signed_text(n: int) -> Seq<char> {
    if n < 0 {
        seq!['-'] + decimal_text((-n) as nat)
    } else {
        decimal_text(n as nat)
    }
}

/// The lower-case hexadecimal digit for a value below sixteen.
pub open spec fn hex_char(d: nat) -> char {
    if d < 10 {
        (48 + d) as char
    } else {
        (87 + d) as char
    }
}

/// The lower-case hexadecimal numeral of a number, without leading zeros.
pub open spec fn hex_text(n: nat) -> Seq<char>
    decreases n,
{
    if n < 16 {
        seq![hex_char(n)]
    } else {
        hex_text(n / 16).push(hex_char(n % 16))
    }
}

/// Two hexadecimal digits for each byte.
pub open spec fn hex_bytes(bytes: Seq<u8>) -> Seq<char>
    decreases bytes.len(),
{
    if bytes.len() == 0 {
        seq![]
    } else {
        hex_bytes(bytes.drop_last()).push(hex_char((bytes.last() / 16) as nat)).push(
            hex_char((bytes.last() % 16) as nat),
        )
    }
}

/// `true` or `false`.
pub open spec fn flag_text(value: bool) -> Seq<char> {
    if value {
        "true"@
    } else {
        "false"@
    }
}

fn digit(d: u8) -> (r: char)
    requires
        d < 10,
    ensures
        r == digit_char(d as nat),
{
    (48 + d) as char
}

fn hex_digit(d: u8) -> (r: char)
    requires
        d < 16,
    ensures
        r == hex_char(d as nat),
{
    if d < 10 {
        (48 + d) as char
    } else {
        (87 + d) as char
    }
}

fn decimal_wide(n: u128) -> (r: String)
    ensures
        r@ == decimal_text(n as nat),
    decreases n,
{
    if n < 10 {
        let mut out = String::new();
        out.push(digit(n as u8));
        assert(out@ =~= seq![digit_char(n as nat)]);
        out
    } else {
        let mut out = decimal_wide(n / 10);
        out.push(digit((n % 10) as u8));
        out
    }
}

/// The decimal numeral of a number.
pub fn decimal(n: u64) -> (r: String)
    ensures
        r@ == decimal_text(n as nat),
{
    decimal_wide(n as u128)
}

/// The decimal numeral of a size.
pub fn decimal_size(n: usize) -> (r: String)
    ensures
        r@ == decimal_text(n as nat),
{
    decimal_wide(n as u128)
}

/// The decimal numeral of a signed number.
pub fn decimal_signed(n: i64) -> (r: String)
    ensures
        r@ == signed_text(n as int),
{
    if n < 0 {
        let size: u64 = if n == i64::MIN {
            9223372036854775808u64
        } else {
            (-n) as u64
        };
        let mut out = String::new();
        out.push('-');
        assert(out@ =~= seq!['-']);
        out.concat(decimal(size).as_str())
    } else {
        decimal(n as u64)
    }
}

/// The lower-case hexadecimal numeral of a number.
pub fn hex(n: u64) -> (r: String)
    ensures
        r@ == hex_text(n as nat),
    decreases n,
{
    if n < 16 {
        let mut out = String::new();
        out.push(hex_digit(n as u8));
        assert(out@ =~= seq![hex_char(n as nat)]);
        out
    } else {
        let mut out = hex(n / 16);
        out.push(hex_digit((n % 16) as u8));
        out
    }
}

/// Two hexadecimal digits for each byte.
pub fn hex_of_bytes(bytes: &[u8]) -> (r: String)
    ensures
        r@ == hex_bytes(bytes@),
{
    let mut out = String::new();
    let mut i: usize = 0;
    while i < bytes.len()
        invariant
            i <= bytes@.len(),
            out@ == hex_bytes(bytes@.take(i as int)),
        decreases bytes@.len() - i,
    {
        let b: u8 = bytes[i];
        out.push(hex_digit(b / 16));
        out.push(hex_digit(b % 16));
        assert(bytes@.take(i + 1).drop_last() =~= bytes@.take(i as int));
        i = i + 1;
    }
    assert(bytes@.take(i as int) =~= bytes@);
    out
}

/// The numeral takes two digits for each byte.
pub proof fn lemma_hex_bytes_len(bytes: Seq<u8>)
    ensures
        hex_bytes(bytes).len() == 2 * bytes.len(),
    decreases bytes.len(),
{
    if bytes.len() > 0 {
        lemma_hex_bytes_len(bytes.drop_last());
    }
}

/// `true` or `false`.
pub fn flag(value: bool) -> (r: String)
    ensures
        r@ == flag_text(value),
{
    if value {
        "true".to_string()
    } else {
        "false".to_string()
    }
}

// ---------------------------------------------------------------------------
// Reading numerals
// ---------------------------------------------------------------------------

/// A decimal digit.
pub open spec fn is_digit(c: char) -> bool {
    '0' <= c <= '9'
}

/// A non-empty run of decimal digits and nothing else.
pub open spec fn is_numeral(s: Seq<char>) -> bool {
    s.len() > 0 && forall|i: int| 0 <= i < s.len() ==> is_digit(#[trigger] s[i])
}

/// The number that a run of decimal digits stands for.
pub open spec fn numeral_value(s: Seq<char>) -> nat
    decreases s.len(),
{
    if s.len() == 0 {
        0
    } else {
        10 * numeral_value(s.drop_last()) + ((s.last() as int - 48) as nat)
    }
}

/// What a text says as an unsigned number: digits behind an optional `+`,
/// with a value that `limit` still holds.
pub open spec fn read_unsigned(s: Seq<char>, limit: nat) -> Option<nat> {
    let digits = if s.len() > 0 && s[0] == '+' {
        s.skip(1)
    } else {
        s
    };
    if is_numeral(digits) && numeral_value(digits) <= limit {
        Some(numeral_value(digits))
    } else {
        None
    }
}

/// What a text says as a 64-bit signed number: digits behind an optional sign.
pub open spec fn read_signed(s: Seq<char>) -> Option<int> {
    let signed = s.len() > 0 && (s[0] == '+' || s[0] == '-');
    let digits = if signed {
        s.skip(1)
    } else {
        s
    };
    let size = numeral_value(digits) as int;
    let value = if s.len() > 0 && s[0] == '-' {
        -size
    } else {
        size
    };
    if is_numeral(digits) && i64::MIN <= value <= i64::MAX {
        Some(value)
    } else {
        None
    }
}

proof fn lemma_numeral_value_grows(s: Seq<char>, n: int)
    requires
        0 <= n <= s.len(),
    ensures
        numeral_value(s.take(n)) <= numeral_value(s),
    decreases s.len() - n,
{
    if n < s.len() {
        lemma_numeral_value_grows(s, n + 1);
        assert(s.take(n + 1).drop_last() =~= s.take(n));
    } else {
        assert(s.take(n) =~= s);
    }
}

/// The value of the digits from `from` on, where they are a numeral up to `limit`.
fn read_digits(x: &Vec<char>, from: usize, limit: u64) -> (r: Option<u64>)
    requires
        from <= x@.len(),
    ensures
        r is Some <==> is_numeral(x@.skip(from as int)) && numeral_value(x@.skip(from as int))
            <= limit,
        r matches Some(value) ==> value == numeral_value(x@.skip(from as int)),
{
    if from >= x.len() {
        return None;
    }
    let ghost digits = x@.skip(from as int);
    let mut i: usize = from;
    let mut value: u128 = 0;
    while i < x.len()
        invariant
            from <= i <= x@.len(),
            digits == x@.skip(from as int),
            value == numeral_value(digits.take(i - from)),
            value <= limit,
            forall|k: int| 0 <= k < i - from ==> is_digit(#[trigger] digits[k]),
        decreases x@.len() - i,
    {
        let c = x[i];
        assert(digits[i - from] == c);
        if !('0' <= c && c <= '9') {
            return None;
        }
        assert(digits.take(i - from + 1).drop_last() =~= digits.take(i - from));
        value = value * 10 + ((c as u8) - 48) as u128;
        i = i + 1;
        if value > limit as u128 {
            proof {
                lemma_numeral_value_grows(digits, i - from);
            }
            return None;
        }
    }
    assert(digits.take(i - from) =~= digits);
    Some(value as u64)
}

/// Reads an unsigned number.
pub fn parse_u64(s: &str) -> (r: Option<u64>)
    ensures
        r is Some <==> read_unsigned(s@, u64::MAX as nat) is Some,
        r matches Some(value) ==> read_unsigned(s@, u64::MAX as nat) == Some(value as nat),
{
    let x = chars_of(s);
    if x.len() > 0 && x[0] == '+' {
        read_digits(&x, 1, u64::MAX)
    } else {
        assert(x@.skip(0) =~= x@);
        read_digits(&x, 0, u64::MAX)
    }
}

/// Reads a size.
pub fn parse_usize(s: &str) -> (r: Option<usize>)
    ensures
        r is Some <==> read_unsigned(s@, usize::MAX as nat) is Some,
        r matches Some(value) ==> read_unsigned(s@, usize::MAX as nat) == Some(value as nat),
{
    let x = chars_of(s);
    let parsed: Option<u64> = if x.len() > 0 && x[0] == '+' {
        read_digits(&x, 1, usize::MAX as u64)
    } else {
        assert(x@.skip(0) =~= x@);
        read_digits(&x, 0, usize::MAX as u64)
    };
    match parsed {
        Some(value) => Some(value as usize),
        None => None,
    }
}

/// Reads a signed number.
pub fn parse_i64(s: &str) -> (r: Option<i64>)
    ensures
        r is Some <==> read_signed(s@) is Some,
        r matches Some(value) ==> read_signed(s@) == Some(value as int),
{
    let x = chars_of(s);
    if x.len() > 0 && x[0] == '-' {
        match read_digits(&x, 1, 9223372036854775808u64) {
            Some(size) => {
                if size == 9223372036854775808u64 {
                    Some(i64::MIN)
                } else {
                    Some(-(size as i64))
                }
            },
            None => None,
        }
    } else {
        let from: usize = if x.len() > 0 && x[0] == '+' {
            1
        } else {
            0
        };
        assert(x@.skip(0) =~= x@);
        match read_digits(&x, from, 9223372036854775807u64) {
            Some(size) => Some(size as i64),
            None => None,
        }
    }
}

/// The numeral of a number is one, and its value is the number.
pub proof fn lemma_decimal_reads(n: nat)
    ensures
        is_numeral(decimal_text(n)),
        numeral_value(decimal_text(n)) == n,
        decimal_text(n)[0] != '+' && decimal_text(n)[0] != '-',
    decreases n,
{
    let s = decimal_text(n);
    if n < 10 {
        assert(s.drop_last() =~= seq![]);
        assert(numeral_value(s.drop_last()) == 0);
    } else {
        lemma_decimal_reads(n / 10);
        assert(s.drop_last() =~= decimal_text(n / 10));
        assert forall|i: int| 0 <= i < s.len() implies is_digit(#[trigger] s[i]) by {
            if i < s.len() - 1 {
                assert(s[i] == decimal_text(n / 10)[i]);
            }
        }
        assert(s[0] == decimal_text(n / 10)[0]);
    }
}

/// Reading the numeral of a number gives the number back.
pub proof fn decimal_round_trip(n: u64)
    ensures
        read_unsigned(decimal_text(n as nat), u64::MAX as nat) == Some(n as nat),
{
    lemma_decimal_reads(n as nat);
}

/// Reading the numeral of a signed number gives the number back.
pub proof fn signed_round_trip(n: i64)
    ensures
        read_signed(signed_text(n as int)) == Some(n as int),
{
    if n < 0 {
        lemma_decimal_reads((-n) as nat);
        assert(signed_text(n as int).skip(1) =~= decimal_text((-n) as nat));
    } else {
        lemma_decimal_reads(n as nat);
    }
}

/// Different numbers have different numerals.
pub proof fn decimal_is_injective(a: nat, b: nat)
    requires
        decimal_text(a) == decimal_text(b),
    ensures
        a == b,
{
    lemma_decimal_reads(a);
    lemma_decimal_reads(b);
}

// ---------------------------------------------------------------------------
// Fixed-point labels
// ---------------------------------------------------------------------------
//
// A label shows a count divided by a unit, rounded to one or two places. The
// division is the one of a double: both the count and the quotient round to
// 53 significant bits, and the exact quotient is what the places round.

/// The quotient rounded to the nearest integer, a tie to the even one.
pub open spec fn nearest(num: int, den: int) -> int {
    let q = num / den;
    let r = num % den;
    if 2 * r < den || (2 * r == den && q % 2 == 0) {
        q
    } else {
        q + 1
    }
}

/// The position of the highest bit that is set.
pub open spec fn top_bit(n: nat) -> nat
    decreases n,
{
    if n < 2 {
        0
    } else {
        1 + top_bit(n / 2)
    }
}

/// Two to the power of `k`.
pub open spec fn two_pow(k: nat) -> nat
    decreases k,
{
    if k == 0 {
        1
    } else {
        2 * two_pow((k - 1) as nat)
    }
}

/// The double nearest to a count.
pub open spec fn double_of(n: nat) -> int {
    if top_bit(n) <= 52 {
        n as int
    } else {
        let step = two_pow((top_bit(n) - 52) as nat) as int;
        nearest(n as int, step) * step
    }
}

/// The steps of `1 / scale` in the double `n / unit`, rounded.
pub open spec fn quotient_steps(n: nat, unit: nat, scale: nat) -> int {
    let count = double_of(n);
    let exponent = top_bit((count / (unit as int)) as nat);
    if exponent <= 52 {
        let grid = two_pow((52 - exponent) as nat) as int;
        nearest(scale * nearest(count * grid, unit as int), grid)
    } else {
        let grid = two_pow((exponent - 52) as nat) as int;
        scale * nearest(count, unit * grid) * grid
    }
}

/// A count over a unit with one place behind the point.
pub open spec fn one_place_text(n: nat, unit: nat) -> Seq<char> {
    let steps = quotient_steps(n, unit, 10);
    decimal_text((steps / 10) as nat) + "."@ + seq![digit_char((steps % 10) as nat)]
}

/// A count over a unit with two places behind the point.
pub open spec fn two_place_text(n: nat, unit: nat) -> Seq<char> {
    let steps = quotient_steps(n, unit, 100);
    decimal_text((steps / 100) as nat) + "."@ + seq![
        digit_char((steps / 10 % 10) as nat),
        digit_char((steps % 10) as nat),
    ]
}

proof fn lemma_top_bit_below(n: nat, k: nat)
    requires
        n < two_pow(k),
        k > 0,
    ensures
        top_bit(n) < k,
    decreases k,
{
    if n >= 2 {
        lemma_top_bit_below(n / 2, (k - 1) as nat);
    }
}

proof fn lemma_two_pow_monotone(j: nat, k: nat)
    requires
        j <= k,
    ensures
        0 < two_pow(j) <= two_pow(k),
    decreases k,
{
    if j < k {
        lemma_two_pow_monotone(j, (k - 1) as nat);
    } else if j > 0 {
        lemma_two_pow_monotone((j - 1) as nat, (j - 1) as nat);
    }
}

proof fn lemma_two_pow_values()
    ensures
        two_pow(13) == 0x2000,
        two_pow(14) == 0x4000,
        two_pow(52) == 0x10_0000_0000_0000,
        two_pow(64) == 0x1_0000_0000_0000_0000,
        two_pow(66) == 0x4_0000_0000_0000_0000,
{
    reveal_with_fuel(two_pow, 67);
}

proof fn lemma_nearest_bounds(num: int, den: int)
    requires
        num >= 0,
        den > 0,
    ensures
        0 <= nearest(num, den) <= num + 1,
        nearest(num, den) * den <= num + den,
{
    let q = num / den;
    assert(0 <= q <= num && q * den <= num) by (nonlinear_arith)
        requires
            q == num / den,
            num >= 0,
            den > 0,
    ;
    assert((q + 1) * den == q * den + den) by (nonlinear_arith);
}

fn nearest_of(num: u128, den: u128) -> (r: u128)
    requires
        den > 0,
        num < 0x8000_0000_0000_0000_0000_0000_0000_0000,
    ensures
        r == nearest(num as int, den as int),
{
    let q: u128 = num / den;
    let r: u128 = num % den;
    proof {
        lemma_nearest_bounds(num as int, den as int);
    }
    assert(q <= num) by (nonlinear_arith)
        requires
            q == num / den,
            den > 0,
    ;
    if r < den - r || (r == den - r && q % 2 == 0) {
        q
    } else {
        q + 1
    }
}

fn log2_of(n: u128) -> (r: u32)
    requires
        n < 0x4_0000_0000_0000_0000,
    ensures
        r == top_bit(n as nat),
        r < 66,
    decreases n,
{
    proof {
        lemma_two_pow_values();
        lemma_top_bit_below(n as nat, 66);
    }
    if n < 2 {
        0
    } else {
        log2_of(n / 2) + 1
    }
}

fn power_of_two(k: u32) -> (r: u128)
    requires
        k <= 52,
    ensures
        r == two_pow(k as nat),
        0 < r <= 0x10_0000_0000_0000,
    decreases k,
{
    proof {
        lemma_two_pow_values();
        lemma_two_pow_monotone(k as nat, 52);
    }
    if k == 0 {
        1
    } else {
        2 * power_of_two(k - 1)
    }
}

fn double_count(n: u64) -> (r: u128)
    ensures
        r == double_of(n as nat),
        r < 0x2_0000_0000_0000_0000,
{
    let top: u32 = log2_of(n as u128);
    if top <= 52 {
        n as u128
    } else {
        proof {
            lemma_two_pow_values();
            lemma_top_bit_below(n as nat, 64);
            lemma_two_pow_monotone((top - 52) as nat, 13);
        }
        let step: u128 = power_of_two(top - 52);
        let count: u128 = nearest_of(n as u128, step);
        proof {
            lemma_nearest_bounds(n as int, step as int);
        }
        count * step
    }
}

/// The steps of `1 / scale` in the double `n / unit`, rounded.
fn rounded_steps(n: u64, unit: u64, scale: u64) -> (r: u128)
    requires
        0 < unit <= n,
        scale <= 100,
    ensures
        r == quotient_steps(n as nat, unit as nat, scale as nat),
{
    let count: u128 = double_count(n);
    let wide: u128 = unit as u128;
    let whole: u128 = count / wide;
    assert(whole <= count) by (nonlinear_arith)
        requires
            whole == count / wide,
            wide > 0,
    ;
    let exponent: u32 = log2_of(whole);
    if exponent <= 52 {
        let grid: u128 = power_of_two(52 - exponent);
        assert(0 <= count * grid < 0x2000_0000_0000_0000_0000_0000_0000_00) by (nonlinear_arith)
            requires
                0 <= count < 0x2_0000_0000_0000_0000,
                0 < grid <= 0x10_0000_0000_0000,
        ;
        let mantissa: u128 = nearest_of(count * grid, wide);
        proof {
            lemma_nearest_bounds(count * grid, wide as int);
        }
        assert(0 <= scale * mantissa < 0x8000_0000_0000_0000_0000_0000_0000_0000)
            by (nonlinear_arith)
            requires
                0 <= scale <= 100,
                0 <= mantissa <= 0x2000_0000_0000_0000_0000_0000_0000_00,
        ;
        nearest_of(scale as u128 * mantissa, grid)
    } else {
        let grid: u128 = power_of_two(exponent - 52);
        proof {
            lemma_two_pow_values();
            lemma_two_pow_monotone((exponent - 52) as nat, 14);
        }
        assert(0 < wide * grid < 0x1_0000_0000_0000_0000_0000_0000) by (nonlinear_arith)
            requires
                0 < wide < 0x1_0000_0000_0000_0000,
                0 < grid <= 0x4000,
        ;
        let mantissa: u128 = nearest_of(count, wide * grid);
        proof {
            lemma_nearest_bounds(count as int, wide * grid);
        }
        assert(0 <= scale * mantissa <= 100 * 0x2_0000_0000_0000_0000) by (nonlinear_arith)
            requires
                0 <= scale <= 100,
                0 <= mantissa <= 0x2_0000_0000_0000_0000,
        ;
        let scaled: u128 = scale as u128 * mantissa;
        assert(0 <= scaled * grid < 0x8000_0000_0000_0000_0000_0000_0000_0000)
            by (nonlinear_arith)
            requires
                0 <= scaled <= 100 * 0x2_0000_0000_0000_0000,
                0 < grid <= 0x4000,
        ;
        scaled * grid
    }
}

/// A count over a unit with one place behind the point.
pub fn one_place(n: u64, unit: u64) -> (r: String)
    requires
        0 < unit <= n,
    ensures
        r@ == one_place_text(n as nat, unit as nat),
{
    let steps: u128 = rounded_steps(n, unit, 10);
    let mut out = decimal_wide(steps / 10).concat(".");
    let ghost whole = out@;
    out.push(digit((steps % 10) as u8));
    assert(out@ =~= whole + seq![digit_char((steps % 10) as nat)]);
    out
}

/// A count over a unit with two places behind the point.
pub fn two_places(n: u64, unit: u64) -> (r: String)
    requires
        0 < unit <= n,
    ensures
        r@ == two_place_text(n as nat, unit as nat),
{
    let steps: u128 = rounded_steps(n, unit, 100);
    let mut out = decimal_wide(steps / 100).concat(".");
    let ghost whole = out@;
    out.push(digit((steps / 10 % 10) as u8));
    out.push(digit((steps % 10) as u8));
    assert(out@ =~= whole + seq![
        digit_char((steps / 10 % 10) as nat),
        digit_char((steps % 10) as nat),
    ]);
    out
}

// ---------------------------------------------------------------------------
// Laws
// ---------------------------------------------------------------------------

/// The digits of a decimal numeral: the last one counts the units, and those
/// before it are the numeral of the tens.
pub proof fn decimal_digits_count_by_tens(n: nat)
    ensures
        decimal_text(n).last() == "0123456789"@[(n % 10) as int],
        n < 10 ==> decimal_text(n).len() == 1,
        n >= 10 ==> decimal_text(n).drop_last() == decimal_text(n / 10),
{
    reveal_strlit("0123456789");
    if n >= 10 {
        assert(decimal_text(n).drop_last() =~= decimal_text(n / 10));
    }
}

/// The digits of a hexadecimal numeral: the last one counts the units, and
/// those before it are the numeral of the sixteens.
pub proof fn hex_digits_count_by_sixteens(n: nat)
    ensures
        hex_text(n).last() == "0123456789abcdef"@[(n % 16) as int],
        n < 16 ==> hex_text(n).len() == 1,
        n >= 16 ==> hex_text(n).drop_last() == hex_text(n / 16),
{
    reveal_strlit("0123456789abcdef");
    if n >= 16 {
        assert(hex_text(n).drop_last() =~= hex_text(n / 16));
    }
}

/// Each byte is told by two hexadecimal digits, the high half first, and the
/// bytes stand in their order.
pub proof fn hex_bytes_spell_each_byte(bytes: Seq<u8>, i: int)
    requires
        0 <= i < bytes.len(),
    ensures
        hex_bytes(bytes).len() == 2 * bytes.len(),
        hex_bytes(bytes)[2 * i] == "0123456789abcdef"@[(bytes[i] / 16) as int],
        hex_bytes(bytes)[2 * i + 1] == "0123456789abcdef"@[(bytes[i] % 16) as int],
    decreases bytes.len(),
{
    reveal_strlit("0123456789abcdef");
    lemma_hex_bytes_len(bytes);
    lemma_hex_bytes_len(bytes.drop_last());
    if i < bytes.len() - 1 {
        hex_bytes_spell_each_byte(bytes.drop_last(), i);
    }
}

/// A flag is told as `true` where it is set and as `false` where it is not.
pub proof fn flags_are_told_apart(value: bool)
    ensures
        flag_text(value) == "true"@ <==> value,
        flag_text(value) == "false"@ <==> !value,
{
    reveal_strlit("true");
    reveal_strlit("false");
    assert("true"@.len() == 4 && "false"@.len() == 5);
}

} // verus!
