//! Writing a number of bytes for people to read.
//!
//! The number is taken as a binary floating-point number with a significand
//! of 53 bits, divided by 1024 until it is below 1024, and written with two
//! decimals and the unit that belongs to the number of divisions.

use vstd::prelude::*;
use vstd::arithmetic::div_mod::lemma_multiply_divide_lt;
use vstd::arithmetic::power2::{
    lemma2_to64, lemma2_to64_rest, lemma_pow2_adds, lemma_pow2_pos, lemma_pow2_strictly_increases, lemma_pow2_unfold,
    pow2,
};
use vstd::string::StringExecFns;

verus! {

/// The largest number with 53 binary digits, and one.
pub open spec fn two_53() -> nat {
    0x20_0000_0000_0000
}

/// The quotient of `num` by `den`, rounded to the nearest whole number, and
/// to the even one of the two where it lies half way between them.
pub open spec fn round_half_even(num: nat, den: nat) -> nat {
    let q = num / den;
    let r = num % den;
    if 2 * r > den || (2 * r == den && q % 2 == 1) {
        q + 1
    } else {
        q
    }
}

/// The least power of two, from `unit` on and within `steps` doublings, by
/// which `n` divides to less than 53 binary digits.
pub open spec fn unit_from(n: nat, unit: nat, steps: nat) -> nat
    decreases steps,
{
    if steps == 0 || n / unit < two_53() {
        unit
    } else {
        unit_from(n, 2 * unit, (steps - 1) as nat)
    }
}

/// The number as a floating-point number holds it: the nearest one that has
/// 53 significant binary digits, and the even one of two that are equally
/// near.
pub open spec fn as_double(n: u64) -> nat {
    let unit = unit_from(n as nat, 1, 11);
    round_half_even(n as nat, unit) * unit
}

/// How often `m` is divided by 1024 until it is below 1024, from `done`
/// divisions on, `scale` being 1024 to the power of `done`.
pub open spec fn divisions_from(m: nat, scale: nat, done: nat) -> nat
    decreases 8 - done,
{
    if done >= 8 || m < 1024 * scale {
        done
    } else {
        divisions_from(m, 1024 * scale, done + 1)
    }
}

/// 1024 to the power of `k`.
pub open spec fn kilo_power(k: nat) -> nat
    decreases k,
{
    if k == 0 {
        1
    } else {
        1024 * kilo_power((k - 1) as nat)
    }
}

/// The unit for a number that was divided by 1024 `k` times.
pub open spec fn unit_name(k: nat) -> Seq<char> {
    if k == 0 {
        "B"@
    } else if k == 1 {
        "KB"@
    } else if k == 2 {
        "MB"@
    } else if k == 3 {
        "GB"@
    } else if k == 4 {
        "TB"@
    } else if k == 5 {
        "PB"@
    } else if k == 6 {
        "EB"@
    } else if k == 7 {
        "ZB"@
    } else {
        "YB"@
    }
}

/// The character of a decimal digit.
pub open spec fn digit_char(d: nat) -> char {
    if d == 0 {
        '0'
    } else if d == 1 {
        '1'
    } else if d == 2 {
        '2'
    } else if d == 3 {
        '3'
    } else if d == 4 {
        '4'
    } else if d == 5 {
        '5'
    } else if d == 6 {
        '6'
    } else if d == 7 {
        '7'
    } else if d == 8 {
        '8'
    } else {
        '9'
    }
}

/// The number in decimal digits, without leading zeros.
pub open spec fn decimal(n: nat) -> Seq<char>
    decreases n,
{
    if n < 10 {
        seq![digit_char(n)]
    } else {
        decimal(n / 10).push(digit_char(n % 10))
    }
}

/// A number of hundredths with two decimals and a unit: the whole part, a
/// point, two digits, a space and the unit.
pub open spec fn written(hundredths: nat, unit: Seq<char>) -> Seq<char> {
    decimal(hundredths / 100) + seq!['.', digit_char((hundredths / 10) % 10), digit_char(hundredths % 10), ' ']
        + unit
}

/// The number of bytes as people read it: with two decimals, in the largest
/// unit of which it has at least one, counting 1024 of a unit to the next.
pub open spec fn spec_bytes_to_string(bytes: u64) -> Seq<char> {
    let m = as_double(bytes);
    let k = divisions_from(m, 1, 0);
    written(round_half_even(100 * m, kilo_power(k)), unit_name(k))
}

/// The text of one decimal digit.
fn digit_text(d: u8) -> (s: &'static str)
    requires
        d < 10,
    ensures
        s@ == seq![digit_char(d as nat)],
{
    proof {
        reveal_strlit("0");
        reveal_strlit("1");
        reveal_strlit("2");
        reveal_strlit("3");
        reveal_strlit("4");
        reveal_strlit("5");
        reveal_strlit("6");
        reveal_strlit("7");
        reveal_strlit("8");
        reveal_strlit("9");
    }
    let s = if d == 0 {
        "0"
    } else if d == 1 {
        "1"
    } else if d == 2 {
        "2"
    } else if d == 3 {
        "3"
    } else if d == 4 {
        "4"
    } else if d == 5 {
        "5"
    } else if d == 6 {
        "6"
    } else if d == 7 {
        "7"
    } else if d == 8 {
        "8"
    } else {
        "9"
    };
    assert(s@.len() == 1);
    assert(s@ =~= seq![digit_char(d as nat)]);
    s
}

/// Writes a number in decimal digits at the end of a text.
fn push_decimal(text: &mut String, n: u128)
    ensures
        final(text)@ == old(text)@ + decimal(n as nat),
{
    let mut digits: Vec<u8> = Vec::new();
    let mut rest = n;
    while rest >= 10
        invariant
            forall|i: int| 0 <= i < digits@.len() ==> #[trigger] digits@[i] < 10,
            decimal(n as nat) == decimal(rest as nat) + Seq::new(
                digits@.len(),
                |i: int| digit_char(digits@[digits@.len() - 1 - i] as nat),
            ),
        decreases rest,
    {
        let ghost before = digits@;
        let ghost tail = Seq::new(before.len(), |i: int| digit_char(before[before.len() - 1 - i] as nat));
        digits.push((rest % 10) as u8);
        proof {
            let after = Seq::new(digits@.len(), |i: int| digit_char(digits@[digits@.len() - 1 - i] as nat));
            assert(after =~= seq![digit_char((rest % 10) as nat)] + tail);
            assert(decimal(rest as nat) == decimal((rest / 10) as nat).push(digit_char((rest % 10) as nat)));
            assert(decimal((rest / 10) as nat).push(digit_char((rest % 10) as nat)) + tail =~= decimal(
                (rest / 10) as nat,
            ) + after);
        }
        rest = rest / 10;
    }
    text.append(digit_text(rest as u8));
    let ghost lead = old(text)@ + decimal(rest as nat);
    let mut i: usize = digits.len();
    while i > 0
        invariant
            0 <= i <= digits@.len(),
            forall|j: int| 0 <= j < digits@.len() ==> #[trigger] digits@[j] < 10,
            lead == old(text)@ + decimal(rest as nat),
            text@ == lead + Seq::new(
                (digits@.len() - i) as nat,
                |j: int| digit_char(digits@[digits@.len() - 1 - j] as nat),
            ),
        decreases i,
    {
        i = i - 1;
        text.append(digit_text(digits[i]));
        assert(text@ =~= lead + Seq::new(
            (digits@.len() - i) as nat,
            |j: int| digit_char(digits@[digits@.len() - 1 - j] as nat),
        ));
    }
    assert(text@ =~= old(text)@ + decimal(n as nat));
}

/// The quotient of `num` by `den`, rounded to the nearest whole number, and
/// to the even one of two that are equally near.
fn rounded_quotient(num: u128, den: u128) -> (q: u128)
    requires
        den > 0,
        den <= 0x1_0000_0000_0000_0000_0000,
        num <= 0x1_0000_0000_0000_0000_0000,
    ensures
        q == round_half_even(num as nat, den as nat),
{
    let q = num / den;
    let r = num % den;
    if 2 * r > den || (2 * r == den && q % 2 == 1) {
        q + 1
    } else {
        q
    }
}

/// A number of 64 binary digits, rounded to a multiple of a power of two, is
/// at most two to the power of 64, because that is a multiple of the unit.
proof fn lemma_rounded_fits(n: nat, e: nat, q: nat)
    requires
        n < pow2(64),
        e <= 64,
        q <= n / pow2(e) + 1,
    ensures
        q * pow2(e) <= pow2(64),
{
    let unit = pow2(e) as int;
    let times = pow2((64 - e) as nat) as int;
    lemma_pow2_pos(e);
    lemma_pow2_adds(e, (64 - e) as nat);
    lemma_multiply_divide_lt(n as int, unit, times);
    assert(q * unit <= times * unit) by (nonlinear_arith)
        requires
            q <= times,
            unit >= 0,
    ;
    assert(times * unit == unit * times) by (nonlinear_arith);
}

/// The number as a floating-point number holds it.
fn to_double(bytes: u64) -> (m: u128)
    ensures
        m == as_double(bytes),
        m <= 0x1_0000_0000_0000_0000,
{
    let mut unit: u128 = 1;
    let mut steps: u32 = 11;
    let n = bytes as u128;
    proof {
        lemma2_to64();
        lemma2_to64_rest();
    }
    while steps > 0 && n / unit >= 0x20_0000_0000_0000
        invariant
            0 <= steps <= 11,
            n == bytes,
            unit == pow2((11 - steps) as nat),
            1 <= unit <= 2048,
            unit_from(n as nat, 1, 11) == unit_from(n as nat, unit as nat, steps as nat),
        decreases steps,
    {
        proof {
            lemma_pow2_unfold((12 - steps) as nat);
            if steps > 1 {
                lemma_pow2_strictly_increases((12 - steps) as nat, 11);
            }
            lemma2_to64();
        }
        unit = unit * 2;
        steps = steps - 1;
    }
    let q = rounded_quotient(n, unit);
    proof {
        lemma2_to64_rest();
        lemma_rounded_fits(n as nat, (11 - steps) as nat, q as nat);
    }
    q * unit
}

/// The text of the unit for a number that was divided by 1024 `k` times.
fn unit_text(k: usize) -> (s: &'static str)
    ensures
        s@ == unit_name(k as nat),
{
    if k == 0 {
        "B"
    } else if k == 1 {
        "KB"
    } else if k == 2 {
        "MB"
    } else if k == 3 {
        "GB"
    } else if k == 4 {
        "TB"
    } else if k == 5 {
        "PB"
    } else if k == 6 {
        "EB"
    } else if k == 7 {
        "ZB"
    } else {
        "YB"
    }
}

/// Writes a number of bytes for people to read: with two decimals, in the
/// largest unit of which it has at least one, counting 1024 of a unit to the
/// next. So 1536 bytes are `1.50 KB`.
pub fn bytes_to_string(bytes: u64) -> (text: String)
    ensures
        text@ == spec_bytes_to_string(bytes),
{
    let m = to_double(bytes);
    let mut k: usize = 0;
    let mut scale: u128 = 1;
    while k < 8 && m >= 1024 * scale
        invariant
            0 <= k <= 8,
            m <= 0x1_0000_0000_0000_0000,
            scale == kilo_power(k as nat),
            scale >= 1,
            k > 0 ==> scale <= m,
            divisions_from(m as nat, 1, 0) == divisions_from(m as nat, scale as nat, k as nat),
        decreases 8 - k,
    {
        scale = scale * 1024;
        k = k + 1;
        assert(kilo_power(k as nat) == 1024 * kilo_power((k - 1) as nat));
    }
    let hundredths = rounded_quotient(100 * m, scale);
    let mut text = String::new();
    push_decimal(&mut text, hundredths / 100);
    proof {
        reveal_strlit(".");
        reveal_strlit(" ");
    }
    text.append(".");
    text.append(digit_text(((hundredths / 10) % 10) as u8));
    text.append(digit_text((hundredths % 10) as u8));
    text.append(" ");
    text.append(unit_text(k));
    assert(text@ =~= written(hundredths as nat, unit_name(k as nat)));
    text
}

} // verus!
