//! Verified decimal formatting for the dashboard's cells and footer.
//!
//! Latency cells show hundredths of a millisecond computed from whole
//! microseconds, and the footer shows a sample count scaled to one decimal
//! with a magnitude suffix; every produced character sequence is pinned
//! down exactly by the spec functions here.

use vstd::prelude::*;

verus! {

use vstd::arithmetic::div_mod::lemma_div_is_strictly_smaller;
use vstd::arithmetic::div_mod::lemma_multiply_divide_lt;
use vstd::string::StringExecFns;

/// `10^k`.
pub open spec fn pow10(k: nat) -> nat
    decreases k,
{
    if k == 0 {
        1
    } else {
        10 * pow10((k - 1) as nat)
    }
}

/// A number below `10^k` has at most `k` decimal digits.
proof fn lemma_dec_digits_len(n: nat, k: nat)
    requires
        n < pow10(k),
        1 <= k,
    ensures
        dec_digits(n).len() <= k,
    decreases k,
{
    if n >= 10 {
        assert(pow10(k) == 10 * pow10((k - 1) as nat));
        if k == 1 {
            assert(pow10(1nat) == 10) by {
                reveal_with_fuel(pow10, 2);
            }
        }
        lemma_multiply_divide_lt(n as int, 10, pow10((k - 1) as nat) as int);
        lemma_dec_digits_len(n / 10, (k - 1) as nat);
    }
}

/// Every `u64` has at most twenty decimal digits.
proof fn lemma_u64_digits(n: u64)
    ensures
        dec_digits(n as nat).len() <= 20,
{
    assert(pow10(20) == 100_000_000_000_000_000_000) by {
        reveal_with_fuel(pow10, 21);
    }
    lemma_dec_digits_len(n as nat, 20);
}

/// The decimal digit character for `d`.
pub open spec fn digit_char(d: int) -> char {
    if d == 0 {
        '0'
    } else if d == 1 {
        '1'
    } else if d == 2 {
        '2'
    } else if d == 3 {
        '3'
    } else if d == 4 {
        '4'
    } else if d == 5 {
        '5'
    } else if d == 6 {
        '6'
    } else if d == 7 {
        '7'
    } else if d == 8 {
        '8'
    } else {
        '9'
    }
}

/// The decimal representation of `n`, most significant digit first, with
/// no leading zero except for zero itself.
pub open spec fn dec_digits(n: nat) -> Seq<char>
    decreases n,
{
    if n < 10 {
        seq![digit_char(n as int)]
    } else {
        dec_digits(n / 10).push(digit_char((n % 10) as int))
    }
}

/// `n` spaces.
pub open spec fn spaces(n: int) -> Seq<char>
    decreases n,
{
    if n <= 0 {
        Seq::empty()
    } else {
        spaces(n - 1).push(' ')
    }
}

/// Microseconds rounded to the nearest hundredth of a millisecond.
pub open spec fn centi_ms_of(v: nat) -> nat {
    v / 10 + (if v % 10 >= 5 {
        1nat
    } else {
        0nat
    })
}

/// The unpadded text of a latency: milliseconds, a point, two digits of
/// hundredths.
pub open spec fn latency_digits(v: nat) -> Seq<char> {
    let c = centi_ms_of(v);
    let fr = c % 100;
    dec_digits(c / 100) + seq!['.', digit_char((fr / 10) as int), digit_char((fr % 10) as int)]
}

/// A latency cell: the number right-aligned to nine columns followed by
/// `ms`, or a right-aligned `--` when no value exists.
pub open spec fn latency_text(value: Option<u64>) -> Seq<char> {
    match value {
        Option::None => seq![' ', ' ', ' ', ' ', ' ', ' ', ' ', '-', '-'],
        Option::Some(v) => {
            let digits = latency_digits(v as nat);
            spaces(9 - digits.len()) + digits + seq!['m', 's']
        },
    }
}

/// `v / t` in tenths, rounded half up.
pub open spec fn scaled_tenths(v: nat, t: nat) -> nat {
    (20 * v + t) / (2 * t)
}

/// A value scaled by `t`, shown with one decimal.
pub open spec fn scaled_text(v: nat, t: nat) -> Seq<char> {
    let s = scaled_tenths(v, t);
    dec_digits(s / 10) + seq!['.', digit_char((s % 10) as int)]
}

/// The footer's sample count: scaled to one decimal with the largest
/// fitting magnitude suffix, or the plain number below one thousand.
pub open spec fn sample_count_text(v: nat) -> Seq<char> {
    if v >= 1_000_000_000_000 {
        scaled_text(v, 1_000_000_000_000).push('T')
    } else if v >= 1_000_000_000 {
        scaled_text(v, 1_000_000_000).push('B')
    } else if v >= 1_000_000 {
        scaled_text(v, 1_000_000).push('M')
    } else if v >= 1_000 {
        scaled_text(v, 1_000).push('K')
    } else {
        dec_digits(v)
    }
}

/// Appends one decimal digit.
fn append_digit(s: &mut String, d: u64)
    requires
        d < 10,
    ensures
        final(s)@ == old(s)@ + seq![digit_char(d as int)],
{
    proof {
        reveal_strlit("0");
        reveal_strlit("1");
        reveal_strlit("2");
        reveal_strlit("3");
        reveal_strlit("4");
        reveal_strlit("5");
        reveal_strlit("6");
        reveal_strlit("7");
        reveal_strlit("8");
        reveal_strlit("9");
    }
    let ghost s0 = s@;
    match d {
        0 => s.append("0"),
        1 => s.append("1"),
        2 => s.append("2"),
        3 => s.append("3"),
        4 => s.append("4"),
        5 => s.append("5"),
        6 => s.append("6"),
        7 => s.append("7"),
        8 => s.append("8"),
        _ => s.append("9"),
    }
    proof {
        assert(s@ =~= s0 + seq![digit_char(d as int)]);
    }
}

/// Appends the decimal representation of `n`.
fn append_decimal(s: &mut String, n: u64)
    ensures
        final(s)@ == old(s)@ + dec_digits(n as nat),
    decreases n,
{
    let ghost s0 = s@;
    if n >= 10 {
        proof {
            lemma_div_is_strictly_smaller(n as int, 10);
        }
        append_decimal(s, n / 10);
        append_digit(s, n % 10);
        proof {
            assert(s@ =~= s0 + dec_digits(n as nat));
        }
    } else {
        append_digit(s, n);
    }
}

/// Number of decimal digits in `value`.
pub fn digit_count(value: u64) -> (r: usize)
    ensures
        r == dec_digits(value as nat).len(),
        r <= 20,
{
    proof {
        lemma_u64_digits(value);
    }
    let mut x = value;
    let mut count: usize = 1;
    while x >= 10
        invariant
            count >= 1,
            count + dec_digits(x as nat).len() == 1 + dec_digits(value as nat).len(),
            dec_digits(value as nat).len() <= 20,
        decreases x,
    {
        proof {
            lemma_div_is_strictly_smaller(x as int, 10);
        }
        x = x / 10;
        count = count + 1;
    }
    count
}

/// Renders one latency cell; the layout is exactly [`latency_text`].
pub fn format_latency(value: Option<u64>) -> (r: String)
    ensures
        r@ == latency_text(value),
{
    match value {
        Option::None => {
            proof {
                reveal_strlit("       --");
            }
            let r = String::from_str("       --");
            proof {
                assert(r@ =~= latency_text(value));
            }
            r
        },
        Option::Some(v) => {
            let c = v / 10 + (if v % 10 >= 5 {
                1
            } else {
                0
            });
            let ms = c / 100;
            let fr = c % 100;
            let dlen = digit_count(ms);
            let mut s = String::new();
            let mut pad: usize = 0;
            let width = dlen + 3;
            proof {
                reveal_strlit(" ");
                assert(s@ =~= spaces(0));
            }
            while pad + width < 9
                invariant
                    width == dec_digits(ms as nat).len() + 3,
                    pad + width <= 9 || pad == 0,
                    s@ == spaces(pad as int),
                decreases 9 - pad - width,
            {
                proof {
                    reveal_strlit(" ");
                }
                s.append(" ");
                pad = pad + 1;
                proof {
                    assert(s@ =~= spaces(pad as int));
                }
            }
            proof {
                assert(s@ == spaces(9 - (dec_digits(ms as nat).len() + 3)));
            }
            append_decimal(&mut s, ms);
            proof {
                reveal_strlit(".");
            }
            s.append(".");
            append_digit(&mut s, fr / 10);
            append_digit(&mut s, fr % 10);
            proof {
                reveal_strlit("ms");
            }
            s.append("ms");
            proof {
                assert(s@ =~= latency_text(value));
            }
            s
        },
    }
}

/// Renders the footer's sample count; the text is exactly
/// [`sample_count_text`].
pub fn format_sample_count(value: u64) -> (r: String)
    ensures
        r@ == sample_count_text(value as nat),
{
    if value >= 1_000_000_000_000 {
        format_scaled(value, 1_000_000_000_000, 'T')
    } else if value >= 1_000_000_000 {
        format_scaled(value, 1_000_000_000, 'B')
    } else if value >= 1_000_000 {
        format_scaled(value, 1_000_000, 'M')
    } else if value >= 1_000 {
        format_scaled(value, 1_000, 'K')
    } else {
        let mut s = String::new();
        append_decimal(&mut s, value);
        proof {
            assert(s@ =~= sample_count_text(value as nat));
        }
        s
    }
}

/// Renders `value / t` with one decimal and the magnitude suffix.
fn format_scaled(value: u64, t: u64, suffix: char) -> (r: String)
    requires
        1_000 <= t,
        suffix == 'T' || suffix == 'B' || suffix == 'M' || suffix == 'K',
    ensures
        r@ == scaled_text(value as nat, t as nat).push(suffix),
{
    let num: u128 = 20 * (value as u128) + (t as u128);
    let den: u128 = 2 * (t as u128);
    let q = num / den;
    proof {
        assert((num as int) < (den as int) * 0x1_0000_0000_0000_0000) by (nonlinear_arith)
            requires
                num == 20 * (value as int) + t,
                den == 2 * t,
                value < 0x1_0000_0000_0000_0000,
                1_000 <= t,
        ;
        lemma_multiply_divide_lt(num as int, den as int, 0x1_0000_0000_0000_0000);
    }
    let scaled = q as u64;
    let mut s = String::new();
    append_decimal(&mut s, scaled / 10);
    proof {
        reveal_strlit(".");
    }
    s.append(".");
    append_digit(&mut s, scaled % 10);
    push_suffix(&mut s, suffix);
    proof {
        assert(s@ =~= scaled_text(value as nat, t as nat).push(suffix));
    }
    s
}

/// Appends the magnitude suffix.
fn push_suffix(s: &mut String, suffix: char)
    requires
        suffix == 'T' || suffix == 'B' || suffix == 'M' || suffix == 'K',
    ensures
        final(s)@ == old(s)@.push(suffix),
{
    proof {
        reveal_strlit("T");
        reveal_strlit("B");
        reveal_strlit("M");
        reveal_strlit("K");
    }
    let ghost s0 = s@;
    if suffix == 'T' {
        s.append("T");
    } else if suffix == 'B' {
        s.append("B");
    } else if suffix == 'M' {
        s.append("M");
    } else {
        s.append("K");
    }
    proof {
        assert(s@ =~= s0.push(suffix));
    }
}

} // verus!
