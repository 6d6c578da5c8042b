//! String-building helpers: appending single characters and rendering
//! decimal numbers, with exact character-level specifications.

use vstd::prelude::*;

verus! {

/// Relies on String::push: appends exactly one character at the end.
#[verifier::external_body]
pub(crate) fn push_char(s: &mut String, c: char)
    ensures
        final(s)@ == old(s)@.push(c),
{
    s.push(c);
}

/// The decimal digit character for `d`.
pub open spec fn digit_char(d: nat) -> char {
    (((48 + d % 10) % 256) as u8) as char
}

/// The decimal digits of `n`, most significant first, with no leading zeros
/// (a single `'0'` for zero).
pub open spec fn dec_digits(n: nat) -> Seq<char>
    decreases n,
{
    if n < 10 {
        seq![digit_char(n)]
    } else {
        dec_digits(n / 10).push(digit_char(n % 10))
    }
}

/// The decimal digits of `n`, left-padded with zeros to exactly `w` digits;
/// digits above the width are dropped.
pub open spec fn fixed_digits(n: nat, w: nat) -> Seq<char>
    decreases w,
{
    if w == 0 {
        Seq::empty()
    } else {
        fixed_digits(n / 10, (w - 1) as nat).push(digit_char(n % 10))
    }
}

pub open spec fn pow10(e: nat) -> nat
    decreases e,
{
    if e == 0 {
        1
    } else {
        10 * pow10((e - 1) as nat)
    }
}

pub proof fn lemma_pow10_positive(e: nat)
    ensures
        pow10(e) >= 1,
    decreases e,
{
    if e > 0 {
        lemma_pow10_positive((e - 1) as nat);
    }
}

pub proof fn lemma_pow10_increases(e1: nat, e2: nat)
    requires
        e1 <= e2,
    ensures
        pow10(e1) <= pow10(e2),
    decreases e2,
{
    lemma_pow10_positive(e1);
    if e1 < e2 {
        lemma_pow10_increases(e1, (e2 - 1) as nat);
    }
}

/// `n` has at most `w` decimal digits when `n < 10^w`.
pub proof fn lemma_dec_digits_len(n: nat, w: nat)
    requires
        n < pow10(w),
        w >= 1,
    ensures
        dec_digits(n).len() <= w,
    decreases n,
{
    if n >= 10 {
        lemma_dec_digits_len(n / 10, (w - 1) as nat);
    }
}

/// Padding to a width that covers all digits of `n` keeps every digit:
/// the fixed-width form is zeros followed by the plain digits.
pub proof fn lemma_fixed_digits_covers(n: nat, w: nat)
    requires
        dec_digits(n).len() <= w,
    ensures
        fixed_digits(n, w) =~= Seq::new((w - dec_digits(n).len()) as nat, |i: int| '0')
            + dec_digits(n),
    decreases w,
{
    if w == 0 {
    } else if n < 10 {
        if n == 0 {
            assert(digit_char(0) == '0');
            lemma_fixed_zero(w);
            assert(fixed_digits(0, w) =~= Seq::new(w, |i: int| '0'));
            assert(Seq::new((w - 1) as nat, |i: int| '0') + dec_digits(0) =~= Seq::new(
                w,
                |i: int| '0',
            ));
        } else {
            lemma_fixed_zero((w - 1) as nat);
            assert(fixed_digits(n, w) =~= Seq::new((w - 1) as nat, |i: int| '0').push(
                digit_char(n),
            ));
            assert(fixed_digits(n, w) =~= Seq::new((w - 1) as nat, |i: int| '0') + dec_digits(
                n,
            ));
        }
    } else {
        lemma_fixed_digits_covers(n / 10, (w - 1) as nat);
        assert(fixed_digits(n, w) =~= Seq::new((w - dec_digits(n).len()) as nat, |i: int| '0')
            + dec_digits(n));
    }
}

/// The fixed-width digits of zero are all zeros.
pub proof fn lemma_fixed_zero(w: nat)
    ensures
        fixed_digits(0, w) =~= Seq::new(w, |i: int| '0'),
    decreases w,
{
    if w > 0 {
        lemma_fixed_zero((w - 1) as nat);
        assert(digit_char(0) == '0');
        assert(fixed_digits(0, w) =~= Seq::new(w, |i: int| '0'));
    }
}

/// Appends the decimal digits of `n`.
pub(crate) fn push_u64_dec(s: &mut String, n: u64)
    ensures
        final(s)@ == old(s)@ + dec_digits(n as nat),
    decreases n,
{
    if n < 10 {
        let c = ((48 + (n as u8)) as char);
        push_char(s, c);
        proof {
            assert(old(s)@ + dec_digits(n as nat) =~= old(s)@.push(c));
        }
    } else {
        push_u64_dec(s, n / 10);
        let d = (n % 10) as u8;
        let c = ((48 + d) as char);
        push_char(s, c);
        proof {
            assert(old(s)@ + dec_digits(n as nat) =~= (old(s)@ + dec_digits((n / 10) as nat)).push(
                c,
            ));
        }
    }
}

/// The number of decimal digits of `n`.
fn dec_len(n: u64) -> (r: usize)
    ensures
        r == dec_digits(n as nat).len(),
    decreases n,
{
    if n < 10 {
        1
    } else {
        let rest = dec_len(n / 10);
        proof {
            lemma_dec_len_bound(n as nat);
        }
        rest + 1
    }
}

/// A `u64` has at most 20 decimal digits.
pub proof fn lemma_dec_len_bound(n: nat)
    requires
        n < 18446744073709551616,
    ensures
        1 <= dec_digits(n).len() <= 20,
    decreases n,
{
    if n >= 10 {
        lemma_dec_len_bound(n / 10);
        if dec_digits(n / 10).len() == 20 {
            lemma_len_lower(n / 10, 20);
            assert(pow10(19) == 10000000000000000000) by {
                lemma_pow10_value();
            }
        }
    }
}

/// A number with `w >= 2` digits is at least `10^(w-1)`.
proof fn lemma_len_lower(n: nat, w: nat)
    requires
        dec_digits(n).len() == w,
        w >= 2,
    ensures
        n >= pow10((w - 1) as nat),
    decreases n,
{
    if n >= 10 {
        if w == 2 {
            assert(pow10(1) == 10) by {
                reveal_with_fuel(pow10, 3);
            }
        } else {
            lemma_len_lower(n / 10, (w - 1) as nat);
            assert(n >= 10 * (n / 10));
        }
    }
}

proof fn lemma_pow10_value()
    ensures
        pow10(19) == 10000000000000000000,
        pow10(20) == 100000000000000000000,
{
    assert(pow10(20) == 10 * pow10(19));
    assert(pow10(19) == 10000000000000000000) by {
        reveal_with_fuel(pow10, 21);
    }
}

/// Appends the decimal digits of `n`, left-padded with zeros to width `w`.
///
/// Requires that `n` fits in `w` digits, so no digit is dropped.
#[verifier::loop_isolation(false)]
pub(crate) fn push_fixed_dec(s: &mut String, n: u64, w: u32)
    requires
        (n as nat) < pow10(w as nat),
        w >= 1,
    ensures
        final(s)@ == old(s)@ + fixed_digits(n as nat, w as nat),
{
    proof {
        lemma_dec_digits_len(n as nat, w as nat);
        lemma_fixed_digits_covers(n as nat, w as nat);
    }
    let d = dec_len(n);
    let mut i: usize = 0;
    let pad: usize = w as usize - d;
    while i < pad
        invariant
            i <= pad,
            s@ == old(s)@ + Seq::new(i as nat, |k: int| '0'),
        decreases pad - i,
    {
        push_char(s, '0');
        proof {
            assert(old(s)@ + Seq::new((i + 1) as nat, |k: int| '0') =~= (old(s)@ + Seq::new(
                i as nat,
                |k: int| '0',
            )).push('0'));
        }
        i = i + 1;
    }
    push_u64_dec(s, n);
    proof {
        assert(final(s)@ =~= old(s)@ + fixed_digits(n as nat, w as nat));
    }
}

/// The absolute value of `m` as a mathematical integer.
pub open spec fn abs_int(m: int) -> nat {
    if m < 0 {
        (-m) as nat
    } else {
        m as nat
    }
}

/// The decimal rendering of the number `mantissa / 10^scale`: an optional
/// sign, the integer part without leading zeros, and, where `scale > 0`, a
/// point followed by exactly `scale` fraction digits.
pub open spec fn number_chars(mantissa: int, scale: nat) -> Seq<char> {
    let sign: Seq<char> = if mantissa < 0 {
        seq!['-']
    } else {
        Seq::empty()
    };
    let a = abs_int(mantissa);
    if scale == 0 {
        sign + dec_digits(a)
    } else {
        sign + dec_digits(a / pow10(scale)) + seq!['.'] + fixed_digits(a % pow10(scale), scale)
    }
}

/// Appends the decimal rendering of `mantissa / 10^scale`.
pub(crate) fn push_number(s: &mut String, mantissa: i64, scale: u32)
    ensures
        final(s)@ == old(s)@ + number_chars(mantissa as int, scale as nat),
{
    let a: u64 = if mantissa < 0 {
        ((-(mantissa as i128)) as u64)
    } else {
        mantissa as u64
    };
    if mantissa < 0 {
        push_char(s, '-');
    }
    if scale == 0 {
        push_u64_dec(s, a);
        proof {
            assert(final(s)@ =~= old(s)@ + number_chars(mantissa as int, scale as nat));
        }
    } else {
        proof {
            lemma_pow10_positive(scale as nat);
        }
        let divisor: u64 = if scale >= 20 {
            0
        } else {
            pow10_u64(scale)
        };
        let int_part: u64;
        let frac_part: u64;
        if divisor == 0 {
            proof {
                lemma_pow10_value();
                lemma_pow10_increases(20, scale as nat);
                assert((a as nat) < pow10(scale as nat));
            }
            int_part = 0;
            frac_part = a;
            proof {
                assert((a as nat) / pow10(scale as nat) == 0) by (nonlinear_arith)
                    requires
                        (a as nat) < pow10(scale as nat),
                        pow10(scale as nat) >= 1,
                ;
                assert((a as nat) % pow10(scale as nat) == a as nat) by (nonlinear_arith)
                    requires
                        (a as nat) < pow10(scale as nat),
                        pow10(scale as nat) >= 1,
                ;
            }
        } else {
            int_part = a / divisor;
            frac_part = a % divisor;
        }
        push_u64_dec(s, int_part);
        push_char(s, '.');
        proof {
            assert((frac_part as nat) < pow10(scale as nat));
        }
        push_fixed_dec(s, frac_part, scale);
        proof {
            assert(final(s)@ =~= old(s)@ + number_chars(mantissa as int, scale as nat));
        }
    }
}

/// `10^e` as a `u64`; defined for exponents up to 19.
fn pow10_u64(e: u32) -> (r: u64)
    requires
        e <= 19,
    ensures
        r as nat == pow10(e as nat),
{
    proof {
        lemma_pow10_value();
    }
    let mut r: u64 = 1;
    let mut i: u32 = 0;
    while i < e
        invariant
            i <= e,
            e <= 19,
            r as nat == pow10(i as nat),
            r <= 10000000000000000000,
        decreases e - i,
    {
        proof {
            lemma_pow10_increases((i + 1) as nat, 19);
            lemma_pow10_value();
        }
        r = r * 10;
        i = i + 1;
    }
    r
}

/// Compares two string slices character by character.
pub(crate) fn str_eq(a: &str, b: &str) -> (r: bool)
    ensures
        r == (a@ == b@),
{
    let n = a.unicode_len();
    let m = b.unicode_len();
    if n != m {
        proof {
            assert(a@ != b@);
        }
        return false;
    }
    let mut i: usize = 0;
    while i < n
        invariant
            i <= n,
            n == a@.len(),
            n == b@.len(),
            forall|j: int| 0 <= j < i ==> a@[j] == b@[j],
        decreases n - i,
    {
        if a.get_char(i) != b.get_char(i) {
            proof {
                assert(a@ != b@);
            }
            return false;
        }
        i = i + 1;
    }
    proof {
        assert(a@ =~= b@);
    }
    true
}

} // verus!
