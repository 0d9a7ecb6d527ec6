//! Sample values carried by the metric series, and their decimal rendering.
//!
//! Gauges hold signed integers, counters hold unsigned integers, and the two
//! load/ratio families hold an exact rational (numerator and positive
//! denominator).  A rational is rendered as its decimal expansion, truncated
//! after [`FRAC_DIGITS`] fractional digits, with trailing zeroes of the
//! expansion never produced (the expansion stops as soon as the remainder is
//! zero).

use crate::strutil::push_char;
use vstd::prelude::*;

verus! {

/// Fractional digits rendered for a rational value before truncation.
pub const FRAC_DIGITS: u64 = 17;

/// An exact rational number; `den` must be positive.
#[derive(Debug, Clone, Copy, PartialEq, Eq, Structural)]
pub struct Rational {
    pub num: i64,
    pub den: u64,
}

impl Rational {
    pub open spec fn wf(self) -> bool {
        self.den > 0
    }
}

/// The value of one series: a gauge, a counter, or a rational gauge.
#[derive(Debug, Clone, Copy, PartialEq, Eq, Structural)]
pub enum SampleValue {
    Int(i64),
    Counter(u64),
    Ratio(Rational),
}

impl SampleValue {
    pub open spec fn wf(self) -> bool {
        match self {
            SampleValue::Ratio(r) => r.wf(),
            _ => true,
        }
    }

    /// The rendered form of this value.
    pub open spec fn chars(self) -> Seq<char> {
        match self {
            SampleValue::Int(n) => int_chars(n as int),
            SampleValue::Counter(n) => dec_chars(n as nat),
            SampleValue::Ratio(r) => ratio_chars(r.num as int, r.den as nat),
        }
    }
}

pub open spec fn digit_char(d: int) -> char {
    if d == 0 {
        '0'
    } else if d == 1 {
        '1'
    } else if d == 2 {
        '2'
    } else if d == 3 {
        '3'
    } else if d == 4 {
        '4'
    } else if d == 5 {
        '5'
    } else if d == 6 {
        '6'
    } else if d == 7 {
        '7'
    } else if d == 8 {
        '8'
    } else {
        '9'
    }
}

/// The decimal digits of a natural number, most significant first.
pub open spec fn dec_chars(n: nat) -> Seq<char>
    decreases n,
{
    if n < 10 {
        seq![digit_char(n as int)]
    } else {
        dec_chars(n / 10).push(digit_char((n % 10) as int))
    }
}

/// The decimal rendering of an integer, with a leading minus sign when
/// negative.
pub open spec fn int_chars(n: int) -> Seq<char> {
    if n < 0 {
        seq!['-'] + dec_chars((-n) as nat)
    } else {
        dec_chars(n as nat)
    }
}

/// The first `k` digits of the decimal expansion of `rem / den`
/// (`0 < rem < den`), stopping early once the remainder reaches zero.
pub open spec fn frac_chars(rem: nat, den: nat, k: nat) -> Seq<char>
    decreases k,
{
    if rem == 0 || k == 0 {
        Seq::empty()
    } else {
        seq![digit_char(((rem * 10) / den) as int)] + frac_chars(
            (rem * 10) % den,
            den,
            (k - 1) as nat,
        )
    }
}

pub open spec fn abs_int(n: int) -> nat {
    if n < 0 {
        (-n) as nat
    } else {
        n as nat
    }
}

/// The decimal rendering of `num / den` for positive `den`: sign, integer
/// part, and a fractional part only when the division does not come out
/// even.
pub open spec fn ratio_chars(num: int, den: nat) -> Seq<char> {
    let sign: Seq<char> = if num < 0 {
        seq!['-']
    } else {
        Seq::empty()
    };
    let mag = abs_int(num);
    let ip = mag / den;
    let rem = mag % den;
    sign + dec_chars(ip) + if rem == 0 {
        Seq::<char>::empty()
    } else {
        seq!['.'] + frac_chars(rem, den, FRAC_DIGITS as nat)
    }
}

fn digit_of(d: u64) -> (c: char)
    requires
        d < 10,
    ensures
        c == digit_char(d as int),
{
    if d == 0 {
        '0'
    } else if d == 1 {
        '1'
    } else if d == 2 {
        '2'
    } else if d == 3 {
        '3'
    } else if d == 4 {
        '4'
    } else if d == 5 {
        '5'
    } else if d == 6 {
        '6'
    } else if d == 7 {
        '7'
    } else if d == 8 {
        '8'
    } else {
        '9'
    }
}

pub fn push_u64(s: &mut String, n: u64)
    ensures
        final(s)@ == old(s)@ + dec_chars(n as nat),
    decreases n,
{
    if n < 10 {
        push_char(s, digit_of(n));
        proof {
            assert(old(s)@ + dec_chars(n as nat) =~= old(s)@.push(digit_char(n as int)));
        }
    } else {
        push_u64(s, n / 10);
        push_char(s, digit_of(n % 10));
        proof {
            assert(old(s)@ + dec_chars(n as nat) =~= (old(s)@ + dec_chars((n / 10) as nat)).push(
                digit_char((n % 10) as int),
            ));
        }
    }
}

pub fn push_i64(s: &mut String, n: i64)
    ensures
        final(s)@ == old(s)@ + int_chars(n as int),
{
    if n >= 0 {
        push_u64(s, n as u64);
    } else {
        push_char(s, '-');
        let mag: u64 = (-(n as i128)) as u64;
        assert(mag as nat == (-(n as int)) as nat);
        push_u64(s, mag);
        proof {
            assert(old(s)@ + int_chars(n as int) =~= (old(s)@.push('-')) + dec_chars(
                mag as nat,
            ));
        }
    }
}

fn push_frac(s: &mut String, rem: u64, den: u64, k: u64)
    requires
        0 < den,
        rem < den,
    ensures
        final(s)@ == old(s)@ + frac_chars(rem as nat, den as nat, k as nat),
    decreases k,
{
    if rem == 0 || k == 0 {
        proof {
            assert(old(s)@ + frac_chars(rem as nat, den as nat, k as nat) =~= old(s)@);
        }
        return ;
    }
    let wide: u128 = (rem as u128) * 10;
    let d: u64 = (wide / (den as u128)) as u64;
    let r2: u64 = (wide % (den as u128)) as u64;
    proof {
        assert(wide / (den as u128) < 10) by (nonlinear_arith)
            requires
                0 < den,
                rem < den,
                wide == rem as int * 10,
        ;
        assert(wide % (den as u128) < den as u128) by (nonlinear_arith)
            requires
                0 < den as u128,
        ;
        assert(d as nat == (rem as nat * 10) / den as nat);
        assert(r2 as nat == (rem as nat * 10) % den as nat);
    }
    push_char(s, digit_of(d));
    if r2 > 0 {
        push_frac(s, r2, den, k - 1);
        proof {
            assert(old(s)@ + frac_chars(rem as nat, den as nat, k as nat) =~= (old(s)@.push(
                digit_char(d as int),
            )) + frac_chars(r2 as nat, den as nat, (k - 1) as nat));
        }
    } else {
        proof {
            assert(frac_chars(r2 as nat, den as nat, (k - 1) as nat) =~= Seq::<char>::empty());
            assert(old(s)@ + frac_chars(rem as nat, den as nat, k as nat) =~= old(s)@.push(
                digit_char(d as int),
            ));
        }
    }
}

pub fn push_ratio(s: &mut String, num: i64, den: u64)
    requires
        den > 0,
    ensures
        final(s)@ == old(s)@ + ratio_chars(num as int, den as nat),
{
    if num < 0 {
        push_char(s, '-');
    }
    let mag: u64 = if num >= 0 {
        num as u64
    } else {
        (-(num as i128)) as u64
    };
    assert(mag as nat == abs_int(num as int));
    let ip: u64 = mag / den;
    let rem: u64 = mag % den;
    push_u64(s, ip);
    if rem > 0 {
        push_char(s, '.');
        push_frac(s, rem, den, FRAC_DIGITS);
    }
    proof {
        let sign: Seq<char> = if num < 0 {
            seq!['-']
        } else {
            Seq::<char>::empty()
        };
        if rem > 0 {
            assert(old(s)@ + ratio_chars(num as int, den as nat) =~= ((old(s)@ + sign
                + dec_chars(ip as nat)).push('.')) + frac_chars(
                rem as nat,
                den as nat,
                FRAC_DIGITS as nat,
            ));
        } else {
            assert(old(s)@ + ratio_chars(num as int, den as nat) =~= old(s)@ + sign + dec_chars(
                ip as nat,
            ));
        }
    }
}

/// Appends the rendered form of a sample value.
pub fn push_value(s: &mut String, v: &SampleValue)
    requires
        v.wf(),
    ensures
        final(s)@ == old(s)@ + v.chars(),
{
    match v {
        SampleValue::Int(n) => push_i64(s, *n),
        SampleValue::Counter(n) => push_u64(s, *n),
        SampleValue::Ratio(r) => push_ratio(s, r.num, r.den),
    }
}

} // verus!
