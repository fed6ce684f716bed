//! Compact human-readable rendering of elapsed time.

use vstd::prelude::*;
use vstd::arithmetic::div_mod::{lemma_fundamental_div_mod, lemma_fundamental_div_mod_converse_div};
use crate::text::{decimal, digit, digit_char, push_char, push_decimal};

verus! {

/// An elapsed time span, held as a whole number of nanoseconds.
pub struct PrettyDuration(pub u128);

/// Nanoseconds in the largest unit (s, ms, µs, ns) in which `n` nanoseconds are at least one.
pub open spec fn unit_nanos(n: nat) -> nat {
    if n >= 1_000_000_000 {
        1_000_000_000
    } else if n >= 1_000_000 {
        1_000_000
    } else if n >= 1_000 {
        1_000
    } else {
        1
    }
}

/// The suffix of the unit that `unit_nanos(n)` chooses.
pub open spec fn unit_suffix(n: nat) -> Seq<char> {
    if n >= 1_000_000_000 {
        seq!['s']
    } else if n >= 1_000_000 {
        seq!['m', 's']
    } else if n >= 1_000 {
        seq!['\u{b5}', 's']
    } else {
        seq!['n', 's']
    }
}

/// `n` nanoseconds in the chosen unit, in hundredths, rounded half up.
pub open spec fn rounded_hundredths(n: nat) -> nat {
    (n * 100 + unit_nanos(n) / 2) / unit_nanos(n)
}

/// A count of hundredths written with two decimals, then trailing zeros and a bare
/// decimal point removed.
pub open spec fn trimmed_decimal(h: nat) -> Seq<char> {
    let whole = decimal(h / 100);
    let frac = h % 100;
    if frac == 0 {
        whole
    } else if frac % 10 == 0 {
        whole.push('.').push(digit_char(frac / 10))
    } else {
        whole.push('.').push(digit_char(frac / 10)).push(digit_char(frac % 10))
    }
}

/// The rendering of `n` nanoseconds: the value in the chosen unit, then the unit.
pub open spec fn pretty(n: nat) -> Seq<char> {
    trimmed_decimal(rounded_hundredths(n)) + unit_suffix(n)
}

proof fn lemma_hundredths_split(n: nat, d: nat)
    requires
        d > 0,
    ensures
        (n * 100 + d / 2) / d == (n / d) * 100 + ((n % d) * 100 + d / 2) / d,
{
    let q = (n / d) as int;
    let r = (n % d) as int;
    let x = r * 100 + d / 2;
    lemma_fundamental_div_mod(n as int, d as int);
    lemma_fundamental_div_mod(x, d as int);
    let a = x / (d as int);
    let b = x % (d as int);
    assert(n * 100 + d / 2 == (q * 100 + a) * d + b) by (nonlinear_arith)
        requires
            n == d * q + r,
            x == d * a + b,
            x == r * 100 + d / 2,
    ;
    lemma_fundamental_div_mod_converse_div((n * 100 + d / 2) as int, d as int, q * 100 + a, b);
}

impl PrettyDuration {
    /// The span written in its largest unit that is at least one, with at most two
    /// decimals (rounded half up) and no trailing zeros: "1.5s", "2ms", "500ns".
    pub fn to_string(&self) -> (r: String)
        ensures
            r@ == pretty(self.0 as nat),
    {
        let n = self.0;
        let d: u128 = if n >= 1_000_000_000 {
            1_000_000_000
        } else if n >= 1_000_000 {
            1_000_000
        } else if n >= 1_000 {
            1_000
        } else {
            1
        };
        let q = n / d;
        let rem = n % d;
        proof {
            lemma_fundamental_div_mod(n as int, d as int);
            let qi = q as int;
            let ri = rem as int;
            let di = d as int;
            assert(qi * 1000 <= n || (di == 1 && n < 1000)) by (nonlinear_arith)
                requires
                    n == di * qi + ri,
                    ri >= 0,
                    qi >= 0,
                    di >= 1000 || (di == 1 && n < 1000),
            ;
            assert(ri * 100 + di / 2 < 101 * di) by (nonlinear_arith)
                requires
                    0 <= ri < di,
            ;
            assert((ri * 100 + di / 2) / di <= 100) by (nonlinear_arith)
                requires
                    0 <= ri * 100 + di / 2 < 101 * di,
                    di > 0,
            ;
        }
        let a = (rem * 100 + d / 2) / d;
        let h = q * 100 + a;
        proof {
            lemma_hundredths_split(n as nat, d as nat);
        }
        assert(h == rounded_hundredths(n as nat));
        let whole = h / 100;
        let frac = h % 100;
        let mut s = String::new();
        push_decimal(&mut s, whole);
        if frac != 0 {
            push_char(&mut s, '.');
            push_char(&mut s, digit(frac / 10));
            if frac % 10 != 0 {
                push_char(&mut s, digit(frac % 10));
            }
        }
        assert(s@ =~= trimmed_decimal(h as nat));
        if n >= 1_000_000_000 {
            push_char(&mut s, 's');
        } else {
            if n >= 1_000_000 {
                push_char(&mut s, 'm');
            } else if n >= 1_000 {
                push_char(&mut s, '\u{b5}');
            } else {
                push_char(&mut s, 'n');
            }
            push_char(&mut s, 's');
        }
        assert(s@ =~= pretty(n as nat));
        s
    }
}

} // verus!
