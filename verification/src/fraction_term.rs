//! The fraction-term notation of exposure compensation.
//!
//! A term is one token of a compensation field: an optional single
//! leading sign, then either a bare integer (`1`), a decimal number with
//! trailing zeros of the fractional part ignored (`0.50`), or a ratio of
//! two integers with a non-zero denominator (`2/3`). Every numeric
//! component must fit a `u64`; anything else is not a term.

use vstd::prelude::*;
use vstd::string::StrSliceExecFns;

use crate::digits::{
    digits_val, find_char, find_char_range, lemma_find_in_suffix, lemma_mul_le, lemma_pow10_mono,
    parse_u64_digits, pow10, trim_zeros, u64_digits,
};
use crate::rational::term_int;

verus! {

/// The term denotes a negative value: it starts with a minus sign.
pub open spec fn sign_of(t: Seq<char>) -> bool {
    t.len() > 0 && t[0] == '-'
}

/// The term with its leading sign, if any, removed.
pub open spec fn body_of(t: Seq<char>) -> Seq<char> {
    if t.len() > 0 && (t[0] == '-' || t[0] == '+') {
        t.skip(1)
    } else {
        t
    }
}

/// The magnitude of a decimal form `whole.raw_frac`, as an unreduced
/// numerator over a power-of-ten denominator. Trailing zeros of the
/// fractional part carry no value and are ignored, so `1.` and `1.000`
/// read as the bare integer.
pub open spec fn decimal_magnitude(whole: Seq<char>, raw_frac: Seq<char>) -> Option<(int, int)> {
    let frac = trim_zeros(raw_frac);
    if !u64_digits(whole) {
        None
    } else if frac.len() == 0 {
        Some((digits_val(whole), 1))
    } else if !u64_digits(frac) {
        None
    } else {
        let den = pow10(frac.len());
        let num = digits_val(whole) * den + digits_val(frac);
        if den <= u64::MAX && num <= u64::MAX {
            Some((num, den))
        } else {
            None
        }
    }
}

/// The magnitude of a ratio form `num_part/den_part`: both components
/// are integers and the denominator is not zero.
pub open spec fn ratio_magnitude(num_part: Seq<char>, den_part: Seq<char>) -> Option<(int, int)> {
    if u64_digits(num_part) && u64_digits(den_part) && digits_val(den_part) != 0 {
        Some((digits_val(num_part), digits_val(den_part)))
    } else {
        None
    }
}

/// The magnitude of a term body. A dot anywhere selects the decimal
/// reading, otherwise a slash selects the ratio reading, otherwise the
/// body is a bare integer.
pub open spec fn magnitude_of(body: Seq<char>) -> Option<(int, int)> {
    let d = find_char(body, '.');
    let sl = find_char(body, '/');
    if 0 <= d < body.len() {
        decimal_magnitude(body.take(d), body.skip(d + 1))
    } else if 0 <= sl < body.len() {
        ratio_magnitude(body.take(sl), body.skip(sl + 1))
    } else if u64_digits(body) {
        Some((digits_val(body), 1))
    } else {
        None
    }
}

/// The exact signed value of a fraction term, as a numerator over a
/// positive denominator, or nothing when the token is not a term.
pub open spec fn term_value(t: Seq<char>) -> Option<(int, int)> {
    match magnitude_of(body_of(t)) {
        Some(m) => Some(
            (
                if sign_of(t) {
                    -m.0
                } else {
                    m.0
                },
                m.1,
            ),
        ),
        None => None,
    }
}

/// Parses one token as a fraction term, giving its sign, numerator
/// magnitude and denominator.
#[verifier::loop_isolation(false)]
pub fn parse_term(tok: &str) -> (r: Option<(bool, u64, u64)>)
    ensures
        ({
            let v = term_value(tok@);
            match r {
                Some(t) => t.2 >= 1 && v == Some(term_int(t)),
                None => v is None,
            }
        }),
{
    let n = tok.unicode_len();
    let mut start: usize = 0;
    let mut neg = false;
    if n > 0 {
        let c0 = tok.get_char(0);
        if c0 == '-' {
            neg = true;
            start = 1;
        } else if c0 == '+' {
            start = 1;
        }
    }
    let ghost body = body_of(tok@);
    proof {
        assert(body =~= tok@.skip(start as int));
        assert(neg == sign_of(tok@));
    }
    let d = find_char_range(tok, '.', start, n);
    let sl = find_char_range(tok, '/', start, n);
    proof {
        lemma_find_in_suffix(tok@, '.', start as int, d as int);
        lemma_find_in_suffix(tok@, '/', start as int, sl as int);
    }
    if d < n {
        // Decimal form: the whole part, then the fractional digits with
        // their trailing zeros dropped.
        let ghost whole = body.take(d - start);
        let ghost raw_frac = body.skip(d - start + 1);
        proof {
            assert(whole =~= tok@.subrange(start as int, d as int));
            assert(raw_frac =~= tok@.subrange(d + 1, n as int));
        }
        let wv = match parse_u64_digits(tok, start, d) {
            Some(v) => v,
            None => {
                return None;
            },
        };
        let mut e: usize = n;
        while e > d + 1 && tok.get_char(e - 1) == '0'
            invariant
                d < n == tok@.len(),
                d + 1 <= e <= n,
                trim_zeros(raw_frac) == trim_zeros(tok@.subrange(d + 1, e as int)),
                raw_frac == tok@.subrange(d + 1, n as int),
            decreases e,
        {
            proof {
                let cur = tok@.subrange(d + 1, e as int);
                assert(cur.last() == '0');
                assert(cur.drop_last() =~= tok@.subrange(d + 1, e - 1));
            }
            e -= 1;
        }
        let ghost frac = trim_zeros(raw_frac);
        proof {
            let cur = tok@.subrange(d + 1, e as int);
            if e > d + 1 {
                assert(cur.last() == tok@[e - 1]);
                assert(cur.last() != '0');
            }
            assert(trim_zeros(cur) == cur);
            assert(frac == cur);
        }
        if e == d + 1 {
            return Some((neg, wv, 1));
        }
        let fv = match parse_u64_digits(tok, d + 1, e) {
            Some(v) => v,
            None => {
                return None;
            },
        };
        let ghost flen = (e - (d + 1)) as nat;
        let mut den: u64 = 1;
        let mut k: usize = 0;
        while k < e - (d + 1)
            invariant
                d + 1 <= e <= n,
                k <= e - (d + 1),
                den == pow10(k as nat),
                den >= 1,
            decreases e - (d + 1) - k,
        {
            let wide: u128 = den as u128 * 10;
            if wide > u64::MAX as u128 {
                proof {
                    lemma_pow10_mono((k + 1) as nat, flen);
                }
                return None;
            }
            den = wide as u64;
            k += 1;
        }
        proof {
            lemma_mul_le(wv as int, den as int, u64::MAX as int, u64::MAX as int);
        }
        let num_wide: u128 = wv as u128 * den as u128 + fv as u128;
        if num_wide > u64::MAX as u128 {
            return None;
        }
        Some((neg, num_wide as u64, den))
    } else if sl < n {
        // Ratio form: integer numerator over a non-zero integer
        // denominator.
        proof {
            assert(body.take(sl - start) =~= tok@.subrange(start as int, sl as int));
            assert(body.skip(sl - start + 1) =~= tok@.subrange(sl + 1, n as int));
        }
        let nv = match parse_u64_digits(tok, start, sl) {
            Some(v) => v,
            None => {
                return None;
            },
        };
        let dv = match parse_u64_digits(tok, sl + 1, n) {
            Some(v) => v,
            None => {
                return None;
            },
        };
        if dv == 0 {
            return None;
        }
        Some((neg, nv, dv))
    } else {
        // Bare integer form.
        proof {
            assert(body =~= tok@.subrange(start as int, n as int));
        }
        match parse_u64_digits(tok, start, n) {
            Some(v) => Some((neg, v, 1)),
            None => None,
        }
    }
}

} // verus!
