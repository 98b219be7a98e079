//! Characters, digit runs and their base-ten values.
//!
//! Both notations of the exposure log — shutter speeds and compensation
//! fraction terms — are built from runs of decimal digits. This module
//! gives the digit runs their mathematical value and provides the
//! executable scanning primitives the parsers share.

use vstd::prelude::*;
use vstd::string::StrSliceExecFns;

verus! {

/// A decimal digit character.
pub open spec fn is_digit(c: char) -> bool {
    48 <= c as u32 <= 57
}

/// The numeric value of a decimal digit character.
pub open spec fn digit_val(c: char) -> int {
    c as u32 - 48
}

/// Every character of `s` is a decimal digit.
pub open spec fn all_digits(s: Seq<char>) -> bool {
    forall|i: int| 0 <= i < s.len() ==> is_digit(#[trigger] s[i])
}

/// The base-ten value of a run of digit characters; the empty run reads
/// as zero.
pub open spec fn digits_val(s: Seq<char>) -> int
    decreases s.len(),
{
    if s.len() == 0 {
        0
    } else {
        digits_val(s.drop_last()) * 10 + digit_val(s.last())
    }
}

/// Ten raised to `n`.
pub open spec fn pow10(n: nat) -> int
    decreases n,
{
    if n == 0 {
        1
    } else {
        10 * pow10((n - 1) as nat)
    }
}

/// `s` with every trailing `'0'` character removed.
pub open spec fn trim_zeros(s: Seq<char>) -> Seq<char>
    decreases s.len(),
{
    if s.len() > 0 && s.last() == '0' {
        trim_zeros(s.drop_last())
    } else {
        s
    }
}

/// The index of the first occurrence of `c` in `s`, or `s.len()` when
/// there is none.
pub open spec fn find_char(s: Seq<char>, c: char) -> int
    decreases s.len(),
{
    if s.len() == 0 {
        0
    } else if s[0] == c {
        0
    } else {
        1 + find_char(s.skip(1), c)
    }
}

pub proof fn lemma_find_char(s: Seq<char>, c: char)
    ensures
        0 <= find_char(s, c) <= s.len(),
        find_char(s, c) < s.len() ==> s[find_char(s, c)] == c,
        forall|i: int| 0 <= i < find_char(s, c) ==> s[i] != c,
    decreases s.len(),
{
    if s.len() == 0 {
    } else if s[0] == c {
    } else {
        lemma_find_char(s.skip(1), c);
        let k = find_char(s, c);
        assert(k == 1 + find_char(s.skip(1), c));
        if k < s.len() {
            assert(s.skip(1)[k - 1] == s[k]);
        }
        assert forall|i: int| 0 <= i < k implies s[i] != c by {
            if i > 0 {
                assert(s.skip(1)[i - 1] == s[i]);
            }
        }
    }
}

/// A position that is the first occurrence of `c` in `s` is exactly
/// what `find_char` returns.
pub proof fn lemma_find_char_unique(s: Seq<char>, c: char, k: int)
    requires
        0 <= k <= s.len(),
        k < s.len() ==> s[k] == c,
        k == s.len() ==> forall|i: int| 0 <= i < s.len() ==> s[i] != c,
        forall|i: int| 0 <= i < k ==> s[i] != c,
    ensures
        find_char(s, c) == k,
{
    lemma_find_char(s, c);
    let f = find_char(s, c);
    if f < k {
        assert(s[f] != c);
    }
    if k < f {
        assert(s[k] != c);
    }
}

/// Digit runs have non-negative value.
pub proof fn lemma_digits_val_nonneg(s: Seq<char>)
    requires
        all_digits(s),
    ensures
        digits_val(s) >= 0,
    decreases s.len(),
{
    if s.len() > 0 {
        assert(all_digits(s.drop_last()));
        lemma_digits_val_nonneg(s.drop_last());
    }
}

/// Reading one more digit multiplies the prefix value by ten and adds
/// the digit.
pub proof fn lemma_digits_val_step(s: Seq<char>, j: int)
    requires
        0 <= j < s.len(),
    ensures
        digits_val(s.take(j + 1)) == digits_val(s.take(j)) * 10 + digit_val(s[j]),
{
    assert(s.take(j + 1).drop_last() =~= s.take(j));
    assert(s.take(j + 1).last() == s[j]);
}

/// The value of a prefix of a digit run never exceeds the value of the
/// whole run.
pub proof fn lemma_digits_val_take_le(s: Seq<char>, j: int)
    requires
        all_digits(s),
        0 <= j <= s.len(),
    ensures
        digits_val(s.take(j)) <= digits_val(s),
    decreases s.len() - j,
{
    if j == s.len() {
        assert(s.take(j) =~= s);
    } else {
        lemma_digits_val_step(s, j);
        assert(all_digits(s.take(j)));
        lemma_digits_val_nonneg(s.take(j));
        lemma_digits_val_take_le(s, j + 1);
    }
}

pub proof fn lemma_pow10_pos(n: nat)
    ensures
        pow10(n) >= 1,
    decreases n,
{
    if n > 0 {
        lemma_pow10_pos((n - 1) as nat);
    }
}

pub proof fn lemma_pow10_mono(a: nat, b: nat)
    requires
        a <= b,
    ensures
        pow10(a) <= pow10(b),
    decreases b,
{
    if a < b {
        lemma_pow10_mono(a, (b - 1) as nat);
        lemma_pow10_pos((b - 1) as nat);
    }
}

/// Products do not shrink their bounds.
pub proof fn lemma_mul_le(a: int, b: int, c: int, d: int)
    by (nonlinear_arith)
    requires
        0 <= a <= c,
        0 <= b <= d,
    ensures
        a * b <= c * d,
{
}

/// A first occurrence of `c` within a suffix of `s` is what `find_char`
/// finds on that suffix.
pub proof fn lemma_find_in_suffix(s: Seq<char>, c: char, start: int, r: int)
    requires
        0 <= start <= r <= s.len(),
        r < s.len() ==> s[r] == c,
        forall|i: int| start <= i < r ==> s[i] != c,
    ensures
        find_char(s.skip(start), c) == r - start,
{
    let body = s.skip(start);
    assert forall|j: int| 0 <= j < r - start implies body[j] != c by {
        assert(body[j] == s[start + j]);
    }
    if r < s.len() {
        assert(body[r - start] == s[r]);
    }
    lemma_find_char_unique(body, c, r - start);
}

/// Finds the first occurrence of `c` in `s` within `[from, to)`;
/// returns `to` when there is none.
pub fn find_char_range(s: &str, c: char, from: usize, to: usize) -> (r: usize)
    requires
        from <= to <= s@.len(),
    ensures
        from <= r <= to,
        r < to ==> s@[r as int] == c,
        forall|i: int| from <= i < r ==> s@[i] != c,
{
    let mut i: usize = from;
    while i < to
        invariant
            from <= i <= to <= s@.len(),
            forall|j: int| from <= j < i ==> s@[j] != c,
        decreases to - i,
    {
        if s.get_char(i) == c {
            return i;
        }
        i += 1;
    }
    to
}

/// Reads the digit run `s[from..to]` as a `u64`, or reports that the run
/// is not a `u64`: empty, holding a non-digit, or valued above `u64::MAX`.
pub fn parse_u64_digits(s: &str, from: usize, to: usize) -> (r: Option<u64>)
    requires
        from <= to <= s@.len(),
    ensures
        ({
            let t = s@.subrange(from as int, to as int);
            match r {
                Some(v) => u64_digits(t) && v == digits_val(t),
                None => !u64_digits(t),
            }
        }),
{
    let ghost t = s@.subrange(from as int, to as int);
    if from == to {
        return None;
    }
    let mut acc: u64 = 0;
    let mut i: usize = from;
    while i < to
        invariant
            from <= i <= to <= s@.len(),
            t == s@.subrange(from as int, to as int),
            all_digits(t.take(i - from)),
            acc == digits_val(t.take(i - from)),
        decreases to - i,
    {
        let ghost j = i - from;
        let c = s.get_char(i);
        let u: u32 = c as u32;
        proof {
            assert(t[j] == s@[i as int]);
        }
        if !(48 <= u && u <= 57) {
            assert(!is_digit(t[j]));
            return None;
        }
        let d: u64 = (u - 48) as u64;
        let wide: u128 = acc as u128 * 10 + d as u128;
        proof {
            lemma_digits_val_step(t, j);
            assert(t.take(j + 1).len() == j + 1);
            assert(all_digits(t.take(j + 1)));
        }
        if wide > u64::MAX as u128 {
            proof {
                if u64_digits(t) {
                    lemma_digits_val_take_le(t, j + 1);
                }
            }
            return None;
        }
        acc = wide as u64;
        i += 1;
    }
    proof {
        assert(t.take(to - from) =~= t);
    }
    Some(acc)
}

/// `u64_digits(s)` says that `s` is a non-empty digit run whose base-ten
/// value fits a `u64`.
pub open spec fn u64_digits(s: Seq<char>) -> bool {
    s.len() >= 1 && all_digits(s) && digits_val(s) <= u64::MAX
}

} // verus!
