//! The shutter-speed notation.
//!
//! A shutter speed is well formed when the text contains, anywhere in it,
//! either the fraction-of-a-second form `1/<digits>` or the whole-seconds
//! form `<digits>"`. The test is deliberately a substring test, not a
//! full-field one: text surrounding a matching portion is accepted.

use vstd::prelude::*;
use vstd::string::StrSliceExecFns;

use crate::digits::is_digit;

verus! {

/// The fraction-of-a-second form starts at `i`: the characters `1/`
/// followed by at least one digit.
pub open spec fn fraction_form_at(s: Seq<char>, i: int) -> bool {
    &&& 0 <= i
    &&& i + 2 < s.len()
    &&& s[i] == '1'
    &&& s[i + 1] == '/'
    &&& is_digit(s[i + 2])
}

/// The whole-seconds form ends right after `i`: a digit followed by the
/// double-quote mark that denotes seconds.
pub open spec fn seconds_form_at(s: Seq<char>, i: int) -> bool {
    &&& 0 <= i
    &&& i + 1 < s.len()
    &&& is_digit(s[i])
    &&& s[i + 1] == '"'
}

/// The text contains a well-formed shutter-speed notation somewhere in it.
pub open spec fn valid_shutter_speed(s: Seq<char>) -> bool {
    (exists|i: int| fraction_form_at(s, i)) || (exists|i: int| seconds_form_at(s, i))
}

/// Decides whether `txt` contains a well-formed shutter-speed notation.
pub fn is_shutter_speed_valid(txt: &str) -> (valid: bool)
    ensures
        valid == valid_shutter_speed(txt@),
{
    let n = txt.unicode_len();
    let mut i: usize = 0;
    while i < n
        invariant
            0 <= i <= n == txt@.len(),
            forall|j: int| 0 <= j < i ==> !fraction_form_at(txt@, j),
            forall|j: int| 0 <= j < i ==> !seconds_form_at(txt@, j),
        decreases n - i,
    {
        let c = txt.get_char(i);
        if c == '1' && n - i > 2 {
            if txt.get_char(i + 1) == '/' {
                let d = txt.get_char(i + 2) as u32;
                if 48 <= d && d <= 57 {
                    assert(fraction_form_at(txt@, i as int));
                    return true;
                }
            }
        }
        let u = c as u32;
        if 48 <= u && u <= 57 && n - i > 1 {
            if txt.get_char(i + 1) == '"' {
                assert(seconds_form_at(txt@, i as int));
                return true;
            }
        }
        i += 1;
    }
    false
}

} // verus!
