//! The exposure-compensation notation.
//!
//! A compensation field is optional. When present it is split on single
//! space characters into tokens: more than two tokens is a format error,
//! and every token must be a fraction term. The terms are folded
//! left-to-right into an accumulator that starts at zero: a term is
//! added while the accumulator is non-negative and subtracted once it is
//! negative, which lets `1 1/3` read as one and a third and `-1 1/3` as
//! minus one and a third.

use vstd::prelude::*;
use vstd::string::StrSliceExecFns;

use crate::digits::{find_char, find_char_range, lemma_find_char, lemma_find_char_unique};
use crate::error::Error;
use crate::fraction_term::{parse_term, term_value};
use crate::rational::{combine_terms, combined, single_term, Rational};

verus! {

/// The compensation text split on every single space character; empty
/// pieces are kept, so consecutive spaces yield empty tokens.
pub open spec fn split_spaces(s: Seq<char>) -> Seq<Seq<char>>
    decreases s.len(),
{
    let k = find_char(s, ' ');
    if 0 <= k < s.len() {
        seq![s.take(k)] + split_spaces(s.skip(k + 1))
    } else {
        seq![s]
    }
}

pub proof fn lemma_split_spaces_len(s: Seq<char>)
    ensures
        split_spaces(s).len() >= 1,
    decreases s.len(),
{
    let k = find_char(s, ' ');
    if 0 <= k < s.len() {
        lemma_split_spaces_len(s.skip(k + 1));
    }
}

/// Text without a space is a single token.
pub proof fn lemma_split_no_space(s: Seq<char>)
    requires
        forall|i: int| 0 <= i < s.len() ==> s[i] != ' ',
    ensures
        split_spaces(s) == seq![s],
{
    lemma_find_char(s, ' ');
}

/// Text with exactly one space splits into the part before it and the
/// part after it.
pub proof fn lemma_split_one_space(s: Seq<char>, k: int)
    requires
        0 <= k < s.len(),
        s[k] == ' ',
        forall|i: int| 0 <= i < s.len() && i != k ==> s[i] != ' ',
    ensures
        split_spaces(s) == seq![s.take(k), s.skip(k + 1)],
{
    lemma_find_char_unique(s, ' ', k);
    let rest = s.skip(k + 1);
    assert forall|j: int| 0 <= j < rest.len() implies rest[j] != ' ' by {
        assert(rest[j] == s[k + 1 + j]);
    }
    lemma_split_no_space(rest);
    assert(seq![s.take(k)] + seq![rest] =~= seq![s.take(k), rest]);
}

/// Text with two spaces splits into more than two tokens.
pub proof fn lemma_split_two_spaces(s: Seq<char>, k1: int, k2: int)
    requires
        0 <= k1 < k2 < s.len(),
        s[k1] == ' ',
        s[k2] == ' ',
        forall|i: int| 0 <= i < k1 ==> s[i] != ' ',
    ensures
        split_spaces(s).len() >= 3,
{
    lemma_find_char_unique(s, ' ', k1);
    let rest = s.skip(k1 + 1);
    assert(rest[k2 - k1 - 1] == s[k2]);
    lemma_find_char(rest, ' ');
    let f2 = find_char(rest, ' ');
    assert(f2 < rest.len());
    assert(split_spaces(s) == seq![s.take(k1)] + split_spaces(rest));
    assert(split_spaces(rest) == seq![rest.take(f2)] + split_spaces(rest.skip(f2 + 1)));
    lemma_split_spaces_len(rest.skip(f2 + 1));
}

/// What parsing a raw compensation field comes to.
pub enum CompOutcome {
    /// No field: no compensation is recorded.
    Absent,
    /// The exact signed numerator and positive denominator of the
    /// combined value.
    Value(int, int),
    /// More than two space-separated tokens.
    TooManyTokens,
    /// The first token that is not a fraction term, or the term at
    /// which the exact combination left the machine range.
    TokenError(Seq<char>),
}

/// The outcome of parsing an optional compensation field.
pub open spec fn comp_outcome(text: Option<Seq<char>>) -> CompOutcome {
    match text {
        Option::None => CompOutcome::Absent,
        Option::Some(s) => {
            let toks = split_spaces(s);
            if toks.len() > 2 {
                CompOutcome::TooManyTokens
            } else if toks.len() <= 1 {
                match term_value(toks[0]) {
                    Option::Some(t) => CompOutcome::Value(t.0, t.1),
                    Option::None => CompOutcome::TokenError(toks[0]),
                }
            } else {
                match (term_value(toks[0]), term_value(toks[1])) {
                    (Option::None, _) => CompOutcome::TokenError(toks[0]),
                    (Option::Some(_), Option::None) => CompOutcome::TokenError(toks[1]),
                    (Option::Some(t1), Option::Some(t2)) => {
                        let c = combined(t1, t2);
                        if -(u128::MAX as int) <= c.0 <= u128::MAX as int {
                            CompOutcome::Value(c.0, c.1)
                        } else {
                            CompOutcome::TokenError(toks[1])
                        }
                    },
                }
            }
        },
    }
}

/// The view of an optional text field.
pub open spec fn text_view(text: Option<String>) -> Option<Seq<char>> {
    match text {
        Option::None => Option::None,
        Option::Some(s) => Option::Some(s@),
    }
}

/// How a parse result must relate to the outcome of its field.
pub open spec fn comp_result_matches(
    text: Option<String>,
    r: Result<Option<Rational>, Error>,
) -> bool {
    match comp_outcome(text_view(text)) {
        CompOutcome::Absent => r matches Result::Ok(Option::None),
        CompOutcome::Value(n, d) => {
            &&& r matches Result::Ok(Option::Some(v)) && v.well_formed() && v.num_int() == n
                && v.den_int() == d
        },
        CompOutcome::TooManyTokens => {
            &&& r matches Result::Err(Error::InvalidExposureCompensation { value })
                && text matches Option::Some(s) && value@ == s@
        },
        CompOutcome::TokenError(t) => {
            &&& r matches Result::Err(Error::ExposureCompensationParseError { value, token })
                && text matches Option::Some(s) && value@ == s@ && token@ == t
        },
    }
}

/// Parses an optional raw exposure-compensation field into an exact
/// optional rational value, or the error that names the offending text.
pub fn parse_exposure_compensation(text: &Option<String>) -> (r: Result<Option<Rational>, Error>)
    ensures
        comp_result_matches(*text, r),
{
    match text {
        Option::None => Result::Ok(Option::None),
        Option::Some(field) => {
            let s: &str = field.as_str();
            let n = s.unicode_len();
            let k1 = find_char_range(s, ' ', 0, n);
            if k1 == n {
                // No space: the whole field is the single token.
                proof {
                    lemma_split_no_space(s@);
                }
                match parse_term(s) {
                    Option::Some(t) => Result::Ok(Option::Some(single_term(t))),
                    Option::None => Result::Err(
                        Error::ExposureCompensationParseError {
                            value: field.clone(),
                            token: field.clone(),
                        },
                    ),
                }
            } else {
                let k2 = find_char_range(s, ' ', k1 + 1, n);
                if k2 < n {
                    proof {
                        lemma_split_two_spaces(s@, k1 as int, k2 as int);
                    }
                    Result::Err(Error::InvalidExposureCompensation { value: field.clone() })
                } else {
                    proof {
                        lemma_split_one_space(s@, k1 as int);
                    }
                    let tok1 = s.substring_char(0, k1);
                    let tok2 = s.substring_char(k1 + 1, n);
                    proof {
                        assert(tok1@ =~= s@.take(k1 as int));
                        assert(tok2@ =~= s@.skip(k1 + 1));
                    }
                    match parse_term(tok1) {
                        Option::None => Result::Err(
                            Error::ExposureCompensationParseError {
                                value: field.clone(),
                                token: tok1.to_owned(),
                            },
                        ),
                        Option::Some(t1) => match parse_term(tok2) {
                            Option::None => Result::Err(
                                Error::ExposureCompensationParseError {
                                    value: field.clone(),
                                    token: tok2.to_owned(),
                                },
                            ),
                            Option::Some(t2) => match combine_terms(t1, t2) {
                                Option::Some(v) => Result::Ok(Option::Some(v)),
                                Option::None => Result::Err(
                                    Error::ExposureCompensationParseError {
                                        value: field.clone(),
                                        token: tok2.to_owned(),
                                    },
                                ),
                            },
                        },
                    }
                }
            }
        },
    }
}

} // verus!
