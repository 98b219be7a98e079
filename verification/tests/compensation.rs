use exposure_log::compensation::parse_exposure_compensation;
use exposure_log::{Error, Rational};

fn rat(neg: bool, num: u128, den: u128) -> Rational {
    Rational { neg, num, den }
}

#[test]
fn absent_field_stays_absent() {
    let r = parse_exposure_compensation(&None);
    assert!(matches!(r, Ok(None)));
}

#[test]
fn zero_reads_as_zero() {
    let r = parse_exposure_compensation(&Some(String::from("0"))).unwrap().unwrap();
    assert_eq!(r, rat(false, 0, 1));
}

#[test]
fn one_third_reads_exactly() {
    let r = parse_exposure_compensation(&Some(String::from("1/3"))).unwrap().unwrap();
    assert_eq!(r, rat(false, 1, 3));
    // Close to a third of a stop once rounded.
    let approx = r.num as f64 / r.den as f64;
    assert!((approx - 0.3333).abs() < 0.001);
}

#[test]
fn compound_term_adds_after_a_positive_start() {
    // "1 1/3" means one plus a third: 1/1 + 1/3 kept unreduced as 4/3.
    let r = parse_exposure_compensation(&Some(String::from("1 1/3"))).unwrap().unwrap();
    assert_eq!(r, rat(false, 4, 3));
}

#[test]
fn compound_term_subtracts_after_a_negative_start() {
    // "-1 1/3" means minus one minus a third: the running sign of the
    // accumulator propagates to the second term.
    let r = parse_exposure_compensation(&Some(String::from("-1 1/3"))).unwrap().unwrap();
    assert_eq!(r, rat(true, 4, 3));
}

#[test]
fn zero_start_always_adds() {
    // A first term of minus zero leaves the accumulator at zero, which
    // is non-negative, so the second term is added, never subtracted.
    let r = parse_exposure_compensation(&Some(String::from("-0 1/3"))).unwrap().unwrap();
    assert_eq!(r, rat(false, 1, 3));
}

#[test]
fn negative_second_term_cancels() {
    let r = parse_exposure_compensation(&Some(String::from("1 -1/3"))).unwrap().unwrap();
    assert_eq!(r, rat(false, 2, 3));
}

#[test]
fn three_tokens_are_rejected() {
    let r = parse_exposure_compensation(&Some(String::from("1 2 3")));
    match r {
        Err(Error::InvalidExposureCompensation { value }) => assert_eq!(value, "1 2 3"),
        other => panic!("expected InvalidExposureCompensation, got {:?}", other),
    }
}

#[test]
fn a_word_is_not_a_term() {
    let r = parse_exposure_compensation(&Some(String::from("abc")));
    match r {
        Err(Error::ExposureCompensationParseError { value, token }) => {
            assert_eq!(value, "abc");
            assert_eq!(token, "abc");
        },
        other => panic!("expected ExposureCompensationParseError, got {:?}", other),
    }
}

#[test]
fn the_failing_token_is_named() {
    let r = parse_exposure_compensation(&Some(String::from("1 x/3")));
    match r {
        Err(Error::ExposureCompensationParseError { value, token }) => {
            assert_eq!(value, "1 x/3");
            assert_eq!(token, "x/3");
        },
        other => panic!("expected ExposureCompensationParseError, got {:?}", other),
    }
}

#[test]
fn empty_text_is_not_a_term() {
    let r = parse_exposure_compensation(&Some(String::from("")));
    assert!(matches!(r, Err(Error::ExposureCompensationParseError { .. })));
}

#[test]
fn a_zero_denominator_is_rejected() {
    let r = parse_exposure_compensation(&Some(String::from("1/0")));
    assert!(matches!(r, Err(Error::ExposureCompensationParseError { .. })));
}

#[test]
fn decimals_read_as_tenths() {
    let r = parse_exposure_compensation(&Some(String::from("0.5"))).unwrap().unwrap();
    assert_eq!(r, rat(false, 5, 10));
}

#[test]
fn trailing_zeros_of_a_decimal_carry_no_value() {
    // "1.50" keeps only the digit five of its fractional part.
    let r = parse_exposure_compensation(&Some(String::from("1.50"))).unwrap().unwrap();
    assert_eq!(r, rat(false, 15, 10));
    let r = parse_exposure_compensation(&Some(String::from("2."))).unwrap().unwrap();
    assert_eq!(r, rat(false, 2, 1));
}

#[test]
fn a_leading_plus_is_allowed() {
    let r = parse_exposure_compensation(&Some(String::from("+2/3"))).unwrap().unwrap();
    assert_eq!(r, rat(false, 2, 3));
}

#[test]
fn a_sign_inside_a_component_is_rejected() {
    assert!(matches!(
        parse_exposure_compensation(&Some(String::from("1/-3"))),
        Err(Error::ExposureCompensationParseError { .. })
    ));
    assert!(matches!(
        parse_exposure_compensation(&Some(String::from("--1"))),
        Err(Error::ExposureCompensationParseError { .. })
    ));
}

#[test]
fn a_component_beyond_the_machine_range_is_rejected() {
    // One digit more than a sixty-four bit integer can hold.
    let r = parse_exposure_compensation(&Some(String::from("184467440737095516160")));
    assert!(matches!(r, Err(Error::ExposureCompensationParseError { .. })));
}

#[test]
fn a_dot_takes_precedence_over_a_slash() {
    // A dot anywhere selects the decimal reading, so a ratio with a
    // decimal component is rejected as a whole.
    assert!(matches!(
        parse_exposure_compensation(&Some(String::from("1/2.5"))),
        Err(Error::ExposureCompensationParseError { .. })
    ));
    assert!(matches!(
        parse_exposure_compensation(&Some(String::from("2.5/3"))),
        Err(Error::ExposureCompensationParseError { .. })
    ));
}

#[test]
fn a_decimal_needs_a_whole_part() {
    assert!(matches!(
        parse_exposure_compensation(&Some(String::from(".5"))),
        Err(Error::ExposureCompensationParseError { .. })
    ));
}

#[test]
fn double_spaces_make_an_empty_token() {
    // Splitting keeps empty pieces: "1  2" has three tokens.
    let r = parse_exposure_compensation(&Some(String::from("1  2")));
    assert!(matches!(r, Err(Error::InvalidExposureCompensation { .. })));
}
