use exposure_log::shutter::is_shutter_speed_valid;

#[test]
fn fraction_of_a_second_is_valid() {
    assert!(is_shutter_speed_valid("1/250"));
    assert!(is_shutter_speed_valid("1/8000"));
    assert!(is_shutter_speed_valid("1/1"));
}

#[test]
fn whole_seconds_are_valid() {
    assert!(is_shutter_speed_valid("2\""));
    assert!(is_shutter_speed_valid("30\""));
    assert!(is_shutter_speed_valid("0\""));
}

#[test]
fn plain_text_is_invalid() {
    assert!(!is_shutter_speed_valid("abc"));
    assert!(!is_shutter_speed_valid(""));
    assert!(!is_shutter_speed_valid("fast"));
}

#[test]
fn matching_is_a_substring_test() {
    // The notation may appear anywhere in the field; surrounding text
    // does not invalidate it. This permissiveness is deliberate.
    assert!(is_shutter_speed_valid("x1/250y"));
    assert!(is_shutter_speed_valid("about 2\" long"));
}

#[test]
fn near_misses_are_invalid() {
    // A fraction must start with the digit one and have a digit after
    // the slash; whole seconds need the closing double quote.
    assert!(!is_shutter_speed_valid("2/250"));
    assert!(!is_shutter_speed_valid("1/"));
    assert!(!is_shutter_speed_valid("250"));
    assert!(!is_shutter_speed_valid("\"2"));
}
