use exposure_log::{read_metadata, BuildExposureInfo, Error, ExposureInfo, Rational};

fn row(shutter: &str, comp: Option<&str>) -> BuildExposureInfo {
    BuildExposureInfo {
        lens_name: String::from("Summicron 50mm"),
        focal_length: String::from("50"),
        date: String::from("2024-03-01"),
        iso: 400,
        aperture: String::from("2.0"),
        shutter_speed: String::from(shutter),
        exposure_compensation: comp.map(String::from),
    }
}

#[test]
fn build_passes_the_other_columns_through() {
    let rec = ExposureInfo::build(row("1/250", Some("1 1/3"))).unwrap();
    assert_eq!(rec.lens_name, "Summicron 50mm");
    assert_eq!(rec.focal_length, "50");
    assert_eq!(rec.date, "2024-03-01");
    assert_eq!(rec.iso, 400);
    assert_eq!(rec.aperture, "2.0");
    assert_eq!(rec.shutter_speed, "1/250");
    assert_eq!(rec.exposure_compensation, Some(Rational { neg: false, num: 4, den: 3 }));
}

#[test]
fn build_rejects_a_bad_shutter_speed() {
    let r = ExposureInfo::build(row("abc", None));
    match r {
        Err(Error::InvalidShutterSpeed { text }) => assert_eq!(text, "abc"),
        other => panic!("expected InvalidShutterSpeed, got {:?}", other),
    }
}

#[test]
fn the_shutter_speed_is_checked_first() {
    // Both fields are bad; the shutter-speed error wins.
    let r = ExposureInfo::build(row("slow", Some("a b c")));
    assert!(matches!(r, Err(Error::InvalidShutterSpeed { .. })));
}

#[test]
fn build_propagates_compensation_errors() {
    let r = ExposureInfo::build(row("1/60", Some("1 2 3")));
    assert!(matches!(r, Err(Error::InvalidExposureCompensation { .. })));
    let r = ExposureInfo::build(row("1/60", Some("abc")));
    assert!(matches!(r, Err(Error::ExposureCompensationParseError { .. })));
}

#[test]
fn read_preserves_input_order() {
    let rows = vec![
        Ok(row("1/250", None)),
        Ok(row("2\"", Some("-1 1/3"))),
        Ok(row("1/8000", Some("0"))),
    ];
    let recs = read_metadata(rows).unwrap();
    assert_eq!(recs.len(), 3);
    assert_eq!(recs[0].shutter_speed, "1/250");
    assert_eq!(recs[0].exposure_compensation, None);
    assert_eq!(recs[1].shutter_speed, "2\"");
    assert_eq!(recs[1].exposure_compensation, Some(Rational { neg: true, num: 4, den: 3 }));
    assert_eq!(recs[2].shutter_speed, "1/8000");
    assert_eq!(recs[2].exposure_compensation, Some(Rational { neg: false, num: 0, den: 1 }));
}

#[test]
fn one_bad_row_fails_the_whole_read() {
    // Earlier rows are valid and later rows would be too: nothing is
    // returned all the same.
    let rows = vec![
        Ok(row("1/250", None)),
        Ok(row("broken", None)),
        Ok(row("1/60", None)),
    ];
    let r = read_metadata(rows);
    match r {
        Err(Error::InvalidShutterSpeed { text }) => assert_eq!(text, "broken"),
        other => panic!("expected InvalidShutterSpeed, got {:?}", other),
    }
}

#[test]
fn a_decoder_failure_becomes_failed_to_parse() {
    let rows = vec![
        Ok(row("1/250", None)),
        Err(String::from("bad column count")),
    ];
    let r = read_metadata(rows);
    match r {
        Err(Error::FailedToParse { message }) => assert_eq!(message, "bad column count"),
        other => panic!("expected FailedToParse, got {:?}", other),
    }
}

#[test]
fn the_first_failing_row_wins() {
    // A domain failure in an earlier row is reported even when a later
    // row would not even decode.
    let rows = vec![
        Ok(row("broken", None)),
        Err(String::from("bad column count")),
    ];
    let r = read_metadata(rows);
    assert!(matches!(r, Err(Error::InvalidShutterSpeed { .. })));
}

#[test]
fn an_empty_input_gives_an_empty_log() {
    let recs = read_metadata(Vec::new()).unwrap();
    assert_eq!(recs.len(), 0);
}
