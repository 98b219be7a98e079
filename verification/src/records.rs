//! Raw rows, validated records, and the conversion between them.

use vstd::prelude::*;

use crate::compensation::{
    comp_outcome, comp_result_matches, parse_exposure_compensation, text_view, CompOutcome,
};
use crate::error::Error;
use crate::rational::Rational;
use crate::shutter::{is_shutter_speed_valid, valid_shutter_speed};

verus! {

/// One raw row of the tabular input, as the external row decoder hands
/// it over. Only the shutter speed and the exposure compensation are
/// interpreted; every other column is carried through verbatim.
#[derive(Debug)]
pub struct BuildExposureInfo {
    pub lens_name: String,
    pub focal_length: String,
    pub date: String,
    pub iso: i32,
    pub aperture: String,
    pub shutter_speed: String,
    pub exposure_compensation: Option<String>,
}

/// One validated exposure record: the shutter speed is guaranteed to
/// contain a well-formed notation, and a present compensation has been
/// resolved to a single exact rational value.
#[derive(Debug)]
pub struct ExposureInfo {
    pub lens_name: String,
    pub focal_length: String,
    pub date: String,
    pub iso: i32,
    pub aperture: String,
    pub shutter_speed: String,
    pub exposure_compensation: Option<Rational>,
}

/// The raw row builds into a record: its shutter speed is well formed
/// and its compensation field, if any, parses to a value.
pub open spec fn build_ok(args: BuildExposureInfo) -> bool {
    &&& valid_shutter_speed(args.shutter_speed@)
    &&& {
        let o = comp_outcome(text_view(args.exposure_compensation));
        o is Absent || o is Value
    }
}

/// How a validated record must relate to the raw row it came from:
/// every carried column keeps its content, and the compensation value
/// is exactly the parsed one.
pub open spec fn record_matches(args: BuildExposureInfo, rec: ExposureInfo) -> bool {
    &&& rec.lens_name@ == args.lens_name@
    &&& rec.focal_length@ == args.focal_length@
    &&& rec.date@ == args.date@
    &&& rec.iso == args.iso
    &&& rec.aperture@ == args.aperture@
    &&& rec.shutter_speed@ == args.shutter_speed@
    &&& match comp_outcome(text_view(args.exposure_compensation)) {
        CompOutcome::Absent => rec.exposure_compensation is None,
        CompOutcome::Value(n, d) => {
            &&& rec.exposure_compensation matches Some(v) && v.well_formed() && v.num_int() == n
                && v.den_int() == d
        },
        _ => false,
    }
}

/// Which error building from the raw row must surface: a bad shutter
/// speed wins over any compensation problem, and the compensation
/// errors carry the offending text.
pub open spec fn build_error_matches(args: BuildExposureInfo, e: Error) -> bool {
    if !valid_shutter_speed(args.shutter_speed@) {
        e matches Error::InvalidShutterSpeed { text } && text@ == args.shutter_speed@
    } else {
        match comp_outcome(text_view(args.exposure_compensation)) {
            CompOutcome::TooManyTokens => {
                &&& e matches Error::InvalidExposureCompensation { value }
                    && args.exposure_compensation matches Some(s) && value@ == s@
            },
            CompOutcome::TokenError(t) => {
                &&& e matches Error::ExposureCompensationParseError { value, token }
                    && args.exposure_compensation matches Some(s) && value@ == s@ && token@ == t
            },
            _ => false,
        }
    }
}

impl ExposureInfo {
    /// The invariant of a validated record.
    pub open spec fn well_formed(self) -> bool {
        &&& valid_shutter_speed(self.shutter_speed@)
        &&& match self.exposure_compensation {
            Some(v) => v.well_formed(),
            None => true,
        }
    }

    /// Turns one raw row into a validated record, or the first error:
    /// the shutter speed is checked before the compensation is parsed.
    pub fn build(args: BuildExposureInfo) -> (r: Result<ExposureInfo, Error>)
        ensures
            r is Ok <==> build_ok(args),
            r matches Ok(rec) ==> record_matches(args, rec) && rec.well_formed(),
            r matches Err(e) ==> build_error_matches(args, e),
    {
        if !is_shutter_speed_valid(args.shutter_speed.as_str()) {
            return Err(Error::InvalidShutterSpeed { text: args.shutter_speed });
        }
        let exp_comp = match parse_exposure_compensation(&args.exposure_compensation) {
            Ok(v) => v,
            Err(e) => {
                return Err(e);
            },
        };
        Ok(
            ExposureInfo {
                lens_name: args.lens_name,
                date: args.date,
                iso: args.iso,
                focal_length: args.focal_length,
                aperture: args.aperture,
                shutter_speed: args.shutter_speed,
                exposure_compensation: exp_comp,
            },
        )
    }
}

} // verus!
