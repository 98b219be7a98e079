//! A validated, strongly typed reader for photographic exposure logs.
//!
//! One row of the tabular input describes one photograph: lens, focal
//! length, date, ISO, aperture, shutter speed and an optional exposure
//! compensation. The library checks the shutter-speed notation, parses
//! the compensation fraction notation into an exact rational value, and
//! turns a sequence of raw rows into a sequence of validated records,
//! stopping at the first failure. Opening and decoding the tabular file
//! itself is the caller's concern: the library works on ready-made rows.

pub mod compensation;
pub mod digits;
pub mod error;
pub mod fraction_term;
pub mod rational;
pub mod reader;
pub mod records;
pub mod shutter;

pub use error::Error;
pub use rational::Rational;
pub use reader::read_metadata;
pub use records::{BuildExposureInfo, ExposureInfo};
