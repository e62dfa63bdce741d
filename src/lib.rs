//! Codec for the fixed-layout level files and thumbnail containers that make
//! up a course bundle.
use vstd::prelude::*;

use course::CourseData;

pub mod bytes;
pub mod calendar;
pub mod checksum;
pub mod course;
pub mod level;
pub mod objects;
pub mod sound_effects;
pub mod text;
pub mod thumbnail;

verus! {

/// Why decoding or encoding failed.
#[derive(Debug, Clone, Copy, PartialEq, Eq, Structural)]
pub enum Error {
    /// A thumbnail payload is larger than its container can hold.
    FileTooLarge,
    /// A buffer has the wrong size or holds a field that does not decode.
    InvalidData,
    /// A bundle lacks the named member.
    MissingCourseData(CourseData),
    /// The named member of a bundle is present but does not decode.
    InvalidCourseData(CourseData),
    /// A level name is too long or holds a character outside the basic plane.
    InvalidName,
    /// A level holds more objects than its object table has room for.
    TooManyObjects,
}

} // verus!
