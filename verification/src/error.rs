//! What can be wrong with a run before any file is touched.

use crate::decimal::{digits_of, push_number};
use crate::text::push_text;
use vstd::prelude::*;

verus! {

/// One of the two bounds of a depth range.
#[derive(Clone, Copy, Debug, PartialEq, Eq, Structural)]
pub enum Bound {
    /// The bound before the dash.
    Lower,
    /// The bound after the dash.
    Upper,
}

/// A setting that the run cannot start with.
#[derive(Clone, Copy, Debug, PartialEq, Eq, Structural)]
pub enum ConfigError {
    /// A depth range was written without a dash between its bounds.
    MissingDash,
    /// A bound of a depth range is not a number that fits the machine word.
    InvalidBound(Bound),
    /// The lower bound of a depth range is above the upper one.
    DecreasingRange { min: usize, max: usize },
    /// No source format was given.
    NoSourceFormats,
    /// The codec knows no format by the name of the target.
    UnknownTargetFormat,
    /// The number of workers is not a number that fits the machine word.
    InvalidWorkerCount,
    /// The number of workers is zero.
    NoWorkers,
}

/// The root directory could not be read, so there is nothing to convert.
#[derive(Clone, Copy, Debug, PartialEq, Eq, Structural)]
pub struct TraversalError {}

impl ConfigError {
    /// What is wrong, in words.
    pub open spec fn message_text(self) -> Seq<char> {
        match self {
            ConfigError::MissingDash => "could not split depth range string on dash character because it was missing from the string"@,
            ConfigError::InvalidBound(Bound::Lower) => "could not parse the lower bound as pointer-sized unsigned integer"@,
            ConfigError::InvalidBound(Bound::Upper) => "could not parse the upper bound as pointer-sized unsigned integer"@,
            ConfigError::DecreasingRange { min, max } => {
                "provided tuple values not in increasing order, got tuple ("@ + digits_of(
                    min as nat,
                ) + ", "@ + digits_of(max as nat) + ") and "@ + digits_of(min as nat) + " > "@
                    + digits_of(max as nat)
            },
            ConfigError::NoSourceFormats => "no format to convert from was given"@,
            ConfigError::UnknownTargetFormat => "the format to convert to is not known"@,
            ConfigError::InvalidWorkerCount => "could not parse the number of workers as pointer-sized unsigned integer"@,
            ConfigError::NoWorkers => "the number of workers must not be zero"@,
        }
    }

    /// Says in words what is wrong.
    pub fn message(&self) -> (text: String)
        ensures
            text@ == self.message_text(),
    {
        let mut text = String::new();
        match self {
            ConfigError::MissingDash => {
                push_text(
                    &mut text,
                    "could not split depth range string on dash character because it was missing from the string",
                );
            },
            ConfigError::InvalidBound(Bound::Lower) => {
                push_text(
                    &mut text,
                    "could not parse the lower bound as pointer-sized unsigned integer",
                );
            },
            ConfigError::InvalidBound(Bound::Upper) => {
                push_text(
                    &mut text,
                    "could not parse the upper bound as pointer-sized unsigned integer",
                );
            },
            ConfigError::DecreasingRange { min, max } => {
                push_text(&mut text, "provided tuple values not in increasing order, got tuple (");
                push_number(&mut text, *min);
                push_text(&mut text, ", ");
                push_number(&mut text, *max);
                push_text(&mut text, ") and ");
                push_number(&mut text, *min);
                push_text(&mut text, " > ");
                push_number(&mut text, *max);
            },
            ConfigError::NoSourceFormats => {
                push_text(&mut text, "no format to convert from was given");
            },
            ConfigError::UnknownTargetFormat => {
                push_text(&mut text, "the format to convert to is not known");
            },
            ConfigError::InvalidWorkerCount => {
                push_text(
                    &mut text,
                    "could not parse the number of workers as pointer-sized unsigned integer",
                );
            },
            ConfigError::NoWorkers => {
                push_text(&mut text, "the number of workers must not be zero");
            },
        }
        assert(text@ =~= self.message_text());
        text
    }
}

impl TraversalError {
    /// What is wrong, in words.
    pub open spec fn message_text(self) -> Seq<char> {
        "could not read the root directory"@
    }

    /// Says in words what is wrong.
    pub fn message(&self) -> (text: String)
        ensures
            text@ == self.message_text(),
    {
        "could not read the root directory".to_owned()
    }
}

} // verus!
