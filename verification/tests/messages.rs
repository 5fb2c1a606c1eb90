use batch_convert::error::{Bound, ConfigError, TraversalError};
use batch_convert::task::FailureKind;

#[test]
fn a_missing_dash_is_told_in_words() {
    assert_eq!(
        ConfigError::MissingDash.message(),
        "could not split depth range string on dash character because it was missing from the \
         string"
    );
}

#[test]
fn a_bound_that_is_no_number_is_told_in_words() {
    assert_eq!(
        ConfigError::InvalidBound(Bound::Lower).message(),
        "could not parse the lower bound as pointer-sized unsigned integer"
    );
    assert_eq!(
        ConfigError::InvalidBound(Bound::Upper).message(),
        "could not parse the upper bound as pointer-sized unsigned integer"
    );
}

#[test]
fn a_decreasing_range_is_told_with_its_bounds() {
    assert_eq!(
        ConfigError::DecreasingRange { min: 12, max: 3 }.message(),
        "provided tuple values not in increasing order, got tuple (12, 3) and 12 > 3"
    );
    assert_eq!(
        ConfigError::DecreasingRange { min: usize::MAX, max: 0 }.message(),
        format!(
            "provided tuple values not in increasing order, got tuple ({0}, 0) and {0} > 0",
            usize::MAX
        )
    );
}

#[test]
fn the_other_settings_that_are_refused_are_told_in_words() {
    assert_eq!(ConfigError::NoSourceFormats.message(), "no format to convert from was given");
    assert_eq!(
        ConfigError::UnknownTargetFormat.message(),
        "the format to convert to is not known"
    );
    assert_eq!(
        ConfigError::InvalidWorkerCount.message(),
        "could not parse the number of workers as pointer-sized unsigned integer"
    );
    assert_eq!(ConfigError::NoWorkers.message(), "the number of workers must not be zero");
}

#[test]
fn a_failed_walk_is_told_in_words() {
    assert_eq!(TraversalError {}.message(), "could not read the root directory");
}

#[test]
fn each_failure_of_an_entry_is_told_in_words() {
    assert_eq!(FailureKind::Open.message(), "could not be opened");
    assert_eq!(FailureKind::Decode.message(), "could not be decoded");
    assert_eq!(FailureKind::Save.message(), "could not be saved in the new format");
    assert_eq!(FailureKind::Delete.message(), "was converted, but could not be deleted");
}
