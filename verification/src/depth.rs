//! How deep below the root directory entries are taken.

use crate::decimal::{digits_of, lemma_digits_of, parse_range, parsed, push_number};
use crate::error::{Bound, ConfigError};
use crate::text::{
    chars_of, first_index_of, lemma_first_index_of, lemma_first_index_of_unique, push_char,
};
use vstd::prelude::*;

verus! {

/// The depths from `min_depth` to `max_depth`, both included. The root
/// directory has depth 0 and what lies directly in it depth 1.
#[derive(Clone, Copy, Debug, PartialEq, Eq)]
pub struct DepthRange {
    min_depth: usize,
    max_depth: usize,
}

/// What a depth range as written means: two numbers with the first dash of
/// the text between them, the first no greater than the second.
pub open spec fn range_from_text(text: Seq<char>) -> Result<(usize, usize), ConfigError> {
    let dash = first_index_of(text, '-');
    if dash < 0 {
        Err(ConfigError::MissingDash)
    } else {
        match (parsed(text.subrange(0, dash)), parsed(text.subrange(dash + 1, text.len() as int))) {
            (None, _) => Err(ConfigError::InvalidBound(Bound::Lower)),
            (Some(_), None) => Err(ConfigError::InvalidBound(Bound::Upper)),
            (Some(min), Some(max)) => range_from_bounds(min, max),
        }
    }
}

/// What two bounds mean: a range where they are in order, an error where not.
pub open spec fn range_from_bounds(min: usize, max: usize) -> Result<(usize, usize), ConfigError> {
    if min <= max {
        Ok((min, max))
    } else {
        Err(ConfigError::DecreasingRange { min, max })
    }
}

/// How a depth range is written: the two bounds with a dash between them.
pub open spec fn range_text(bounds: (usize, usize)) -> Seq<char> {
    digits_of(bounds.0 as nat) + seq!['-'] + digits_of(bounds.1 as nat)
}

/// The bounds of a range that may have been refused.
pub open spec fn bounds_of(range: Result<DepthRange, ConfigError>) -> Result<
    (usize, usize),
    ConfigError,
> {
    match range {
        Ok(r) => Ok(r@),
        Err(e) => Err(e),
    }
}

impl View for DepthRange {
    type V = (usize, usize);

    closed spec fn view(&self) -> (usize, usize) {
        (self.min_depth, self.max_depth)
    }
}

impl DepthRange {
    #[verifier::type_invariant]
    spec fn ordered(self) -> bool {
        self.min_depth <= self.max_depth
    }

    /// The range from `min` to `max`, where `min` is not above `max`.
    pub fn from_bounds(min: usize, max: usize) -> (range: Result<DepthRange, ConfigError>)
        ensures
            bounds_of(range) == range_from_bounds(min, max),
    {
        if min <= max {
            Ok(DepthRange { min_depth: min, max_depth: max })
        } else {
            Err(ConfigError::DecreasingRange { min, max })
        }
    }

    /// Reads a range written as two numbers with a dash between them.
    pub fn parse(text: &str) -> (range: Result<DepthRange, ConfigError>)
        ensures
            bounds_of(range) == range_from_text(text@),
    {
        let chars = chars_of(text);
        let len = chars.len();
        let mut dash: usize = 0;
        while dash < len && chars[dash] != '-'
            invariant
                dash <= len == chars.len(),
                forall|j: int| 0 <= j < dash ==> chars@[j] != '-',
            decreases len - dash,
        {
            dash += 1;
        }
        proof {
            lemma_first_index_of(chars@, '-');
            if dash < len {
                lemma_first_index_of_unique(chars@, '-', dash as int);
            }
        }
        if dash == len {
            return Err(ConfigError::MissingDash);
        }
        let min = match parse_range(&chars, 0, dash) {
            Some(min) => min,
            None => {
                return Err(ConfigError::InvalidBound(Bound::Lower));
            },
        };
        let max = match parse_range(&chars, dash + 1, len) {
            Some(max) => max,
            None => {
                return Err(ConfigError::InvalidBound(Bound::Upper));
            },
        };
        DepthRange::from_bounds(min, max)
    }

    /// Writes the range as `parse` reads it.
    pub fn to_string(&self) -> (text: String)
        ensures
            text@ == range_text(self@),
    {
        let mut text = String::new();
        push_number(&mut text, self.min_depth);
        push_char(&mut text, '-');
        push_number(&mut text, self.max_depth);
        assert(text@ =~= range_text(self@));
        text
    }

    /// The smallest depth taken.
    pub fn min_depth(&self) -> (min: usize)
        ensures
            min == self@.0,
            min <= self@.1,
    {
        proof {
            use_type_invariant(self);
        }
        self.min_depth
    }

    /// The greatest depth taken.
    pub fn max_depth(&self) -> (max: usize)
        ensures
            max == self@.1,
            self@.0 <= max,
    {
        proof {
            use_type_invariant(self);
        }
        self.max_depth
    }

    /// Whether entries at `depth` are taken.
    pub fn contains(&self, depth: usize) -> (inside: bool)
        ensures
            inside == (self@.0 <= depth <= self@.1),
    {
        self.min_depth <= depth && depth <= self.max_depth
    }
}

impl TryFrom<(usize, usize)> for DepthRange {
    type Error = ConfigError;

    /// The range between two bounds, where they are in order.
    fn try_from(bounds: (usize, usize)) -> (range: Result<DepthRange, ConfigError>)
        ensures
            bounds_of(range) == range_from_bounds(bounds.0, bounds.1),
    {
        DepthRange::from_bounds(bounds.0, bounds.1)
    }
}

impl vstd::std_specs::convert::TryFromSpecImpl<(usize, usize)> for DepthRange {
    open spec fn obeys_try_from_spec() -> bool {
        true
    }

    closed spec fn try_from_spec(bounds: (usize, usize)) -> Result<DepthRange, ConfigError> {
        if bounds.0 <= bounds.1 {
            Ok(DepthRange { min_depth: bounds.0, max_depth: bounds.1 })
        } else {
            Err(ConfigError::DecreasingRange { min: bounds.0, max: bounds.1 })
        }
    }
}

impl From<DepthRange> for (usize, usize) {
    /// The two bounds of a range.
    fn from(range: DepthRange) -> (bounds: (usize, usize))
        ensures
            bounds == range@,
    {
        (range.min_depth, range.max_depth)
    }
}

impl vstd::std_specs::convert::FromSpecImpl<DepthRange> for (usize, usize) {
    open spec fn obeys_from_spec() -> bool {
        true
    }

    open spec fn from_spec(range: DepthRange) -> (usize, usize) {
        range@
    }
}

impl TryFrom<String> for DepthRange {
    type Error = ConfigError;

    /// Reads a range as `DepthRange::parse` does.
    fn try_from(text: String) -> (range: Result<DepthRange, ConfigError>)
        ensures
            bounds_of(range) == range_from_text(text@),
    {
        DepthRange::parse(text.as_str())
    }
}

impl vstd::std_specs::convert::TryFromSpecImpl<String> for DepthRange {
    open spec fn obeys_try_from_spec() -> bool {
        true
    }

    closed spec fn try_from_spec(text: String) -> Result<DepthRange, ConfigError> {
        match range_from_text(text@) {
            Ok(bounds) => Ok(DepthRange { min_depth: bounds.0, max_depth: bounds.1 }),
            Err(e) => Err(e),
        }
    }
}

impl Default for DepthRange {
    /// Every depth: the range that cuts nothing off.
    fn default() -> (range: DepthRange)
        ensures
            range@ == (0usize, usize::MAX),
    {
        DepthRange { min_depth: 0, max_depth: usize::MAX }
    }
}

/// A range that was written out reads back as the same range.
pub proof fn lemma_range_text_reads_back(min: usize, max: usize)
    requires
        min <= max,
    ensures
        range_from_text(range_text((min, max))) == Ok::<_, ConfigError>((min, max)),
{
    let lower = digits_of(min as nat);
    let upper = digits_of(max as nat);
    let text = range_text((min, max));
    lemma_digits_of(min as nat);
    lemma_digits_of(max as nat);
    assert forall|j: int| 0 <= j < lower.len() implies text[j] != '-' by {
        assert(text[j] == lower[j]);
        assert(crate::decimal::is_digit(lower[j]));
    }
    lemma_first_index_of_unique(text, '-', lower.len() as int);
    assert(text.subrange(0, lower.len() as int) =~= lower);
    assert(text.subrange(lower.len() as int + 1, text.len() as int) =~= upper);
}

} // verus!
