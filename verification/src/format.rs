//! The format of the converted copies, named by its extension.
//!
//! Which extensions name a format is the codec's to say. This module asks it
//! once, when the run is set up, and keeps the answer in the type.

use crate::error::ConfigError;
use crate::extension::{normalize, normalized};
use crate::path::{check_plain, is_plain};
use crate::text::{is_lowercase, lemma_lowercase_idempotent};
use vstd::prelude::*;

verus! {

/// Whether the codec has a format for the extension `extension`: what
/// `image::ImageFormat::from_extension` answers for it.
pub uninterp spec fn codec_knows(extension: Seq<char>) -> bool;

/// `image::ImageFormat::from_extension`: whether it finds a format for
/// `extension`. The answer depends on the text of the extension alone.
#[verifier::external_body]
fn codec_knows_extension(extension: &str) -> (known: bool)
    ensures
        known == codec_knows(extension@),
{
    match image::ImageFormat::from_extension(extension) {
        Some(_) => true,
        None => false,
    }
}

/// The extension of the converted copies: plain, in lower case, and known to
/// the codec when it was made.
#[derive(Debug)]
pub struct TargetFormat {
    extension: String,
}

impl View for TargetFormat {
    type V = Seq<char>;

    closed spec fn view(&self) -> Seq<char> {
        self.extension@
    }
}

impl TargetFormat {
    #[verifier::type_invariant]
    spec fn plain_and_folded(self) -> bool {
        is_plain(self.extension@) && is_lowercase(self.extension@)
    }

    /// The format named `name`, given whether the codec knows `name` as it is
    /// compared. The name may be written with a dot in front and in any case.
    pub fn checked(name: &str, known: bool) -> (format: Result<TargetFormat, ConfigError>)
        ensures
            format is Ok <==> known && is_plain(normalized(name@)),
            format matches Ok(f) ==> f@ == normalized(name@),
            format matches Err(e) ==> e == ConfigError::UnknownTargetFormat,
    {
        let extension = normalize(name);
        if known && check_plain(extension.as_str()) {
            proof {
                if name@.len() > 0 && name@[0] == '.' {
                    lemma_lowercase_idempotent(name@.subrange(1, name@.len() as int));
                } else {
                    lemma_lowercase_idempotent(name@);
                }
            }
            Ok(TargetFormat { extension })
        } else {
            Err(ConfigError::UnknownTargetFormat)
        }
    }

    /// The format named `name`, where the codec knows it.
    pub fn new(name: &str) -> (format: Result<TargetFormat, ConfigError>)
        ensures
            format is Ok <==> codec_knows(normalized(name@)) && is_plain(normalized(name@)),
            format matches Ok(f) ==> f@ == normalized(name@),
            format matches Err(e) ==> e == ConfigError::UnknownTargetFormat,
    {
        let extension = normalize(name);
        let known = codec_knows_extension(extension.as_str());
        TargetFormat::checked(name, known)
    }

    /// The extension that the converted copies get.
    pub fn extension(&self) -> (extension: &str)
        ensures
            extension@ == self@,
            is_plain(extension@),
            is_lowercase(extension@),
    {
        proof {
            use_type_invariant(self);
        }
        self.extension.as_str()
    }
}

} // verus!
