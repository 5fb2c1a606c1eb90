//! Which files are sources: those whose extension is one of a configured set,
//! whatever the case of its letters.

use crate::error::ConfigError;
use crate::path::{destination, extension, is_plain, lemma_destination_extension, split};
use crate::text::{chars_of, lowercase, push_range_lowercase};
use vstd::prelude::*;

verus! {

/// An extension as it is compared: without the dot that may stand in front,
/// and in lower case.
pub open spec fn normalized(extension: Seq<char>) -> Seq<char> {
    if extension.len() > 0 && extension[0] == '.' {
        lowercase(extension.subrange(1, extension.len() as int))
    } else {
        lowercase(extension)
    }
}

/// The texts of a row of strings.
pub open spec fn texts(strings: Seq<String>) -> Seq<Seq<char>> {
    Seq::new(strings.len(), |i: int| strings[i]@)
}

/// Each of `extensions` as it is compared.
pub open spec fn normalized_all(extensions: Seq<Seq<char>>) -> Seq<Seq<char>> {
    Seq::new(extensions.len(), |i: int| normalized(extensions[i]))
}

/// Whether `path` names a source: its file name has an extension which, in
/// lower case, is one of `extensions`.
pub open spec fn is_source(path: Seq<char>, extensions: Seq<Seq<char>>) -> bool {
    match extension(path) {
        Some(e) => extensions.contains(lowercase(e)),
        None => false,
    }
}

/// The extensions of the files to convert. It is never empty, and it holds
/// each extension as it is compared.
#[derive(Debug)]
pub struct ExtensionSet {
    items: Vec<String>,
}

impl View for ExtensionSet {
    type V = Seq<Seq<char>>;

    closed spec fn view(&self) -> Seq<Seq<char>> {
        texts(self.items@)
    }
}

/// `extension` as it is compared.
pub fn normalize(extension: &str) -> (text: String)
    ensures
        text@ == normalized(extension@),
{
    let chars = chars_of(extension);
    let from: usize = if chars.len() > 0 && chars[0] == '.' {
        1
    } else {
        0
    };
    let mut text = String::new();
    push_range_lowercase(&mut text, &chars, from, chars.len());
    proof {
        assert(chars@.subrange(0, chars.len() as int) =~= chars@);
        assert(text@ =~= normalized(extension@));
    }
    text
}

impl ExtensionSet {
    #[verifier::type_invariant]
    spec fn not_empty(self) -> bool {
        self.items.len() > 0
    }

    /// The set of the given extensions. Each may be written with or without a
    /// dot in front and in any case. At least one is needed.
    pub fn new(extensions: &Vec<String>) -> (set: Result<ExtensionSet, ConfigError>)
        ensures
            set is Ok <==> extensions.len() > 0,
            set matches Ok(s) ==> s@ == normalized_all(texts(extensions@)),
            set matches Err(e) ==> e == ConfigError::NoSourceFormats,
    {
        if extensions.len() == 0 {
            return Err(ConfigError::NoSourceFormats);
        }
        let mut items: Vec<String> = Vec::new();
        let mut i: usize = 0;
        while i < extensions.len()
            invariant
                i <= extensions.len(),
                items.len() == i,
                forall|j: int| 0 <= j < i ==> items@[j]@ == normalized(extensions@[j]@),
            decreases extensions.len() - i,
        {
            items.push(normalize(extensions[i].as_str()));
            i += 1;
        }
        assert(texts(items@) =~= normalized_all(texts(extensions@)));
        Ok(ExtensionSet { items })
    }

    /// How many extensions the set holds.
    pub fn len(&self) -> (n: usize)
        ensures
            n == self@.len(),
            n > 0,
    {
        proof {
            use_type_invariant(self);
        }
        self.items.len()
    }

    /// Whether `extension`, with or without a dot in front and in any case, is
    /// in the set.
    pub fn contains(&self, extension: &str) -> (found: bool)
        ensures
            found == self@.contains(normalized(extension@)),
    {
        let wanted = normalize(extension);
        self.holds(&wanted)
    }

    /// Whether `path` names a file to convert.
    pub fn matches(&self, path: &str) -> (found: bool)
        ensures
            found == is_source(path@, self@),
    {
        let chars = chars_of(path);
        let parts = split(&chars);
        if !parts.has_extension {
            return false;
        }
        let mut folded = String::new();
        push_range_lowercase(&mut folded, &chars, parts.stem_end + 1, chars.len());
        assert(folded@ =~= lowercase(extension(path@)->0));
        self.holds(&folded)
    }

    /// Whether `wanted` is, letter for letter, one of the items.
    fn holds(&self, wanted: &String) -> (found: bool)
        ensures
            found == self@.contains(wanted@),
    {
        let mut i: usize = 0;
        while i < self.items.len()
            invariant
                i <= self.items.len(),
                forall|j: int| 0 <= j < i ==> self@[j] != wanted@,
            decreases self.items.len() - i,
        {
            if self.items[i] == *wanted {
                assert(self@[i as int] == wanted@);
                return true;
            }
            i += 1;
        }
        false
    }
}

/// A converted copy is never taken for a source: where the target is none of
/// the source extensions, the destination of any file does not name a source.
/// So no copy is written over a file that still waits to be converted, in
/// this run or in a later one over the same directories.
pub proof fn lemma_copy_is_no_source(
    source: Seq<char>,
    target: Seq<char>,
    dest_dir: Option<Seq<char>>,
    extensions: Seq<Seq<char>>,
)
    requires
        is_plain(target),
        !extensions.contains(lowercase(target)),
    ensures
        !is_source(destination(source, target, dest_dir), extensions),
        forall|other: Seq<char>|
            is_source(other, extensions) ==> destination(source, target, dest_dir) != other,
{
    lemma_destination_extension(source, target, dest_dir);
}

} // verus!
