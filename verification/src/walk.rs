//! What the walk over a directory tree keeps: files of a source format, at a
//! depth inside the configured range.
//!
//! The walk itself, the reading of directories, is the caller's. It reports
//! what it visited; this module says which of it is a source, which
//! directories are worth entering, and when the walk has failed.

use crate::depth::DepthRange;
use crate::error::TraversalError;
use crate::extension::{is_source, ExtensionSet};
use crate::path::{extension, split};
use crate::text::{chars_of, lowercase, push_range_lowercase};
use vstd::prelude::*;

verus! {

/// What kind of thing a directory entry is. A symbolic link is never followed:
/// it is a kind of its own, whatever it points to.
#[derive(Clone, Copy, Debug, PartialEq, Eq, Structural)]
pub enum EntryKind {
    /// A regular file.
    File,
    /// A directory.
    Directory,
    /// A symbolic link.
    Symlink,
    /// Anything else.
    Other,
}

/// One entry as the walk found it.
#[derive(Debug, PartialEq, Eq)]
pub struct Found {
    /// The path of the entry.
    pub path: String,
    /// How far below the root the entry lies; the root itself is at 0.
    pub depth: usize,
    /// What the entry is.
    pub kind: EntryKind,
}

/// A `Found` with its path as text.
pub struct FoundView {
    pub path: Seq<char>,
    pub depth: usize,
    pub kind: EntryKind,
}

impl View for Found {
    type V = FoundView;

    open spec fn view(&self) -> FoundView {
        FoundView { path: self.path@, depth: self.depth, kind: self.kind }
    }
}

/// One report of the walk.
#[derive(Debug, PartialEq, Eq)]
pub enum Visit {
    /// An entry was found.
    Entry(Found),
    /// Something at the given depth could not be read.
    Unreadable { depth: usize },
}

/// A `Visit` with its path as text.
pub enum VisitView {
    Entry(FoundView),
    Unreadable { depth: usize },
}

impl View for Visit {
    type V = VisitView;

    open spec fn view(&self) -> VisitView {
        match self {
            Visit::Entry(found) => VisitView::Entry(found@),
            Visit::Unreadable { depth } => VisitView::Unreadable { depth: *depth },
        }
    }
}

/// The views of a row of visits.
pub open spec fn visit_views(visits: Seq<Visit>) -> Seq<VisitView> {
    Seq::new(visits.len(), |i: int| visits[i]@)
}

/// A file to convert: its path and its format, which is the extension of the
/// path in lower case.
#[derive(Debug)]
pub struct SourceEntry {
    path: String,
    format: String,
}

/// A `SourceEntry` as text.
pub struct SourceEntryView {
    pub path: Seq<char>,
    pub format: Seq<char>,
}

impl View for SourceEntry {
    type V = SourceEntryView;

    closed spec fn view(&self) -> SourceEntryView {
        SourceEntryView { path: self.path@, format: self.format@ }
    }
}

/// The views of a row of entries.
pub open spec fn entry_views(entries: Seq<SourceEntry>) -> Seq<SourceEntryView> {
    Seq::new(entries.len(), |i: int| entries[i]@)
}

/// The entry for `path`. It stands for a file only where `path` has an extension.
pub open spec fn entry_for(path: Seq<char>) -> SourceEntryView {
    SourceEntryView { path, format: lowercase(extension(path)->0) }
}

impl SourceEntry {
    #[verifier::type_invariant]
    spec fn format_is_extension(self) -> bool {
        extension(self.path@) is Some && self.format@ == lowercase(extension(self.path@)->0)
    }

    /// The entry for `path`, where its file name has an extension.
    pub fn new(path: String) -> (entry: Option<SourceEntry>)
        ensures
            entry is Some <==> extension(path@) is Some,
            entry matches Some(e) ==> e@ == entry_for(path@),
    {
        let chars = chars_of(path.as_str());
        let parts = split(&chars);
        if !parts.has_extension {
            return None;
        }
        let mut format = String::new();
        push_range_lowercase(&mut format, &chars, parts.stem_end + 1, chars.len());
        assert(format@ =~= lowercase(extension(path@)->0));
        Some(SourceEntry { path, format })
    }

    /// The path of the file.
    pub fn path(&self) -> (path: &str)
        ensures
            path@ == self@.path,
            self@ == entry_for(path@),
            extension(path@) is Some,
    {
        proof {
            use_type_invariant(self);
        }
        self.path.as_str()
    }

    /// The format of the file: its extension in lower case.
    pub fn format(&self) -> (format: &str)
        ensures
            format@ == self@.format,
            extension(self@.path) is Some,
            format@ == lowercase(extension(self@.path)->0),
    {
        proof {
            use_type_invariant(self);
        }
        self.format.as_str()
    }
}

/// Whether the walk yields `found`: it is no directory, it lies inside the
/// range of depths, and its path names a source.
pub open spec fn accepted(
    found: FoundView,
    range: (usize, usize),
    extensions: Seq<Seq<char>>,
) -> bool {
    &&& !(found.kind is Directory)
    &&& range.0 <= found.depth <= range.1
    &&& is_source(found.path, extensions)
}

/// Whether the walk enters `found`: it is a directory, not a link to one, and
/// what lies in it is not deeper than the range allows.
pub open spec fn entered(found: FoundView, range: (usize, usize)) -> bool {
    found.kind is Directory && found.depth < range.1
}

/// Whether the walk has failed: the root itself could not be read.
pub open spec fn root_unreadable(visits: Seq<VisitView>) -> bool {
    exists|i: int| 0 <= i < visits.len() && visits[i] == (VisitView::Unreadable { depth: 0 })
}

/// Whether a report is an entry that the walk yields.
pub open spec fn yields(visit: VisitView, range: (usize, usize), extensions: Seq<Seq<char>>) -> bool {
    visit matches VisitView::Entry(found) && accepted(found, range, extensions)
}

/// The entries that a walk yields, in the order of its reports.
pub open spec fn yielded(
    visits: Seq<VisitView>,
    range: (usize, usize),
    extensions: Seq<Seq<char>>,
) -> Seq<SourceEntryView> {
    visits.filter(|v: VisitView| yields(v, range, extensions)).map_values(
        |v: VisitView| entry_for(v->Entry_0.path),
    )
}

/// The rule by which a walk keeps and drops what it finds.
#[derive(Debug)]
pub struct WalkFilter {
    /// The depths at which entries are taken.
    pub range: DepthRange,
    /// The extensions of the files to take.
    pub extensions: ExtensionSet,
}

impl WalkFilter {
    /// Whether the walk yields `found`.
    pub fn accepts(&self, found: &Found) -> (yes: bool)
        ensures
            yes == accepted(found@, self.range@, self.extensions@),
    {
        !matches!(found.kind, EntryKind::Directory) && self.range.contains(found.depth)
            && self.extensions.matches(found.path.as_str())
    }

    /// Whether the walk enters `found`.
    pub fn descends(&self, found: &Found) -> (yes: bool)
        ensures
            yes == entered(found@, self.range@),
    {
        matches!(found.kind, EntryKind::Directory) && found.depth < self.range.max_depth()
    }

    /// Whether `found` matters to the walk at all: what is neither yielded nor
    /// entered can be dropped as soon as it is seen.
    pub fn keeps(&self, found: &Found) -> (yes: bool)
        ensures
            yes == (accepted(found@, self.range@, self.extensions@) || entered(
                found@,
                self.range@,
            )),
    {
        self.accepts(found) || self.descends(found)
    }

    /// The source entry for `found`, where the walk yields it.
    pub fn source_for(&self, found: &Found) -> (entry: Option<SourceEntry>)
        ensures
            entry is Some <==> accepted(found@, self.range@, self.extensions@),
            entry matches Some(e) ==> e@ == entry_for(found@.path),
    {
        if self.accepts(found) {
            SourceEntry::new(found.path.clone())
        } else {
            None
        }
    }

    /// The sources among the reports of a finished walk, in the order of the
    /// reports. Where the root could not be read there is no result at all.
    pub fn collect(&self, visits: &Vec<Visit>) -> (sources: Result<Vec<SourceEntry>, TraversalError>)
        ensures
            sources is Err <==> root_unreadable(visit_views(visits@)),
            sources matches Ok(entries) ==> entry_views(entries@) == yielded(
                visit_views(visits@),
                self.range@,
                self.extensions@,
            ),
    {
        let ghost views = visit_views(visits@);
        let ghost range = self.range@;
        let ghost extensions = self.extensions@;
        let ghost wanted = |v: VisitView| yields(v, range, extensions);
        let ghost entry = |v: VisitView| entry_for(v->Entry_0.path);
        let mut entries: Vec<SourceEntry> = Vec::new();
        let mut i: usize = 0;
        while i < visits.len()
            invariant
                i <= visits.len(),
                views == visit_views(visits@),
                range == self.range@,
                extensions == self.extensions@,
                wanted == |v: VisitView| yields(v, range, extensions),
                entry == |v: VisitView| entry_for(v->Entry_0.path),
                forall|j: int| 0 <= j < i ==> views[j] != (VisitView::Unreadable { depth: 0 }),
                entry_views(entries@) == views.take(i as int).filter(wanted).map_values(entry),
            decreases visits.len() - i,
        {
            proof {
                let before = views.take(i as int);
                assert(views.take(i as int + 1) =~= before.push(views[i as int]));
                before.lemma_filter_push(views[i as int], wanted);
            }
            let ghost kept = views.take(i as int).filter(wanted);
            match &visits[i] {
                Visit::Unreadable { depth } => {
                    if *depth == 0 {
                        assert(views[i as int] == (VisitView::Unreadable { depth: 0 }));
                        return Err(TraversalError {  });
                    }
                },
                Visit::Entry(found) => {
                    match self.source_for(found) {
                        Some(e) => {
                            let ghost before = entry_views(entries@);
                            entries.push(e);
                            assert(entry(views[i as int]) == e@);
                            assert(entry_views(entries@) =~= before.push(e@));
                            assert(kept.push(views[i as int]).map_values(entry) =~= kept.map_values(
                                entry,
                            ).push(e@));
                        },
                        None => {},
                    }
                },
            }
            i += 1;
        }
        assert(views.take(i as int) =~= views);
        Ok(entries)
    }
}

/// Whether a report is an entry with the given path that the walk yields.
pub open spec fn yields_path(
    visit: VisitView,
    path: Seq<char>,
    range: (usize, usize),
    extensions: Seq<Seq<char>>,
) -> bool {
    visit matches VisitView::Entry(found) && found.path == path && accepted(
        found,
        range,
        extensions,
    )
}

/// A path is among the yielded entries exactly if the walk reported an entry
/// with that path which is no directory, lies inside the range of depths, and
/// has an extension which in lower case is one of the configured ones.
pub proof fn lemma_yielded_exactly_the_accepted(
    visits: Seq<VisitView>,
    range: (usize, usize),
    extensions: Seq<Seq<char>>,
    path: Seq<char>,
)
    ensures
        yielded(visits, range, extensions).contains(entry_for(path)) <==> exists|i: int|
            0 <= i < visits.len() && yields_path(#[trigger] visits[i], path, range, extensions),
{
    let wanted = |v: VisitView| yields(v, range, extensions);
    let entry = |v: VisitView| entry_for(v->Entry_0.path);
    let kept = visits.filter(wanted);
    let out = yielded(visits, range, extensions);
    if out.contains(entry_for(path)) {
        let j = choose|j: int| 0 <= j < out.len() && out[j] == entry_for(path);
        assert(out[j] == entry(kept[j]));
        visits.lemma_filter_pred(wanted, j);
        assert(kept.contains(kept[j]));
        visits.lemma_filter_contains_rev(wanted, kept[j]);
        let i = choose|i: int| 0 <= i < visits.len() && visits[i] == kept[j];
        assert(yields_path(visits[i], path, range, extensions));
    }
    if exists|i: int|
        0 <= i < visits.len() && yields_path(#[trigger] visits[i], path, range, extensions) {
        let i = choose|i: int|
            0 <= i < visits.len() && yields_path(#[trigger] visits[i], path, range, extensions);
        assert(wanted(visits[i]));
        visits.lemma_filter_contains(wanted, i);
        let j = choose|j: int| 0 <= j < kept.len() && kept[j] == visits[i];
        assert(out[j] == entry(kept[j]));
    }
}

} // verus!
