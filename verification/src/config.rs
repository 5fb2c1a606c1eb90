//! The settings of a run, checked once before any work begins.

use crate::decimal::{parse_number, parsed};
use crate::depth::DepthRange;
use crate::error::{ConfigError, TraversalError};
use crate::extension::{normalized, normalized_all, texts, ExtensionSet};
use crate::format::{codec_knows, TargetFormat};
use crate::path::is_plain;
use crate::task::{Settings, SettingsView};
use crate::text::{lemma_lowercase_fixed, lowercase};
use crate::partition::{
    chunk_of, chunk_views, chunks_of, lemma_chunks_lie_end_to_end, partition,
};
use crate::walk::{
    entry_views, root_unreadable, visit_views, yielded, SourceEntry, SourceEntryView, Visit,
    WalkFilter,
};
use vstd::prelude::*;

verus! {

/// The number of workers of a run that names none.
pub const DEFAULT_WORKERS: usize = 8;

/// The settings of a run as they were given, unchecked.
#[derive(Debug)]
pub struct Options {
    /// The name of the format to convert to.
    pub target: String,
    /// The extensions of the files to convert.
    pub sources: Vec<String>,
    /// The directory to search.
    pub input_dir: String,
    /// The directory for the converted copies; without one, each copy goes
    /// beside its source.
    pub output_dir: Option<String>,
    /// Whether a source is removed once its copy is written.
    pub delete_original: bool,
    /// Whether the first failure ends the work of a worker.
    pub fail_fast: bool,
    /// The number of workers.
    pub workers: usize,
    /// The depths at which files are taken.
    pub depth_range: DepthRange,
}

/// `Options` as text.
pub struct OptionsView {
    pub target: Seq<char>,
    pub sources: Seq<Seq<char>>,
    pub input_dir: Seq<char>,
    pub output_dir: Option<Seq<char>>,
    pub delete_original: bool,
    pub fail_fast: bool,
    pub workers: usize,
    pub depth_range: (usize, usize),
}

impl View for Options {
    type V = OptionsView;

    open spec fn view(&self) -> OptionsView {
        OptionsView {
            target: self.target@,
            sources: texts(self.sources@),
            input_dir: self.input_dir@,
            output_dir: match self.output_dir {
                Some(dir) => Some(dir@),
                None => None,
            },
            delete_original: self.delete_original,
            fail_fast: self.fail_fast,
            workers: self.workers,
            depth_range: self.depth_range@,
        }
    }
}

/// The settings of a run after they were checked.
pub struct ConfigView {
    /// The extension of the converted copies.
    pub target: Seq<char>,
    /// The extensions of the files to convert, as they are compared.
    pub sources: Seq<Seq<char>>,
    pub input_dir: Seq<char>,
    pub output_dir: Option<Seq<char>>,
    pub delete_original: bool,
    pub fail_fast: bool,
    pub workers: usize,
    pub depth_range: (usize, usize),
}

impl ConfigView {
    /// What the workers go by.
    pub open spec fn settings(self) -> SettingsView {
        SettingsView {
            target: self.target,
            dest_dir: self.output_dir,
            delete_original: self.delete_original,
            fail_fast: self.fail_fast,
        }
    }
}

/// What the checks make of `options`, given the extension to convert to:
/// there must be a source format and a worker.
pub open spec fn assembled(options: OptionsView, target: Seq<char>) -> Result<
    ConfigView,
    ConfigError,
> {
    if options.sources.len() == 0 {
        Err(ConfigError::NoSourceFormats)
    } else if options.workers == 0 {
        Err(ConfigError::NoWorkers)
    } else {
        Ok(
            ConfigView {
                target,
                sources: normalized_all(options.sources),
                input_dir: options.input_dir,
                output_dir: options.output_dir,
                delete_original: options.delete_original,
                fail_fast: options.fail_fast,
                workers: options.workers,
                depth_range: options.depth_range,
            },
        )
    }
}

/// What the checks make of `options`, given whether the codec knows the
/// target: an unknown target is the first thing refused.
pub open spec fn checked(options: OptionsView, target_known: bool) -> Result<
    ConfigView,
    ConfigError,
> {
    if target_known && is_plain(normalized(options.target)) {
        assembled(options, normalized(options.target))
    } else {
        Err(ConfigError::UnknownTargetFormat)
    }
}

/// What a number of workers as written means: a number above zero.
pub open spec fn worker_count_from_text(text: Seq<char>) -> Result<usize, ConfigError> {
    match parsed(text) {
        None => Err(ConfigError::InvalidWorkerCount),
        Some(n) => if n == 0 {
            Err(ConfigError::NoWorkers)
        } else {
            Ok(n)
        },
    }
}

/// Reads a number of workers.
pub fn parse_worker_count(text: &str) -> (count: Result<usize, ConfigError>)
    ensures
        count == worker_count_from_text(text@),
{
    match parse_number(text) {
        None => Err(ConfigError::InvalidWorkerCount),
        Some(n) => if n == 0 {
            Err(ConfigError::NoWorkers)
        } else {
            Ok(n)
        },
    }
}

/// The checked settings of a run.
#[derive(Debug)]
pub struct RunConfig {
    target: TargetFormat,
    filter: WalkFilter,
    input_dir: String,
    output_dir: Option<String>,
    delete_original: bool,
    fail_fast: bool,
    workers: usize,
}

impl View for RunConfig {
    type V = ConfigView;

    closed spec fn view(&self) -> ConfigView {
        ConfigView {
            target: self.target@,
            sources: self.filter.extensions@,
            input_dir: self.input_dir@,
            output_dir: match self.output_dir {
                Some(dir) => Some(dir@),
                None => None,
            },
            delete_original: self.delete_original,
            fail_fast: self.fail_fast,
            workers: self.workers,
            depth_range: self.filter.range@,
        }
    }
}

/// What the chunks hold.
pub open spec fn chunk_entry_views(chunks: Seq<Vec<SourceEntry>>) -> Seq<Seq<SourceEntryView>> {
    Seq::new(chunks.len(), |i: int| entry_views(chunks[i]@))
}

/// The view of settings that may have been refused.
pub open spec fn config_view(config: Result<RunConfig, ConfigError>) -> Result<
    ConfigView,
    ConfigError,
> {
    match config {
        Ok(c) => Ok(c@),
        Err(e) => Err(e),
    }
}

impl Options {
    /// Options for converting the files with one of the extensions `sources`
    /// under `input_dir` to `target`, with everything else as it is when not
    /// asked for: copies beside their sources, sources kept, no early end,
    /// `DEFAULT_WORKERS` workers, every depth.
    pub fn new(target: String, sources: Vec<String>, input_dir: String) -> (options: Options)
        ensures
            options@ == (OptionsView {
                target: target@,
                sources: texts(sources@),
                input_dir: input_dir@,
                output_dir: None,
                delete_original: false,
                fail_fast: false,
                workers: DEFAULT_WORKERS,
                depth_range: (0usize, usize::MAX),
            }),
    {
        Options {
            target,
            sources,
            input_dir,
            output_dir: None,
            delete_original: false,
            fail_fast: false,
            workers: DEFAULT_WORKERS,
            depth_range: DepthRange::default(),
        }
    }
}

impl RunConfig {
    #[verifier::type_invariant]
    spec fn has_workers(self) -> bool {
        self.workers > 0
    }

    /// Checks `options`. The target must be a format that the codec knows.
    pub fn new(options: Options) -> (config: Result<RunConfig, ConfigError>)
        ensures
            config_view(config) == checked(options@, codec_knows(normalized(options@.target))),
    {
        match TargetFormat::new(options.target.as_str()) {
            Ok(target) => RunConfig::assemble(target, options),
            Err(e) => Err(e),
        }
    }

    /// Checks `options` for a target that is already known; `options.target`
    /// is not looked at.
    pub fn assemble(target: TargetFormat, options: Options) -> (config: Result<
        RunConfig,
        ConfigError,
    >)
        ensures
            config_view(config) == assembled(options@, target@),
    {
        let extensions = match ExtensionSet::new(&options.sources) {
            Ok(extensions) => extensions,
            Err(e) => {
                return Err(e);
            },
        };
        if options.workers == 0 {
            return Err(ConfigError::NoWorkers);
        }
        Ok(
            RunConfig {
                target,
                filter: WalkFilter { range: options.depth_range, extensions },
                input_dir: options.input_dir,
                output_dir: options.output_dir,
                delete_original: options.delete_original,
                fail_fast: options.fail_fast,
                workers: options.workers,
            },
        )
    }

    /// The format of the converted copies.
    pub fn target(&self) -> (target: &TargetFormat)
        ensures
            target@ == self@.target,
    {
        &self.target
    }

    /// Whether the target is one of the source formats. Where it is not, no
    /// converted copy is ever taken for a source or written over one.
    pub fn target_is_source(&self) -> (yes: bool)
        ensures
            yes == self@.sources.contains(self@.target),
            is_plain(self@.target),
            lowercase(self@.target) == self@.target,
    {
        let target = self.target.extension();
        proof {
            lemma_lowercase_fixed(target@);
        }
        self.filter.extensions.contains(target)
    }

    /// The rule by which the walk keeps and drops what it finds.
    pub fn filter(&self) -> (filter: &WalkFilter)
        ensures
            filter.range@ == self@.depth_range,
            filter.extensions@ == self@.sources,
    {
        &self.filter
    }

    /// The directory to search.
    pub fn input_dir(&self) -> (dir: &str)
        ensures
            dir@ == self@.input_dir,
    {
        self.input_dir.as_str()
    }

    /// The number of workers, which is not zero.
    pub fn workers(&self) -> (workers: usize)
        ensures
            workers == self@.workers,
            workers > 0,
    {
        proof {
            use_type_invariant(self);
        }
        self.workers
    }

    /// The chunks of the workers, from the reports of a finished walk: the
    /// sources among the reports, in their order, split among the workers.
    /// Where the root could not be read there is nothing to split.
    pub fn plan(&self, visits: &Vec<Visit>) -> (chunks: Result<
        Vec<Vec<SourceEntry>>,
        TraversalError,
    >)
        ensures
            chunks is Err <==> root_unreadable(visit_views(visits@)),
            chunks matches Ok(c) ==> c.len() == self@.workers && chunk_entry_views(c@)
                == chunks_of(
                yielded(visit_views(visits@), self@.depth_range, self@.sources),
                self@.workers as nat,
            ),
    {
        proof {
            use_type_invariant(self);
        }
        match self.filter.collect(visits) {
            Err(e) => Err(e),
            Ok(entries) => {
                let ghost all = entries@;
                let chunks = partition(entries, self.workers);
                proof {
                    let workers = self.workers as nat;
                    assert forall|i: int| 0 <= i < workers implies #[trigger] chunk_entry_views(
                        chunks@,
                    )[i] == chunks_of(entry_views(all), workers)[i] by {
                        lemma_chunks_lie_end_to_end(all.len(), workers, i as nat);
                        assert(chunk_views(chunks@)[i] == chunk_of(all, workers, i as nat));
                        assert(entry_views(chunk_of(all, workers, i as nat)) =~= chunk_of(
                            entry_views(all),
                            workers,
                            i as nat,
                        ));
                    }
                    assert(chunk_entry_views(chunks@) =~= chunks_of(entry_views(all), workers));
                }
                Ok(chunks)
            },
        }
    }

    /// What the workers go by.
    pub fn settings(&self) -> (settings: Settings)
        ensures
            settings@ == self@.settings(),
    {
        Settings {
            target: self.target.extension().to_owned(),
            dest_dir: match &self.output_dir {
                Some(dir) => Some(dir.clone()),
                None => None,
            },
            delete_original: self.delete_original,
            fail_fast: self.fail_fast,
        }
    }
}

} // verus!
