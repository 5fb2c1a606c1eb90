//! Work distribution for a batch image converter: which files to take, how to
//! split them among workers, and what each worker does with one file.
//!
//! Nothing here touches the disk, a codec or a terminal. The caller lists
//! directories, decodes and encodes, and draws progress; this crate decides.
//!
//! A run goes through the modules in this order:
//!
//! - [`config`] checks the settings once, with [`depth`], [`extension`] and
//!   [`format`] for their parts;
//! - [`walk`] picks the sources out of what a walk over the input directory
//!   reports;
//! - [`partition`] splits them into one chunk for each worker;
//! - [`worker`] takes one chunk through its entries, each of which is a
//!   [`task`], and counts them in a lane of [`progress`];
//! - [`summary`] puts the outcomes of all workers together.
//!
//! [`path`], [`text`] and [`decimal`] hold what the others share, and
//! [`error`] what can be wrong with the settings.

pub mod config;
pub mod decimal;
pub mod depth;
pub mod error;
pub mod extension;
pub mod format;
pub mod partition;
pub mod path;
pub mod progress;
pub mod summary;
pub mod task;
pub mod text;
pub mod walk;
pub mod worker;
