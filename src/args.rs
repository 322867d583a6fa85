//! The options of a run.

use vstd::prelude::*;
use crate::policy::OverwriteFlags;

verus! {

/// The options of a run, as the command line gives them.
#[derive(Clone, Debug)]
pub struct Args {
    /// Path of the archive.
    pub zipfile: String,
    /// Directory to extract into (the current directory when absent).
    pub output_dir: Option<String>,
    /// List the contents only.
    pub list_only: bool,
    /// List the contents verbosely.
    pub verbose: bool,
    /// Test the archive's integrity.
    pub test: bool,
    /// Write the selected files to standard output.
    pub pipe: bool,
    /// Show the archive comment only.
    pub comment_only: bool,
    /// Replace existing files.
    pub overwrite: bool,
    /// Never replace existing files.
    pub never_overwrite: bool,
    /// Replace existing older files only; create no new one.
    pub freshen: bool,
    /// Replace existing older files and create missing ones.
    pub update: bool,
    /// Write every file into the output directory itself.
    pub junk_paths: bool,
    /// Match names and patterns without regard to ASCII case.
    pub case_insensitive: bool,
    /// Lower-case the output paths.
    pub lowercase: bool,
    /// 0: full progress, 1: errors only, 2: silent.
    pub quiet: u8,
    /// Number of workers (chosen from the machine when absent).
    pub threads: Option<usize>,
    /// Patterns of the entries to extract (all of them when empty).
    pub patterns: Vec<String>,
    /// Patterns of the entries to leave out.
    pub exclude: Vec<String>,
}

impl Args {
    /// The overwrite options among the arguments.
    pub fn overwrite_flags(&self) -> (f: OverwriteFlags)
        ensures
            f == (OverwriteFlags {
                overwrite: self.overwrite,
                never_overwrite: self.never_overwrite,
                freshen: self.freshen,
                update: self.update,
            }),
    {
        OverwriteFlags {
            overwrite: self.overwrite,
            never_overwrite: self.never_overwrite,
            freshen: self.freshen,
            update: self.update,
        }
    }
}

} // verus!
