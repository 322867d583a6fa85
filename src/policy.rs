//! What to do with an entry whose output path may already exist.

use vstd::prelude::*;

verus! {

/// The outcome of the overwrite rules for one file.
#[derive(Clone, Copy, Debug, PartialEq, Eq, Structural)]
pub enum OverwriteDecision {
    /// Write the file.
    Overwrite,
    /// Leave the file on disk, and report it.
    Skip,
    /// Leave the file on disk without a word.
    SkipQuietly,
}

/// The overwrite options of a run.
#[derive(Clone, Copy, Debug, PartialEq, Eq, Structural)]
pub struct OverwriteFlags {
    /// Replace existing files.
    pub overwrite: bool,
    /// Never replace existing files.
    pub never_overwrite: bool,
    /// Only replace existing files that are older than the archive's copy;
    /// create no new file.
    pub freshen: bool,
    /// Replace existing files that are older than the archive's copy, and
    /// create missing ones.
    pub update: bool,
}

/// The decision table, checked in order. Times are in seconds since the Unix
/// epoch; `None` is a time that is not known.
pub open spec fn overwrite_spec(
    exists: bool,
    disk_mtime: Option<i64>,
    archive_mtime: Option<i64>,
    flags: OverwriteFlags,
) -> OverwriteDecision {
    if !exists {
        if flags.freshen {
            OverwriteDecision::SkipQuietly
        } else {
            OverwriteDecision::Overwrite
        }
    } else if (flags.freshen || flags.update) && (archive_mtime is None || disk_mtime is Some) {
        match (disk_mtime, archive_mtime) {
            (Some(disk), Some(archive)) if disk < archive => OverwriteDecision::Overwrite,
            _ => OverwriteDecision::SkipQuietly,
        }
    } else if flags.never_overwrite {
        OverwriteDecision::Skip
    } else if flags.overwrite || flags.freshen || flags.update {
        OverwriteDecision::Overwrite
    } else {
        OverwriteDecision::Skip
    }
}

/// Decides whether the file at an output path is written.
///
/// `exists` tells whether the path exists on disk, `disk_mtime` is its
/// modification time when it could be read, and `archive_mtime` the entry's
/// own. Under `freshen` or `update` an existing file is replaced only by a
/// strictly newer copy, and kept quietly when the archive's time is unknown;
/// when the time on disk cannot be read, the remaining rules decide.
pub fn decide_overwrite(
    exists: bool,
    disk_mtime: Option<i64>,
    archive_mtime: Option<i64>,
    flags: OverwriteFlags,
) -> (r: OverwriteDecision)
    ensures
        r == overwrite_spec(exists, disk_mtime, archive_mtime, flags),
{
    if !exists {
        if flags.freshen {
            return OverwriteDecision::SkipQuietly;
        }
        return OverwriteDecision::Overwrite;
    }
    if flags.freshen || flags.update {
        match archive_mtime {
            None => {
                return OverwriteDecision::SkipQuietly;
            },
            Some(archive) => {
                if let Some(disk) = disk_mtime {
                    if disk >= archive {
                        return OverwriteDecision::SkipQuietly;
                    }
                    return OverwriteDecision::Overwrite;
                }
            },
        }
    }
    if flags.never_overwrite {
        OverwriteDecision::Skip
    } else if flags.overwrite || flags.freshen || flags.update {
        OverwriteDecision::Overwrite
    } else {
        OverwriteDecision::Skip
    }
}

/// The four fixed points of the table: a missing file is skipped quietly
/// under `freshen` and written otherwise; an existing file is skipped under
/// `never_overwrite` and written under `overwrite` (when neither `freshen`
/// nor `update` asks for a time comparison).
pub proof fn lemma_overwrite_table(
    disk_mtime: Option<i64>,
    archive_mtime: Option<i64>,
    flags: OverwriteFlags,
)
    ensures
        flags.freshen ==> overwrite_spec(false, disk_mtime, archive_mtime, flags)
            == OverwriteDecision::SkipQuietly,
        !flags.freshen ==> overwrite_spec(false, disk_mtime, archive_mtime, flags)
            == OverwriteDecision::Overwrite,
        flags.never_overwrite && !flags.freshen && !flags.update ==> overwrite_spec(
            true,
            disk_mtime,
            archive_mtime,
            flags,
        ) == OverwriteDecision::Skip,
        flags.overwrite && !flags.never_overwrite && !flags.freshen && !flags.update
            ==> overwrite_spec(true, disk_mtime, archive_mtime, flags)
            == OverwriteDecision::Overwrite,
{
}

/// Under `overwrite` alone, the decision does not depend on what is on disk:
/// a second run over the same output directory writes every file that the
/// first one wrote.
pub proof fn lemma_overwrite_ignores_disk(
    exists_first: bool,
    disk_first: Option<i64>,
    exists_second: bool,
    disk_second: Option<i64>,
    archive_mtime: Option<i64>,
    flags: OverwriteFlags,
)
    requires
        flags.overwrite,
        !flags.never_overwrite,
        !flags.freshen,
        !flags.update,
    ensures
        overwrite_spec(exists_first, disk_first, archive_mtime, flags) == overwrite_spec(
            exists_second,
            disk_second,
            archive_mtime,
            flags,
        ),
        overwrite_spec(exists_first, disk_first, archive_mtime, flags)
            == OverwriteDecision::Overwrite,
{
}

} // verus!
