//! The plan of an extraction run: the directories to create, in archive
//! order, and the file jobs, each with its output path.

use vstd::prelude::*;
use vstd::utf8::encode_utf8;
use crate::args::Args;
use crate::datetime::ArchiveDateTime;
use crate::filter::{should_extract_spec, strings_bytes, EntryFilter};

verus! {

/// One entry of the archive's directory listing.
#[derive(Clone, Debug)]
pub struct ArchiveEntry {
    /// Archive-relative name, `/`-separated.
    pub name: String,
    /// Whether the entry is a directory.
    pub is_dir: bool,
    /// Uncompressed size in bytes.
    pub size: u64,
    /// Last-modified time, when the archive has one.
    pub mtime: Option<ArchiveDateTime>,
    /// Unix permission bits, when the archive has them.
    pub unix_mode: Option<u32>,
    /// Whether the entry's data is encrypted.
    pub encrypted: bool,
    /// Whether the decoder found the name to stay inside the output root.
    pub enclosed: bool,
}

/// A file to write, handed to exactly one worker.
#[derive(Clone, Debug)]
pub struct FileJob {
    /// Position of the entry in the archive.
    pub index: usize,
    /// The entry's name in the archive.
    pub name: String,
    /// Output path, relative to the output directory.
    pub path: String,
    pub size: u64,
    pub mtime: Option<ArchiveDateTime>,
    pub unix_mode: Option<u32>,
    pub encrypted: bool,
}

/// A directory to create, and whose time is restored at the end.
#[derive(Clone, Debug)]
pub struct DirectoryRecord {
    /// Output path, relative to the output directory.
    pub path: String,
    pub mtime: Option<ArchiveDateTime>,
}

/// The outcome of planning.
pub struct ExtractionPlan {
    /// Directories to create, in archive order.
    pub directories: Vec<DirectoryRecord>,
    /// Files to write, in archive order.
    pub jobs: Vec<FileJob>,
    /// Number of file entries that the patterns left out.
    pub filtered: usize,
}

/// What `str::to_lowercase` returns on a string.
pub uninterp spec fn lower_of(s: Seq<char>) -> Seq<char>;

/// Relies on `str::to_lowercase`: the Unicode lower case of every character,
/// a function of the characters alone; the empty string stays empty.
#[verifier::external_body]
fn lowercase(s: &str) -> (r: String)
    ensures
        r@ == lower_of(s@),
        s@.len() == 0 ==> r@.len() == 0,
{
    s.to_lowercase()
}

/// Where the last `/`-separated segment of `s[..n]` starts.
pub open spec fn segment_start(s: Seq<char>, n: int) -> int
    decreases n,
{
    if n <= 0 {
        0
    } else if s[n - 1] == '/' {
        n
    } else {
        segment_start(s, n - 1)
    }
}

/// What follows the last `/` of a name (the whole name when it has none).
pub open spec fn last_segment(s: Seq<char>) -> Seq<char> {
    s.subrange(segment_start(s, s.len() as int), s.len() as int)
}

/// A file name that can be written directly into the output directory.
pub open spec fn plain_file_name(b: Seq<char>) -> bool {
    b.len() > 0 && b != seq!['.'] && b != seq!['.', '.']
}

/// The output path of an entry, relative to the output directory.
pub open spec fn relative_path(name: Seq<char>, junk_paths: bool, lowercase: bool) -> Seq<char> {
    let base = if junk_paths {
        last_segment(name)
    } else {
        name
    };
    if lowercase {
        lower_of(base)
    } else {
        base
    }
}

/// Whether the patterns of `args` select the entry.
pub open spec fn is_selected(e: ArchiveEntry, args: Args) -> bool {
    should_extract_spec(
        encode_utf8(e.name@),
        strings_bytes(args.patterns@),
        strings_bytes(args.exclude@),
        args.case_insensitive,
    )
}

/// Whether the entry's output path is safe to write.
pub open spec fn path_allowed(e: ArchiveEntry, junk_paths: bool) -> bool {
    e.enclosed && (!junk_paths || plain_file_name(last_segment(e.name@)))
}

/// A file entry that becomes a job.
pub open spec fn is_job(e: ArchiveEntry, args: Args) -> bool {
    !e.is_dir && is_selected(e, args) && path_allowed(e, args.junk_paths)
}

/// A file entry that the patterns leave out.
pub open spec fn is_filtered(e: ArchiveEntry, args: Args) -> bool {
    !e.is_dir && !is_selected(e, args)
}

/// A directory entry that is created (none are, when paths are junked).
pub open spec fn is_planned_dir(e: ArchiveEntry, args: Args) -> bool {
    e.is_dir && !args.junk_paths && e.enclosed
}

/// The positions among the first `n` entries that become jobs, in order.
pub open spec fn job_indices(entries: Seq<ArchiveEntry>, args: Args, n: int) -> Seq<int>
    decreases n,
{
    if n <= 0 {
        Seq::empty()
    } else if is_job(entries[n - 1], args) {
        job_indices(entries, args, n - 1).push(n - 1)
    } else {
        job_indices(entries, args, n - 1)
    }
}

/// The positions among the first `n` entries that are created as
/// directories, in order.
pub open spec fn dir_indices(entries: Seq<ArchiveEntry>, args: Args, n: int) -> Seq<int>
    decreases n,
{
    if n <= 0 {
        Seq::empty()
    } else if is_planned_dir(entries[n - 1], args) {
        dir_indices(entries, args, n - 1).push(n - 1)
    } else {
        dir_indices(entries, args, n - 1)
    }
}

/// How many of the first `n` entries the patterns leave out.
pub open spec fn filtered_count(entries: Seq<ArchiveEntry>, args: Args, n: int) -> nat
    decreases n,
{
    if n <= 0 {
        0
    } else if is_filtered(entries[n - 1], args) {
        filtered_count(entries, args, n - 1) + 1
    } else {
        filtered_count(entries, args, n - 1)
    }
}

/// The job made of entry `e` at position `index`.
pub open spec fn job_of(j: FileJob, e: ArchiveEntry, index: int, args: Args) -> bool {
    &&& j.index == index
    &&& j.name@ == e.name@
    &&& j.path@ == relative_path(e.name@, args.junk_paths, args.lowercase)
    &&& j.size == e.size
    &&& j.mtime == e.mtime
    &&& j.unix_mode == e.unix_mode
    &&& j.encrypted == e.encrypted
}

/// The directory record made of entry `e`.
pub open spec fn dir_of(d: DirectoryRecord, e: ArchiveEntry, args: Args) -> bool {
    &&& d.path@ == relative_path(e.name@, false, args.lowercase)
    &&& d.mtime == e.mtime
}

/// Position of the last `/` in `s`, plus one (0 when there is none).
fn find_segment_start(s: &str) -> (r: usize)
    ensures
        r == segment_start(s@, s@.len() as int),
        r <= s@.len(),
{
    let n = s.unicode_len();
    let mut i: usize = n;
    while i > 0 && s.get_char(i - 1) != '/'
        invariant
            i <= n,
            n == s@.len(),
            segment_start(s@, n as int) == segment_start(s@, i as int),
        decreases i,
    {
        i = i - 1;
    }
    i
}

/// The output path of a name.
fn output_path(name: &str, junk_paths: bool, lower: bool) -> (r: String)
    ensures
        r@ == relative_path(name@, junk_paths, lower),
{
    let base: &str = if junk_paths {
        let start = find_segment_start(name);
        name.substring_char(start, name.unicode_len())
    } else {
        name
    };
    if lower {
        lowercase(base)
    } else {
        base.to_owned()
    }
}

/// Whether a junked file name is one that can be written.
fn is_plain_file_name(b: &str) -> (r: bool)
    ensures
        r == plain_file_name(b@),
{
    let n = b.unicode_len();
    if n == 0 {
        return false;
    }
    if n == 1 && b.get_char(0) == '.' {
        assert(b@ =~= seq!['.']);
        return false;
    }
    if n == 2 && b.get_char(0) == '.' && b.get_char(1) == '.' {
        assert(b@ =~= seq!['.', '.']);
        return false;
    }
    proof {
        if n == 1 {
            assert(b@ != seq!['.']);
        }
        if n == 2 {
            assert(b@[0] != '.' || b@[1] != '.');
            assert(b@ != seq!['.', '.']);
        }
    }
    true
}

/// Whether the entry's output path is safe to write.
fn entry_path_allowed(e: &ArchiveEntry, junk_paths: bool) -> (r: bool)
    ensures
        r == path_allowed(*e, junk_paths),
{
    if !e.enclosed {
        return false;
    }
    if !junk_paths {
        return true;
    }
    let start = find_segment_start(e.name.as_str());
    let base = e.name.as_str().substring_char(start, e.name.as_str().unicode_len());
    is_plain_file_name(base)
}

/// Enumerates the entries once: the directories to create, the files to
/// write, and how many files the patterns leave out. Entries whose path is
/// not safe to write are left out without being counted.
pub fn plan_extraction(entries: &Vec<ArchiveEntry>, args: &Args) -> (plan: ExtractionPlan)
    ensures
        plan.jobs@.len() == job_indices(entries@, *args, entries@.len() as int).len(),
        forall|k: int|
            0 <= k < plan.jobs@.len() ==> {
                let i = job_indices(entries@, *args, entries@.len() as int)[k];
                job_of(#[trigger] plan.jobs@[k], entries@[i], i, *args)
            },
        plan.directories@.len() == dir_indices(entries@, *args, entries@.len() as int).len(),
        forall|k: int|
            0 <= k < plan.directories@.len() ==> {
                let i = dir_indices(entries@, *args, entries@.len() as int)[k];
                dir_of(#[trigger] plan.directories@[k], entries@[i], *args)
            },
        plan.filtered == filtered_count(entries@, *args, entries@.len() as int),
{
    let filter = EntryFilter::new(args.patterns.as_slice(), args.exclude.as_slice(), args.case_insensitive);
    let mut directories: Vec<DirectoryRecord> = Vec::new();
    let mut jobs: Vec<FileJob> = Vec::new();
    let mut filtered: usize = 0;
    let mut i: usize = 0;
    while i < entries.len()
        invariant
            i <= entries@.len(),
            filter.patterns_spec() == crate::filter::fold_all(
                strings_bytes(args.patterns@),
                args.case_insensitive,
            ),
            filter.exclude_spec() == crate::filter::fold_all(
                strings_bytes(args.exclude@),
                args.case_insensitive,
            ),
            filter.case_insensitive_spec() == args.case_insensitive,
            filtered <= i,
            filtered == filtered_count(entries@, *args, i as int),
            jobs@.len() == job_indices(entries@, *args, i as int).len(),
            forall|k: int|
                0 <= k < jobs@.len() ==> {
                    let j = job_indices(entries@, *args, i as int)[k];
                    job_of(#[trigger] jobs@[k], entries@[j], j, *args)
                },
            directories@.len() == dir_indices(entries@, *args, i as int).len(),
            forall|k: int|
                0 <= k < directories@.len() ==> {
                    let j = dir_indices(entries@, *args, i as int)[k];
                    dir_of(#[trigger] directories@[k], entries@[j], *args)
                },
        decreases entries@.len() - i,
    {
        let e = &entries[i];
        if e.is_dir {
            if !args.junk_paths && e.enclosed {
                let path = output_path(e.name.as_str(), false, args.lowercase);
                directories.push(DirectoryRecord { path, mtime: e.mtime });
            }
        } else if !filter.should_extract(e.name.as_str()) {
            filtered = filtered + 1;
        } else if entry_path_allowed(e, args.junk_paths) {
            let path = output_path(e.name.as_str(), args.junk_paths, args.lowercase);
            jobs.push(
                FileJob {
                    index: i,
                    name: e.name.clone(),
                    path,
                    size: e.size,
                    mtime: e.mtime,
                    unix_mode: e.unix_mode,
                    encrypted: e.encrypted,
                },
            );
        }
        i = i + 1;
    }
    ExtractionPlan { directories, jobs, filtered }
}

impl ExtractionPlan {
    /// Whether some job is encrypted, so that a password may be needed.
    pub fn has_encrypted_job(&self) -> (r: bool)
        ensures
            r == exists|k: int| 0 <= k < self.jobs@.len() && #[trigger] self.jobs@[k].encrypted,
    {
        let mut k: usize = 0;
        while k < self.jobs.len()
            invariant
                k <= self.jobs@.len(),
                forall|m: int| 0 <= m < k ==> !#[trigger] self.jobs@[m].encrypted,
            decreases self.jobs@.len() - k,
        {
            if self.jobs[k].encrypted {
                return true;
            }
            k = k + 1;
        }
        false
    }
}

/// A file entry that is written to standard output in pipe mode.
pub open spec fn is_piped(e: ArchiveEntry, args: Args) -> bool {
    !e.is_dir && is_selected(e, args)
}

/// The positions among the first `n` entries that are written to standard
/// output, in order.
pub open spec fn piped_indices(entries: Seq<ArchiveEntry>, args: Args, n: int) -> Seq<int>
    decreases n,
{
    if n <= 0 {
        Seq::empty()
    } else if is_piped(entries[n - 1], args) {
        piped_indices(entries, args, n - 1).push(n - 1)
    } else {
        piped_indices(entries, args, n - 1)
    }
}

/// The entries whose data pipe mode writes, in archive order: every file
/// that the patterns select. Paths play no part, as nothing is written to
/// disk.
pub fn pipe_selection(entries: &Vec<ArchiveEntry>, args: &Args) -> (r: Vec<usize>)
    ensures
        r@.len() == piped_indices(entries@, *args, entries@.len() as int).len(),
        forall|k: int|
            0 <= k < r@.len() ==> #[trigger] r@[k] == piped_indices(
                entries@,
                *args,
                entries@.len() as int,
            )[k],
{
    let filter = EntryFilter::new(args.patterns.as_slice(), args.exclude.as_slice(), args.case_insensitive);
    let mut r: Vec<usize> = Vec::new();
    let mut i: usize = 0;
    while i < entries.len()
        invariant
            i <= entries@.len(),
            filter.patterns_spec() == crate::filter::fold_all(
                strings_bytes(args.patterns@),
                args.case_insensitive,
            ),
            filter.exclude_spec() == crate::filter::fold_all(
                strings_bytes(args.exclude@),
                args.case_insensitive,
            ),
            filter.case_insensitive_spec() == args.case_insensitive,
            r@.len() == piped_indices(entries@, *args, i as int).len(),
            forall|k: int|
                0 <= k < r@.len() ==> #[trigger] r@[k] == piped_indices(entries@, *args, i as int)[k],
        decreases entries@.len() - i,
    {
        let e = &entries[i];
        if !e.is_dir && filter.should_extract(e.name.as_str()) {
            r.push(i);
        }
        i = i + 1;
    }
    r
}

} // verus!
