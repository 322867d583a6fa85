use unzip::datetime::{datetime_to_unix_seconds, days_from_date, ArchiveDateTime};
use unzip::plan::pipe_selection;
use unzip::scheduler::{partition_jobs, restore_order, tally, worker_count, JobOutcome, Summary};
use unzip::{
    decide_overwrite, plan_extraction, ArchiveEntry, Args, ExtractionPlan, OverwriteDecision,
    OverwriteFlags,
};

fn default_args() -> Args {
    Args {
        zipfile: "test.zip".to_string(),
        output_dir: None,
        list_only: false,
        verbose: false,
        test: false,
        pipe: false,
        comment_only: false,
        overwrite: true,
        never_overwrite: false,
        freshen: false,
        update: false,
        junk_paths: false,
        case_insensitive: false,
        lowercase: false,
        quiet: 2,
        threads: None,
        patterns: vec![],
        exclude: vec![],
    }
}

fn file(name: &str, size: u64) -> ArchiveEntry {
    ArchiveEntry {
        name: name.to_string(),
        is_dir: false,
        size,
        mtime: None,
        unix_mode: None,
        encrypted: false,
        enclosed: true,
    }
}

fn dir(name: &str) -> ArchiveEntry {
    ArchiveEntry { is_dir: true, ..file(name, 0) }
}

fn job_paths(plan: &ExtractionPlan) -> Vec<String> {
    plan.jobs.iter().map(|j| j.path.clone()).collect()
}

/// Runs the decisions of an extraction over an output directory that holds
/// the given paths, and returns the counts.
fn run(plan: &ExtractionPlan, args: &Args, on_disk: &[&str]) -> Summary {
    let mut outcomes = Vec::new();
    for _ in 0..plan.filtered {
        outcomes.push(JobOutcome::Skipped);
    }
    for job in &plan.jobs {
        let exists = on_disk.contains(&job.path.as_str());
        match job.decide(exists, Some(0), args.overwrite_flags()) {
            OverwriteDecision::Overwrite => outcomes.push(JobOutcome::Written { size: job.size }),
            _ => outcomes.push(JobOutcome::Skipped),
        }
    }
    tally(&outcomes)
}

#[test]
fn two_files_with_default_options() {
    let entries = vec![file("test.txt", 12), file("subdir/nested.txt", 14)];
    let args = default_args();
    let plan = plan_extraction(&entries, &args);
    assert_eq!(job_paths(&plan), vec!["test.txt".to_string(), "subdir/nested.txt".to_string()]);
    let s = run(&plan, &args, &[]);
    assert_eq!(s, Summary { extracted: 2, skipped: 0, total_bytes: 26 });
}

#[test]
fn selection_and_exclusion_together() {
    let entries = vec![file("test.txt", 12), file("subdir/nested.txt", 14)];
    let mut args = default_args();
    args.patterns = vec!["*.txt".to_string()];
    args.exclude = vec!["subdir/*".to_string()];
    let plan = plan_extraction(&entries, &args);
    assert_eq!(job_paths(&plan), vec!["test.txt".to_string()]);
    assert_eq!(plan.filtered, 1);
    let s = run(&plan, &args, &[]);
    assert_eq!(s.extracted, 1);
    assert_eq!(s.skipped, 1);
}

#[test]
fn never_overwrite_keeps_the_existing_file() {
    let entries = vec![file("test.txt", 11)];
    let mut args = default_args();
    args.overwrite = false;
    args.never_overwrite = true;
    let plan = plan_extraction(&entries, &args);
    let s = run(&plan, &args, &["test.txt"]);
    assert_eq!(s, Summary { extracted: 0, skipped: 1, total_bytes: 0 });
}

#[test]
fn overwrite_twice_gives_the_same_counts() {
    let entries = vec![file("a.txt", 3), dir("d/"), file("d/b.txt", 4)];
    let args = default_args();
    let plan = plan_extraction(&entries, &args);
    let first = run(&plan, &args, &[]);
    let second = run(&plan, &args, &["a.txt", "d/b.txt"]);
    assert_eq!(first, second);
    assert_eq!(first, Summary { extracted: 2, skipped: 0, total_bytes: 7 });
}

#[test]
fn selection_by_pattern_lists() {
    let entries = vec![
        file("file.txt", 1),
        file("file.rs", 1),
        file("src/main.rs", 1),
        file("doc/readme.txt", 1),
    ];
    let mut args = default_args();
    args.patterns = vec!["*.txt".to_string()];
    let plan = plan_extraction(&entries, &args);
    assert_eq!(job_paths(&plan), vec!["file.txt".to_string()]);
    assert_eq!(plan.filtered, 3);
    args.patterns = vec!["*.txt".to_string(), "*.rs".to_string()];
    let plan = plan_extraction(&entries, &args);
    assert_eq!(job_paths(&plan), vec!["file.txt".to_string(), "file.rs".to_string()]);
    args.patterns = vec![];
    args.exclude = vec!["*.rs".to_string()];
    let plan = plan_extraction(&entries, &args);
    assert_eq!(
        job_paths(&plan),
        vec!["file.txt".to_string(), "src/main.rs".to_string(), "doc/readme.txt".to_string()]
    );
}

#[test]
fn junked_paths_and_lowercase() {
    let entries = vec![dir("Deep/"), file("Deep/Nested/FILE.TXT", 7), file("a/..", 1)];
    let mut args = default_args();
    args.junk_paths = true;
    let plan = plan_extraction(&entries, &args);
    assert!(plan.directories.is_empty());
    assert_eq!(job_paths(&plan), vec!["FILE.TXT".to_string()]);
    args.junk_paths = false;
    args.lowercase = true;
    let entries = vec![dir("Dir/"), file("FILE.TXT", 7), file("Dir/NESTED.RS", 4)];
    let plan = plan_extraction(&entries, &args);
    assert_eq!(job_paths(&plan), vec!["file.txt".to_string(), "dir/nested.rs".to_string()]);
    assert_eq!(plan.directories.len(), 1);
    assert_eq!(plan.directories[0].path, "dir/");
}

#[test]
fn entries_outside_the_root_are_left_out() {
    let mut bad = file("../evil.txt", 5);
    bad.enclosed = false;
    let entries = vec![bad, file("good.txt", 4)];
    let plan = plan_extraction(&entries, &default_args());
    assert_eq!(job_paths(&plan), vec!["good.txt".to_string()]);
    assert_eq!(plan.filtered, 0);
}

#[test]
fn empty_archive_plans_nothing() {
    let plan = plan_extraction(&vec![], &default_args());
    assert!(plan.jobs.is_empty());
    assert!(plan.directories.is_empty());
    assert_eq!(plan.filtered, 0);
    assert_eq!(tally(&vec![]), Summary { extracted: 0, skipped: 0, total_bytes: 0 });
}

#[test]
fn overwrite_table() {
    let plain = OverwriteFlags { overwrite: false, never_overwrite: false, freshen: false, update: false };
    let freshen = OverwriteFlags { freshen: true, ..plain };
    let update = OverwriteFlags { update: true, ..plain };
    let never = OverwriteFlags { never_overwrite: true, ..plain };
    let over = OverwriteFlags { overwrite: true, ..plain };
    assert_eq!(decide_overwrite(false, None, Some(5), freshen), OverwriteDecision::SkipQuietly);
    assert_eq!(decide_overwrite(false, None, Some(5), plain), OverwriteDecision::Overwrite);
    assert_eq!(decide_overwrite(false, None, Some(5), update), OverwriteDecision::Overwrite);
    assert_eq!(decide_overwrite(true, Some(10), Some(5), never), OverwriteDecision::Skip);
    assert_eq!(decide_overwrite(true, Some(10), Some(5), over), OverwriteDecision::Overwrite);
    assert_eq!(decide_overwrite(true, Some(10), Some(5), plain), OverwriteDecision::Skip);
    assert_eq!(decide_overwrite(true, Some(10), Some(5), update), OverwriteDecision::SkipQuietly);
    assert_eq!(decide_overwrite(true, Some(5), Some(5), freshen), OverwriteDecision::SkipQuietly);
    assert_eq!(decide_overwrite(true, Some(4), Some(5), freshen), OverwriteDecision::Overwrite);
    assert_eq!(decide_overwrite(true, Some(4), None, update), OverwriteDecision::SkipQuietly);
    assert_eq!(decide_overwrite(true, None, Some(5), update), OverwriteDecision::Overwrite);
}

#[test]
fn worker_counts() {
    assert_eq!(worker_count(true, 10, false, Some(4), 8), 1);
    assert_eq!(worker_count(false, 1, false, Some(4), 8), 1);
    assert_eq!(worker_count(false, 10, true, Some(4), 8), 1);
    assert_eq!(worker_count(false, 10, false, Some(4), 8), 4);
    assert_eq!(worker_count(false, 10, false, None, 8), 8);
    assert_eq!(worker_count(false, 3, false, None, 8), 3);
    assert_eq!(worker_count(false, 3, false, Some(0), 8), 1);
}

#[test]
fn partitions_are_contiguous_and_balanced() {
    assert_eq!(partition_jobs(10, 3), vec![(0, 4), (4, 7), (7, 10)]);
    assert_eq!(partition_jobs(2, 8), vec![(0, 1), (1, 2)]);
    assert_eq!(partition_jobs(0, 4), vec![]);
    assert_eq!(partition_jobs(5, 1), vec![(0, 5)]);
}

#[test]
fn split_counts_add_up_to_the_whole() {
    let outcomes = vec![
        JobOutcome::Written { size: 10 },
        JobOutcome::Skipped,
        JobOutcome::Written { size: 5 },
        JobOutcome::Written { size: 1 },
    ];
    let whole = tally(&outcomes);
    for (start, end) in partition_jobs(outcomes.len(), 1) {
        assert_eq!(tally(&outcomes[start..end].to_vec()), whole);
    }
    let mut merged = Summary::new();
    for (start, end) in partition_jobs(outcomes.len(), 3) {
        merged = merged.merge(&tally(&outcomes[start..end].to_vec()));
    }
    assert_eq!(merged, whole);
    assert_eq!(whole, Summary { extracted: 3, skipped: 1, total_bytes: 16 });
}

#[test]
fn counts_stop_at_the_largest_value() {
    let mut s = Summary { extracted: u64::MAX, skipped: 0, total_bytes: u64::MAX - 1 };
    s.record(JobOutcome::Written { size: 5 });
    assert_eq!(s, Summary { extracted: u64::MAX, skipped: 0, total_bytes: u64::MAX });
}

#[test]
fn directories_are_restored_deepest_first() {
    let entries = vec![dir("a/"), dir("a/b/"), file("a/b/c.txt", 1), dir("a/d/")];
    let plan = plan_extraction(&entries, &default_args());
    let order = restore_order(&plan.directories);
    let paths: Vec<&str> = order.iter().map(|&k| plan.directories[k].path.as_str()).collect();
    assert_eq!(paths, vec!["a/d/", "a/b/", "a/"]);
}

#[test]
fn dates_to_days_and_seconds() {
    assert_eq!(days_from_date(1970, 1, 1), 0);
    assert_eq!(days_from_date(2000, 3, 1), 11017);
    assert_eq!(days_from_date(1969, 12, 31), -1);
    assert_eq!(days_from_date(1980, 1, 1), 3652);
    assert_eq!(days_from_date(2024, 2, 29), 19782);
    assert_eq!(days_from_date(-1, 12, 31), -719529);
    let dt = ArchiveDateTime { year: 2021, month: 8, day: 11, hour: 13, minute: 48, second: 2 };
    assert_eq!(datetime_to_unix_seconds(dt), Some(1628689682));
    let bad = ArchiveDateTime { month: 13, ..dt };
    assert_eq!(datetime_to_unix_seconds(bad), None);
}

#[test]
fn pipe_mode_takes_selected_files_only() {
    let mut outside = file("../x.txt", 1);
    outside.enclosed = false;
    let entries = vec![dir("d/"), file("d/a.txt", 1), file("b.rs", 1), outside];
    let mut args = default_args();
    args.patterns = vec!["**/*.txt".to_string()];
    assert_eq!(pipe_selection(&entries, &args), vec![1, 3]);
    args.patterns = vec![];
    assert_eq!(pipe_selection(&entries, &args), vec![1, 2, 3]);
}

#[test]
fn encrypted_jobs_are_noticed() {
    let mut locked = file("secret.txt", 1);
    locked.encrypted = true;
    let plan = plan_extraction(&vec![file("a.txt", 1), locked], &default_args());
    assert!(plan.has_encrypted_job());
    let plan = plan_extraction(&vec![file("a.txt", 1)], &default_args());
    assert!(!plan.has_encrypted_job());
}
