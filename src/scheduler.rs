//! Sharing the file jobs out among workers, and tallying what they did.

use vstd::prelude::*;
use crate::datetime::{archive_seconds, datetime_to_unix_seconds};
use crate::plan::{DirectoryRecord, FileJob};
use crate::policy::{decide_overwrite, overwrite_spec, OverwriteDecision, OverwriteFlags};

verus! {

/// How many workers a run uses: one when progress is shown, when there are
/// fewer than two jobs, or when a password may still have to be asked for;
/// else the parallelism asked for (or the machine's, when none is asked
/// for), at least one and at most one per job.
pub open spec fn worker_count_spec(
    progress: bool,
    job_count: usize,
    needs_prompt: bool,
    requested: Option<usize>,
    available: usize,
) -> int {
    if progress || job_count < 2 || needs_prompt {
        1
    } else {
        let want: int = match requested {
            Some(n) => n as int,
            None => available as int,
        };
        if want < 1 {
            1
        } else if want > job_count {
            job_count as int
        } else {
            want
        }
    }
}

/// The number of workers for a run.
pub fn worker_count(
    progress: bool,
    job_count: usize,
    needs_prompt: bool,
    requested: Option<usize>,
    available: usize,
) -> (r: usize)
    ensures
        r == worker_count_spec(progress, job_count, needs_prompt, requested, available),
        1 <= r,
        job_count >= 1 ==> r <= job_count,
{
    if progress || job_count < 2 || needs_prompt {
        return 1;
    }
    let want = match requested {
        Some(n) => n,
        None => available,
    };
    if want < 1 {
        1
    } else if want > job_count {
        job_count
    } else {
        want
    }
}

/// Splits the jobs `0..job_count` into `min(workers, job_count)` contiguous,
/// non-empty ranges `(start, end)`, in order, that cover them all and whose
/// lengths differ by at most one.
pub fn partition_jobs(job_count: usize, workers: usize) -> (r: Vec<(usize, usize)>)
    requires
        workers >= 1,
    ensures
        r@.len() == if workers < job_count {
            workers as int
        } else {
            job_count as int
        },
        r@.len() > 0 ==> r@[0].0 == 0 && r@[r@.len() - 1].1 == job_count,
        forall|k: int| 0 <= k < r@.len() - 1 ==> #[trigger] r@[k].1 == r@[k + 1].0,
        forall|k: int|
            0 <= k < r@.len() ==> {
                let len = #[trigger] r@[k].1 - r@[k].0;
                len == job_count as int / (r@.len() as int) || len == job_count as int / (r@.len() as int) + 1
            },
        forall|k: int| 0 <= k < r@.len() ==> #[trigger] r@[k].0 < r@[k].1,
        job_count > 0 ==> chained(r@, job_count as int),
{
    let chunks: usize = if workers < job_count {
        workers
    } else {
        job_count
    };
    let mut r: Vec<(usize, usize)> = Vec::new();
    if chunks == 0 {
        return r;
    }
    let base = job_count / chunks;
    let extra = job_count % chunks;
    assert(chunks * base + extra == job_count) by (nonlinear_arith)
        requires
            base == job_count / chunks,
            extra == job_count % chunks,
            chunks > 0,
    ;
    assert(base >= 1) by (nonlinear_arith)
        requires
            base == job_count / chunks,
            chunks <= job_count,
            chunks > 0,
    ;
    assert(base <= chunks * base) by (nonlinear_arith)
        requires
            chunks >= 1,
            base >= 0,
    ;
    let mut start: usize = 0;
    let mut k: usize = 0;
    while k < chunks
        invariant
            k <= chunks,
            chunks > 0,
            base >= 1,
            extra < chunks,
            chunks * base + extra == job_count,
            base <= chunks * base,
            base == job_count as int / chunks as int,
            start as int == k * base + if k < extra {
                k as int
            } else {
                extra as int
            },
            r@.len() == k,
            k > 0 ==> r@[0].0 == 0 && r@[k - 1].1 == start,
            forall|m: int| 0 <= m < k - 1 ==> #[trigger] r@[m].1 == r@[m + 1].0,
            forall|m: int|
                0 <= m < k ==> {
                    let len = #[trigger] r@[m].1 - r@[m].0;
                    len == base || len == base + 1
                },
            forall|m: int| 0 <= m < k ==> #[trigger] r@[m].0 < r@[m].1,
        decreases chunks - k,
    {
        let len: usize = if k < extra {
            base + 1
        } else {
            base
        };
        assert((k + 1) * base <= chunks * base) by (nonlinear_arith)
            requires
                k + 1 <= chunks,
                base >= 0,
        ;
        assert((k + 1) * base == k * base + base) by (nonlinear_arith);
        r.push((start, start + len));
        start = start + len;
        k = k + 1;
    }
    assert(chunks * base == k * base);
    r
}

/// What became of one file job.
#[derive(Clone, Copy, Debug, PartialEq, Eq, Structural)]
pub enum JobOutcome {
    /// The file was written, with this many bytes.
    Written { size: u64 },
    /// The file was left alone.
    Skipped,
}

/// The counts of a run.
#[derive(Clone, Copy, Debug, PartialEq, Eq, Structural)]
pub struct Summary {
    /// Files written.
    pub extracted: u64,
    /// Files left alone.
    pub skipped: u64,
    /// Bytes written.
    pub total_bytes: u64,
}

/// `x`, held to the largest `u64`.
pub open spec fn cap(x: int) -> u64 {
    if x > u64::MAX {
        u64::MAX
    } else if x < 0 {
        0
    } else {
        x as u64
    }
}

/// How many outcomes are writes.
pub open spec fn written_count(o: Seq<JobOutcome>) -> nat
    decreases o.len(),
{
    if o.len() == 0 {
        0
    } else {
        written_count(o.drop_last()) + if o.last() is Written {
            1nat
        } else {
            0nat
        }
    }
}

/// How many outcomes are skips.
pub open spec fn skipped_count(o: Seq<JobOutcome>) -> nat
    decreases o.len(),
{
    if o.len() == 0 {
        0
    } else {
        skipped_count(o.drop_last()) + if o.last() is Skipped {
            1nat
        } else {
            0nat
        }
    }
}

/// The bytes of all writes.
pub open spec fn written_bytes(o: Seq<JobOutcome>) -> nat
    decreases o.len(),
{
    if o.len() == 0 {
        0
    } else {
        written_bytes(o.drop_last()) + match o.last() {
            JobOutcome::Written { size } => size as nat,
            JobOutcome::Skipped => 0nat,
        }
    }
}

/// The summary of a sequence of outcomes; each count stops at the largest
/// `u64`.
pub open spec fn summary_of(o: Seq<JobOutcome>) -> Summary {
    Summary {
        extracted: cap(written_count(o) as int),
        skipped: cap(skipped_count(o) as int),
        total_bytes: cap(written_bytes(o) as int),
    }
}

/// Two summaries added field by field; each count stops at the largest
/// `u64`.
pub open spec fn summary_plus(a: Summary, b: Summary) -> Summary {
    Summary {
        extracted: cap(a.extracted + b.extracted),
        skipped: cap(a.skipped + b.skipped),
        total_bytes: cap(a.total_bytes + b.total_bytes),
    }
}

/// The summary of a single outcome.
proof fn lemma_summary_single(x: JobOutcome)
    ensures
        summary_of(seq![x]) == match x {
            JobOutcome::Written { size } => Summary { extracted: 1, skipped: 0, total_bytes: size },
            JobOutcome::Skipped => Summary { extracted: 0, skipped: 1, total_bytes: 0 },
        },
{
    let e = Seq::<JobOutcome>::empty();
    assert(seq![x].drop_last() =~= e);
    assert(seq![x].last() == x);
    assert(written_count(e) == 0 && skipped_count(e) == 0 && written_bytes(e) == 0);
    assert(written_count(seq![x]) == written_count(e) + if x is Written {
        1nat
    } else {
        0nat
    });
    assert(skipped_count(seq![x]) == skipped_count(e) + if x is Skipped {
        1nat
    } else {
        0nat
    });
}

impl Summary {
    /// A summary with every count zero.
    pub fn new() -> (s: Summary)
        ensures
            s == summary_of(Seq::empty()),
    {
        Summary { extracted: 0, skipped: 0, total_bytes: 0 }
    }

    /// Counts one more outcome.
    pub fn record(&mut self, outcome: JobOutcome)
        ensures
            *final(self) == summary_plus(*old(self), summary_of(seq![outcome])),
    {
        proof {
            lemma_summary_single(outcome);
        }
        match outcome {
            JobOutcome::Written { size } => {
                self.extracted = self.extracted.saturating_add(1);
                self.total_bytes = self.total_bytes.saturating_add(size);
            },
            JobOutcome::Skipped => {
                self.skipped = self.skipped.saturating_add(1);
            },
        }
    }

    /// The counts of two parts of a run together.
    pub fn merge(&self, other: &Summary) -> (s: Summary)
        ensures
            s == summary_plus(*self, *other),
    {
        Summary {
            extracted: self.extracted.saturating_add(other.extracted),
            skipped: self.skipped.saturating_add(other.skipped),
            total_bytes: self.total_bytes.saturating_add(other.total_bytes),
        }
    }
}

/// The counts fold one outcome at a time.
proof fn lemma_summary_push(o: Seq<JobOutcome>, x: JobOutcome)
    ensures
        summary_of(o.push(x)) == summary_plus(summary_of(o), summary_of(seq![x])),
{
    assert(o.push(x).drop_last() =~= o);
    assert(o.push(x).last() == x);
    lemma_summary_single(x);
}

/// The summary of a sequence of outcomes.
pub fn tally(outcomes: &Vec<JobOutcome>) -> (s: Summary)
    ensures
        s == summary_of(outcomes@),
{
    let mut s = Summary::new();
    let mut k: usize = 0;
    while k < outcomes.len()
        invariant
            k <= outcomes@.len(),
            s == summary_of(outcomes@.subrange(0, k as int)),
        decreases outcomes@.len() - k,
    {
        proof {
            lemma_summary_push(outcomes@.subrange(0, k as int), outcomes@[k as int]);
            assert(outcomes@.subrange(0, k as int).push(outcomes@[k as int]) =~= outcomes@.subrange(
                0,
                k + 1,
            ));
        }
        s.record(outcomes[k]);
        k = k + 1;
    }
    assert(outcomes@.subrange(0, outcomes@.len() as int) =~= outcomes@);
    s
}

/// The exact counts add up over a split of the outcomes.
proof fn lemma_counts_split(a: Seq<JobOutcome>, b: Seq<JobOutcome>)
    ensures
        written_count(a + b) == written_count(a) + written_count(b),
        skipped_count(a + b) == skipped_count(a) + skipped_count(b),
        written_bytes(a + b) == written_bytes(a) + written_bytes(b),
    decreases b.len(),
{
    if b.len() > 0 {
        lemma_counts_split(a, b.drop_last());
        assert((a + b).drop_last() =~= a + b.drop_last());
    } else {
        assert(a + b =~= a);
    }
}

/// However the jobs are split between workers, the counts that the workers
/// report, added up, are those of the whole run done by one worker.
pub proof fn lemma_split_tally(o: Seq<JobOutcome>, k: int)
    requires
        0 <= k <= o.len(),
    ensures
        summary_of(o) == summary_plus(
            summary_of(o.subrange(0, k)),
            summary_of(o.subrange(k, o.len() as int)),
        ),
{
    lemma_counts_split(o.subrange(0, k), o.subrange(k, o.len() as int));
    assert(o.subrange(0, k) + o.subrange(k, o.len() as int) =~= o);
}

/// The summaries of the chunks `o[start..end]` of `cuts`, merged in order.
pub open spec fn merged_chunks(o: Seq<JobOutcome>, cuts: Seq<(usize, usize)>) -> Summary
    decreases cuts.len(),
{
    if cuts.len() == 0 {
        summary_of(Seq::empty())
    } else {
        summary_plus(
            merged_chunks(o, cuts.drop_last()),
            summary_of(o.subrange(cuts.last().0 as int, cuts.last().1 as int)),
        )
    }
}

/// Chunks that start at 0, follow one another and end at `end`.
pub open spec fn chained(cuts: Seq<(usize, usize)>, end: int) -> bool {
    &&& cuts.len() > 0
    &&& cuts[0].0 == 0
    &&& cuts.last().1 == end
    &&& forall|k: int| 0 <= k < cuts.len() - 1 ==> #[trigger] cuts[k].1 == cuts[k + 1].0
    &&& forall|k: int| 0 <= k < cuts.len() ==> #[trigger] cuts[k].0 <= cuts[k].1
}

/// When the jobs are split into consecutive chunks, one per worker, the
/// workers' summaries merged in order are the summary of all the jobs done
/// by a single worker.
pub proof fn lemma_chunked_tally(o: Seq<JobOutcome>, cuts: Seq<(usize, usize)>)
    requires
        chained(cuts, o.len() as int),
    ensures
        merged_chunks(o, cuts) == summary_of(o),
    decreases cuts.len(),
{
    let last = cuts.last();
    let e = last.1 as int;
    let s = last.0 as int;
    assert(s <= e);
    if cuts.len() == 1 {
        assert(summary_of(Seq::<JobOutcome>::empty()) == (Summary {
            extracted: 0,
            skipped: 0,
            total_bytes: 0,
        }));
        assert(cuts.drop_last() =~= Seq::<(usize, usize)>::empty());
        assert(merged_chunks(o, cuts.drop_last()) == summary_of(Seq::<JobOutcome>::empty()));
        assert(o.subrange(0, e) =~= o);
    } else {
        let prefix = cuts.drop_last();
        let po = o.subrange(0, s);
        assert(prefix.last().1 == s);
        assert forall|k: int| 0 <= k < prefix.len() - 1 implies #[trigger] prefix[k].1 == prefix[k
            + 1].0 by {
            assert(cuts[k].1 == cuts[k + 1].0);
        }
        assert forall|k: int| 0 <= k < prefix.len() implies #[trigger] prefix[k].0 <= prefix[k].1 by {
            assert(cuts[k].0 <= cuts[k].1);
        }
        lemma_chunks_stay_below(cuts, o.len() as int);
        lemma_chunked_tally_prefix(o, prefix, po);
        lemma_split_tally(o, s);
        assert(o.subrange(s, o.len() as int) =~= o.subrange(s, e));
    }
}

/// Every chunk of a chain ends no later than the chain.
proof fn lemma_chunks_stay_below(cuts: Seq<(usize, usize)>, end: int)
    requires
        chained(cuts, end),
    ensures
        forall|k: int| 0 <= k < cuts.len() ==> #[trigger] cuts[k].1 <= end,
    decreases cuts.len(),
{
    assert forall|k: int| 0 <= k < cuts.len() implies #[trigger] cuts[k].1 <= end by {
        lemma_chain_step(cuts, end, k);
    }
}

proof fn lemma_chain_step(cuts: Seq<(usize, usize)>, end: int, k: int)
    requires
        chained(cuts, end),
        0 <= k < cuts.len(),
    ensures
        cuts[k].1 <= end,
    decreases cuts.len() - k,
{
    if k < cuts.len() - 1 {
        lemma_chain_step(cuts, end, k + 1);
        assert(cuts[k].1 == cuts[k + 1].0);
        assert(cuts[k + 1].0 <= cuts[k + 1].1);
    }
}

/// The merged chunks of a chain that ends at `s` are the summary of the
/// first `s` outcomes.
proof fn lemma_chunked_tally_prefix(o: Seq<JobOutcome>, cuts: Seq<(usize, usize)>, po: Seq<JobOutcome>)
    requires
        cuts.len() > 0,
        cuts[0].0 == 0,
        forall|k: int| 0 <= k < cuts.len() - 1 ==> #[trigger] cuts[k].1 == cuts[k + 1].0,
        forall|k: int| 0 <= k < cuts.len() ==> #[trigger] cuts[k].0 <= cuts[k].1,
        cuts.last().1 <= o.len(),
        po == o.subrange(0, cuts.last().1 as int),
    ensures
        merged_chunks(o, cuts) == summary_of(po),
    decreases cuts.len(),
{
    let s = cuts.last().0 as int;
    let e = cuts.last().1 as int;
    if cuts.len() == 1 {
        assert(summary_of(Seq::<JobOutcome>::empty()) == (Summary {
            extracted: 0,
            skipped: 0,
            total_bytes: 0,
        }));
        assert(cuts.drop_last() =~= Seq::<(usize, usize)>::empty());
        assert(merged_chunks(o, cuts.drop_last()) == summary_of(Seq::<JobOutcome>::empty()));
    } else {
        let prefix = cuts.drop_last();
        assert(prefix.last().1 == s);
        assert forall|k: int| 0 <= k < prefix.len() - 1 implies #[trigger] prefix[k].1 == prefix[k
            + 1].0 by {
            assert(cuts[k].1 == cuts[k + 1].0);
        }
        assert forall|k: int| 0 <= k < prefix.len() implies #[trigger] prefix[k].0 <= prefix[k].1 by {
            assert(cuts[k].0 <= cuts[k].1);
        }
        lemma_chunked_tally_prefix(o, prefix, o.subrange(0, s));
        lemma_split_tally(po, s);
        assert(po.subrange(0, s) =~= o.subrange(0, s));
        assert(po.subrange(s, po.len() as int) =~= o.subrange(s, e));
    }
}

impl FileJob {
    /// The overwrite decision for this job, given what is on disk at its
    /// output path.
    pub fn decide(&self, exists: bool, disk_mtime: Option<i64>, flags: OverwriteFlags) -> (r:
        OverwriteDecision)
        ensures
            r == overwrite_spec(exists, disk_mtime, archive_seconds(self.mtime), flags),
    {
        let archive = match self.mtime {
            Some(dt) => datetime_to_unix_seconds(dt),
            None => None,
        };
        decide_overwrite(exists, disk_mtime, archive, flags)
    }
}

/// The directories in the order their times are restored: the reverse of
/// the order in which they were created, so that a directory comes after
/// everything that was written inside it.
pub fn restore_order(directories: &Vec<DirectoryRecord>) -> (r: Vec<usize>)
    ensures
        r@.len() == directories@.len(),
        forall|k: int| 0 <= k < r@.len() ==> #[trigger] r@[k] == directories@.len() - 1 - k,
{
    let mut r: Vec<usize> = Vec::new();
    let mut k: usize = directories.len();
    while k > 0
        invariant
            k <= directories@.len(),
            r@.len() == directories@.len() - k,
            forall|m: int| 0 <= m < r@.len() ==> #[trigger] r@[m] == directories@.len() - 1 - m,
        decreases k,
    {
        k = k - 1;
        r.push(k);
    }
    r
}

} // verus!
