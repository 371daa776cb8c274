//! Receipt-preview logic: splitting the printed lines into print jobs, and the cache
//! key of a rendered image.

use crate::escpos::printer::{line_views, LineView, ReceiptLine};
use vstd::prelude::*;

verus! {

/// FNV-1a offset basis.
pub const FNV_OFFSET: u64 = 0xcbf29ce484222325;

/// FNV-1a prime.
pub const FNV_PRIME: u64 = 0x100000001b3;

/// The 64-bit FNV-1a hash of `s`.
pub open spec fn fnv1a(s: Seq<u8>) -> u64
    decreases s.len(),
{
    if s.len() == 0 {
        FNV_OFFSET
    } else {
        (fnv1a(s.drop_last()) ^ (s.last() as u64)).wrapping_mul(FNV_PRIME)
    }
}

/// FNV-1a: the hash of no bytes is the offset basis 0xcbf29ce484222325, and each further
/// byte is XORed into the hash, which is then multiplied by 0x100000001b3 modulo 2^64.
pub proof fn law_fnv1a(s: Seq<u8>, b: u8)
    ensures
        fnv1a(Seq::<u8>::empty()) == 0xcbf29ce484222325u64,
        fnv1a(s.push(b)) as int == ((fnv1a(s) ^ (b as u64)) as int * 0x100000001b3int) % 0x1_0000_0000_0000_0000int,
{
    assert(s.push(b).drop_last() =~= s);
}

/// The 64-bit FNV-1a hash of `data`, used as the cache key of a rendered bitmap.
pub fn hash_bytes(data: &[u8]) -> (h: u64)
    ensures
        h == fnv1a(data@),
{
    let mut hash: u64 = FNV_OFFSET;
    let mut i: usize = 0;
    while i < data.len()
        invariant
            0 <= i <= data.len(),
            hash == fnv1a(data@.take(i as int)),
        decreases data.len() - i,
    {
        assert(data@.take(i + 1).drop_last() =~= data@.take(i as int));
        hash ^= data[i] as u64;
        hash = hash.wrapping_mul(FNV_PRIME);
        i += 1;
    }
    assert(data@.take(data.len() as int) =~= data@);
    hash
}

/// Print jobs: the indices of their lines, and whether a paper cut ended the job.
pub type Jobs = Seq<(Seq<usize>, bool)>;

/// Jobs closed and indices of the job still open after the first `n` lines of `lines`:
/// each separator (paper cut) closes the open job as cut, every other line joins it.
pub open spec fn split_prefix(lines: Seq<LineView>, n: int) -> (Jobs, Seq<usize>)
    decreases n,
{
    if n <= 0 {
        (seq![], seq![])
    } else {
        let (jobs, current) = split_prefix(lines, n - 1);
        if lines[n - 1] is Separator {
            (jobs.push((current, true)), seq![])
        } else {
            (jobs, current.push((n - 1) as usize))
        }
    }
}

/// The print jobs of a receipt, oldest first: every paper cut ends one job (possibly
/// empty); the lines after the last cut, if any, form a last job that is not cut.
pub open spec fn print_jobs(lines: Seq<LineView>) -> Jobs {
    let (jobs, current) = split_prefix(lines, lines.len() as int);
    if current.len() > 0 {
        jobs.push((current, false))
    } else {
        jobs
    }
}

/// The line indices of all jobs, in order.
pub open spec fn flatten(jobs: Jobs) -> Seq<usize>
    decreases jobs.len(),
{
    if jobs.len() == 0 {
        seq![]
    } else {
        flatten(jobs.drop_last()) + jobs.last().0
    }
}

/// Number of jobs that end with a paper cut.
pub open spec fn cut_count(jobs: Jobs) -> nat
    decreases jobs.len(),
{
    if jobs.len() == 0 {
        0
    } else {
        cut_count(jobs.drop_last()) + if jobs.last().1 { 1nat } else { 0nat }
    }
}

/// Indices of the first `n` lines that are not paper cuts.
pub open spec fn printed_indices(lines: Seq<LineView>, n: int) -> Seq<usize>
    decreases n,
{
    if n <= 0 {
        seq![]
    } else if lines[n - 1] is Separator {
        printed_indices(lines, n - 1)
    } else {
        printed_indices(lines, n - 1).push((n - 1) as usize)
    }
}

/// Number of paper cuts among the first `n` lines.
pub open spec fn separator_count(lines: Seq<LineView>, n: int) -> nat
    decreases n,
{
    if n <= 0 {
        0
    } else {
        separator_count(lines, n - 1) + if lines[n - 1] is Separator { 1nat } else { 0nat }
    }
}

proof fn lemma_split_prefix(lines: Seq<LineView>, n: int)
    requires
        0 <= n <= lines.len(),
    ensures
        flatten(split_prefix(lines, n).0) + split_prefix(lines, n).1 == printed_indices(lines, n),
        cut_count(split_prefix(lines, n).0) == separator_count(lines, n),
        forall|k: int| 0 <= k < split_prefix(lines, n).0.len() ==> #[trigger] split_prefix(lines, n).0[k].1,
    decreases n,
{
    if n > 0 {
        lemma_split_prefix(lines, n - 1);
        let (jobs, current) = split_prefix(lines, n - 1);
        if lines[n - 1] is Separator {
            let jobs2 = jobs.push((current, true));
            assert(jobs2.drop_last() =~= jobs);
            assert(flatten(jobs2) + Seq::<usize>::empty() =~= flatten(jobs) + current);
        } else {
            assert(flatten(jobs) + current.push((n - 1) as usize) =~= (flatten(jobs) + current).push(
                (n - 1) as usize,
            ));
        }
    }
}

/// Every line that is not a paper cut belongs to exactly one print job, in order; there
/// is one cut job per paper cut; and only the last job may be uncut, in which case it
/// is not empty.
pub proof fn law_jobs_partition_receipt(lines: Seq<LineView>)
    ensures
        flatten(print_jobs(lines)) == printed_indices(lines, lines.len() as int),
        cut_count(print_jobs(lines)) == separator_count(lines, lines.len() as int),
        forall|k: int| 0 <= k < print_jobs(lines).len() - 1 ==> #[trigger] print_jobs(lines)[k].1,
        print_jobs(lines).len() > 0 && !print_jobs(lines).last().1 ==> print_jobs(lines).last().0.len() > 0,
{
    let n = lines.len() as int;
    lemma_split_prefix(lines, n);
    let (jobs, current) = split_prefix(lines, n);
    if current.len() > 0 {
        let all = jobs.push((current, false));
        assert(all.drop_last() =~= jobs);
        assert(forall|k: int| 0 <= k < all.len() - 1 ==> all[k] == jobs[k]);
    } else {
        assert(flatten(jobs) + current =~= flatten(jobs));
    }
}

pub open spec fn jobs_view(jobs: Seq<(Vec<usize>, bool)>) -> Jobs {
    jobs.map_values(|j: (Vec<usize>, bool)| (j.0@, j.1))
}

/// Splits the printed lines into print jobs at each paper cut, so that each job can be
/// shown as a sheet of its own.
pub fn split_jobs(buffer: &Vec<ReceiptLine>) -> (jobs: Vec<(Vec<usize>, bool)>)
    ensures
        jobs_view(jobs@) == print_jobs(line_views(buffer@)),
{
    let ghost lines = line_views(buffer@);
    let mut jobs: Vec<(Vec<usize>, bool)> = Vec::new();
    let mut current: Vec<usize> = Vec::new();
    let mut idx: usize = 0;
    while idx < buffer.len()
        invariant
            0 <= idx <= buffer@.len(),
            lines == line_views(buffer@),
            (jobs_view(jobs@), current@) == split_prefix(lines, idx as int),
        decreases buffer@.len() - idx,
    {
        let ghost before = jobs@;
        match &buffer[idx] {
            ReceiptLine::Separator => {
                let done = current;
                current = Vec::new();
                jobs.push((done, true));
                assert(jobs_view(jobs@) =~= jobs_view(before).push((done@, true)));
                assert(current@ =~= Seq::<usize>::empty());
            },
            _ => {
                current.push(idx);
                assert(jobs_view(jobs@) =~= jobs_view(before));
            },
        }
        idx += 1;
    }
    assert(lines.len() == buffer@.len());
    if current.len() > 0 {
        let ghost before = jobs@;
        let last = current;
        jobs.push((last, false));
        assert(jobs_view(jobs@) =~= jobs_view(before).push((last@, false)));
    }
    jobs
}

/// The order in which the print jobs are shown: oldest first, or newest first.
pub fn display_order(total: usize, newest_first: bool) -> (order: Vec<usize>)
    ensures
        order@.len() == total,
        forall|i: int|
            0 <= i < total ==> #[trigger] order@[i] == if newest_first {
                total - 1 - i
            } else {
                i
            },
{
    let mut order: Vec<usize> = Vec::new();
    let mut i: usize = 0;
    while i < total
        invariant
            0 <= i <= total,
            order@.len() == i,
            forall|k: int|
                0 <= k < i ==> #[trigger] order@[k] == if newest_first {
                    total - 1 - k
                } else {
                    k
                },
        decreases total - i,
    {
        if newest_first {
            order.push(total - 1 - i);
        } else {
            order.push(i);
        }
        i += 1;
    }
    order
}

} // verus!
