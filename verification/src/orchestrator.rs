//! The batch orchestrator: partitioning an ordered episode list into
//! consecutive batches of at most `concurrency` episodes, collecting
//! the successful files, and deciding whether a merge follows.
//!
//! The runner launches one transfer per episode of a batch
//! concurrently and waits for the whole batch before starting the
//! next, so the batch bound here is the hard bound on simultaneously
//! active transfers; results are collected in spawn order within each
//! batch.

use vstd::prelude::*;
use crate::transfer::{reports_file_iff_success, DownloadResult};
use vstd::string::StringExecFns;

verus! {

/// The episode marker a synthesized failure carries when a transfer's
/// execution unit vanished before producing a result and its true
/// episode is unknown. Deliberately not a valid episode number, so it
/// cannot collide with a real one.
pub const UNKNOWN_EPISODE: i32 = -1;

/// The episode list cut into consecutive batches of `c`, the last one
/// possibly shorter.
pub open spec fn spec_batches(eps: Seq<i32>, c: int) -> Seq<Seq<i32>>
    decreases eps.len(),
    when c >= 1
{
    if eps.len() == 0 {
        Seq::empty()
    } else {
        let m = if c < eps.len() {
            c
        } else {
            eps.len() as int
        };
        seq![eps.take(m)] + spec_batches(eps.skip(m), c)
    }
}

/// No batch exceeds the concurrency bound, and none is empty: with
/// `concurrency = N`, at no point are more than N transfers active.
pub proof fn lemma_batches_bounded(eps: Seq<i32>, c: int, k: int)
    requires
        c >= 1,
        0 <= k < spec_batches(eps, c).len(),
    ensures
        0 < spec_batches(eps, c)[k].len() <= c,
    decreases eps.len(),
{
    let m = if c < eps.len() {
        c
    } else {
        eps.len() as int
    };
    if k > 0 {
        lemma_batches_bounded(eps.skip(m), c, k - 1);
    }
}

/// Every batch before the last is exactly full: later episodes never
/// start early.
pub proof fn lemma_batches_full_except_last(eps: Seq<i32>, c: int, k: int)
    requires
        c >= 1,
        0 <= k < spec_batches(eps, c).len() - 1,
    ensures
        spec_batches(eps, c)[k].len() == c,
    decreases eps.len(),
{
    let m = if c < eps.len() {
        c
    } else {
        eps.len() as int
    };
    if k == 0 {
        if m < c {
            assert(eps.skip(m).len() == 0);
            assert(spec_batches(eps, c).len() == 1);
        }
    } else {
        lemma_batches_full_except_last(eps.skip(m), c, k - 1);
    }
}

/// The batches partition the episode list: concatenated back
/// together, in order, they are exactly the input.
pub proof fn lemma_batches_partition(eps: Seq<i32>, c: int)
    requires
        c >= 1,
    ensures
        spec_batches(eps, c).flatten() == eps,
    decreases eps.len(),
{
    if eps.len() == 0 {
        assert(spec_batches(eps, c).flatten() =~= eps);
    } else {
        let m = if c < eps.len() {
            c
        } else {
            eps.len() as int
        };
        let b = spec_batches(eps, c);
        lemma_batches_partition(eps.skip(m), c);
        assert(b.first() == eps.take(m));
        assert(b.drop_first() =~= spec_batches(eps.skip(m), c));
        assert(b.flatten() == eps.take(m) + spec_batches(eps.skip(m), c).flatten());
        assert(eps.take(m) + eps.skip(m) =~= eps);
    }
}

/// Cut `episodes` into consecutive batches of at most `concurrency`.
pub fn plan_batches(episodes: &Vec<i32>, concurrency: usize) -> (batches: Vec<Vec<i32>>)
    requires
        concurrency >= 1,
    ensures
        batches.deep_view() == spec_batches(episodes@, concurrency as int),
{
    let n = episodes.len();
    let mut batches: Vec<Vec<i32>> = Vec::new();
    let mut i: usize = 0;
    proof {
        assert(batches.deep_view() =~= Seq::<Seq<i32>>::empty());
        assert(episodes@.skip(0) =~= episodes@);
        assert(Seq::<Seq<i32>>::empty() + spec_batches(episodes@, concurrency as int)
            =~= spec_batches(episodes@, concurrency as int));
    }
    while i < n
        invariant
            concurrency >= 1,
            i <= n,
            n == episodes@.len(),
            spec_batches(episodes@, concurrency as int) == batches.deep_view() + spec_batches(
                episodes@.skip(i as int),
                concurrency as int,
            ),
        decreases n - i,
    {
        let end = if n - i < concurrency {
            n
        } else {
            i + concurrency
        };
        let mut batch: Vec<i32> = Vec::new();
        let mut j: usize = i;
        while j < end
            invariant
                i <= j <= end <= n,
                n == episodes@.len(),
                batch@ == episodes@.subrange(i as int, j as int),
            decreases end - j,
        {
            batch.push(episodes[j]);
            proof {
                assert(batch@ =~= episodes@.subrange(i as int, j + 1));
            }
            j = j + 1;
        }
        proof {
            let rest = episodes@.skip(i as int);
            let c = concurrency as int;
            let m = if c < rest.len() {
                c
            } else {
                rest.len() as int
            };
            assert(m == end - i);
            assert(rest.take(m) =~= episodes@.subrange(i as int, end as int));
            assert(rest.skip(m) =~= episodes@.skip(end as int));
            assert(spec_batches(rest, c) == seq![batch@] + spec_batches(
                episodes@.skip(end as int),
                c,
            ));
        }
        let ghost prev = batches.deep_view();
        let ghost segment = episodes@.subrange(i as int, end as int);
        proof {
            assert(batch.deep_view() =~= segment);
        }
        batches.push(batch);
        proof {
            assert(batches.deep_view() =~= prev + seq![segment]);
            assert(prev + (seq![episodes@.subrange(i as int, end as int)] + spec_batches(
                episodes@.skip(end as int),
                concurrency as int,
            )) =~= (prev + seq![episodes@.subrange(i as int, end as int)]) + spec_batches(
                episodes@.skip(end as int),
                concurrency as int,
            ));
        }
        i = end;
    }
    proof {
        assert(episodes@.skip(n as int) =~= Seq::<i32>::empty());
        assert(batches.deep_view() + Seq::<Seq<i32>>::empty() =~= batches.deep_view());
    }
    batches
}

/// The file paths of the successful results, in order.
pub open spec fn spec_successful_paths(rs: Seq<DownloadResult>) -> Seq<Seq<char>>
    decreases rs.len(),
{
    if rs.len() == 0 {
        Seq::empty()
    } else {
        spec_successful_paths(rs.drop_last()) + (if rs.last().success && rs.last().file_path
            is Some {
            seq![rs.last().file_path->0@]
        } else {
            Seq::empty()
        })
    }
}

/// Collect the paths of the episodes that finished successfully, in
/// result order, for the merge step.
pub fn successful_paths(results: &Vec<DownloadResult>) -> (r: Vec<String>)
    ensures
        r.deep_view() == spec_successful_paths(results@),
{
    let mut out: Vec<String> = Vec::new();
    let mut i: usize = 0;
    while i < results.len()
        invariant
            i <= results@.len(),
            out.deep_view() == spec_successful_paths(results@.take(i as int)),
        decreases results@.len() - i,
    {
        let res = &results[i];
        proof {
            let t = results@.take(i + 1);
            assert(t.drop_last() =~= results@.take(i as int));
            assert(t.last() == results@[i as int]);
        }
        if res.success {
            match &res.file_path {
                Some(p) => {
                    let ghost prev = out.deep_view();
                    let copy = p.clone();
                    out.push(copy);
                    proof {
                        assert(out.deep_view() =~= prev + seq![results@[i as int].file_path->0@]);
                    }
                },
                None => {
                },
            }
        }
        i = i + 1;
    }
    proof {
        assert(results@.take(results@.len() as int) =~= results@);
    }
    out
}

/// The failure result synthesized when a transfer's execution unit
/// ends abnormally and no result can be attributed; it carries the
/// distinct unknown-episode marker.
pub fn synthesized_failure(detail: &str) -> (r: DownloadResult)
    ensures
        r.episode == UNKNOWN_EPISODE,
        !r.success,
        r.file_path is None,
        r.error matches Some(m) && m@ == "Task failed: "@ + detail@,
        reports_file_iff_success(r),
{
    let mut msg = String::from_str("Task failed: ");
    msg.append(detail);
    DownloadResult { episode: UNKNOWN_EPISODE, success: false, file_path: None, error: Some(msg) }
}

/// A merge follows a run exactly when it was requested, at least one
/// episode succeeded, and the merge tool is available.
pub fn should_merge(auto_merge: bool, files_count: usize, ffmpeg_available: bool) -> (r: bool)
    ensures
        r == (auto_merge && files_count > 0 && ffmpeg_available),
{
    auto_merge && files_count > 0 && ffmpeg_available
}

} // verus!
