//! Progress arithmetic and the rate-limited emission policy shared by
//! the downloader and the merge pipeline. Times are in milliseconds,
//! rates in bytes per second, percentages in whole percent.

use vstd::prelude::*;
use vstd::arithmetic::div_mod::{
    lemma_div_is_ordered, lemma_div_multiples_vanish, lemma_div_pos_is_pos,
};
use vstd::arithmetic::mul::lemma_mul_inequality;

verus! {

/// One progress report for a running transfer.
#[derive(Clone, Debug)]
pub struct DownloadProgress {
    pub episode: i32,
    /// Bytes on disk, including what a previous attempt left there.
    pub downloaded: u64,
    /// Expected final size; 0 when unknown.
    pub total: u64,
    /// Bytes per second moved by the current attempt.
    pub speed: u64,
    /// Whole percent of `total` reached; 0 when the total is unknown.
    pub percentage: u64,
}

/// Values too large for a result register saturate.
pub open spec fn cap64(x: int) -> int {
    if x > u64::MAX {
        u64::MAX as int
    } else {
        x
    }
}

/// Whole percent of `total` that `downloaded` reaches; 0 when the
/// total is unknown.
pub open spec fn spec_percentage(downloaded: int, total: int) -> int {
    if total <= 0 {
        0
    } else {
        downloaded * 100 / total
    }
}

pub fn percentage(downloaded: u64, total: u64) -> (p: u64)
    ensures
        p == cap64(spec_percentage(downloaded as int, total as int)),
{
    if total == 0 {
        0
    } else {
        let wide: u128 = (downloaded as u128) * 100 / (total as u128);
        if wide > u64::MAX as u128 {
            u64::MAX
        } else {
            wide as u64
        }
    }
}

/// As long as a transfer has not over-run a known total, its
/// percentage lies between 0 and 100. (A resume against a server
/// whose reported length disagrees with the partial file can over-run;
/// that case is excluded here.)
pub proof fn lemma_percentage_bounds(downloaded: int, total: int)
    requires
        0 < total,
        0 <= downloaded <= total,
    ensures
        0 <= spec_percentage(downloaded, total) <= 100,
{
    lemma_mul_inequality(downloaded, total, 100);
    lemma_div_is_ordered(downloaded * 100, total * 100, total);
    lemma_div_multiples_vanish(100, total);
    assert(total * 100 == 100 * total) by (nonlinear_arith);
    assert(downloaded * 100 >= 0) by (nonlinear_arith)
        requires
            downloaded >= 0,
    ;
    lemma_div_pos_is_pos(downloaded * 100, total);
}

/// Percent of a known total, clamped to 100, as the merge pipeline
/// reports it.
pub open spec fn spec_clamped_percentage(current: int, total: int) -> int {
    if spec_percentage(current, total) > 100 {
        100
    } else {
        spec_percentage(current, total)
    }
}

pub fn clamped_percentage(current: u64, total: u64) -> (p: u64)
    ensures
        p == spec_clamped_percentage(current as int, total as int),
        p <= 100,
{
    let raw = percentage(current, total);
    if raw > 100 {
        100
    } else {
        proof {
            if total > 0 {
                assert(spec_percentage(current as int, total as int) <= raw);
            }
        }
        raw
    }
}

/// Clamped percentages never decrease as the reported media time
/// advances: within one merge attempt the progress sequence is
/// non-decreasing.
pub proof fn lemma_clamped_percentage_monotone(c1: int, c2: int, total: int)
    requires
        0 <= c1 <= c2,
    ensures
        spec_clamped_percentage(c1, total) <= spec_clamped_percentage(c2, total),
{
    if total > 0 {
        lemma_mul_inequality(c1, c2, 100);
        lemma_div_is_ordered(c1 * 100, c2 * 100, total);
    }
}

/// Average rate in bytes per second over an elapsed span; 0 before
/// any time has passed.
pub open spec fn spec_speed(bytes: int, elapsed_ms: int) -> int {
    if elapsed_ms <= 0 {
        0
    } else {
        bytes * 1000 / elapsed_ms
    }
}

pub fn speed_bytes_per_sec(bytes: u64, elapsed_ms: u64) -> (r: u64)
    ensures
        r == cap64(spec_speed(bytes as int, elapsed_ms as int)),
{
    if elapsed_ms == 0 {
        0
    } else {
        let wide: u128 = (bytes as u128) * 1000 / (elapsed_ms as u128);
        if wide > u64::MAX as u128 {
            u64::MAX
        } else {
            wide as u64
        }
    }
}

/// The emission cadence: a report is due when at least `interval_ms`
/// of wall time has passed since the last one.
pub fn emit_due(last_emit_ms: u64, now_ms: u64, interval_ms: u64) -> (r: bool)
    requires
        now_ms >= last_emit_ms,
    ensures
        r == (now_ms - last_emit_ms >= interval_ms),
{
    now_ms - last_emit_ms >= interval_ms
}

} // verus!
