//! The per-episode transfer state machine. The surrounding
//! application performs the HTTP request, the file writes, and the
//! sleeps; every decision — how to resume, when a transfer is already
//! complete, what each streamed chunk means, how long to throttle, and
//! which result each failure mode yields — is taken here, over plain
//! values, and verified.
//!
//! All wall-clock values are taken from one monotone clock, in
//! milliseconds; the `requires` clauses that order them encode that.

use vstd::prelude::*;
use crate::progress::{
    cap64, spec_percentage, spec_speed, percentage, speed_bytes_per_sec, DownloadProgress,
};
use crate::session::DownloadState;
use vstd::arithmetic::div_mod::{lemma_fundamental_div_mod, lemma_mod_bound};
use vstd::arithmetic::mul::lemma_mul_inequality;
use vstd::string::StringExecFns;

verus! {

/// The outcome of one transfer attempt.
///
/// `success` and `file_path` agree — a successful attempt always
/// reports its file — with one deliberate exception: a mid-stream
/// read failure reports `success == false` together with the path,
/// because the partial file is preserved for a later resume.
#[derive(Clone, Debug)]
pub struct DownloadResult {
    pub episode: i32,
    pub success: bool,
    pub file_path: Option<String>,
    pub error: Option<String>,
}

/// A transfer result reports a file exactly when it succeeded — the
/// law every outcome below obeys, with one deliberate exception: the
/// mid-stream read failure reports the preserved partial file with
/// `success == false`, so that a later attempt can resume it.
pub open spec fn reports_file_iff_success(r: DownloadResult) -> bool {
    r.success <==> r.file_path is Some
}

/// The request could not be sent at all: no bytes moved, no file
/// reported.
pub fn result_request_failed(episode: i32, detail: &str) -> (r: DownloadResult)
    ensures
        r.episode == episode,
        !r.success,
        r.file_path is None,
        r.error matches Some(m) && m@ == "Request failed: "@ + detail@,
        reports_file_iff_success(r),
{
    let mut msg = String::from_str("Request failed: ");
    msg.append(detail);
    DownloadResult { episode, success: false, file_path: None, error: Some(msg) }
}

/// The destination could not be opened for writing.
pub fn result_file_create_failed(episode: i32, detail: &str) -> (r: DownloadResult)
    ensures
        r.episode == episode,
        !r.success,
        r.file_path is None,
        r.error matches Some(m) && m@ == "Failed to create file: "@ + detail@,
        reports_file_iff_success(r),
{
    let mut msg = String::from_str("Failed to create file: ");
    msg.append(detail);
    DownloadResult { episode, success: false, file_path: None, error: Some(msg) }
}

/// The run was cancelled: the partial file is deleted, so no file is
/// reported.
pub fn result_cancelled(episode: i32) -> (r: DownloadResult)
    ensures
        r.episode == episode,
        !r.success,
        r.file_path is None,
        r.error matches Some(m) && m@ == "Download cancelled"@,
        reports_file_iff_success(r),
{
    DownloadResult {
        episode,
        success: false,
        file_path: None,
        error: Some(String::from_str("Download cancelled")),
    }
}

/// A chunk could not be written to disk. The bytes already on disk
/// stay for a future resume, but the file is not reported.
pub fn result_write_failed(episode: i32, detail: &str) -> (r: DownloadResult)
    ensures
        r.episode == episode,
        !r.success,
        r.file_path is None,
        r.error matches Some(m) && m@ == "Write failed: "@ + detail@,
        reports_file_iff_success(r),
{
    let mut msg = String::from_str("Write failed: ");
    msg.append(detail);
    DownloadResult { episode, success: false, file_path: None, error: Some(msg) }
}

/// The response stream broke mid-transfer. The partial file is
/// preserved and reported, so a later attempt can resume it — the one
/// failure that carries a path.
pub fn result_stream_error(episode: i32, file_path: String, detail: &str) -> (r: DownloadResult)
    ensures
        r.episode == episode,
        !r.success,
        r.file_path matches Some(p) && p@ == file_path@,
        r.error matches Some(m) && m@ == "Download stream error: "@ + detail@,
{
    let mut msg = String::from_str("Download stream error: ");
    msg.append(detail);
    DownloadResult { episode, success: false, file_path: Some(file_path), error: Some(msg) }
}

/// The stream ended: the transfer is complete.
pub fn result_finished(episode: i32, file_path: String) -> (r: DownloadResult)
    ensures
        r.episode == episode,
        r.success,
        r.file_path matches Some(p) && p@ == file_path@,
        r.error is None,
        reports_file_iff_success(r),
{
    DownloadResult { episode, success: true, file_path: Some(file_path), error: None }
}

/// Ephemeral state of one transfer attempt.
pub struct TransferState {
    pub episode: i32,
    pub file_path: String,
    /// Bytes already on disk when this attempt began.
    pub start_byte: u64,
    /// Bytes on disk now (`start_byte` plus what this attempt wrote).
    pub downloaded: u64,
    /// Expected final size; 0 when unknown.
    pub total: u64,
    /// Throughput cap in bytes per second; 0 means unlimited.
    pub speed_limit_bytes: u64,
    pub started_at_ms: u64,
    pub last_emit_ms: u64,
    /// Bytes written since the current throttle window opened.
    pub interval_bytes: u64,
    pub interval_started_ms: u64,
}

impl TransferState {
    pub open spec fn wf(self) -> bool {
        self.downloaded >= self.start_byte
    }
}

/// The expected final size of the destination file: the remaining
/// content length on top of what is already on disk, or 0 when the
/// server gave no length (or the sum does not fit).
pub fn compute_total(start_byte: u64, content_length: Option<u64>) -> (r: u64)
    ensures
        match content_length {
            Some(c) => r == if start_byte + c <= u64::MAX {
                start_byte + c
            } else {
                0
            },
            None => r == 0,
        },
{
    match content_length {
        Some(c) => {
            if c <= u64::MAX - start_byte {
                start_byte + c
            } else {
                0
            }
        },
        None => 0,
    }
}

/// What came back for the initial request.
pub enum ResponseEvent {
    /// The request never produced a response.
    SendFailed { detail: String },
    /// A response arrived with this status and optional content
    /// length.
    Response { status: u16, content_length: Option<u64> },
}

/// How a transfer attempt starts.
pub enum BeginStep {
    /// The attempt is already over, without any streaming.
    Done(DownloadResult),
    /// Stream the body into the file, appending when resuming.
    Stream { state: TransferState, append: bool },
}

/// Classify the response to the initial request.
///
/// * A send failure ends the attempt with no file reported.
/// * Status 416 ("range not satisfiable") on a resume means the file
///   on disk is already the whole resource: the attempt succeeds
///   immediately, before any transfer state exists and without moving
///   a byte — re-invoking a finished download is a no-op.
/// * Any other response is streamed; the file is opened for append
///   exactly when the attempt resumes a partial file.
pub fn begin_transfer(
    episode: i32,
    file_path: String,
    speed_limit_bytes: u64,
    existing_len: Option<u64>,
    response: ResponseEvent,
    now_ms: u64,
) -> (r: BeginStep)
    ensures
        ({
            let start = match existing_len {
                Some(n) => n as int,
                None => 0,
            };
            match response {
                ResponseEvent::SendFailed { detail } => r matches BeginStep::Done(res)
                    && res.episode == episode && !res.success && res.file_path is None
                    && (res.error matches Some(m) && m@ == "Request failed: "@ + detail@),
                ResponseEvent::Response { status, content_length } => {
                    if status == 416 {
                        r matches BeginStep::Done(res) && res.episode == episode && res.success
                            && (res.file_path matches Some(p) && p@ == file_path@)
                            && res.error is None
                    } else {
                        r matches BeginStep::Stream { state, append } && {
                            &&& state.episode == episode
                            &&& state.file_path@ == file_path@
                            &&& state.start_byte == start
                            &&& state.downloaded == start
                            &&& state.total == (match content_length {
                                Some(c) => if start + c <= u64::MAX {
                                    start + c
                                } else {
                                    0
                                },
                                None => 0,
                            })
                            &&& state.speed_limit_bytes == speed_limit_bytes
                            &&& state.started_at_ms == now_ms
                            &&& state.last_emit_ms == now_ms
                            &&& state.interval_bytes == 0
                            &&& state.interval_started_ms == now_ms
                            &&& state.wf()
                            &&& append == (start > 0)
                        }
                    }
                },
            }
        }),
{
    let start_byte = match existing_len {
        Some(n) => n,
        None => 0,
    };
    match response {
        ResponseEvent::SendFailed { detail } => BeginStep::Done(
            result_request_failed(episode, detail.as_str()),
        ),
        ResponseEvent::Response { status, content_length } => {
            let total = compute_total(start_byte, content_length);
            if status == 416 {
                BeginStep::Done(
                    DownloadResult {
                        episode,
                        success: true,
                        file_path: Some(file_path),
                        error: None,
                    },
                )
            } else {
                BeginStep::Stream {
                    state: TransferState {
                        episode,
                        file_path,
                        start_byte,
                        downloaded: start_byte,
                        total,
                        speed_limit_bytes,
                        started_at_ms: now_ms,
                        last_emit_ms: now_ms,
                        interval_bytes: 0,
                        interval_started_ms: now_ms,
                    },
                    append: start_byte > 0,
                }
            }
        },
    }
}

/// What the runner must do before handling the next chunk.
#[derive(Clone, Copy, Debug, PartialEq, Eq, Structural)]
pub enum ControlAction {
    /// Delete the partial file and end with the cancelled result:
    /// cancellation is the one path that discards resumable progress.
    CancelAndDelete,
    /// Sleep this long, then check the flags again; a cancel during a
    /// pause must still clean up and return.
    PausePoll { poll_ms: u64 },
    /// Handle the chunk.
    Proceed,
}

/// Between chunks (and on every wake of the pause poll), the shared
/// run flags decide what happens next; cancellation wins over pause.
pub fn control_step(session: &DownloadState) -> (a: ControlAction)
    ensures
        session.is_cancelled ==> a == ControlAction::CancelAndDelete,
        !session.is_cancelled && session.is_paused ==> a == (ControlAction::PausePoll {
            poll_ms: 100u64,
        }),
        !session.is_cancelled && !session.is_paused ==> a == ControlAction::Proceed,
{
    if session.is_cancelled {
        ControlAction::CancelAndDelete
    } else if session.is_paused {
        ControlAction::PausePoll { poll_ms: 100 }
    } else {
        ControlAction::Proceed
    }
}

/// How long the windowed throttle must sleep so that the current
/// window's average rate comes down to the cap: the time the cap
/// needs for `bytes`, less the time already spent.
pub open spec fn spec_throttle_wait(bytes: int, elapsed_ms: int, limit: int) -> int {
    if limit <= 0 {
        0
    } else {
        let target = (bytes * 1000 + limit - 1) / limit;
        if target > elapsed_ms {
            target - elapsed_ms
        } else {
            0
        }
    }
}

pub fn throttle_wait(bytes: u64, elapsed_ms: u64, limit: u64) -> (wait: u64)
    ensures
        wait == cap64(spec_throttle_wait(bytes as int, elapsed_ms as int, limit as int)),
{
    if limit == 0 {
        0
    } else {
        let target: u128 = ((bytes as u128) * 1000 + (limit - 1) as u128) / (limit as u128);
        if target > elapsed_ms as u128 {
            let w: u128 = target - elapsed_ms as u128;
            if w > u64::MAX as u128 {
                u64::MAX
            } else {
                w as u64
            }
        } else {
            0
        }
    }
}

/// After the throttle's sleep, the window's sustained rate is within
/// the cap: the cap times the window's whole duration covers every
/// byte the window carried.
pub proof fn lemma_throttle_caps_rate(bytes: int, elapsed_ms: int, limit: int)
    requires
        limit > 0,
        bytes >= 0,
        elapsed_ms >= 0,
    ensures
        bytes * 1000 <= limit * (elapsed_ms + spec_throttle_wait(bytes, elapsed_ms, limit)),
{
    let a = bytes * 1000 + limit - 1;
    let target = a / limit;
    lemma_fundamental_div_mod(a, limit);
    lemma_mod_bound(a, limit);
    assert(limit * target == a - a % limit);
    assert(limit * target >= bytes * 1000);
    if target > elapsed_ms {
        assert(elapsed_ms + spec_throttle_wait(bytes, elapsed_ms, limit) == target);
    } else {
        lemma_mul_inequality(target, elapsed_ms, limit);
        assert(target * limit == limit * target) by (nonlinear_arith);
        assert(elapsed_ms * limit == limit * elapsed_ms) by (nonlinear_arith);
    }
}

/// One streaming event, after the control flags allowed proceeding.
/// For a received chunk the runner writes it first and reports how
/// that went.
pub enum ChunkEvent {
    /// A chunk of this many bytes was received and written.
    Written { len: u64 },
    /// A chunk was received but could not be written.
    WriteFailed { detail: String },
    /// The stream itself failed mid-transfer.
    ReadFailed { detail: String },
    /// The stream ended normally.
    EndOfStream,
}

/// What the runner must do after one streaming event.
pub struct ChunkPlan {
    /// When set, the attempt is over with this result.
    pub done: Option<DownloadResult>,
    /// Throttle sleep before the next chunk, in milliseconds.
    pub sleep_ms: u64,
    /// A progress report that fell due, if any.
    pub emit: Option<DownloadProgress>,
}

/// Advance the transfer by one streaming event, in the fixed order:
/// account for the written bytes, apply the windowed throttle, then
/// emit progress if at least 100 ms have passed since the last
/// report. Times after the throttle's sleep are taken at
/// `now_ms + sleep`.
///
/// The failure modes mirror the result constructors: a write failure
/// ends the attempt reporting no file (the bytes stay on disk,
/// unreported); a read failure ends it reporting the file so that a
/// later attempt can resume; the end of the stream is success.
pub fn chunk_step(st: &mut TransferState, event: ChunkEvent, now_ms: u64) -> (plan: ChunkPlan)
    requires
        old(st).wf(),
        now_ms >= old(st).started_at_ms,
        now_ms >= old(st).last_emit_ms,
        now_ms >= old(st).interval_started_ms,
        event matches ChunkEvent::Written { len } ==> old(st).downloaded + len <= u64::MAX
            && old(st).interval_bytes + len <= u64::MAX,
    ensures
        final(st).wf(),
        final(st).episode == old(st).episode,
        final(st).file_path == old(st).file_path,
        final(st).start_byte == old(st).start_byte,
        final(st).total == old(st).total,
        final(st).speed_limit_bytes == old(st).speed_limit_bytes,
        final(st).started_at_ms == old(st).started_at_ms,
        match event {
            ChunkEvent::Written { len } => ({
                let limit = old(st).speed_limit_bytes as int;
                let ib = old(st).interval_bytes + len;
                let elapsed = now_ms - old(st).interval_started_ms;
                let wait = if limit > 0 {
                    cap64(spec_throttle_wait(ib as int, elapsed as int, limit))
                } else {
                    0
                };
                let eff = cap64(now_ms + wait);
                &&& plan.done is None
                &&& plan.sleep_ms == wait
                &&& final(st).downloaded == old(st).downloaded + len
                &&& (if limit > 0 && eff - old(st).interval_started_ms >= 1000 {
                    final(st).interval_bytes == 0 && final(st).interval_started_ms == eff
                } else {
                    final(st).interval_bytes == ib && final(st).interval_started_ms == old(
                        st,
                    ).interval_started_ms
                })
                &&& (if eff - old(st).last_emit_ms >= 100 {
                    &&& final(st).last_emit_ms == eff
                    &&& plan.emit matches Some(p) && p.episode == old(st).episode && p.downloaded
                        == old(st).downloaded + len && p.total == old(st).total && p.speed == cap64(
                        spec_speed(
                            old(st).downloaded + len - old(st).start_byte,
                            eff - old(st).started_at_ms,
                        ),
                    ) && p.percentage == cap64(
                        spec_percentage(old(st).downloaded + len, old(st).total as int),
                    )
                } else {
                    plan.emit is None && final(st).last_emit_ms == old(st).last_emit_ms
                })
            }),
            ChunkEvent::WriteFailed { detail } => *final(st) == *old(st) && plan.sleep_ms == 0
                && plan.emit is None && (plan.done matches Some(r) && r.episode == old(st).episode
                && !r.success && r.file_path is None && (r.error matches Some(m) && m@
                == "Write failed: "@ + detail@)),
            ChunkEvent::ReadFailed { detail } => *final(st) == *old(st) && plan.sleep_ms == 0
                && plan.emit is None && (plan.done matches Some(r) && r.episode == old(st).episode
                && !r.success && (r.file_path matches Some(p) && p@ == old(st).file_path@) && (
            r.error matches Some(m) && m@ == "Download stream error: "@ + detail@)),
            ChunkEvent::EndOfStream => *final(st) == *old(st) && plan.sleep_ms == 0
                && plan.emit is None && (plan.done matches Some(r) && r.episode == old(st).episode
                && r.success && (r.file_path matches Some(p) && p@ == old(st).file_path@)
                && r.error is None),
        },
{
    match event {
        ChunkEvent::Written { len } => {
            st.downloaded = st.downloaded + len;
            let ib = st.interval_bytes + len;
            let wait: u64 = if st.speed_limit_bytes > 0 {
                throttle_wait(ib, now_ms - st.interval_started_ms, st.speed_limit_bytes)
            } else {
                0
            };
            let eff: u64 = if wait <= u64::MAX - now_ms {
                now_ms + wait
            } else {
                u64::MAX
            };
            if st.speed_limit_bytes > 0 && eff - st.interval_started_ms >= 1000 {
                st.interval_bytes = 0;
                st.interval_started_ms = eff;
            } else {
                st.interval_bytes = ib;
            }
            let emit: Option<DownloadProgress> = if eff - st.last_emit_ms >= 100 {
                let speed = speed_bytes_per_sec(
                    st.downloaded - st.start_byte,
                    eff - st.started_at_ms,
                );
                let pct = percentage(st.downloaded, st.total);
                st.last_emit_ms = eff;
                Some(
                    DownloadProgress {
                        episode: st.episode,
                        downloaded: st.downloaded,
                        total: st.total,
                        speed,
                        percentage: pct,
                    },
                )
            } else {
                None
            };
            ChunkPlan { done: None, sleep_ms: wait, emit }
        },
        ChunkEvent::WriteFailed { detail } => ChunkPlan {
            done: Some(result_write_failed(st.episode, detail.as_str())),
            sleep_ms: 0,
            emit: None,
        },
        ChunkEvent::ReadFailed { detail } => {
            let path = st.file_path.clone();
            ChunkPlan {
                done: Some(result_stream_error(st.episode, path, detail.as_str())),
                sleep_ms: 0,
                emit: None,
            }
        },
        ChunkEvent::EndOfStream => {
            let path = st.file_path.clone();
            ChunkPlan {
                done: Some(result_finished(st.episode, path)),
                sleep_ms: 0,
                emit: None,
            }
        },
    }
}

} // verus!
