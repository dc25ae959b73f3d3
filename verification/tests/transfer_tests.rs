use vidmerge::session::DownloadState;
use vidmerge::transfer::{
    begin_transfer, chunk_step, compute_total, control_step, result_cancelled, result_finished,
    result_stream_error, throttle_wait, BeginStep, ChunkEvent, ControlAction, ResponseEvent,
};

#[test]
fn fresh_session_is_neither_paused_nor_cancelled() {
    let mut s = DownloadState::new();
    assert!(!s.is_paused);
    assert!(!s.is_cancelled);
    s.set_paused(true);
    assert!(s.is_paused);
    s.cancel();
    assert!(s.is_cancelled);
    assert!(s.is_paused);
}

#[test]
fn control_prefers_cancel_over_pause() {
    let mut s = DownloadState::new();
    assert_eq!(control_step(&s), ControlAction::Proceed);
    s.set_paused(true);
    assert_eq!(control_step(&s), ControlAction::PausePoll { poll_ms: 100 });
    s.cancel();
    // a cancel during a pause still wins
    assert_eq!(control_step(&s), ControlAction::CancelAndDelete);
}

#[test]
fn total_size_adds_resume_offset() {
    assert_eq!(compute_total(0, Some(500)), 500);
    assert_eq!(compute_total(100, Some(400)), 500);
    assert_eq!(compute_total(100, None), 0);
    assert_eq!(compute_total(u64::MAX, Some(1)), 0);
}

#[test]
fn range_not_satisfiable_means_already_complete() {
    // re-invoking a download whose destination already holds the
    // whole file succeeds immediately, without transferring a byte
    let step = begin_transfer(
        5,
        String::from("/tmp/ep_005.mp4"),
        0,
        Some(12345),
        ResponseEvent::Response { status: 416, content_length: None },
        1000,
    );
    match step {
        BeginStep::Done(res) => {
            assert!(res.success);
            assert_eq!(res.file_path.as_deref(), Some("/tmp/ep_005.mp4"));
            assert!(res.error.is_none());
        },
        BeginStep::Stream { .. } => panic!("a 416 must not stream"),
    }
}

#[test]
fn send_failure_reports_no_file() {
    let step = begin_transfer(
        5,
        String::from("/tmp/ep_005.mp4"),
        0,
        None,
        ResponseEvent::SendFailed { detail: String::from("connection refused") },
        1000,
    );
    match step {
        BeginStep::Done(res) => {
            assert!(!res.success);
            assert!(res.file_path.is_none());
            assert_eq!(res.error.as_deref(), Some("Request failed: connection refused"));
        },
        BeginStep::Stream { .. } => panic!("a failed request must not stream"),
    }
}

#[test]
fn resume_opens_for_append_and_counts_from_the_offset() {
    let step = begin_transfer(
        2,
        String::from("/tmp/ep_002.mp4"),
        2048,
        Some(100),
        ResponseEvent::Response { status: 206, content_length: Some(400) },
        1000,
    );
    match step {
        BeginStep::Stream { state, append } => {
            assert!(append);
            assert_eq!(state.start_byte, 100);
            assert_eq!(state.downloaded, 100);
            assert_eq!(state.total, 500);
            assert_eq!(state.speed_limit_bytes, 2048);
            assert_eq!(state.started_at_ms, 1000);
        },
        BeginStep::Done(_) => panic!("an ordinary response must stream"),
    }
}

#[test]
fn chunks_advance_counters_and_emit_after_the_cadence() {
    let step = begin_transfer(
        1,
        String::from("/tmp/ep_001.mp4"),
        0,
        None,
        ResponseEvent::Response { status: 200, content_length: Some(1000) },
        0,
    );
    let mut state = match step {
        BeginStep::Stream { state, .. } => state,
        BeginStep::Done(_) => panic!("must stream"),
    };
    // 50 ms in: too early to emit
    let plan = chunk_step(&mut state, ChunkEvent::Written { len: 250 }, 50);
    assert!(plan.done.is_none());
    assert!(plan.emit.is_none());
    assert_eq!(plan.sleep_ms, 0);
    assert_eq!(state.downloaded, 250);
    // 150 ms in: a report falls due
    let plan = chunk_step(&mut state, ChunkEvent::Written { len: 250 }, 150);
    let p = plan.emit.expect("a report was due");
    assert_eq!(p.episode, 1);
    assert_eq!(p.downloaded, 500);
    assert_eq!(p.total, 1000);
    assert_eq!(p.percentage, 50);
    // 500 bytes in 150 ms of this attempt
    assert_eq!(p.speed, 500 * 1000 / 150);
    // the stream ends: success, file reported
    let plan = chunk_step(&mut state, ChunkEvent::EndOfStream, 200);
    let res = plan.done.expect("the attempt is over");
    assert!(res.success);
    assert_eq!(res.file_path.as_deref(), Some("/tmp/ep_001.mp4"));
}

#[test]
fn mid_stream_read_failure_keeps_the_partial_file() {
    let mut state = match begin_transfer(
        3,
        String::from("/tmp/ep_003.mp4"),
        0,
        None,
        ResponseEvent::Response { status: 200, content_length: Some(1000) },
        0,
    ) {
        BeginStep::Stream { state, .. } => state,
        BeginStep::Done(_) => panic!("must stream"),
    };
    chunk_step(&mut state, ChunkEvent::Written { len: 100 }, 10);
    let plan = chunk_step(
        &mut state,
        ChunkEvent::ReadFailed { detail: String::from("reset by peer") },
        20,
    );
    let res = plan.done.expect("the attempt is over");
    assert!(!res.success);
    // the partial file is reported so a later attempt can resume it
    assert_eq!(res.file_path.as_deref(), Some("/tmp/ep_003.mp4"));
    assert_eq!(res.error.as_deref(), Some("Download stream error: reset by peer"));
}

#[test]
fn write_failure_reports_no_file() {
    let mut state = match begin_transfer(
        4,
        String::from("/tmp/ep_004.mp4"),
        0,
        None,
        ResponseEvent::Response { status: 200, content_length: None },
        0,
    ) {
        BeginStep::Stream { state, .. } => state,
        BeginStep::Done(_) => panic!("must stream"),
    };
    let plan =
        chunk_step(&mut state, ChunkEvent::WriteFailed { detail: String::from("disk full") }, 10);
    let res = plan.done.expect("the attempt is over");
    assert!(!res.success);
    assert!(res.file_path.is_none());
    assert_eq!(res.error.as_deref(), Some("Write failed: disk full"));
}

#[test]
fn cancellation_result_carries_no_file() {
    let res = result_cancelled(9);
    assert!(!res.success);
    assert!(res.file_path.is_none());
    assert_eq!(res.error.as_deref(), Some("Download cancelled"));
    // success and a reported file agree on every other outcome
    let ok = result_finished(9, String::from("/tmp/ep_009.mp4"));
    assert!(ok.success && ok.file_path.is_some());
    let broken = result_stream_error(9, String::from("/tmp/ep_009.mp4"), "eof");
    assert!(!broken.success && broken.file_path.is_some());
}

#[test]
fn throttle_sleeps_just_enough_for_the_cap() {
    // 1000 bytes in the window, no time passed, cap 1000 B/s: the
    // window needs a full second
    assert_eq!(throttle_wait(1000, 0, 1000), 1000);
    // 300 ms already passed: sleep the remaining 700
    assert_eq!(throttle_wait(1000, 300, 1000), 700);
    // already slow enough
    assert_eq!(throttle_wait(100, 900, 1000), 0);
    // unlimited
    assert_eq!(throttle_wait(100000, 1, 0), 0);
    // ceiling: 1 byte at 3 B/s needs 334 ms
    assert_eq!(throttle_wait(1, 0, 3), 334);
}

#[test]
fn throttled_chunk_plans_a_sleep_and_resets_the_window() {
    let mut state = match begin_transfer(
        6,
        String::from("/tmp/ep_006.mp4"),
        1000,
        None,
        ResponseEvent::Response { status: 200, content_length: Some(4000) },
        0,
    ) {
        BeginStep::Stream { state, .. } => state,
        BeginStep::Done(_) => panic!("must stream"),
    };
    // 2000 bytes arrive instantly with a 1000 B/s cap: sleep 2 s,
    // after which the window (2 s old) resets
    let plan = chunk_step(&mut state, ChunkEvent::Written { len: 2000 }, 0);
    assert_eq!(plan.sleep_ms, 2000);
    assert_eq!(state.interval_bytes, 0);
    assert_eq!(state.interval_started_ms, 2000);
}
