use vidmerge::merge::{
    concat_manifest, final_merge_progress, merge_videos, on_attempt_exit, on_progress_line,
    skipped_warning, tracker_start, validate_candidate, AttemptOutcome, CandidateProbe,
    MergeError, MergeScript, MergeStage,
};

fn valid_probe(path: &str, canonical: &str, duration_ms: u64) -> CandidateProbe {
    CandidateProbe {
        path: String::from(path),
        exists: true,
        size: 4096,
        duration_ms: Some(duration_ms),
        canonical: Some(String::from(canonical)),
    }
}

#[test]
fn validation_requires_existence_size_and_duration() {
    let good = valid_probe("a.mp4", "/x/a.mp4", 1000);
    assert!(validate_candidate(&good));
    let missing = CandidateProbe { exists: false, ..valid_probe("a.mp4", "/x/a.mp4", 1000) };
    assert!(!validate_candidate(&missing));
    let tiny = CandidateProbe { size: 1023, ..valid_probe("a.mp4", "/x/a.mp4", 1000) };
    assert!(!validate_candidate(&tiny));
    let unreadable = CandidateProbe { duration_ms: None, ..valid_probe("a.mp4", "/x/a.mp4", 1000) };
    assert!(!validate_candidate(&unreadable));
    let empty_duration =
        CandidateProbe { duration_ms: Some(0), ..valid_probe("a.mp4", "/x/a.mp4", 1000) };
    assert!(!validate_candidate(&empty_duration));
}

#[test]
fn empty_and_all_invalid_inputs_fail_with_their_own_errors() {
    let none: Vec<CandidateProbe> = Vec::new();
    match merge_videos(&none, "/out/all.mp4", "/tmp/list.txt") {
        Err(MergeError::NoInput) => {},
        _ => panic!("no candidates must fail as such"),
    }
    let invalid = vec![CandidateProbe {
        path: String::from("a.mp4"),
        exists: true,
        size: 0,
        duration_ms: None,
        canonical: None,
    }];
    match merge_videos(&invalid, "/out/all.mp4", "/tmp/list.txt") {
        Err(e) => {
            assert!(matches!(e, MergeError::NoneValid));
            assert_eq!(
                e.message(),
                "No valid video files to merge - all files appear incomplete or corrupted"
            );
        },
        Ok(_) => panic!("nothing valid must not merge"),
    }
}

#[test]
fn one_invalid_candidate_falls_back_to_the_single_copy_path() {
    // a 0-byte candidate is dropped with a warning; the one
    // remaining file is copied, not transcoded
    let zero_byte = CandidateProbe {
        path: String::from("/dl/ep_001.mp4"),
        exists: true,
        size: 0,
        duration_ms: None,
        canonical: None,
    };
    let good = valid_probe("/dl/ep_002.mp4", "/abs/dl/ep_002.mp4", 90_000);
    let probes = vec![zero_byte, good];
    match merge_videos(&probes, "/out/all.mp4", "/tmp/list.txt") {
        Ok(MergeScript::CopySingle { source, skipped }) => {
            assert_eq!(source, "/dl/ep_002.mp4");
            assert_eq!(skipped, 1);
            assert_eq!(skipped_warning(skipped), "Warning: 1 files skipped (corrupted/incomplete)");
        },
        _ => panic!("one valid file must take the copy path"),
    }
    // the copy path reports completion at once
    let done = final_merge_progress(0);
    assert_eq!(done.percentage, 100);
    assert_eq!(done.current_time_ms, 0);
    assert_eq!(done.total_duration_ms, 0);
}

#[test]
fn two_valid_files_get_the_full_concat_script() {
    let probes = vec![
        valid_probe("ep_001.mp4", "/abs/ep_001.mp4", 60_000),
        valid_probe("ep_002.mp4", "/abs/ep_002.mp4", 30_000),
    ];
    match merge_videos(&probes, "/out/all.mp4", "/tmp/list.txt") {
        Ok(MergeScript::Concat { files, manifest, fast_args, reencode_args, total_ms, skipped }) => {
            assert_eq!(files, vec!["/abs/ep_001.mp4", "/abs/ep_002.mp4"]);
            assert_eq!(manifest, "file '/abs/ep_001.mp4'\nfile '/abs/ep_002.mp4'\n");
            assert_eq!(
                fast_args,
                vec![
                    "-y", "-f", "concat", "-safe", "0", "-i", "/tmp/list.txt", "-c", "copy",
                    "/out/all.mp4"
                ]
            );
            assert_eq!(
                reencode_args,
                vec![
                    "-y",
                    "-i",
                    "/abs/ep_001.mp4",
                    "-i",
                    "/abs/ep_002.mp4",
                    "-filter_complex",
                    "[0:v][0:a][1:v][1:a]concat=n=2:v=1:a=1[outv][outa]",
                    "-map",
                    "[outv]",
                    "-map",
                    "[outa]",
                    "-c:v",
                    "libx264",
                    "-preset",
                    "ultrafast",
                    "-crf",
                    "23",
                    "-c:a",
                    "aac",
                    "-b:a",
                    "128k",
                    "/out/all.mp4"
                ]
            );
            assert_eq!(total_ms, 90_000);
            assert_eq!(skipped, 0);
        },
        _ => panic!("two valid files must take the concat path"),
    }
    // a successful attempt ends with exactly 100%
    let done = final_merge_progress(90_000);
    assert_eq!(done.percentage, 100);
    assert_eq!(done.current_time_ms, 90_000);
}

#[test]
fn manifest_escapes_embedded_quotes() {
    let files = vec![String::from("/a/it's here.mp4")];
    assert_eq!(concat_manifest(&files), "file '/a/it'\\''s here.mp4'\n");
}

#[test]
fn unresolvable_valid_file_fails_the_concat_plan() {
    let mut bad = valid_probe("ep_002.mp4", "/abs/ep_002.mp4", 1000);
    bad.canonical = None;
    let probes = vec![valid_probe("ep_001.mp4", "/abs/ep_001.mp4", 1000), bad];
    match merge_videos(&probes, "/out/all.mp4", "/tmp/list.txt") {
        Err(MergeError::CannotFind { file }) => {
            assert_eq!(file, "ep_002.mp4");
        },
        _ => panic!("an unresolvable input must fail the plan"),
    }
}

#[test]
fn failed_fast_path_always_tries_the_reencode_first() {
    // the fallback runs before any error surfaces
    assert_eq!(on_attempt_exit(MergeStage::FastConcat, false), AttemptOutcome::Fallback);
    assert_eq!(on_attempt_exit(MergeStage::FastConcat, true), AttemptOutcome::Complete);
    assert_eq!(on_attempt_exit(MergeStage::Reencode, true), AttemptOutcome::Complete);
    // only a failed fallback exhausts the merge
    assert_eq!(on_attempt_exit(MergeStage::Reencode, false), AttemptOutcome::Exhausted);
    let err = MergeError::Exhausted {
        files: vec![String::from("ep_001.mp4"), String::from("ep_002.mp4")],
    };
    assert_eq!(
        err.message(),
        "FFmpeg merge failed. The following files may be corrupted/incomplete: ep_001.mp4, ep_002.mp4"
    );
}

#[test]
fn merge_progress_is_rate_limited_clamped_and_monotone() {
    let mut t = tracker_start(100_000, 0);
    // a line without a marker emits nothing
    assert!(on_progress_line(&mut t, "frame=  100 fps= 25 q=28.0", 600).is_none());
    // too soon after the last report
    assert!(on_progress_line(&mut t, "time=00:00:10.00 bitrate=1k", 400).is_none());
    let p1 = on_progress_line(&mut t, "size=1kB time=00:00:10.00 bitrate=1k", 600).unwrap();
    assert_eq!(p1.current_time_ms, 10_000);
    assert_eq!(p1.percentage, 10);
    assert_eq!(p1.total_duration_ms, 100_000);
    let p2 = on_progress_line(&mut t, "size=2kB time=00:01:40.00 bitrate=1k", 1200).unwrap();
    assert_eq!(p2.percentage, 100);
    // the reported share never exceeds 100, even past the estimate
    let p3 = on_progress_line(&mut t, "size=3kB time=00:02:30.00 bitrate=1k", 1800).unwrap();
    assert_eq!(p3.percentage, 100);
    assert!(p1.percentage <= p2.percentage && p2.percentage <= p3.percentage);
}

#[test]
fn merge_error_messages_match_their_causes() {
    assert_eq!(MergeError::NoInput.message(), "No videos to merge");
    assert_eq!(
        MergeError::CannotFind { file: String::from("x.mp4") }.message(),
        "Cannot find file x.mp4"
    );
    assert_eq!(
        MergeError::ManifestWrite { detail: String::from("denied") }.message(),
        "Failed to create concat list: denied"
    );
    assert_eq!(
        MergeError::SpawnFailed { detail: String::from("not found") }.message(),
        "Failed to run FFmpeg: not found"
    );
    assert_eq!(MergeError::StderrCapture.message(), "Failed to capture FFmpeg stderr");
    assert_eq!(
        MergeError::ProcessWait { detail: String::from("signal") }.message(),
        "FFmpeg process error: signal"
    );
}
