use vidmerge::config::{DownloadConfig, NamingPolicy};
use vidmerge::naming::{classify_media_file, merged_output_name, sanitize_filename, VideoDownloader};
use vidmerge::orchestrator::{
    plan_batches, should_merge, successful_paths, synthesized_failure, UNKNOWN_EPISODE,
};
use vidmerge::paths::{expand_path_with, join_path};
use vidmerge::progress::{clamped_percentage, percentage, speed_bytes_per_sec};
use vidmerge::timecode::{parse_duration_ms, parse_ffmpeg_time};
use vidmerge::tool::{check_ffmpeg, resolve_tool, ToolLocation};
use vidmerge::transfer::DownloadResult;

#[test]
fn batches_follow_the_concurrency_bound() {
    // episodes [1,2,3] at concurrency 2 run as [1,2] then [3]; the
    // second batch never starts before the first is done
    let batches = plan_batches(&vec![1, 2, 3], 2);
    assert_eq!(batches, vec![vec![1, 2], vec![3]]);

    let batches = plan_batches(&vec![10, 20, 30, 40, 50, 60, 70], 3);
    assert_eq!(batches, vec![vec![10, 20, 30], vec![40, 50, 60], vec![70]]);
    for b in &batches {
        assert!(b.len() <= 3 && !b.is_empty());
    }

    let batches = plan_batches(&vec![1, 2], 5);
    assert_eq!(batches, vec![vec![1, 2]]);

    let none: Vec<i32> = Vec::new();
    assert!(plan_batches(&none, 1).is_empty());
}

#[test]
fn successful_paths_keep_result_order() {
    let results = vec![
        DownloadResult {
            episode: 1,
            success: true,
            file_path: Some(String::from("/d/ep_001.mp4")),
            error: None,
        },
        DownloadResult {
            episode: 2,
            success: false,
            file_path: Some(String::from("/d/ep_002.mp4")),
            error: Some(String::from("Download stream error: reset")),
        },
        DownloadResult {
            episode: 3,
            success: true,
            file_path: Some(String::from("/d/ep_003.mp4")),
            error: None,
        },
    ];
    assert_eq!(successful_paths(&results), vec!["/d/ep_001.mp4", "/d/ep_003.mp4"]);
}

#[test]
fn synthesized_failure_uses_the_unknown_marker() {
    let r = synthesized_failure("panicked");
    assert_eq!(r.episode, UNKNOWN_EPISODE);
    assert_eq!(UNKNOWN_EPISODE, -1);
    assert!(!r.success);
    assert!(r.file_path.is_none());
    assert_eq!(r.error.as_deref(), Some("Task failed: panicked"));
}

#[test]
fn merge_runs_only_when_requested_possible_and_useful() {
    assert!(should_merge(true, 2, true));
    assert!(!should_merge(false, 2, true));
    assert!(!should_merge(true, 0, true));
    assert!(!should_merge(true, 2, false));
}

#[test]
fn sanitization_strips_trims_and_truncates() {
    assert_eq!(sanitize_filename("My<Show>: a/b\\c|d?e*\"f\""), "MyShow abcdef");
    assert_eq!(sanitize_filename("  padded  "), "padded");
    assert_eq!(sanitize_filename("<>:?"), "");
    // 50 characters, counted as characters, not bytes
    let wide = char::from_u32(0x0E2D).unwrap();
    let long: String = (0..60).map(|_| wide).collect();
    let cut = sanitize_filename(&long);
    assert_eq!(cut.chars().count(), 50);
}

#[test]
fn episode_filenames_follow_the_policy() {
    let zero = VideoDownloader::with_config(
        "/out",
        DownloadConfig {
            speed_limit_kbps: 0,
            file_naming: NamingPolicy::ZeroPadded,
            series_title: String::new(),
        },
    );
    assert_eq!(zero.get_episode_filename(7), "/out/ep_007.mp4");
    assert_eq!(zero.get_episode_filename(123), "/out/ep_123.mp4");
    assert_eq!(zero.get_episode_filename(1234), "/out/ep_1234.mp4");

    let plain = VideoDownloader::with_config(
        "/out",
        DownloadConfig {
            speed_limit_kbps: 0,
            file_naming: NamingPolicy::Plain,
            series_title: String::new(),
        },
    );
    assert_eq!(plain.get_episode_filename(7), "/out/episode_7.mp4");

    let titled = VideoDownloader::with_config(
        "/out",
        DownloadConfig {
            speed_limit_kbps: 0,
            file_naming: NamingPolicy::Titled,
            series_title: String::from("A: Show?"),
        },
    );
    assert_eq!(titled.get_episode_filename(7), "/out/A Show_EP7.mp4");

    let untitled = VideoDownloader::with_config(
        "/out",
        DownloadConfig {
            speed_limit_kbps: 0,
            file_naming: NamingPolicy::Titled,
            series_title: String::from("<>"),
        },
    );
    assert_eq!(untitled.get_episode_filename(7), "/out/EP7.mp4");
}

#[test]
fn merged_output_is_named_after_the_title() {
    assert_eq!(merged_output_name("My Show: Part 1"), "My Show Part 1.mp4");
}

#[test]
fn media_files_are_classified_by_name_shape() {
    assert_eq!(classify_media_file("ep_001.mp4"), (true, false));
    assert_eq!(classify_media_file("Show_ep12.mp4"), (true, false));
    assert_eq!(classify_media_file("My Show.mp4"), (false, true));
    assert_eq!(classify_media_file("notes.txt"), (false, false));
}

#[test]
fn tilde_expansion_uses_the_supplied_home() {
    assert_eq!(expand_path_with("~/videos", Some("/home/u")), "/home/u/videos");
    assert_eq!(expand_path_with("~/videos", None), "~/videos");
    assert_eq!(expand_path_with("/abs/videos", Some("/home/u")), "/abs/videos");
    assert_eq!(join_path("/out", "a.mp4"), "/out/a.mp4");
    assert_eq!(join_path("", "a.mp4"), "a.mp4");
}

#[test]
fn config_defaults_are_unlimited_and_zero_padded() {
    let c = DownloadConfig::default();
    assert_eq!(c.speed_limit_kbps, 0);
    assert_eq!(c.file_naming, NamingPolicy::ZeroPadded);
    assert_eq!(c.series_title, "");
    assert_eq!(c.speed_limit_bytes(), 0);
    let capped = DownloadConfig { speed_limit_kbps: 2, ..DownloadConfig::default() };
    assert_eq!(capped.speed_limit_bytes(), 2048);
}

#[test]
fn tool_resolution_prefers_sidecar_then_bundle_then_system() {
    assert_eq!(resolve_tool(true, true), ToolLocation::Sidecar);
    assert_eq!(resolve_tool(true, false), ToolLocation::Sidecar);
    assert_eq!(resolve_tool(false, true), ToolLocation::Bundled);
    assert_eq!(resolve_tool(false, false), ToolLocation::System);
}

#[test]
fn availability_means_a_successful_version_probe() {
    assert!(check_ffmpeg(Some(true)));
    assert!(!check_ffmpeg(Some(false)));
    assert!(!check_ffmpeg(None));
}

#[test]
fn percentages_and_speeds_are_integer_exact() {
    assert_eq!(percentage(0, 0), 0);
    assert_eq!(percentage(50, 200), 25);
    assert_eq!(percentage(999, 1000), 99);
    assert_eq!(clamped_percentage(300, 200), 100);
    assert_eq!(speed_bytes_per_sec(1000, 0), 0);
    assert_eq!(speed_bytes_per_sec(1000, 500), 2000);
}

#[test]
fn integers_format_in_plain_decimal() {
    assert_eq!(vidmerge::text::u64_to_string(0), "0");
    assert_eq!(vidmerge::text::u64_to_string(90210), "90210");
    assert_eq!(vidmerge::text::u64_to_string(u64::MAX), "18446744073709551615");
    assert_eq!(vidmerge::text::i32_to_string(-42), "-42");
    // a sign counts towards the zero-padded width of three
    assert_eq!(vidmerge::text::i32_to_string_pad3(-5), "-05");
    assert_eq!(vidmerge::text::i32_to_string_pad3(0), "000");
    assert_eq!(vidmerge::text::i32_to_string_pad3(42), "042");
}

#[test]
fn durations_parse_as_milliseconds() {
    assert_eq!(parse_duration_ms(" 123.456000\n"), Some(123_456));
    assert_eq!(parse_duration_ms("0"), Some(0));
    assert_eq!(parse_duration_ms(".5"), Some(500));
    assert_eq!(parse_duration_ms("5."), Some(5_000));
    assert_eq!(parse_duration_ms("1.2.3"), None);
    assert_eq!(parse_duration_ms("N/A"), None);
    assert_eq!(parse_duration_ms(""), None);
}

#[test]
fn ffmpeg_time_markers_parse_as_milliseconds() {
    assert_eq!(
        parse_ffmpeg_time("frame= 100 fps= 25 q=28.0 size=  512kB time=00:01:23.45 bitrate=1k "),
        Some(83_450)
    );
    assert_eq!(parse_ffmpeg_time("time=1:2:3 x"), Some(3_723_000));
    // no marker, no trailing field, or a malformed clock
    assert_eq!(parse_ffmpeg_time("frame= 100 fps= 25"), None);
    assert_eq!(parse_ffmpeg_time("time=00:01:23.45"), None);
    assert_eq!(parse_ffmpeg_time("time=00:01 x"), None);
    // unparsable clock components count as zero
    assert_eq!(parse_ffmpeg_time("time=xx:01:00.00 x"), Some(60_000));
}
