use featherpull::ffmpeg::{
    gather_block_line, ffmpeg_args, ffmpeg_exit_result, is_block_terminator, non_na_string, parse_out_time_string, parse_progress_block,
    progress_block_in_range, FfmpegError, OutTime, ProgressState,
};

/// The microseconds of an `out_time` clock text, as hours, minutes and
/// seconds read as `f64` and rounded.
fn clock_micros(t: &OutTime) -> Option<i64> {
    match t {
        OutTime::Micros(us) => Some(*us),
        OutTime::Clock { hours, minutes, seconds } => {
            let h: f64 = hours.parse().unwrap();
            let m: f64 = minutes.parse().unwrap();
            let s: f64 = seconds.parse().unwrap();
            Some(((h * 3600.0 + m * 60.0 + s) * 1_000_000.0).round() as i64)
        },
        OutTime::Unknown => None,
    }
}

fn fps_value(fps: &Option<String>) -> Option<f64> {
    fps.as_ref().map(|t| t.parse::<f64>().unwrap())
}

#[test]
fn parses_continue_block_with_multiple_keys() {
    let lines = [
        "frame=120",
        "fps=29.97",
        "bitrate=1024.3kbits/s",
        "total_size=1048576",
        "out_time_us=4004004",
        "out_time_ms=4004",
        "out_time=00:00:04.004000",
        "speed=1.01x",
        "progress=continue",
    ];

    let block = parse_progress_block(&lines);

    assert_eq!(block.frame, Some(120));
    assert_eq!(fps_value(&block.fps), Some(29.97));
    assert_eq!(block.bitrate, Some("1024.3kbits/s".to_string()));
    assert_eq!(block.total_size, Some(1_048_576));
    assert_eq!(clock_micros(&block.out_time), Some(4_004_004));
    assert_eq!(block.speed, Some("1.01x".to_string()));
    assert_eq!(block.state, ProgressState::Continue);
}

#[test]
fn parses_end_block_as_completion_marker() {
    let lines = ["frame=300", "fps=30.0", "out_time_us=10000000", "speed=1.5x", "progress=end"];

    let block = parse_progress_block(&lines);

    assert_eq!(block.state, ProgressState::End);
    assert_eq!(clock_micros(&block.out_time), Some(10_000_000));
}

#[test]
fn missing_keys_are_treated_as_none() {
    let lines = ["frame=10", "bitrate=N/A", "speed=N/A", "progress=continue"];

    let block = parse_progress_block(&lines);

    assert_eq!(block.frame, Some(10));
    assert_eq!(block.fps, None);
    assert_eq!(block.bitrate, None);
    assert_eq!(block.speed, None);
    assert_eq!(block.total_size, None);
    assert_eq!(clock_micros(&block.out_time), None);
}

#[test]
fn falls_back_to_out_time_ms_when_out_time_us_missing() {
    let lines = ["out_time_ms=2500", "progress=continue"];

    let block = parse_progress_block(&lines);

    assert_eq!(clock_micros(&block.out_time), Some(2_500_000));
}

#[test]
fn falls_back_to_out_time_string_when_other_keys_missing() {
    let lines = ["out_time=00:01:02.500000", "progress=continue"];

    let block = parse_progress_block(&lines);

    assert_eq!(clock_micros(&block.out_time), Some(62_500_000));
}

#[test]
fn negative_out_time_us_is_treated_as_unknown() {
    let lines = ["out_time_us=-1", "out_time_ms=-1", "progress=continue"];

    let block = parse_progress_block(&lines);

    assert_eq!(clock_micros(&block.out_time), None);
}

// ---- further cases ----

#[test]
fn out_time_text_is_split_into_its_three_parts() {
    assert_eq!(
        parse_out_time_string("01:02:03.5"),
        OutTime::Clock { hours: "01".to_string(), minutes: "02".to_string(), seconds: "03.5".to_string() }
    );
    assert_eq!(parse_out_time_string("02:03.5"), OutTime::Unknown);
    assert_eq!(parse_out_time_string("01:02:03:04"), OutTime::Unknown);
    assert_eq!(parse_out_time_string("aa:02:03"), OutTime::Unknown);
    assert_eq!(parse_out_time_string("N/A"), OutTime::Unknown);
    assert_eq!(parse_out_time_string("-577014:32:22.775808"), OutTime::Unknown);
    assert_eq!(parse_out_time_string("00:-01:02"), OutTime::Unknown);
}

#[test]
fn not_available_values_are_dropped() {
    assert_eq!(non_na_string(Some("N/A")), None);
    assert_eq!(non_na_string(Some("")), None);
    assert_eq!(non_na_string(None), None);
    assert_eq!(non_na_string(Some("2.0x")), Some("2.0x".to_string()));
}

#[test]
fn keys_and_values_are_trimmed_and_the_last_repeat_counts() {
    let lines = [" frame = 7 ", "frame=8", "no equals sign", "total_size=-5", "progress = end "];
    let block = parse_progress_block(&lines);
    assert_eq!(block.frame, Some(8));
    assert_eq!(block.total_size, None);
    assert_eq!(block.state, ProgressState::End);
}

#[test]
fn out_time_us_is_preferred_and_huge_milliseconds_are_out_of_range() {
    let lines = ["out_time=00:00:09.000000", "out_time_ms=5", "out_time_us=7"];
    assert_eq!(parse_progress_block(&lines).out_time, OutTime::Micros(7));
    assert!(progress_block_in_range(&["out_time_ms=9223372036854775"]));
    assert!(!progress_block_in_range(&["out_time_ms=9223372036854776"]));
    assert!(progress_block_in_range(&["out_time_us=1", "out_time_ms=9223372036854776"]));
}

#[test]
fn block_terminators_are_recognised() {
    assert!(is_block_terminator("progress=continue"));
    assert!(is_block_terminator("progress=end"));
    assert!(!is_block_terminator("progress=other"));
    assert!(!is_block_terminator("frame=1"));
}

#[test]
fn progress_arguments_are_always_appended() {
    let args = ffmpeg_args(&["-y".to_string(), "-i".to_string(), "in".to_string()]);
    assert_eq!(args, vec!["-y", "-i", "in", "-progress", "pipe:1", "-nostats"]);
}

#[test]
fn exit_codes_are_judged() {
    assert!(ffmpeg_exit_result(Some(0), "ok".to_string()).is_ok());
    match ffmpeg_exit_result(Some(1), "bad".to_string()) {
        Err(FfmpegError::ExitFailure { code, stderr }) => {
            assert_eq!(code, 1);
            assert_eq!(stderr, "bad");
        },
        other => panic!("ExitFailureのはずが{other:?}"),
    }
    match ffmpeg_exit_result(None, "sig".to_string()) {
        Err(FfmpegError::TerminatedWithoutCode { stderr }) => assert_eq!(stderr, "sig"),
        other => panic!("TerminatedWithoutCodeのはずが{other:?}"),
    }
}

#[test]
fn line_order_does_not_matter_for_different_keys() {
    let a = ["out_time=00:00:01.000000", "out_time_ms=2000", "frame=3", "progress=continue"];
    let b = ["progress=continue", "frame=3", "out_time_ms=2000", "out_time=00:00:01.000000"];
    assert_eq!(parse_progress_block(&a), parse_progress_block(&b));
    assert_eq!(parse_progress_block(&a).out_time, OutTime::Micros(2_000_000));
}

#[test]
fn negative_clock_time_is_treated_as_unknown() {
    let lines = ["out_time=-577014:32:22.775808", "progress=continue"];
    assert_eq!(clock_micros(&parse_progress_block(&lines).out_time), None);
}

#[test]
fn lines_are_gathered_into_blocks() {
    let mut pending = Vec::new();
    assert_eq!(gather_block_line(&mut pending, "frame=1".to_string()), None);
    assert_eq!(gather_block_line(&mut pending, "fps=2".to_string()), None);
    assert_eq!(
        gather_block_line(&mut pending, "progress=continue".to_string()),
        Some(vec!["frame=1".to_string(), "fps=2".to_string(), "progress=continue".to_string()])
    );
    assert!(pending.is_empty());
    assert_eq!(gather_block_line(&mut pending, "progress=end".to_string()), Some(vec!["progress=end".to_string()]));
}
