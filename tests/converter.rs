use video_converter::driver::{Command, ConversionRequest, Driver, Outcome, ProgressEvent};
use video_converter::duration::{parse_duration, parse_timestamp_bytes};
use video_converter::format::{eq_ignoring_case, normalize_output, output_from_parts, Format};
use video_converter::probe::{total_from_probe, ProbeError};
use video_converter::progress::{estimate_progress, progress_percent, FULL_PERCENT};
use video_converter::ui::UiState;

fn request(input: &str, output: &str, format: Format) -> ConversionRequest {
    ConversionRequest {
        input: input.to_string(),
        output: output.to_string(),
        format,
        title: String::new(),
        artist: String::new(),
        description: String::new(),
    }
}

fn status(s: &str) -> ProgressEvent {
    ProgressEvent::StatusChanged(s.to_string())
}

/// Runs a conversion against a scripted transcoder: each command that asks
/// for work takes the next scripted outcome. Returns the events and how many
/// processes were started.
fn drive(req: &ConversionRequest, script: Vec<Outcome>) -> (Vec<ProgressEvent>, usize) {
    let (mut driver, mut step) = Driver::start(req);
    let mut events = Vec::new();
    let mut launches = 0;
    let mut script = script.into_iter();
    loop {
        events.extend(step.events);
        match step.command {
            Command::Stop => break,
            Command::Probe(_) | Command::Transcode(_) => launches += 1,
            Command::ReadLine | Command::Wait => {}
        }
        let outcome = script.next().expect("script ended early");
        assert!(driver.accepts(&outcome));
        let (d, s) = driver.advance(outcome);
        driver = d;
        step = s;
    }
    (events, launches)
}

fn line(s: &str) -> Outcome {
    Outcome::Line(s.as_bytes().to_vec())
}

const PROBE: &str = "Input #0, mov,mp4, from 'in.mp4':\n  Duration: 00:04:36.10, start: 0.000000, bitrate: 2018 kb/s\n";

#[test]
fn parse_duration_with_fraction() {
    assert_eq!(parse_duration("00:04:36.10"), Ok(276_100_000));
}

#[test]
fn parse_duration_short_hours() {
    assert_eq!(parse_duration("1:02:03"), Ok(3_723_000_000));
}

#[test]
fn parse_duration_rejects_word() {
    assert_eq!(parse_duration("bad"), Err(()));
}

#[test]
fn parse_duration_rejects_two_fields() {
    assert_eq!(parse_duration("00:00"), Err(()));
}

#[test]
fn parse_duration_rejects_four_fields() {
    assert_eq!(parse_duration("00:00:00:00"), Err(()));
}

#[test]
fn parse_duration_rejects_empty_and_signed_fields() {
    assert_eq!(parse_duration("::"), Err(()));
    assert_eq!(parse_duration("00::01"), Err(()));
    assert_eq!(parse_duration("-1:00:00"), Err(()));
    assert_eq!(parse_duration("00:00:1.2.3"), Err(()));
    assert_eq!(parse_duration("00:00:."), Err(()));
}

#[test]
fn parse_duration_fractional_fields() {
    assert_eq!(parse_duration("0.5:0:0"), Ok(1_800_000_000));
    assert_eq!(parse_duration("0:1.5:.25"), Ok(90_250_000));
    assert_eq!(parse_duration("0:0:5."), Ok(5_000_000));
}

#[test]
fn parse_duration_ignores_digits_below_a_microsecond() {
    assert_eq!(parse_duration("0:0:1.1234567"), Ok(1_123_456));
}

#[test]
fn parse_duration_rejects_totals_past_u64() {
    assert_eq!(parse_duration("99999999999999999999:00:00"), Err(()));
    assert_eq!(parse_timestamp_bytes(b"0:0:18446744073709.551615"), Ok(u64::MAX));
    assert_eq!(parse_timestamp_bytes(b"0:0:18446744073709.551616"), Err(()));
}

#[test]
fn progress_half_way() {
    let p = estimate_progress(b"frame= 100 fps=25 q=28.0 size=512kB time=00:02:18.05 bitrate=1000kbits/s", 276_100_000);
    assert_eq!(p, Some(5_000));
    let percent = p.unwrap() as f64 / 100.0;
    assert!((percent - 50.0).abs() <= 0.5);
}

#[test]
fn progress_clamped_past_total() {
    assert_eq!(estimate_progress(b"time=00:05:00.00 bitrate=1", 276_100_000), Some(FULL_PERCENT));
    assert_eq!(progress_percent(300, 200), 10_000);
}

#[test]
fn progress_without_marker_is_none() {
    assert_eq!(estimate_progress(b"frame= 100 fps=25 bitrate=1000kbits/s", 276_100_000), None);
}

#[test]
fn progress_with_unreadable_time_is_none() {
    assert_eq!(estimate_progress(b"time=N/A bitrate=N/A", 276_100_000), None);
}

#[test]
fn progress_time_ends_at_comma_or_line_end() {
    assert_eq!(estimate_progress(b"time=00:00:10.00,speed", 20_000_000), Some(5_000));
    assert_eq!(estimate_progress(b"time=00:00:05.00", 20_000_000), Some(2_500));
}

#[test]
fn progress_percent_rounds_down() {
    assert_eq!(progress_percent(1, 3), 3_333);
    assert_eq!(progress_percent(0, 3), 0);
}

#[test]
fn normalize_appends_missing_extension() {
    assert_eq!(normalize_output("movie", Format::Mkv), "movie.mkv");
}

#[test]
fn normalize_replaces_other_extension() {
    assert_eq!(normalize_output("movie.avi", Format::Mkv), "movie.mkv");
}

#[test]
fn normalize_keeps_extension_in_other_case() {
    assert_eq!(normalize_output("movie.MKV", Format::Mkv), "movie.MKV");
}

#[test]
fn normalize_each_format() {
    assert_eq!(normalize_output("a", Format::Mp4), "a.mp4");
    assert_eq!(normalize_output("a", Format::Avi), "a.avi");
    assert_eq!(normalize_output("a", Format::Mov), "a.mov");
    assert_eq!(normalize_output("a", Format::Wmv), "a.wmv");
    assert_eq!(normalize_output("a.mkv", Format::Flv), "a.flv");
}

#[test]
fn formats_by_index() {
    assert_eq!(Format::from_index(0), Some(Format::Mp4));
    assert_eq!(Format::from_index(2), Some(Format::Mkv));
    assert_eq!(Format::from_index(5), Some(Format::Flv));
    assert_eq!(Format::from_index(6), None);
    assert_eq!(Format::Mkv.name(), "MKV");
    assert_eq!(Format::Mkv.extension(), ".mkv");
}

#[test]
fn case_folding_is_ascii() {
    assert!(eq_ignoring_case("MkV", "mkv"));
    assert!(!eq_ignoring_case("mkv", "mk"));
    assert!(!eq_ignoring_case("mp4", "mkv"));
}

#[test]
fn probe_reads_duration() {
    // nine bytes after the marker: the hundredths fall outside them
    assert_eq!(total_from_probe(PROBE.as_bytes()), Ok(276_000_000));
    assert_eq!(total_from_probe(b"x\r\n  Duration: 01:00:00.00, start\r\n"), Ok(3_600_000_000));
}

#[test]
fn probe_errors() {
    assert_eq!(total_from_probe(b"no information here\n"), Err(ProbeError::NoDurationLine));
    assert_eq!(total_from_probe(b"Duration:00:01:00.00\n"), Err(ProbeError::NoDurationMarker));
    assert_eq!(total_from_probe(b"Duration: 00:01\n"), Err(ProbeError::UnreadableDuration));
    assert_eq!(total_from_probe(b"Duration: N/A, start\n"), Err(ProbeError::UnreadableDuration));
    assert_eq!(total_from_probe(b"Duration: 00:00:00.00, start\n"), Err(ProbeError::UnreadableDuration));
}

#[test]
fn probe_stamp_may_not_run_past_its_line() {
    assert_eq!(total_from_probe(b"Duration: 00:00:0\n1.00"), Err(ProbeError::UnreadableDuration));
}

#[test]
fn empty_input_only_reports() {
    let (events, launches) = drive(&request("", "out.mkv", Format::Mkv), vec![]);
    assert_eq!(events, vec![status("Please specify both input and output files.")]);
    assert_eq!(launches, 0);
}

#[test]
fn empty_output_only_reports() {
    let (events, launches) = drive(&request("in.mp4", "", Format::Mkv), vec![]);
    assert_eq!(events, vec![status("Please specify both input and output files.")]);
    assert_eq!(launches, 0);
}

#[test]
fn start_builds_probe_and_transcode_arguments() {
    let mut req = request("in.mp4", "out", Format::Mkv);
    req.title = "T".to_string();
    req.description = "D".to_string();
    let (driver, step) = Driver::start(&req);
    assert!(step.events.is_empty());
    assert_eq!(step.command, Command::Probe(vec!["-i".to_string(), "in.mp4".to_string()]));
    let (_, step) = driver.advance(Outcome::Probed(PROBE.as_bytes().to_vec()));
    let expected: Vec<String> = ["-i", "in.mp4", "out.mkv", "-metadata", "title=T", "-metadata", "description=D"]
        .iter()
        .map(|s| s.to_string())
        .collect();
    assert_eq!(step.command, Command::Transcode(expected));
}

#[test]
fn successful_conversion() {
    let mut ui = UiState::new();
    ui.begin();
    assert_eq!(ui.status, "Starting conversion...");
    assert_eq!(ui.progress, 0);
    let script = vec![
        Outcome::Probed(PROBE.as_bytes().to_vec()),
        Outcome::Spawned,
        line("frame=  10 time=00:00:27.61 bitrate=1"),
        line("some other diagnostic"),
        line("frame=  50 time=00:02:18.05 bitrate=1"),
        line("frame=  90 time=00:04:30.00 bitrate=1"),
        Outcome::StreamClosed,
        Outcome::Exited(true),
    ];
    let (events, launches) = drive(&request("in.mp4", "out.mkv", Format::Mkv), script);
    assert_eq!(launches, 2);
    let progress: Vec<u32> = events
        .iter()
        .filter_map(|e| match e {
            ProgressEvent::ProgressChanged(p) => Some(*p),
            _ => None,
        })
        .collect();
    assert_eq!(progress, vec![1_000, 5_001, 9_782, 10_000]);
    assert!(progress.windows(2).all(|w| w[0] <= w[1]));
    assert_eq!(events[events.len() - 2], status("Conversion successful."));
    assert_eq!(events[events.len() - 1], ProgressEvent::ProgressChanged(10_000));
    for e in events {
        ui.apply(e);
    }
    assert_eq!(ui.status, "Conversion successful.");
    assert_eq!(ui.progress, 10_000);
}

#[test]
fn failed_conversion() {
    let script = vec![
        Outcome::Probed(PROBE.as_bytes().to_vec()),
        Outcome::Spawned,
        line("frame=  10 time=00:00:27.61 bitrate=1"),
        Outcome::StreamClosed,
        Outcome::Exited(false),
    ];
    let (events, _) = drive(&request("in.mp4", "out.mkv", Format::Mkv), script);
    assert_eq!(events, vec![ProgressEvent::ProgressChanged(1_000), status("Conversion failed.")]);
    let mut ui = UiState::new();
    for e in events {
        ui.apply(e);
    }
    assert_eq!(ui.status, "Conversion failed.");
    assert_eq!(ui.progress, 1_000);
}

#[test]
fn probe_failure_stops_before_transcoding() {
    let (events, launches) = drive(
        &request("in.mp4", "out.mkv", Format::Mkv),
        vec![Outcome::Probed(b"nothing useful\n".to_vec())],
    );
    assert_eq!(events, vec![status("Failed to retrieve video duration.")]);
    assert_eq!(launches, 1);
}

#[test]
fn launch_and_wait_failures_report_reason() {
    let (events, _) = drive(
        &request("in.mp4", "out.mkv", Format::Mkv),
        vec![Outcome::ProbeFailed("not found".to_string())],
    );
    assert_eq!(events, vec![status("Failed to execute ffmpeg for duration: not found")]);
    let (events, _) = drive(
        &request("in.mp4", "out.mkv", Format::Mkv),
        vec![Outcome::Probed(PROBE.as_bytes().to_vec()), Outcome::SpawnFailed("denied".to_string())],
    );
    assert_eq!(events, vec![status("Failed to start ffmpeg: denied")]);
    let (events, _) = drive(
        &request("in.mp4", "out.mkv", Format::Mkv),
        vec![
            Outcome::Probed(PROBE.as_bytes().to_vec()),
            Outcome::Spawned,
            Outcome::StreamClosed,
            Outcome::WaitFailed("interrupted".to_string()),
        ],
    );
    assert_eq!(events, vec![status("Failed to wait on ffmpeg: interrupted")]);
}

#[test]
fn finished_driver_ignores_outcomes() {
    let (driver, _) = Driver::start(&request("", "", Format::Mp4));
    let (_, step) = driver.advance(Outcome::Exited(true));
    assert!(step.events.is_empty());
    assert_eq!(step.command, Command::Stop);
}

#[test]
fn state_rejects_unexpected_outcome() {
    let (driver, _) = Driver::start(&request("in.mp4", "out.mkv", Format::Mkv));
    assert!(!driver.accepts(&Outcome::Spawned));
    assert!(driver.accepts(&Outcome::Probed(vec![])));
}

#[test]
fn output_from_given_parts() {
    assert_eq!(output_from_parts("clip", None, Some("clip"), Format::Mov), "clip.mov");
    assert_eq!(output_from_parts("clip.MoV", Some("MoV"), Some("clip"), Format::Mov), "clip.MoV");
    assert_eq!(output_from_parts("d/clip.avi", Some("avi"), Some("clip"), Format::Mov), "clip.mov");
    assert_eq!(output_from_parts("odd.avi", Some("avi"), None, Format::Mov), "odd.avi");
}

#[test]
fn normalize_joins_stem_without_directory() {
    assert_eq!(normalize_output("videos/movie.avi", Format::Mkv), "movie.mkv");
    assert_eq!(normalize_output("videos/movie", Format::Mkv), "videos/movie.mkv");
    assert_eq!(normalize_output(".hidden", Format::Mp4), ".hidden.mp4");
}
