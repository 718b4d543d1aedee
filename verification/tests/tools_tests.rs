use bucket_streamer::client::{check_video_set, frame_file_name, ClientAction, Progress};
use bucket_streamer::convert::{
    check_output_exists, decoder_threads, encoder_threads, output_size, select_encoder,
    validate_batch_input, validate_downscale, validate_input, BatchFileResult, BatchStatus,
    BatchSummary, CliError, EncoderChoice,
};
use bucket_streamer::devshell::{map_keyword, DevshellArgs};
use bucket_streamer::offsets::{
    frame_entries, frame_requests, split_batches, FrameEntry, FrameOffsets, PacketInfo,
};
use bucket_streamer::protocol::{Field, FrameRequest, ProtocolError, ServerMessage};

#[test]
fn test_entries_follow_the_keyframes() {
    let packets = vec![
        PacketInfo { stream: 0, position: 48, is_key: true },
        PacketInfo { stream: 1, position: 60, is_key: true },
        PacketInfo { stream: 0, position: 1000, is_key: false },
        PacketInfo { stream: 0, position: -1, is_key: true },
        PacketInfo { stream: 0, position: 2000, is_key: false },
        PacketInfo { stream: 0, position: 3000, is_key: true },
        PacketInfo { stream: 0, position: 4000, is_key: false },
    ];
    assert_eq!(
        frame_entries(&packets, 0),
        vec![
            FrameEntry { offset: 48, irap_offset: 48 },
            FrameEntry { offset: 1000, irap_offset: 48 },
            FrameEntry { offset: 2000, irap_offset: 48 },
            FrameEntry { offset: 3000, irap_offset: 3000 },
            FrameEntry { offset: 4000, irap_offset: 3000 },
        ]
    );
    assert_eq!(frame_entries(&packets, 1), vec![FrameEntry { offset: 60, irap_offset: 60 }]);
    assert!(frame_entries(&packets, 2).is_empty());
    assert!(frame_entries(&vec![], 0).is_empty());
}

#[test]
fn test_entries_before_the_first_keyframe() {
    let packets = vec![
        PacketInfo { stream: 0, position: 10, is_key: false },
        PacketInfo { stream: 0, position: 20, is_key: true },
    ];
    assert_eq!(
        frame_entries(&packets, 0),
        vec![FrameEntry { offset: 10, irap_offset: 0 }, FrameEntry { offset: 20, irap_offset: 20 }]
    );
}

#[test]
fn test_sidecar_text() {
    let offsets = FrameOffsets {
        video_url: "fs:///data/test.h265".to_string(),
        frames: vec![
            FrameEntry { offset: 48, irap_offset: 48 },
            FrameEntry { offset: 1000, irap_offset: 48 },
        ],
    };
    let expected = "{\n  \"video_url\": \"fs:///data/test.h265\",\n  \"frames\": [\n    {\n      \"offset\": 48,\n      \"irap_offset\": 48\n    },\n    {\n      \"offset\": 1000,\n      \"irap_offset\": 48\n    }\n  ]\n}";
    assert_eq!(offsets.to_json_pretty(), expected);
    assert_eq!(FrameOffsets::from_json(expected), Ok(offsets));
    let empty = FrameOffsets { video_url: "s3://b/v".to_string(), frames: vec![] };
    assert_eq!(empty.to_json_pretty(), "{\n  \"video_url\": \"s3://b/v\",\n  \"frames\": []\n}");
    assert_eq!(FrameOffsets::from_json(&empty.to_json_pretty()), Ok(empty));
}

#[test]
fn test_sidecar_errors() {
    assert!(matches!(FrameOffsets::from_json("nope"), Err(ProtocolError::Syntax(_))));
    assert_eq!(FrameOffsets::from_json("3"), Err(ProtocolError::NotAnObject));
    assert_eq!(
        FrameOffsets::from_json(r#"{"frames":[]}"#),
        Err(ProtocolError::MissingField(Field::VideoUrl))
    );
    assert_eq!(
        FrameOffsets::from_json(r#"{"video_url":"u"}"#),
        Err(ProtocolError::MissingField(Field::Frames))
    );
    assert_eq!(
        FrameOffsets::from_json(r#"{"video_url":"u","frames":[{"offset":1}]}"#),
        Err(ProtocolError::MissingField(Field::IrapOffset))
    );
    assert_eq!(
        FrameOffsets::from_json(r#"{"video_url":"u","frames":[{"offset":1,"irap_offset":-1}]}"#),
        Err(ProtocolError::InvalidField(Field::IrapOffset))
    );
}

#[test]
fn test_requests_are_indexed_by_position() {
    let entries = vec![
        FrameEntry { offset: 48, irap_offset: 48 },
        FrameEntry { offset: 1000, irap_offset: 48 },
        FrameEntry { offset: 3000, irap_offset: 3000 },
    ];
    assert_eq!(
        frame_requests(&entries),
        vec![
            FrameRequest { offset: 48, irap_offset: 48, index: 0 },
            FrameRequest { offset: 1000, irap_offset: 48, index: 1 },
            FrameRequest { offset: 3000, irap_offset: 3000, index: 2 },
        ]
    );
    assert!(frame_requests(&vec![]).is_empty());
}

#[test]
fn test_batches_keep_the_order() {
    let requests: Vec<FrameRequest> =
        (0..7).map(|i| FrameRequest { offset: i * 10, irap_offset: 0, index: i as u32 }).collect();
    let batches = split_batches(&requests, 3);
    assert_eq!(batches.len(), 3);
    assert_eq!(batches[0], requests[0..3].to_vec());
    assert_eq!(batches[1], requests[3..6].to_vec());
    assert_eq!(batches[2], requests[6..7].to_vec());
    assert_eq!(split_batches(&requests, 1).len(), 7);
    assert_eq!(split_batches(&requests, 7), vec![requests.clone()]);
    assert_eq!(split_batches(&requests, u32::MAX), vec![requests.clone()]);
    assert!(split_batches(&vec![], 4).is_empty());
    assert_eq!(split_batches(&requests[0..6].to_vec(), 3).len(), 2);
}

#[test]
fn test_input_validation() {
    assert_eq!(validate_input("a.mp4", true, Some("mp4")), Ok(()));
    assert_eq!(validate_input("a.MOV", true, Some("MOV")), Ok(()));
    assert_eq!(validate_input("a.H265", true, Some("H265")), Ok(()));
    assert_eq!(validate_input("a.Mp4", true, Some("Mp4")), Ok(()));
    assert_eq!(
        validate_input("a.mp4", false, Some("mp4")),
        Err(CliError::FileNotFound("a.mp4".to_string()))
    );
    assert_eq!(
        validate_input("a", true, None),
        Err(CliError::InvalidInput("No extension found: a".to_string()))
    );
    assert_eq!(
        validate_input("a.avi", true, Some("avi")),
        Err(CliError::InvalidExtension("a.avi".to_string()))
    );
    assert_eq!(
        validate_input("a.mp44", true, Some("mp44")),
        Err(CliError::InvalidExtension("a.mp44".to_string()))
    );
    assert_eq!(
        validate_input("a.", true, Some("")),
        Err(CliError::InvalidExtension("a.".to_string()))
    );
}

#[test]
fn test_output_and_batch_checks() {
    assert_eq!(check_output_exists("o.h265", false, false), Ok(()));
    assert_eq!(check_output_exists("o.h265", true, true), Ok(()));
    assert_eq!(
        check_output_exists("o.h265", true, false),
        Err(CliError::OutputExists("o.h265".to_string()))
    );
    assert_eq!(validate_batch_input("dir", true, true), Ok(()));
    assert_eq!(
        validate_batch_input("dir", false, false),
        Err(CliError::FileNotFound("dir".to_string()))
    );
    assert_eq!(
        validate_batch_input("f.mp4", true, false),
        Err(CliError::InvalidInput("Batch mode (-R) requires directory, got file: f.mp4".to_string()))
    );
}

#[test]
fn test_downscale_validation() {
    assert_eq!(validate_downscale(2, 1920, 1080), Ok(()));
    assert_eq!(validate_downscale(1, 64, 64), Ok(()));
    assert_eq!(validate_downscale(16, 1024, 1024), Ok(()));
    assert_eq!(
        validate_downscale(3, 1920, 1080),
        Err(CliError::InvalidInput("Downscale divisor must be power of 2, got 3".to_string()))
    );
    assert_eq!(
        validate_downscale(0, 1920, 1080),
        Err(CliError::InvalidInput("Downscale divisor must be power of 2, got 0".to_string()))
    );
    assert_eq!(
        validate_downscale(32, 1920, 1080),
        Err(CliError::InvalidInput("Downscaled dimensions 60x33 too small (min 64x64)".to_string()))
    );
    assert_eq!(
        validate_downscale(2, 127, 4000),
        Err(CliError::InvalidInput("Downscaled dimensions 63x2000 too small (min 64x64)".to_string()))
    );
    assert_eq!(output_size(1920, 1080, None), Ok((1920, 1080)));
    assert_eq!(output_size(1920, 1080, Some(4)), Ok((480, 270)));
    assert!(output_size(1920, 1080, Some(5)).is_err());
}

#[test]
fn test_encoder_and_threads() {
    assert_eq!(select_encoder(true, true), EncoderChoice::Nvenc);
    assert_eq!(select_encoder(true, false), EncoderChoice::X265);
    assert_eq!(select_encoder(false, true), EncoderChoice::X265);
    assert_eq!(decoder_threads(4), 4);
    assert_eq!(decoder_threads(16), 16);
    assert_eq!(decoder_threads(64), 16);
    assert_eq!(encoder_threads(4, false), Some(4));
    assert_eq!(encoder_threads(64, false), Some(8));
    assert_eq!(encoder_threads(64, true), None);
}

fn record(input: &str, status: BatchStatus) -> BatchFileResult {
    BatchFileResult {
        input: input.to_string(),
        output: None,
        frame_count: None,
        status,
        error: None,
    }
}

#[test]
fn test_batch_summary_counts() {
    let summary = BatchSummary::new();
    assert_eq!((summary.total(), summary.successful(), summary.failed(), summary.skipped()), (0, 0, 0, 0));
    let summary = summary
        .record(record("a", BatchStatus::Success))
        .record(record("b", BatchStatus::Failed))
        .record(record("c", BatchStatus::Success))
        .record(record("d", BatchStatus::Skipped));
    assert_eq!(summary.total(), 4);
    assert_eq!(summary.successful(), 2);
    assert_eq!(summary.failed(), 1);
    assert_eq!(summary.skipped(), 1);
    assert_eq!(summary.results()[1], record("b", BatchStatus::Failed));
    assert_eq!(summary.results().len(), 4);
}

#[test]
fn test_cli_error_messages() {
    assert_eq!(CliError::FileNotFound("x".to_string()).message(), "File not found: x");
    assert_eq!(
        CliError::InvalidExtension("x.avi".to_string()).message(),
        "Invalid file extension: x.avi (expected .mp4, .mov, or .h265)"
    );
    assert_eq!(CliError::InvalidInput("i".to_string()).message(), "Invalid input: i");
    assert_eq!(
        CliError::OutputExists("o".to_string()).message(),
        "Output file already exists: o (use --force to overwrite)"
    );
    assert_eq!(CliError::FfmpegError("f".to_string()).message(), "FFmpeg error: f");
    assert_eq!(CliError::NoVideoStream.message(), "No video stream found in input file");
    assert_eq!(
        CliError::EncoderNotFound.message(),
        "H.265/HEVC encoder not available (is libx265 installed?)"
    );
    assert_eq!(CliError::IoError("io".to_string()).message(), "IO error: io");
    assert_eq!(CliError::Internal("n".to_string()).message(), "Internal error: n");
}

fn words(list: &[&str]) -> DevshellArgs {
    DevshellArgs { args: list.iter().map(|w| w.to_string()).collect() }
}

#[test]
fn test_devshell_commands() {
    assert_eq!(map_keyword("build"), "docker-compose build");
    assert_eq!(map_keyword("test"), "cargo test");
    assert_eq!(map_keyword(""), "cargo ");
    assert_eq!(words(&[]).full_command(), None);
    assert_eq!(words(&["build"]).full_command(), Some("docker-compose build".to_string()));
    assert_eq!(words(&["test", "--release", "-p", "x"]).full_command(), Some("cargo test --release -p x".to_string()));
    assert_eq!(
        words(&["--", "cargo", "build", "--release"]).full_command(),
        Some("cargo build --release".to_string())
    );
    assert_eq!(words(&["--"]).full_command(), Some("".to_string()));
    assert_eq!(words(&["build", "--no-cache"]).full_command(), Some("docker-compose build --no-cache".to_string()));
}

#[test]
fn test_client_checks_the_answer_to_set_video() {
    assert_eq!(check_video_set(&ServerMessage::VideoSet { path: "p".to_string(), ok: true }), Ok(()));
    assert_eq!(
        check_video_set(&ServerMessage::VideoSet { path: "p".to_string(), ok: false }),
        Err("Video not found: p".to_string())
    );
    assert_eq!(
        check_video_set(&ServerMessage::Error { message: "m".to_string() }),
        Err("Server error: m".to_string())
    );
    assert_eq!(
        check_video_set(&ServerMessage::Frame { index: 0, offset: 0, size: 0 }),
        Err("Unexpected response to SetVideo".to_string())
    );
}

#[test]
fn test_client_matches_images_to_headers() {
    let mut progress = Progress::new();
    progress.start_batch(3);
    assert!(!progress.batch_done());
    assert_eq!(progress.on_text(ServerMessage::Frame { index: 0, offset: 10, size: 100 }), ClientAction::Continue);
    assert_eq!(progress.on_binary(), ClientAction::Save { index: 0, offset: 10 });
    assert_eq!(
        progress.on_text(ServerMessage::FrameError { index: 1, offset: 20, error: "e".to_string() }),
        ClientAction::Report { index: 1, offset: 20, error: "e".to_string() }
    );
    // an image without a header is ignored
    assert_eq!(progress.on_binary(), ClientAction::Continue);
    assert_eq!(progress.pending, 1);
    assert_eq!(progress.on_text(ServerMessage::VideoSet { path: "p".to_string(), ok: true }), ClientAction::Continue);
    assert_eq!(progress.on_text(ServerMessage::Frame { index: 2, offset: 30, size: 50 }), ClientAction::Continue);
    assert_eq!(progress.on_binary(), ClientAction::Save { index: 2, offset: 30 });
    assert!(progress.batch_done());
    assert_eq!((progress.received, progress.errored, progress.total_bytes), (2, 1, 150));
    assert_eq!(
        progress.on_text(ServerMessage::Error { message: "boom".to_string() }),
        ClientAction::Fail("Server error: boom".to_string())
    );
}

#[test]
fn test_client_counters_do_not_wrap() {
    let mut progress = Progress::new();
    progress.total_bytes = u64::MAX - 1;
    progress.received = u32::MAX;
    progress.on_text(ServerMessage::Frame { index: 0, offset: 0, size: 5 });
    assert_eq!(progress.total_bytes, u64::MAX);
    assert_eq!(progress.on_binary(), ClientAction::Save { index: 0, offset: 0 });
    assert_eq!(progress.received, u32::MAX);
    assert_eq!(progress.pending, 0);
}

#[test]
fn test_frame_file_names() {
    assert_eq!(frame_file_name(0, 48), "frame_000000_48.jpg");
    assert_eq!(frame_file_name(42, 1500), "frame_000042_1500.jpg");
    assert_eq!(frame_file_name(999999, 0), "frame_999999_0.jpg");
    assert_eq!(frame_file_name(1000000, 7), "frame_1000000_7.jpg");
    assert_eq!(frame_file_name(u32::MAX, u64::MAX), "frame_4294967295_18446744073709551615.jpg");
}
