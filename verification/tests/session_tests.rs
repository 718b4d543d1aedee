use bucket_streamer::decoder::{CodecSetup, Probe, StreamKind};
use bucket_streamer::protocol::{FrameRequest, ServerMessage};
use bucket_streamer::session::{
    Command, Inbound, Outbound, ProcessResult, Session, SessionEvent, Step,
};

fn good_probe() -> Probe {
    Probe::Container {
        streams: vec![StreamKind::Video],
        codec: CodecSetup::Opened { width: 640, height: 480, scaler_ready: true },
    }
}

fn text(session: &mut Session, json: &str) -> Step {
    session.handle(SessionEvent::Received(Inbound::Text(json.to_string())))
}

/// Sets `videos/test.h265.mp4` and returns the frames sent on the way.
fn set_video(session: &mut Session) -> Vec<Outbound> {
    let mut sent = Vec::new();
    let step = text(session, r#"{"type":"SetVideo","path":"videos/test.h265.mp4"}"#);
    assert_eq!(step.next, Command::CheckExists { path: "videos/test.h265.mp4".to_string() });
    sent.extend(step.send);
    let step = session.handle(SessionEvent::Exists(Ok(true)));
    assert_eq!(step.next, Command::Fetch { path: "videos/test.h265.mp4".to_string() });
    sent.extend(step.send);
    let step = session.handle(SessionEvent::Fetched(Ok(vec![1, 2, 3])));
    assert_eq!(step.next, Command::ProbeVideo);
    assert_eq!(session.pending_data().map(|data| data.as_slice()), Some(&[1u8, 2, 3][..]));
    sent.extend(step.send);
    let step = session.handle(SessionEvent::Probed(good_probe()));
    assert_eq!(step.next, Command::Receive);
    sent.extend(step.send);
    sent
}

fn header(index: u32, offset: u64, size: u32) -> Outbound {
    Outbound::Text(ServerMessage::Frame { index, offset, size })
}

#[test]
fn test_new_session_is_idle() {
    let session = Session::new(80).unwrap();
    assert!(session.video_path().is_none());
    assert!(session.video_data().is_none());
    assert!(session.decoder().is_none());
    assert!(session.pending_data().is_none());
    assert!(!session.has_pending_frames());
    assert!(!session.is_closed());
    assert_eq!(session.encoder().quality(), 80);
    assert_eq!(Session::new(0).unwrap().encoder().quality(), 1);
    assert_eq!(Session::new(200).unwrap().encoder().quality(), 100);
}

#[test]
fn test_set_valid_video_then_request_keyframe() {
    let mut session = Session::new(80).unwrap();
    let sent = set_video(&mut session);
    assert_eq!(
        sent,
        vec![Outbound::Text(ServerMessage::VideoSet {
            path: "videos/test.h265.mp4".to_string(),
            ok: true
        })]
    );
    assert_eq!(session.video_path(), Some(&"videos/test.h265.mp4".to_string()));
    assert_eq!(session.video_data().map(|data| data.as_slice()), Some(&[1u8, 2, 3][..]));
    assert_eq!(session.decoder().map(|d| (d.width(), d.height())), Some((640, 480)));

    let step = text(
        &mut session,
        r#"{"type":"RequestFrames","frames":[{"offset":48,"irap_offset":48,"index":0}]}"#,
    );
    assert!(step.send.is_empty());
    assert_eq!(
        step.next,
        Command::Render { request: FrameRequest { offset: 48, irap_offset: 48, index: 0 }, quality: 80 }
    );
    let jpeg = vec![0xFF, 0xD8, 1, 2, 3];
    let step = session.handle(SessionEvent::Rendered(Ok(jpeg.clone())));
    assert_eq!(step.send, vec![header(0, 48, 5), Outbound::Binary(jpeg)]);
    assert_eq!(step.next, Command::Receive);
}

#[test]
fn test_set_missing_video() {
    let mut session = Session::new(80).unwrap();
    let step = text(&mut session, r#"{"type":"SetVideo","path":"videos/none.mp4"}"#);
    assert_eq!(step.next, Command::CheckExists { path: "videos/none.mp4".to_string() });
    let step = session.handle(SessionEvent::Exists(Ok(false)));
    assert_eq!(
        step.send,
        vec![Outbound::Text(ServerMessage::VideoSet { path: "videos/none.mp4".to_string(), ok: false })]
    );
    assert_eq!(step.next, Command::Receive);
    assert!(session.video_path().is_none());

    let step = text(
        &mut session,
        r#"{"type":"RequestFrames","frames":[{"offset":1,"irap_offset":1,"index":0}]}"#,
    );
    assert_eq!(
        step.send,
        vec![Outbound::Text(ServerMessage::Error {
            message: "No video set. Send SetVideo first.".to_string()
        })]
    );
    assert_eq!(step.next, Command::Receive);
    assert!(!session.has_pending_frames());
}

#[test]
fn test_offset_not_in_container() {
    let mut session = Session::new(80).unwrap();
    set_video(&mut session);
    let step = text(
        &mut session,
        r#"{"type":"RequestFrames","frames":[{"offset":99999999,"irap_offset":0,"index":7}]}"#,
    );
    assert_eq!(
        step.next,
        Command::Render { request: FrameRequest { offset: 99999999, irap_offset: 0, index: 7 }, quality: 80 }
    );
    let error = "FrameNotFound: no frame at byte offset 99999999".to_string();
    let step = session.handle(SessionEvent::Rendered(Err(error.clone())));
    assert_eq!(
        step.send,
        vec![Outbound::Text(ServerMessage::FrameError { index: 7, offset: 99999999, error })]
    );
    assert!(!step.send.iter().any(|frame| matches!(frame, Outbound::Binary(_))));
    assert_eq!(step.next, Command::Receive);
}

#[test]
fn test_batch_of_three_with_a_middle_failure() {
    let mut session = Session::new(80).unwrap();
    set_video(&mut session);
    let mut sent = Vec::new();
    let step = text(
        &mut session,
        r#"{"type":"RequestFrames","frames":[{"offset":10,"irap_offset":10,"index":0},{"offset":77,"irap_offset":10,"index":1},{"offset":30,"irap_offset":10,"index":2}]}"#,
    );
    sent.extend(step.send);
    assert_eq!(
        step.next,
        Command::Render { request: FrameRequest { offset: 10, irap_offset: 10, index: 0 }, quality: 80 }
    );
    let step = session.handle(SessionEvent::Rendered(Ok(vec![0xFF, 0xD8, 0])));
    sent.extend(step.send);
    assert_eq!(
        step.next,
        Command::Render { request: FrameRequest { offset: 77, irap_offset: 10, index: 1 }, quality: 80 }
    );
    let step = session.handle(SessionEvent::Rendered(Err("FrameNotFound".to_string())));
    sent.extend(step.send);
    assert_eq!(
        step.next,
        Command::Render { request: FrameRequest { offset: 30, irap_offset: 10, index: 2 }, quality: 80 }
    );
    let step = session.handle(SessionEvent::Rendered(Ok(vec![0xFF, 0xD8, 2, 2])));
    sent.extend(step.send);
    assert_eq!(step.next, Command::Receive);
    assert_eq!(
        sent,
        vec![
            header(0, 10, 3),
            Outbound::Binary(vec![0xFF, 0xD8, 0]),
            Outbound::Text(ServerMessage::FrameError {
                index: 1,
                offset: 77,
                error: "FrameNotFound".to_string()
            }),
            header(2, 30, 4),
            Outbound::Binary(vec![0xFF, 0xD8, 2, 2]),
        ]
    );
}

#[test]
fn test_malformed_input() {
    let mut session = Session::new(80).unwrap();
    let step = text(&mut session, "not json");
    assert_eq!(step.next, Command::Receive);
    assert_eq!(step.send.len(), 1);
    match &step.send[0] {
        Outbound::Text(ServerMessage::Error { message }) => {
            assert!(message.starts_with("Invalid message: "));
            assert_eq!(message, "Invalid message: expected ident at line 1 column 2");
        }
        other => panic!("expected an error, got {:?}", other),
    }
    assert!(session.video_path().is_none());
    assert!(!session.is_closed());
    let step = text(&mut session, r#"{"type":"Unknown"}"#);
    assert_eq!(
        step.send,
        vec![Outbound::Text(ServerMessage::Error {
            message: "Invalid message: unknown message type `Unknown`".to_string()
        })]
    );
}

#[test]
fn test_every_header_is_followed_by_its_image() {
    let mut session = Session::new(80).unwrap();
    let mut sent = set_video(&mut session);
    let step = text(
        &mut session,
        r#"{"type":"RequestFrames","frames":[{"offset":1,"irap_offset":1,"index":0},{"offset":2,"irap_offset":1,"index":1},{"offset":3,"irap_offset":1,"index":2},{"offset":4,"irap_offset":1,"index":3}]}"#,
    );
    sent.extend(step.send);
    let outcomes = vec![
        SessionEvent::Rendered(Ok(vec![0xFF, 0xD8])),
        SessionEvent::WorkerLost,
        SessionEvent::Rendered(Err("Decode failed: x".to_string())),
        SessionEvent::Rendered(Ok(vec![0xFF, 0xD8, 9, 9, 9, 9])),
    ];
    for outcome in outcomes {
        sent.extend(session.handle(outcome).send);
    }
    sent.extend(session.handle(SessionEvent::Received(Inbound::Ping(vec![1]))).send);
    let mut headers = 0;
    for (i, frame) in sent.iter().enumerate() {
        match frame {
            Outbound::Text(ServerMessage::Frame { size, .. }) => {
                headers += 1;
                match sent.get(i + 1) {
                    Some(Outbound::Binary(bytes)) => assert_eq!(bytes.len(), *size as usize),
                    other => panic!("header followed by {:?}", other),
                }
            }
            Outbound::Binary(_) => {
                assert!(i > 0);
                assert!(matches!(sent[i - 1], Outbound::Text(ServerMessage::Frame { .. })));
            }
            _ => {}
        }
    }
    assert_eq!(headers, 2);
}

#[test]
fn test_lost_worker_is_a_frame_error() {
    let mut session = Session::new(80).unwrap();
    set_video(&mut session);
    text(
        &mut session,
        r#"{"type":"RequestFrames","frames":[{"offset":5,"irap_offset":1,"index":9}]}"#,
    );
    let step = session.handle(SessionEvent::WorkerLost);
    assert_eq!(
        step.send,
        vec![Outbound::Text(ServerMessage::FrameError {
            index: 9,
            offset: 5,
            error: "join failure".to_string()
        })]
    );
    assert_eq!(step.next, Command::Receive);
    assert!(!session.is_closed());
}

#[test]
fn test_ping_is_answered_and_other_frames_are_ignored() {
    let mut session = Session::new(80).unwrap();
    let step = session.handle(SessionEvent::Received(Inbound::Ping(vec![1, 2, 3])));
    assert_eq!(step.send, vec![Outbound::Pong(vec![1, 2, 3])]);
    assert_eq!(step.next, Command::Receive);
    let step = session.handle(SessionEvent::Received(Inbound::Pong(vec![1])));
    assert!(step.send.is_empty());
    assert_eq!(step.next, Command::Receive);
    let step = session.handle(SessionEvent::Received(Inbound::Binary(vec![0xFF, 0xD8])));
    assert!(step.send.is_empty());
    assert_eq!(step.next, Command::Receive);
}

#[test]
fn test_close_and_transport_failure_end_the_session() {
    let mut session = Session::new(80).unwrap();
    let step = session.handle(SessionEvent::Received(Inbound::Close));
    assert!(step.send.is_empty());
    assert_eq!(step.next, Command::Close);
    assert!(session.is_closed());
    // a closed session stays closed
    let step = text(&mut session, r#"{"type":"SetVideo","path":"p"}"#);
    assert!(step.send.is_empty());
    assert_eq!(step.next, Command::Close);

    let mut session = Session::new(80).unwrap();
    assert_eq!(session.handle(SessionEvent::ReceiveFailed).next, Command::Close);
    assert!(session.is_closed());
}

#[test]
fn test_failed_send_closes_the_session() {
    let mut session = Session::new(80).unwrap();
    set_video(&mut session);
    text(
        &mut session,
        r#"{"type":"RequestFrames","frames":[{"offset":1,"irap_offset":1,"index":0},{"offset":2,"irap_offset":1,"index":1}]}"#,
    );
    let step = session.handle(SessionEvent::Rendered(Ok(vec![0xFF, 0xD8])));
    assert_eq!(step.send.len(), 2);
    // the image could not be sent after its header
    let step = session.handle(SessionEvent::SendFailed);
    assert!(step.send.is_empty());
    assert_eq!(step.next, Command::Close);
    assert!(session.is_closed());
}

#[test]
fn test_failed_reset_keeps_the_video() {
    let mut session = Session::new(80).unwrap();
    set_video(&mut session);
    // the new path is absent
    text(&mut session, r#"{"type":"SetVideo","path":"videos/none.mp4"}"#);
    let step = session.handle(SessionEvent::Exists(Ok(false)));
    assert_eq!(
        step.send,
        vec![Outbound::Text(ServerMessage::VideoSet { path: "videos/none.mp4".to_string(), ok: false })]
    );
    assert_eq!(session.video_path(), Some(&"videos/test.h265.mp4".to_string()));
    // the store is unavailable
    text(&mut session, r#"{"type":"SetVideo","path":"videos/other.mp4"}"#);
    let step = session.handle(SessionEvent::Exists(Err("store down".to_string())));
    assert_eq!(step.send, vec![Outbound::Text(ServerMessage::Error { message: "store down".to_string() })]);
    assert_eq!(session.video_path(), Some(&"videos/test.h265.mp4".to_string()));
    // the fetch fails
    text(&mut session, r#"{"type":"SetVideo","path":"videos/other.mp4"}"#);
    session.handle(SessionEvent::Exists(Ok(true)));
    let step = session.handle(SessionEvent::Fetched(Err("Failed to get object".to_string())));
    assert_eq!(
        step.send,
        vec![Outbound::Text(ServerMessage::Error { message: "Failed to get object".to_string() })]
    );
    assert_eq!(session.video_path(), Some(&"videos/test.h265.mp4".to_string()));
    // the decoder cannot be set up
    text(&mut session, r#"{"type":"SetVideo","path":"videos/other.mp4"}"#);
    session.handle(SessionEvent::Exists(Ok(true)));
    session.handle(SessionEvent::Fetched(Ok(vec![9])));
    let step = session.handle(SessionEvent::Probed(Probe::Container {
        streams: vec![StreamKind::Audio],
        codec: CodecSetup::DecoderMissing,
    }));
    assert_eq!(
        step.send,
        vec![Outbound::Text(ServerMessage::Error {
            message: "No video stream found in container".to_string()
        })]
    );
    assert_eq!(step.next, Command::Receive);
    assert_eq!(session.video_path(), Some(&"videos/test.h265.mp4".to_string()));
    assert_eq!(session.video_data().map(|data| data.as_slice()), Some(&[1u8, 2, 3][..]));
    assert!(session.pending_data().is_none());
}

#[test]
fn test_successful_reset_replaces_the_video() {
    let mut session = Session::new(80).unwrap();
    set_video(&mut session);
    text(&mut session, r#"{"type":"SetVideo","path":"videos/other.mp4"}"#);
    session.handle(SessionEvent::Exists(Ok(true)));
    session.handle(SessionEvent::Fetched(Ok(vec![9, 9])));
    let step = session.handle(SessionEvent::Probed(Probe::Container {
        streams: vec![StreamKind::Video],
        codec: CodecSetup::Opened { width: 1280, height: 720, scaler_ready: true },
    }));
    assert_eq!(
        step.send,
        vec![Outbound::Text(ServerMessage::VideoSet { path: "videos/other.mp4".to_string(), ok: true })]
    );
    assert_eq!(session.video_path(), Some(&"videos/other.mp4".to_string()));
    assert_eq!(session.video_data().map(|data| data.as_slice()), Some(&[9u8, 9][..]));
    assert_eq!(session.decoder().map(|d| (d.width(), d.height())), Some((1280, 720)));
}

#[test]
fn test_events_that_were_not_asked_for_close_the_session() {
    let mut session = Session::new(80).unwrap();
    assert_eq!(session.handle(SessionEvent::Exists(Ok(true))).next, Command::Close);
    assert!(session.is_closed());
    let mut session = Session::new(80).unwrap();
    text(&mut session, r#"{"type":"SetVideo","path":"p"}"#);
    assert_eq!(session.handle(SessionEvent::Rendered(Ok(vec![]))).next, Command::Close);
}

#[test]
fn test_empty_batch_is_answered_by_nothing() {
    let mut session = Session::new(80).unwrap();
    set_video(&mut session);
    let step = text(&mut session, r#"{"type":"RequestFrames","frames":[]}"#);
    assert!(step.send.is_empty());
    assert_eq!(step.next, Command::Receive);
}

#[test]
fn test_queue_operations() {
    let mut session = Session::new(80).unwrap();
    assert!(session.process_next().is_none());
    let a = FrameRequest { offset: 1, irap_offset: 1, index: 0 };
    let b = FrameRequest { offset: 2, irap_offset: 1, index: 1 };
    let c = FrameRequest { offset: 3, irap_offset: 3, index: 2 };
    session.queue_frames(vec![a, b]);
    session.queue_frames(vec![c]);
    assert!(session.has_pending_frames());
    assert_eq!(session.process_next(), Some(a));
    assert_eq!(session.process_next(), Some(b));
    assert!(session.has_pending_frames());
    session.clear_queue();
    assert!(!session.has_pending_frames());
    assert_eq!(session.process_next(), None);
}

#[test]
fn test_set_video_directly() {
    let mut session = Session::new(80).unwrap();
    session.queue_frames(vec![FrameRequest { offset: 1, irap_offset: 1, index: 0 }]);
    assert!(session.set_video("a.mp4".to_string(), vec![1], good_probe()).is_ok());
    assert_eq!(session.video_path(), Some(&"a.mp4".to_string()));
    assert!(!session.has_pending_frames());
    session.queue_frames(vec![FrameRequest { offset: 1, irap_offset: 1, index: 0 }]);
    let failed = session.set_video("b.mp4".to_string(), vec![2], Probe::LibraryFailed);
    assert!(failed.is_err());
    assert_eq!(session.video_path(), Some(&"a.mp4".to_string()));
    assert!(session.has_pending_frames());
}

#[test]
fn test_response_pair() {
    let request = FrameRequest { offset: 1500, irap_offset: 1000, index: 3 };
    let jpeg = vec![0xFF, 0xD8, 0xFF, 0xD9];
    assert_eq!(
        ProcessResult { request, result: Ok(jpeg.clone()) }.respond(),
        vec![header(3, 1500, 4), Outbound::Binary(jpeg)]
    );
    assert_eq!(
        ProcessResult { request, result: Ok(vec![]) }.respond(),
        vec![header(3, 1500, 0), Outbound::Binary(vec![])]
    );
    assert_eq!(
        ProcessResult { request, result: Err("decode_failed".to_string()) }.respond(),
        vec![Outbound::Text(ServerMessage::FrameError {
            index: 3,
            offset: 1500,
            error: "decode_failed".to_string()
        })]
    );
}
