use voice_keyboard::stt_client::{
    build_auth_header, close_stream_message, handle_frame, message_action, normalize_base_url,
    parse_server_message, select_endpoint, sender_step, session_outcome, session_step, str_eq,
    AudioBuffer, FrameAction, InboundFrame, SenderAction, ServerMessage, SessionEvent,
    SessionState, SttClient, SttError, TranscriptionResult, AUDIO_QUEUE_CAPACITY, STT_URL,
};

// ------------------------------------------------------------------
// Inbound message parsing.
// ------------------------------------------------------------------

#[test]
fn test_parse_turn_info() {
    let text = "{\"type\":\"TurnInfo\",\"request_id\":\"req-1\",\"sequence_id\":7,\"event\":\"Update\",\"turn_index\":2,\"audio_window_start\":0.0,\"audio_window_end\":1.28,\"transcript\":\"hello world\",\"words\":[{\"word\":\"hello\",\"confidence\":0.99},{\"word\":\"world\",\"confidence\":0.95}],\"end_of_turn_confidence\":0.12}";
    let m = parse_server_message(text).unwrap();
    match m {
        ServerMessage::TurnInfo {
            request_id,
            sequence_id,
            event,
            turn_index,
            transcript,
            words,
        } => {
            assert_eq!(request_id, "req-1");
            assert_eq!(sequence_id, 7);
            assert_eq!(event, "Update");
            assert_eq!(turn_index, 2);
            assert_eq!(transcript, "hello world");
            assert_eq!(words, vec!["hello".to_string(), "world".to_string()]);
        }
        other => panic!("expected TurnInfo, got {:?}", other),
    }
}

#[test]
fn test_parse_connected_and_configuration() {
    let m = parse_server_message(
        "{\"type\":\"Connected\",\"request_id\":\"abc\",\"sequence_id\":0}",
    )
    .unwrap();
    assert_eq!(
        m,
        ServerMessage::Connected {
            request_id: "abc".to_string(),
            sequence_id: 0
        }
    );

    let m = parse_server_message("{\"type\":\"Configuration\",\"eot_threshold\":0.7}").unwrap();
    assert_eq!(m, ServerMessage::Configuration);

    // Fields may come in any order and unknown fields are ignored.
    let m = parse_server_message(
        "{\"sequence_id\":3,\"extra\":[1,2],\"type\":\"Connected\",\"request_id\":\"r\"}",
    )
    .unwrap();
    assert_eq!(
        m,
        ServerMessage::Connected {
            request_id: "r".to_string(),
            sequence_id: 3
        }
    );
}

#[test]
fn test_parse_error_message() {
    let m = parse_server_message(
        "{\"type\":\"Error\",\"code\":\"E42\",\"description\":\"bad audio\",\"websocket_close_code\":1011}",
    )
    .unwrap();
    assert_eq!(
        m,
        ServerMessage::Error {
            sequence_id: None,
            code: "E42".to_string(),
            description: "bad audio".to_string(),
            websocket_close_code: Some(1011),
        }
    );
}

#[test]
fn test_parse_rejects_malformed_input() {
    // Not JSON at all.
    assert!(matches!(
        parse_server_message("this is not json"),
        Err(SttError::Parse { .. })
    ));
    // No discriminator.
    assert!(matches!(
        parse_server_message("{\"request_id\":\"x\"}"),
        Err(SttError::Parse { .. })
    ));
    // Unknown discriminator.
    assert!(matches!(
        parse_server_message("{\"type\":\"Mystery\"}"),
        Err(SttError::Parse { .. })
    ));
    // Missing required field.
    assert!(matches!(
        parse_server_message("{\"type\":\"Connected\",\"request_id\":\"x\"}"),
        Err(SttError::Parse { .. })
    ));
    // Wrongly typed field.
    assert!(matches!(
        parse_server_message("{\"type\":\"Connected\",\"request_id\":5,\"sequence_id\":1}"),
        Err(SttError::Parse { .. })
    ));
    // A word without a confidence.
    let text = "{\"type\":\"TurnInfo\",\"request_id\":\"r\",\"sequence_id\":1,\"event\":\"Update\",\"turn_index\":0,\"audio_window_start\":0,\"audio_window_end\":1,\"transcript\":\"hi\",\"words\":[{\"word\":\"hi\"}],\"end_of_turn_confidence\":0.5}";
    assert!(matches!(
        parse_server_message(text),
        Err(SttError::Parse { .. })
    ));
    // A negative sequence_id does not fit the schema.
    assert!(matches!(
        parse_server_message("{\"type\":\"Connected\",\"request_id\":\"x\",\"sequence_id\":-1}"),
        Err(SttError::Parse { .. })
    ));
}

// ------------------------------------------------------------------
// The receive loop's decisions.
// ------------------------------------------------------------------

#[test]
fn test_message_action_dispatch() {
    let a = message_action(ServerMessage::Connected {
        request_id: "r".to_string(),
        sequence_id: 1,
    });
    assert_eq!(a, FrameAction::Continue);

    let a = message_action(ServerMessage::Configuration);
    assert_eq!(a, FrameAction::Continue);

    let a = message_action(ServerMessage::Error {
        sequence_id: Some(4),
        code: "E1".to_string(),
        description: "boom".to_string(),
        websocket_close_code: None,
    });
    assert_eq!(
        a,
        FrameAction::Fail(SttError::Application {
            code: "E1".to_string(),
            description: "boom".to_string(),
        })
    );

    let a = message_action(ServerMessage::TurnInfo {
        request_id: "r".to_string(),
        sequence_id: 1,
        event: "EndOfTurn".to_string(),
        turn_index: 3,
        transcript: "done".to_string(),
        words: vec!["done".to_string()],
    });
    match a {
        FrameAction::Deliver(result) => {
            assert_eq!(result.event, "EndOfTurn");
            assert_eq!(result.turn_index, 3);
            assert_eq!(result.transcript, "done");
            assert!(result.is_end_of_turn());
        }
        other => panic!("expected Deliver, got {:?}", other),
    }
}

#[test]
fn test_handle_frame_kinds() {
    // An inbound binary frame is a protocol violation.
    assert_eq!(
        handle_frame(InboundFrame::Binary(vec![1, 2, 3])),
        FrameAction::Fail(SttError::ProtocolViolation)
    );
    // A close frame ends the loop normally.
    assert_eq!(handle_frame(InboundFrame::Close), FrameAction::Finish);
    // Ping/pong frames are ignored.
    assert_eq!(handle_frame(InboundFrame::Other), FrameAction::Continue);
    // A malformed text frame is a fatal parse error.
    assert!(matches!(
        handle_frame(InboundFrame::Text("{oops".to_string())),
        FrameAction::Fail(SttError::Parse { .. })
    ));
}

/// A parse failure or an `Error` message during an active session fails
/// the session, and the receive loop delivers no further results after
/// that point.
#[test]
fn test_session_fails_on_error_message() {
    let mut state = SessionState::Connecting;
    state = session_step(state, SessionEvent::Established);
    assert_eq!(state, SessionState::Active);

    let frames = vec![
        InboundFrame::Text(
            "{\"type\":\"Error\",\"code\":\"E7\",\"description\":\"quota\"}".to_string(),
        ),
        // Anything after the failure must not reach the callback.
        InboundFrame::Text("{\"type\":\"TurnInfo\",\"request_id\":\"r\",\"sequence_id\":1,\"event\":\"Update\",\"turn_index\":0,\"audio_window_start\":0,\"audio_window_end\":1,\"transcript\":\"late\",\"words\":[],\"end_of_turn_confidence\":0.5}".to_string()),
    ];
    let mut delivered: Vec<TranscriptionResult> = Vec::new();
    let mut recv_outcome: Result<(), SttError> = Ok(());
    for frame in frames {
        match handle_frame(frame) {
            FrameAction::Deliver(r) => delivered.push(r),
            FrameAction::Continue => {}
            FrameAction::Finish => break,
            FrameAction::Fail(e) => {
                recv_outcome = Err(e.clone());
                state = session_step(state, SessionEvent::SideFailed(e));
                break;
            }
        }
    }
    assert!(delivered.is_empty());
    assert_eq!(
        recv_outcome,
        Err(SttError::Application {
            code: "E7".to_string(),
            description: "quota".to_string(),
        })
    );
    assert_eq!(
        state,
        SessionState::Failed(SttError::Application {
            code: "E7".to_string(),
            description: "quota".to_string(),
        })
    );
    // The overall session outcome surfaces the failure even though the
    // sender half finished cleanly.
    assert!(session_outcome(Ok(()), recv_outcome).is_err());
}

#[test]
fn test_session_state_machine_path() {
    let mut state = SessionState::Connecting;
    state = session_step(state, SessionEvent::Established);
    assert_eq!(state, SessionState::Active);
    state = session_step(state, SessionEvent::SideFinished);
    assert_eq!(state, SessionState::Closing);
    state = session_step(state, SessionEvent::SideFinished);
    assert_eq!(state, SessionState::Closed);

    // Failure is terminal.
    let failed = session_step(
        SessionState::Active,
        SessionEvent::SideFailed(SttError::ProtocolViolation),
    );
    assert_eq!(failed, SessionState::Failed(SttError::ProtocolViolation));
    let still_failed = session_step(failed, SessionEvent::SideFinished);
    assert_eq!(
        still_failed,
        SessionState::Failed(SttError::ProtocolViolation)
    );
}

#[test]
fn test_session_outcome_join() {
    assert!(session_outcome(Ok(()), Ok(())).is_ok());
    let e1 = SttError::Transport {
        message: "send failed".to_string(),
    };
    let e2 = SttError::Parse {
        message: "bad frame".to_string(),
    };
    assert_eq!(session_outcome(Err(e1.clone()), Ok(())), Err(e1.clone()));
    assert_eq!(session_outcome(Ok(()), Err(e2.clone())), Err(e2.clone()));
    // Both failed: the sender's error is surfaced.
    assert_eq!(session_outcome(Err(e1.clone()), Err(e2)), Err(e1));
}

#[test]
fn test_sender_step() {
    assert_eq!(
        sender_step(Some(vec![0u8, 1, 2])),
        SenderAction::SendAudio(vec![0u8, 1, 2])
    );
    assert_eq!(sender_step(None), SenderAction::SendCloseStream);
    assert_eq!(close_stream_message(), "{\"type\":\"CloseStream\"}");
    assert_eq!(AUDIO_QUEUE_CAPACITY, 32);
}

// ------------------------------------------------------------------
// Connection URL and authorization header.
// ------------------------------------------------------------------

#[test]
fn test_request_url() {
    let client = SttClient::new("wss://river.sandbox.deepgram.com/", 16000);
    assert_eq!(client.url(), "wss://river.sandbox.deepgram.com/");
    assert_eq!(client.sample_rate(), 16000);
    assert_eq!(
        client.request_url(),
        "wss://river.sandbox.deepgram.com/?model=flux-general-en&sample_rate=16000&encoding=linear16"
    );
    let client = SttClient::new(STT_URL, 0);
    assert_eq!(
        client.request_url(),
        "wss://api.deepgram.com/v2/listen?model=flux-general-en&sample_rate=0&encoding=linear16"
    );
}

#[test]
fn test_normalize_and_select_endpoint() {
    assert_eq!(normalize_base_url("ws://a/"), "ws://a/");
    assert_eq!(normalize_base_url("ws://a"), "ws://a/");
    assert_eq!(normalize_base_url(""), "/");

    assert_eq!(
        select_endpoint("ws://localhost:8765", false),
        "wss://river.sandbox.deepgram.com"
    );
    assert_eq!(
        select_endpoint("ws://localhost:8765", true),
        "ws://localhost:8765"
    );
    assert_eq!(select_endpoint("wss://elsewhere", false), "wss://elsewhere");

    assert!(str_eq("abc", "abc"));
    assert!(!str_eq("abc", "abd"));
    assert!(!str_eq("abc", "ab"));
}

#[test]
fn test_build_auth_header() {
    assert_eq!(build_auth_header(None), Ok(None));
    assert_eq!(build_auth_header(Some("")), Ok(None));
    assert_eq!(
        build_auth_header(Some("abc123")),
        Ok(Some("Token abc123".to_string()))
    );
    // A control character cannot appear in a header value: this is a
    // fatal configuration error, raised before any network attempt.
    assert!(matches!(
        build_auth_header(Some("bad\nkey")),
        Err(SttError::Configuration { .. })
    ));
}

// ------------------------------------------------------------------
// Audio chunking.
// ------------------------------------------------------------------

/// Converts normalized float samples to little-endian 16-bit PCM, the
/// way the audio edge of the system does before chunking.
fn samples_to_pcm(samples: &[f32]) -> Vec<u8> {
    let mut out = Vec::with_capacity(samples.len() * 2);
    for &sample in samples {
        let pcm = (sample.clamp(-1.0, 1.0) * i16::MAX as f32) as i16;
        out.extend_from_slice(&pcm.to_le_bytes());
    }
    out
}

/// At 16000 Hz with 80 ms chunks the chunk size is 2560 bytes: 3200
/// bytes of audio yield exactly one chunk and 640 bytes stay buffered.
#[test]
fn test_chunker_one_chunk_and_remainder() {
    let mut buffer = AudioBuffer::new(16000, 80);
    let samples = vec![0.25f32; 1600]; // 3200 bytes of PCM16
    let pcm = samples_to_pcm(&samples);
    assert_eq!(pcm.len(), 3200);
    let chunks = buffer.add_pcm_bytes(&pcm);
    assert_eq!(chunks.len(), 1);
    assert_eq!(chunks[0].len(), 2560);
    // The remainder comes out on the next call once it completes a chunk.
    let more = samples_to_pcm(&vec![0.25f32; 960]); // 1920 more bytes
    let chunks = buffer.add_pcm_bytes(&more);
    assert_eq!(chunks.len(), 1);
    assert_eq!(chunks[0].len(), 2560);
    assert!(buffer.flush().is_none());
}

#[test]
fn test_chunker_accumulates_until_complete() {
    let mut buffer = AudioBuffer::new(16000, 80);
    // No chunk is returned until its full byte length is available.
    assert!(buffer.add_pcm_bytes(&[0u8; 2559]).is_empty());
    let chunks = buffer.add_pcm_bytes(&[7u8; 1]);
    assert_eq!(chunks.len(), 1);
    assert_eq!(chunks[0].len(), 2560);
    assert_eq!(chunks[0][2559], 7);
}

#[test]
fn test_chunker_multiple_chunks_in_order() {
    let mut buffer = AudioBuffer::new(1000, 2); // chunk_size = 4 bytes
    let chunks = buffer.add_pcm_bytes(&[1, 2, 3, 4, 5, 6, 7, 8, 9]);
    assert_eq!(chunks, vec![vec![1, 2, 3, 4], vec![5, 6, 7, 8]]);
    assert_eq!(buffer.flush(), Some(vec![9]));
    // After a flush the backlog is empty.
    assert_eq!(buffer.flush(), None);
}

#[test]
fn test_chunker_sample_conversion_clamps() {
    // Out-of-range samples are clamped before scaling.
    let pcm = samples_to_pcm(&[1.5f32, -1.5f32, 0.0f32]);
    assert_eq!(pcm.len(), 6);
    assert_eq!(i16::from_le_bytes([pcm[0], pcm[1]]), i16::MAX);
    assert_eq!(i16::from_le_bytes([pcm[2], pcm[3]]), -i16::MAX);
    assert_eq!(i16::from_le_bytes([pcm[4], pcm[5]]), 0);
}
