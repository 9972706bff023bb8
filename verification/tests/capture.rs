use tinysound::capture::{
    connect_step, decode_frame, monitor_step, read_step, sink_step, ContextPhase, CreateError,
    GetMonitorError, ReadAction, ReadError, ReadEvent, Step,
};

#[test]
fn decode_reads_low_byte_first() {
    let bytes: Vec<u8> = vec![0xff, 0xff, 0x01, 0x00, 0x00, 0x80, 0xff, 0x7f, 0x34, 0x12];
    assert_eq!(decode_frame(&bytes), vec![-1, 1, i16::MIN, i16::MAX, 0x1234]);
}

#[test]
fn decode_agrees_with_the_standard_conversion() {
    let mut bytes: Vec<u8> = Vec::new();
    for i in 0..512u32 {
        bytes.push((i * 37 % 256) as u8);
        bytes.push((i * 101 % 256) as u8);
    }
    let samples = decode_frame(&bytes);
    assert_eq!(samples.len(), 512);
    for i in 0..512usize {
        assert_eq!(samples[i], i16::from_le_bytes([bytes[2 * i], bytes[2 * i + 1]]));
    }
}

#[test]
fn decode_of_nothing_is_nothing() {
    assert_eq!(decode_frame(&[]), Vec::<i16>::new());
}

#[test]
fn read_step_fails_when_the_loop_exited() {
    assert!(matches!(
        read_step(ReadEvent::LoopExited),
        ReadAction::Fail(ReadError::MainLoopExited)
    ));
}

#[test]
fn read_step_fails_with_the_code_of_a_failed_peek() {
    assert!(matches!(
        read_step(ReadEvent::PeekFailed(-7)),
        ReadAction::Fail(ReadError::StreamReadError(-7))
    ));
}

#[test]
fn read_step_retries_and_discards() {
    assert!(matches!(read_step(ReadEvent::NotReady), ReadAction::Again));
    assert!(matches!(read_step(ReadEvent::Empty), ReadAction::Again));
    assert!(matches!(read_step(ReadEvent::Hole), ReadAction::DiscardThenAgain));
}

#[test]
fn read_step_delivers_decoded_samples() {
    match read_step(ReadEvent::Data(vec![0x10, 0x00, 0xf0, 0xff])) {
        ReadAction::DiscardThenDeliver(samples) => assert_eq!(samples, vec![16, -16]),
        other => panic!("{:?}", other),
    }
}

#[test]
fn connect_step_follows_the_connection() {
    assert_eq!(connect_step(false, ContextPhase::Ready), Step::Fail(CreateError::MainLoopExited));
    assert_eq!(connect_step(true, ContextPhase::Ready), Step::Done);
    assert_eq!(connect_step(true, ContextPhase::Pending), Step::Again);
    assert_eq!(connect_step(true, ContextPhase::Failed), Step::Fail(CreateError::ConnectionFail));
    assert_eq!(
        connect_step(true, ContextPhase::Terminated),
        Step::Fail(CreateError::ConnectionFail)
    );
}

#[test]
fn sink_step_waits_for_the_name() {
    assert_eq!(sink_step(false, true), Step::Fail(GetMonitorError::MainLoopExited));
    assert_eq!(sink_step(true, true), Step::Done);
    assert_eq!(sink_step(true, false), Step::Again);
}

#[test]
fn monitor_step_fails_when_the_query_ends_without_a_name() {
    assert_eq!(monitor_step(false, true, true), Step::Fail(GetMonitorError::MainLoopExited));
    assert_eq!(monitor_step(true, true, true), Step::Done);
    assert_eq!(monitor_step(true, true, false), Step::Done);
    assert_eq!(monitor_step(true, false, true), Step::Fail(GetMonitorError::NoDefaultMonitor));
    assert_eq!(monitor_step(true, false, false), Step::Again);
}

#[test]
fn errors_have_their_texts() {
    assert_eq!(GetMonitorError::MainLoopExited.message(), "Mainloop terminated unexpectedly");
    assert_eq!(GetMonitorError::NoDefaultSink.message(), "No default output found");
    assert_eq!(GetMonitorError::NoDefaultMonitor.message(), "No monitor found for default output");
    assert_eq!(CreateError::MainLoopCreationFail.message(), "Failed to create main loop");
    assert_eq!(CreateError::ContextCreateFail.message(), "Failed to create context");
    assert_eq!(
        CreateError::ConnectionInitFail(3).message(),
        "Failed to initiate context connection"
    );
    assert_eq!(CreateError::ConnectionFail.message(), "Failed to connect context");
    assert_eq!(
        CreateError::MonitorFail(GetMonitorError::NoDefaultSink).message(),
        "Failed to get monitor for default output"
    );
    assert_eq!(CreateError::MainLoopExited.message(), "Main loop exited unexpectedly");
    assert_eq!(ReadError::MainLoopExited.message(), "Main loop exited unexpectedly");
    assert_eq!(ReadError::StreamReadError(1).message(), "Error reading stream");
}
