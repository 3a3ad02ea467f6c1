use stream_seal::{
    create_stream, process_data, process_data_loop, CipherSuite, ConfigurationError, FrameSink,
    ProcessOutcome, SessionLifecycle, SinkEvent, StreamError, IV_LENGTH, KEY_LENGTH,
};

#[test]
fn test_create_process() {
    let mut lifecycle = SessionLifecycle::new(CipherSuite::XChaCha20Poly1305);
    assert!(!lifecycle.is_initialized());

    let x_res = create_stream(
        &mut lifecycle,
        vec![0; KEY_LENGTH],
        vec![0; IV_LENGTH],
        1024 * 1024,
        FrameSink::new(12),
    );
    assert!(lifecycle.is_initialized());
    assert_eq!(x_res, Ok(()));

    let y_res = process_data(&mut lifecycle, vec![1, 2, 3]);
    assert_eq!(y_res, Ok(ProcessOutcome::StreamClosed));
}

#[test]
fn short_chunk_is_not_dropped() {
    let mut lifecycle = SessionLifecycle::new(CipherSuite::XChaCha20Poly1305);
    create_stream(
        &mut lifecycle,
        vec![0; KEY_LENGTH],
        vec![0; IV_LENGTH],
        1024 * 1024,
        FrameSink::new(12),
    )
    .unwrap();
    process_data(&mut lifecycle, vec![1, 2, 3]).unwrap();
    assert_eq!(lifecycle.frames_sealed(), Some(1));
    assert!(!lifecycle.is_active());
    match lifecycle.take() {
        Some(SinkEvent::Frame(frame)) => assert_eq!(frame.len(), 3 + 16),
        other => panic!("expected a frame, got {:?}", other),
    }
    assert!(matches!(lifecycle.take(), Some(SinkEvent::Close)));
    assert!(lifecycle.take().is_none());
}

#[test]
fn process_before_create_is_not_initialized() {
    let mut lifecycle = SessionLifecycle::new(CipherSuite::XChaCha20Poly1305);
    assert_eq!(
        process_data(&mut lifecycle, vec![1, 2, 3]),
        Err(StreamError::SessionNotInitialized)
    );
    assert_eq!(process_data(&mut lifecycle, vec![]), Err(StreamError::SessionNotInitialized));
    assert_eq!(process_data_loop(&mut lifecycle, 3), Err(StreamError::SessionNotInitialized));
    assert_eq!(process_data_loop(&mut lifecycle, 0), Err(StreamError::SessionNotInitialized));
    assert_eq!(lifecycle.close(), Err(StreamError::SessionNotInitialized));
    assert!(lifecycle.take().is_none());
    assert!(!lifecycle.is_initialized());
    assert!(!lifecycle.is_active());
    assert_eq!(lifecycle.frames_sealed(), None);
}

#[test]
fn wrong_key_does_not_activate_a_session() {
    for length in [31usize, 33] {
        let mut lifecycle = SessionLifecycle::new(CipherSuite::XChaCha20Poly1305);
        let result = create_stream(
            &mut lifecycle,
            vec![0; length],
            vec![0; IV_LENGTH],
            4,
            FrameSink::new(4),
        );
        assert_eq!(
            result,
            Err(StreamError::Configuration(ConfigurationError::InvalidKeyLength))
        );
        assert!(!lifecycle.is_initialized());
        assert!(!lifecycle.is_active());
        assert_eq!(process_data(&mut lifecycle, vec![1]), Err(StreamError::SessionNotInitialized));
    }
}

#[test]
fn wrong_key_leaves_the_active_session_alone() {
    let mut lifecycle = SessionLifecycle::new(CipherSuite::XChaCha20Poly1305);
    create_stream(&mut lifecycle, vec![0; 32], vec![0; 19], 4, FrameSink::new(4)).unwrap();
    process_data(&mut lifecycle, vec![1, 2, 3, 4]).unwrap();
    let result = create_stream(&mut lifecycle, vec![0; 33], vec![0; 19], 4, FrameSink::new(4));
    assert_eq!(result, Err(StreamError::Configuration(ConfigurationError::InvalidKeyLength)));
    assert!(lifecycle.is_active());
    assert_eq!(lifecycle.frames_sealed(), Some(1));
}

#[test]
fn lifecycle_holds_streams_to_its_cipher() {
    let mut lifecycle = SessionLifecycle::new(CipherSuite::ChaCha20Poly1305);
    let result = create_stream(&mut lifecycle, vec![0; 32], vec![0; 19], 4, FrameSink::new(4));
    assert_eq!(result, Err(StreamError::Configuration(ConfigurationError::InvalidNonceLength)));
    let result = create_stream(&mut lifecycle, vec![0; 32], vec![0; 7], 4, FrameSink::new(4));
    assert_eq!(result, Ok(()));
}

#[test]
fn second_create_while_active_is_refused() {
    let mut lifecycle = SessionLifecycle::new(CipherSuite::XChaCha20Poly1305);
    create_stream(&mut lifecycle, vec![0; 32], vec![0; 19], 4, FrameSink::new(4)).unwrap();
    process_data(&mut lifecycle, vec![1, 2, 3, 4]).unwrap();
    let result = create_stream(&mut lifecycle, vec![1; 32], vec![1; 19], 8, FrameSink::new(4));
    assert_eq!(result, Err(StreamError::SessionAlreadyActive));
    assert!(lifecycle.is_active());
    assert_eq!(lifecycle.frames_sealed(), Some(1));
    assert_eq!(process_data(&mut lifecycle, vec![5, 6, 7, 8]), Ok(ProcessOutcome::FrameEmitted));
    assert_eq!(lifecycle.frames_sealed(), Some(2));
}

#[test]
fn create_after_close_starts_again_at_zero() {
    let mut lifecycle = SessionLifecycle::new(CipherSuite::XChaCha20Poly1305);
    create_stream(&mut lifecycle, vec![0; 32], vec![0; 19], 4, FrameSink::new(4)).unwrap();
    process_data(&mut lifecycle, vec![1, 2, 3, 4]).unwrap();
    assert_eq!(lifecycle.close(), Ok(()));
    assert!(lifecycle.is_initialized());
    assert!(!lifecycle.is_active());
    assert_eq!(process_data(&mut lifecycle, vec![1, 2, 3, 4]), Err(StreamError::SessionClosed));
    create_stream(&mut lifecycle, vec![0; 32], vec![1; 19], 4, FrameSink::new(4)).unwrap();
    assert!(lifecycle.is_active());
    assert_eq!(lifecycle.frames_sealed(), Some(0));
    assert!(lifecycle.take().is_none());
}

#[test]
fn create_after_the_stream_ended_is_accepted() {
    let mut lifecycle = SessionLifecycle::new(CipherSuite::XChaCha20Poly1305);
    create_stream(&mut lifecycle, vec![0; 32], vec![0; 19], 4, FrameSink::new(4)).unwrap();
    assert_eq!(process_data(&mut lifecycle, vec![]), Ok(ProcessOutcome::StreamClosed));
    assert_eq!(
        create_stream(&mut lifecycle, vec![0; 32], vec![1; 19], 4, FrameSink::new(4)),
        Ok(())
    );
}

#[test]
fn lifecycle_close_is_idempotent() {
    let mut lifecycle = SessionLifecycle::new(CipherSuite::XChaCha20Poly1305);
    create_stream(&mut lifecycle, vec![0; 32], vec![0; 19], 4, FrameSink::new(4)).unwrap();
    assert_eq!(lifecycle.close(), Ok(()));
    assert_eq!(lifecycle.close(), Ok(()));
    assert!(matches!(lifecycle.take(), Some(SinkEvent::Close)));
    assert!(lifecycle.take().is_none());
    assert_eq!(lifecycle.close(), Ok(()));
    assert!(lifecycle.take().is_none());
}

#[test]
fn process_data_loop_seals_the_number_asked_for() {
    let mut lifecycle = SessionLifecycle::new(CipherSuite::XChaCha20Poly1305);
    create_stream(&mut lifecycle, vec![0; 32], vec![0; 19], 64, FrameSink::new(16)).unwrap();
    assert_eq!(process_data_loop(&mut lifecycle, 10), Ok(()));
    assert_eq!(lifecycle.frames_sealed(), Some(10));
    assert!(lifecycle.is_active());
    let mut frames = 0;
    while let Some(event) = lifecycle.take() {
        match event {
            SinkEvent::Frame(frame) => {
                assert_eq!(frame.len(), 64 + 16);
                frames += 1;
            }
            SinkEvent::Close => panic!("the stream has not ended"),
        }
    }
    assert_eq!(frames, 10);
}

#[test]
fn process_data_loop_reports_the_first_error() {
    let mut lifecycle = SessionLifecycle::new(CipherSuite::XChaCha20Poly1305);
    create_stream(&mut lifecycle, vec![0; 32], vec![0; 19], 64, FrameSink::new(3)).unwrap();
    assert_eq!(process_data_loop(&mut lifecycle, 10), Err(StreamError::SinkUnavailable));
    assert_eq!(lifecycle.frames_sealed(), Some(3));
    lifecycle.close().unwrap();
    assert_eq!(process_data_loop(&mut lifecycle, 1), Err(StreamError::SessionClosed));
    assert_eq!(process_data_loop(&mut lifecycle, 0), Ok(()));
}

#[test]
fn cancel_ends_the_stream_of_a_lifecycle() {
    let mut lifecycle = SessionLifecycle::new(CipherSuite::XChaCha20Poly1305);
    assert_eq!(lifecycle.cancel(), Err(StreamError::SessionNotInitialized));
    create_stream(&mut lifecycle, vec![0; 32], vec![0; 19], 4, FrameSink::new(4)).unwrap();
    process_data(&mut lifecycle, vec![1, 2, 3, 4]).unwrap();
    assert_eq!(lifecycle.cancel(), Ok(()));
    assert!(!lifecycle.is_active());
    assert!(lifecycle.take().is_none());
    assert_eq!(process_data(&mut lifecycle, vec![1, 2, 3, 4]), Err(StreamError::SessionClosed));
    assert_eq!(lifecycle.cancel(), Ok(()));
    assert_eq!(
        create_stream(&mut lifecycle, vec![0; 32], vec![1; 19], 4, FrameSink::new(4)),
        Ok(())
    );
    assert!(lifecycle.is_active());
}
