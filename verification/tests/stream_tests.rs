use russh_core::framing::{frame_message, PipeStream, StreamExt, StreamStats};
use russh_core::p2ptypes::ConnectionType;
use russh_core::playback::{PlaybackState, StreamSession, StreamSource, SyncEvent, SPEED_NORMAL};

#[test]
fn stream_ext_trait_exists() {
    fn _assert_send<T: StreamExt + Send>() {}
    _assert_send::<PipeStream>();
}

#[test]
fn connection_type_display() {
    assert_eq!(ConnectionType::Direct.display_string(), "Direct");
    assert_eq!(ConnectionType::Relayed.display_string(), "Relayed");
    assert_eq!(ConnectionType::Unknown.display_string(), "Unknown");
}

#[test]
fn framing_roundtrip() {
    let mut pipe = PipeStream::new();
    pipe.send_message(b"hello").unwrap();
    pipe.send_message(b"world!").unwrap();

    let first = pipe.recv_message(1024).unwrap();
    assert_eq!(first, b"hello".to_vec());
    let second = pipe.recv_message(1024).unwrap();
    assert_eq!(second, b"world!".to_vec());

    assert_eq!(pipe.stats.get_bytes_sent(), 5 + 4 + 6 + 4);
    assert_eq!(pipe.stats.get_bytes_received(), 5 + 4 + 6 + 4);
}

#[test]
fn framing_rejects_oversized_and_truncated() {
    let mut pipe = PipeStream::new();
    pipe.send_message(b"0123456789").unwrap();
    assert!(pipe.recv_message(5).is_err());

    let mut empty = PipeStream::new();
    assert!(empty.recv_message(1024).is_err());
}

#[test]
fn frame_layout_is_length_prefixed() {
    let framed = frame_message(b"abc");
    assert_eq!(framed, vec![0, 0, 0, 3, b'a', b'b', b'c']);
}

#[test]
fn stream_stats_counters() {
    let mut stats = StreamStats::new();
    assert_eq!(stats.get_bytes_sent(), 0);
    assert_eq!(stats.get_bytes_received(), 0);
    stats.add_bytes_sent(10);
    stats.add_bytes_received(4);
    stats.add_bytes_sent(1);
    assert_eq!(stats.get_bytes_sent(), 11);
    assert_eq!(stats.get_bytes_received(), 4);
}

#[test]
fn playback_state_default() {
    let state = PlaybackState::initial();
    assert!(!state.playing);
    assert_eq!(state.position_ms, 0);
    assert_eq!(state.speed_permille, SPEED_NORMAL);
}

#[test]
fn stream_room_creation() {
    let source = StreamSource::Url { url: "https://example.com/video.mp4".to_string() };
    let session = StreamSession::create_room(
        "Test Room".to_string(),
        source,
        "host123".to_string(),
        "room-1".to_string(),
    );

    assert!(!session.session_id.is_empty());
    assert_eq!(session.room().name, "Test Room");
    assert_eq!(session.room().host_id, "host123");
}

#[test]
fn stream_session_playback() {
    let source = StreamSource::Url { url: "https://example.com/video.mp4".to_string() };
    let mut session = StreamSession::create_room(
        "Test".to_string(),
        source,
        "host".to_string(),
        "room-2".to_string(),
    );

    session.play();
    assert!(session.playback_state().playing);

    session.seek(30_000);
    assert_eq!(session.playback_state().position_ms, 30_000);

    session.pause();
    assert!(!session.playback_state().playing);

    let events = session.take_events();
    assert_eq!(events.len(), 3);
    assert!(matches!(events[0], SyncEvent::Play { .. }));
    assert!(matches!(events[1], SyncEvent::Seek { position_ms: 30_000 }));
    assert!(matches!(events[2], SyncEvent::Pause { .. }));
}

#[test]
fn expected_position_grows_linearly() {
    let source = StreamSource::Url { url: "u".to_string() };
    let mut session = StreamSession::create_room(
        "Room".to_string(),
        source,
        "host".to_string(),
        "room-3".to_string(),
    );
    session.play();
    let anchor = session.playback_state().sync_time_ms;

    // 1.5 wallclock seconds at normal speed advance by 1500 ms.
    assert_eq!(session.expected_position_at(anchor + 1_500), 1_500);

    // Pausing freezes the value.
    session.update_position(1_500);
    session.pause();
    assert_eq!(session.expected_position_at(anchor + 10_000), 1_500);

    // Double speed doubles the advance.
    session.seek(0);
    session.set_speed(2_000);
    session.play();
    let anchor2 = session.playback_state().sync_time_ms;
    assert_eq!(session.expected_position_at(anchor2 + 1_000), 2_000);
}

#[test]
fn host_only_source_change() {
    let source = StreamSource::Url { url: "a".to_string() };
    let mut host_session = StreamSession::create_room(
        "Room".to_string(),
        source,
        "host".to_string(),
        "room-4".to_string(),
    );
    let room = host_session.room().clone();
    let mut member_session = StreamSession::join_room(room);

    assert!(member_session
        .change_source(StreamSource::Url { url: "b".to_string() })
        .is_err());
    assert!(host_session
        .change_source(StreamSource::Url { url: "b".to_string() })
        .is_ok());
    assert!(!host_session.playback_state().playing);
    assert_eq!(host_session.playback_state().position_ms, 0);
}

#[test]
fn handle_event_applies_remote_state() {
    let source = StreamSource::Url { url: "a".to_string() };
    let mut session = StreamSession::create_room(
        "Room".to_string(),
        source,
        "host".to_string(),
        "room-5".to_string(),
    );
    session.handle_event(SyncEvent::Play { position_ms: 250 });
    assert!(session.playback_state().playing);
    assert_eq!(session.playback_state().position_ms, 250);

    session.handle_event(SyncEvent::Speed { speed_permille: 1_500 });
    assert_eq!(session.playback_state().speed_permille, 1_500);

    session.handle_event(SyncEvent::PeerJoined { peer_id: "p1".to_string() });
    session.handle_event(SyncEvent::PeerJoined { peer_id: "p1".to_string() });
    assert_eq!(session.room().peers.len(), 1);
    session.handle_event(SyncEvent::PeerLeft { peer_id: "p1".to_string() });
    assert_eq!(session.room().peers.len(), 0);
}
