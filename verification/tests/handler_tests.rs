use russh_core::buffer::BufferConfig;
use russh_core::handler::{StreamHandler, StreamState};

#[test]
fn stream_handler_basic() {
    let config = BufferConfig::new(1024, 1024 * 1024);
    let handler = StreamHandler::new("test-stream".to_string(), config);

    assert_eq!(handler.stream_id(), "test-stream");
    assert!(handler.is_active());
    assert!(handler.needs_data());
}

#[test]
fn stream_handler_read_write() {
    let config = BufferConfig::new(1024, 1024 * 1024);
    let mut handler = StreamHandler::new("test-stream".to_string(), config).with_size(1000);

    handler.add_data(0, vec![1, 2, 3, 4, 5]);

    let data = handler.read(3).unwrap();
    assert_eq!(data, vec![1, 2, 3]);
    assert_eq!(handler.position().position, 3);
}

#[test]
fn stream_handler_seek() {
    let config = BufferConfig::new(1024, 1024 * 1024);
    let mut handler = StreamHandler::new("test-stream".to_string(), config).with_size(100);

    handler.add_data(0, vec![0; 100]);

    handler.seek(50).unwrap();
    assert_eq!(handler.position().position, 50);

    let result = handler.seek(150);
    assert!(result.is_err());
}

#[test]
fn stream_handler_resume() {
    let config = BufferConfig::new(1024, 1024 * 1024);
    let state = StreamState::new("test-stream".to_string(), 50, Some(100));

    let handler = StreamHandler::resume("test-stream".to_string(), config, state);

    assert_eq!(handler.position().position, 50);
    assert_eq!(handler.state().total_size, Some(100));
}

#[test]
fn stream_handler_stopped_rejects() {
    let config = BufferConfig::new(1024, 1024 * 1024);
    let mut handler = StreamHandler::new("s".to_string(), config);
    handler.add_data(0, vec![1, 2, 3]);
    handler.stop();
    assert!(!handler.is_active());
    assert!(handler.read(1).is_err());
    assert!(handler.seek(0).is_err());
}

#[test]
fn stream_handler_underrun() {
    let config = BufferConfig::new(1024, 1024 * 1024);
    let mut handler = StreamHandler::new("s".to_string(), config);
    let result = handler.read(1);
    assert!(result.is_err());
}

#[test]
fn failed_seek_keeps_cursor() {
    let config = BufferConfig::new(1024, 1024 * 1024);
    let mut handler = StreamHandler::new("s".to_string(), config).with_size(100);
    handler.add_data(0, vec![0; 100]);
    handler.seek(40).unwrap();
    assert!(handler.seek(150).is_err());
    assert_eq!(handler.position().position, 40);
    assert_eq!(handler.state().position, 40);
}
