use russh_core::buffer::{AdaptiveBuffer, BufferConfig};

#[test]
fn buffer_config_default() {
    let config = BufferConfig::default();
    assert!(config.min_buffer_size < config.max_buffer_size);
    assert!(config.low_watermark < config.high_watermark);
}

#[test]
fn adaptive_buffer_basic() {
    let config = BufferConfig::new(1024, 1024 * 1024);
    let buffer = AdaptiveBuffer::new(config);

    assert_eq!(buffer.position(), 0);
    assert_eq!(buffer.buffered_bytes(), 0);
    assert!(buffer.needs_data());
}

#[test]
fn adaptive_buffer_add_and_read() {
    let config = BufferConfig::new(1024, 1024 * 1024);
    let mut buffer = AdaptiveBuffer::new(config);

    let data = vec![1, 2, 3, 4, 5];
    buffer.add_data(0, data.clone());

    assert_eq!(buffer.buffered_bytes(), 5);

    let read = buffer.read(3).unwrap();
    assert_eq!(read, vec![1, 2, 3]);
    assert_eq!(buffer.position(), 3);
}

#[test]
fn adaptive_buffer_seek() {
    let config = BufferConfig::new(1024, 1024 * 1024);
    let buffer = AdaptiveBuffer::new(config).with_stream_size(100);

    let mut buffer = buffer;
    buffer.add_data(0, vec![0; 50]);
    buffer.add_data(50, vec![0; 50]);

    assert!(buffer.seek(25));
    assert_eq!(buffer.position(), 25);

    assert!(buffer.seek(75));
    assert_eq!(buffer.position(), 75);

    assert!(!buffer.seek(150));
}

#[test]
fn adaptive_buffer_ranges() {
    let config = BufferConfig::new(1024, 1024 * 1024);
    let mut buffer = AdaptiveBuffer::new(config);

    buffer.add_data(0, vec![0; 100]);
    buffer.add_data(200, vec![0; 100]);

    let ranges = buffer.buffered_ranges();
    assert_eq!(ranges.len(), 2);
    assert!(buffer.is_buffered(50));
    assert!(!buffer.is_buffered(150));
    assert!(buffer.is_buffered(250));
}

#[test]
fn buffer_bound_holds_under_many_adds() {
    let config = BufferConfig::new(16, 64).with_watermarks(16, 64);
    let mut buffer = AdaptiveBuffer::new(config);
    for round in 0..50u64 {
        buffer.add_data(round * 10, vec![7u8; 10]);
        assert!(buffer.buffered_bytes() <= 64);
    }
    // A block larger than the whole buffer is truncated to the maximum.
    buffer.add_data(10_000, vec![9u8; 100]);
    assert!(buffer.buffered_bytes() <= 64);
}

#[test]
fn buffer_read_returns_input_prefix() {
    let config = BufferConfig::new(1024, 1024 * 1024);
    let mut buffer = AdaptiveBuffer::new(config);
    let data: Vec<u8> = (0..200u32).map(|x| (x % 251) as u8).collect();
    buffer.add_data(0, data.clone());
    let got = buffer.read(data.len()).unwrap();
    assert_eq!(got, data);
    assert_eq!(buffer.position(), data.len() as u64);
}

#[test]
fn buffer_clear_resets() {
    let config = BufferConfig::new(1024, 1024 * 1024);
    let mut buffer = AdaptiveBuffer::new(config);
    buffer.add_data(0, vec![1; 10]);
    let _ = buffer.read(4);
    buffer.clear();
    assert_eq!(buffer.buffered_bytes(), 0);
    assert_eq!(buffer.position(), 0);
    assert!(buffer.buffered_ranges().is_empty());
}

#[test]
fn buffer_and_seek_scenario() {
    // min 1 KiB, max 1 MiB; two adjacent 50-byte blocks.
    let config = BufferConfig::new(1024, 1024 * 1024);
    let mut buffer = AdaptiveBuffer::new(config).with_stream_size(100);
    let first: Vec<u8> = (0..50u8).collect();
    let second: Vec<u8> = (50..100u8).collect();
    buffer.add_data(0, first);
    buffer.add_data(50, second);

    assert!(buffer.seek(25));
    let got = buffer.read(10).unwrap();
    let expected: Vec<u8> = (25..35u8).collect();
    assert_eq!(got, expected);

    let before = buffer.position();
    assert!(!buffer.seek(150));
    assert_eq!(buffer.position(), before);
}
