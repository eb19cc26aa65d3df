//! Line decoder behaviour: framing, resumability across chunk boundaries,
//! and error reporting.

use msft_runtime::buffer::IoBuffer;
use msft_runtime::codec::Decode;
use msft_runtime::lines::LinesDecoder;

fn buffer_from(bytes: &[u8], capacity: usize) -> IoBuffer {
    let mut buf = IoBuffer::with_capacity(capacity);
    buf.extend_from_slice(bytes);
    buf
}

#[test]
fn test_device_decoder() {
    assert!(true, "dummy");
}

#[test]
fn decode_single_line() {
    let mut decoder = LinesDecoder::default();
    let mut buf = buffer_from(b"hello\n", 64);
    let item = decoder.decode(&mut buf).unwrap();
    assert_eq!(Some("hello".to_string()), item);
    assert_eq!(0, buf.len());
    assert_eq!(Ok(None), decoder.decode(&mut buf).map_err(|_| ()));
}

#[test]
fn decode_strips_carriage_return() {
    let mut decoder = LinesDecoder::default();
    let mut buf = buffer_from(b"hello\r\nworld\r\n", 64);
    assert_eq!(Some("hello".to_string()), decoder.decode(&mut buf).unwrap());
    assert_eq!(Some("world".to_string()), decoder.decode(&mut buf).unwrap());
    assert_eq!(None, decoder.decode(&mut buf).unwrap());
}

#[test]
fn decode_empty_line() {
    let mut decoder = LinesDecoder::default();
    let mut buf = buffer_from(b"\n", 8);
    assert_eq!(Some(String::new()), decoder.decode(&mut buf).unwrap());
}

#[test]
fn decode_partial_then_rest() {
    // The same bytes split at an arbitrary boundary yield the same items.
    let mut decoder = LinesDecoder::default();
    let mut buf = IoBuffer::with_capacity(64);
    buf.extend_from_slice(b"hel");
    assert_eq!(None, decoder.decode(&mut buf).unwrap());
    buf.extend_from_slice(b"lo\nwo");
    assert_eq!(Some("hello".to_string()), decoder.decode(&mut buf).unwrap());
    assert_eq!(None, decoder.decode(&mut buf).unwrap());
    buf.extend_from_slice(b"rld\n");
    assert_eq!(Some("world".to_string()), decoder.decode(&mut buf).unwrap());
    assert_eq!(None, decoder.decode(&mut buf).unwrap());
}

#[test]
fn decode_invalid_utf8_is_error_and_frame_consumed() {
    let mut decoder = LinesDecoder::default();
    let mut buf = buffer_from(&[0xFF, 0xFE, b'\n', b'o', b'k', b'\n'], 64);
    assert!(decoder.decode(&mut buf).is_err());
    // The bad frame was consumed; the stream continues behind it.
    assert_eq!(Some("ok".to_string()), decoder.decode(&mut buf).unwrap());
}

#[test]
fn decode_keeps_unterminated_tail() {
    let mut decoder = LinesDecoder::default();
    let mut buf = buffer_from(b"one\ntwo", 64);
    assert_eq!(Some("one".to_string()), decoder.decode(&mut buf).unwrap());
    assert_eq!(None, decoder.decode(&mut buf).unwrap());
    assert_eq!(3, buf.len());
    assert_eq!(b't', buf.get(0));
}
