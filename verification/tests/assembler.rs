use base64::Engine;
use voicebridge::assembler::{
    parse_decimal_u64, process_media, process_media_bytes, BufferData, CHUNK_INTERVAL_MS,
    FLUSH_THRESHOLD_BYTES,
};

#[test]
fn buffers_until_threshold_then_flushes_in_order() {
    let mut buf = BufferData::new();
    let first: Vec<u8> = (0..1600u32).map(|i| (i % 251) as u8).collect();
    let second: Vec<u8> = (0..1600u32).map(|i| (i % 239) as u8).collect();
    assert!(process_media_bytes(first.clone(), 20, &mut buf).is_none());
    let frame = process_media_bytes(second.clone(), 40, &mut buf)
        .expect("the second chunk reaches the flush threshold");
    let mut expected = first;
    expected.extend_from_slice(&second);
    assert_eq!(frame.len(), FLUSH_THRESHOLD_BYTES);
    assert_eq!(frame, expected);
    assert!(buf.inbound_buffer.is_empty());
    assert_eq!(buf.inbound_last_timestamp, 40);
}

#[test]
fn timestamp_gap_forces_flush() {
    let mut buf = BufferData::new();
    assert!(process_media_bytes(vec![1, 2, 3], 100, &mut buf).is_none());
    // The next chunk arrives one interval later: still buffering.
    assert!(process_media_bytes(vec![4], 100 + CHUNK_INTERVAL_MS, &mut buf).is_none());
    // A jump past one interval means the stream resumed after a gap.
    let frame = process_media_bytes(vec![5, 6], 100 + 3 * CHUNK_INTERVAL_MS, &mut buf)
        .expect("a timestamp gap flushes");
    assert_eq!(frame, vec![1, 2, 3, 4, 5, 6]);
    assert!(buf.inbound_buffer.is_empty());
}

#[test]
fn first_chunk_never_counts_as_gap() {
    let mut buf = BufferData::new();
    // Whatever the first timestamp is, there was no previous chunk.
    assert!(process_media_bytes(vec![9], 987654, &mut buf).is_none());
    assert_eq!(buf.inbound_buffer, vec![9]);
}

#[test]
fn media_event_decodes_base64_payload() {
    let mut buf = BufferData::new();
    let audio: Vec<u8> = vec![0xFF, 0x7F, 0x00, 0x80];
    let payload = base64::engine::general_purpose::STANDARD.encode(&audio);
    assert!(process_media(&payload, "20", &mut buf).is_none());
    // The buffer holds the decoded audio, not the base64 text.
    assert_eq!(buf.inbound_buffer, audio);
    assert_eq!(buf.inbound_last_timestamp, 20);
}

#[test]
fn malformed_media_event_is_ignored() {
    let mut buf = BufferData::new();
    assert!(process_media_bytes(vec![7], 20, &mut buf).is_none());
    // Not base64 at all.
    assert!(process_media("!!!not base64!!!", "40", &mut buf).is_none());
    // Not a decimal timestamp.
    assert!(process_media("AAAA", "soon", &mut buf).is_none());
    assert_eq!(buf.inbound_buffer, vec![7]);
    assert_eq!(buf.inbound_last_timestamp, 20);
}

#[test]
fn parse_decimal_values() {
    assert_eq!(parse_decimal_u64("0"), Some(0));
    assert_eq!(parse_decimal_u64("123"), Some(123));
    assert_eq!(parse_decimal_u64("18446744073709551615"), Some(u64::MAX));
    assert_eq!(parse_decimal_u64("18446744073709551616"), None);
    assert_eq!(parse_decimal_u64(""), None);
    assert_eq!(parse_decimal_u64("12a"), None);
    assert_eq!(parse_decimal_u64("-1"), None);
    assert_eq!(parse_decimal_u64(" 5"), None);
}
