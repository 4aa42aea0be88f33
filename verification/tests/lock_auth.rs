use lifekit::lock::auth::{
    clean_message, encode_reply, encode_request, from_le, join_messages, reply_len, request_len, to_le, verdict,
    MAX_MSG,
};

#[test]
fn request_frames_length_then_bytes() {
    let r = encode_request(b"hunter2");
    assert_eq!(r, [7u8, 0, 0, 0, b'h', b'u', b'n', b't', b'e', b'r', b'2']);
    let len = [r[0], r[1], r[2], r[3]];
    assert_eq!(request_len(len), Some(7));
    assert_eq!(request_len(2000u32.to_le_bytes()), None);
    assert_eq!(request_len(1023u32.to_le_bytes()), Some(1023));
}

#[test]
fn reply_frames_verdict_length_message() {
    assert_eq!(encode_reply(true, b""), vec![1, 0, 0, 0, 0]);
    assert_eq!(encode_reply(false, b"locked"), [&[0u8, 6, 0, 0, 0][..], b"locked"].concat());
    let long = vec![b'x'; 600];
    let r = encode_reply(false, &long);
    assert_eq!(r.len(), 1 + 4 + MAX_MSG);
    assert_eq!(reply_len([r[1], r[2], r[3], r[4]]), Some(MAX_MSG));
    assert_eq!(reply_len(513u32.to_le_bytes()), None);
    assert!(verdict(1));
    assert!(!verdict(0));
    assert!(!verdict(2));
}

#[test]
fn little_endian_round_trip() {
    for v in [0u32, 1, 255, 256, 0x1234_5678, u32::MAX] {
        assert_eq!(to_le(v), v.to_le_bytes());
        assert_eq!(from_le(v.to_le_bytes()), v);
    }
}

#[test]
fn conversation_text_is_cleaned_and_joined() {
    assert_eq!(clean_message("  account\tlocked\n "), Some("account locked".to_string()));
    assert_eq!(clean_message(" \n\t"), None);
    let ms = vec!["a".to_string(), "b c".to_string(), "d".to_string()];
    assert_eq!(join_messages(&ms), "a · b c · d");
    assert_eq!(join_messages(&Vec::new()), "");
}
