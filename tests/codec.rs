use loadgen::chat::{join_frame, message_frame, report_csv, room_name, sender_of};
use loadgen::chat_session::ChatRecord;
use loadgen::decimal::{parse_usize, push_decimal};

#[test]
fn decimal_written_without_leading_zeros() {
    let mut out = b"x".to_vec();
    push_decimal(&mut out, 0);
    push_decimal(&mut out, 1207);
    assert_eq!(out, b"x01207".to_vec());
    let mut big = Vec::new();
    push_decimal(&mut big, usize::MAX);
    assert_eq!(big, usize::MAX.to_string().into_bytes());
}

#[test]
fn decimal_parse_follows_std_rules() {
    assert_eq!(parse_usize(b"42"), Some(42));
    assert_eq!(parse_usize(b"+7"), Some(7));
    assert_eq!(parse_usize(b"007"), Some(7));
    assert_eq!(parse_usize(b""), None);
    assert_eq!(parse_usize(b"+"), None);
    assert_eq!(parse_usize(b"-1"), None);
    assert_eq!(parse_usize(b"12a"), None);
    let max = usize::MAX.to_string();
    assert_eq!(parse_usize(max.as_bytes()), Some(usize::MAX));
    let over = format!("{}0", usize::MAX);
    assert_eq!(parse_usize(over.as_bytes()), None);
}

#[test]
fn room_names_are_numbered() {
    assert_eq!(room_name(0), b"room-0".to_vec());
    assert_eq!(room_name(19), b"room-19".to_vec());
}

#[test]
fn join_and_message_frames() {
    assert_eq!(join_frame(b"room-0"), b"JOIN room-0".to_vec());
    assert_eq!(message_frame(b"room-0", 3), b"MSG room-0 3: hello room-0".to_vec());
}

#[test]
fn sender_is_read_from_last_word_before_colon() {
    assert_eq!(sender_of(b"MSG room-0 3: hello room-0").ok(), Some(3));
    assert_eq!(sender_of(b"12: x: y").ok(), Some(12));
    assert_eq!(sender_of(b"MSG room 5:").ok(), Some(5));
}

#[test]
fn sender_of_malformed_frame_is_decode_error() {
    let e = sender_of(b"no colon here").unwrap_err();
    assert_eq!(e.payload, b"no colon here".to_vec());
    assert!(sender_of(b"MSG room-0 abc: hi").is_err());
    assert!(sender_of(b"MSG room-0 : hi").is_err());
    assert!(sender_of(b"").is_err());
}

#[test]
fn own_frame_decodes_to_own_index() {
    for idx in [1usize, 9, 10, 12345] {
        let f = message_frame(b"room with spaces", idx);
        assert_eq!(sender_of(&f).ok(), Some(idx));
    }
}

#[test]
fn csv_report_rows() {
    let recs = vec![
        ChatRecord { elapsed_ms: 12, matched: 1 },
        ChatRecord { elapsed_ms: 0, matched: 30 },
    ];
    let csv = report_csv(&recs);
    assert_eq!(String::from_utf8(csv).unwrap(), "time_taken, count\n12, 1\n0, 30\n");
    assert_eq!(report_csv(&Vec::new()), b"time_taken, count\n".to_vec());
}
