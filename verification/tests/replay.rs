use mcp_probe::replay::{derive_replay_ids, feed_sse_chunk, parse_i64, replay_event_index};

#[test]
fn replay_ids_step_back_one_event() {
    assert_eq!(derive_replay_ids(" 5/stream-a ").unwrap().last_event_id, "4/stream-a");
    assert_eq!(derive_replay_ids("12").unwrap().last_event_id, "11");
    assert_eq!(derive_replay_ids("0/x/y").unwrap().last_event_id, "-1/x/y");
    assert_eq!(derive_replay_ids("-3").unwrap().last_event_id, "-4");
    assert!(derive_replay_ids("abc/1").is_none());
    assert!(derive_replay_ids("").is_none());
    assert_eq!(replay_event_index("7/s"), Some(7));
}

#[test]
fn signed_numbers_parse_like_i64() {
    assert_eq!(parse_i64("+42"), Some(42));
    assert_eq!(parse_i64("-9223372036854775808"), Some(i64::MIN));
    assert_eq!(parse_i64("9223372036854775807"), Some(i64::MAX));
    assert_eq!(parse_i64("9223372036854775808"), None);
    assert_eq!(parse_i64("-"), None);
    assert_eq!(parse_i64("+-1"), None);
    assert_eq!(parse_i64("1.5"), None);
}

#[test]
fn sse_chunks_yield_the_first_event_id() {
    let mut buffer = String::new();
    assert_eq!(feed_sse_chunk(&mut buffer, b"event: message\ni"), None);
    assert_eq!(buffer, "i");
    assert_eq!(feed_sse_chunk(&mut buffer, b"d:  42/abc \r\ndata: {}\n"), Some("42/abc".to_string()));

    let mut buffer = String::new();
    assert_eq!(feed_sse_chunk(&mut buffer, b"data: x\r\n\r\nid:7"), None);
    assert_eq!(buffer, "id:7");
    assert_eq!(feed_sse_chunk(&mut buffer, b"\n"), Some("7".to_string()));
}
