use ice_cream_shop::framing::{
    decode_reply, encode_reply, frame, parse_decimal, parse_tag, split_frame, tag_bytes,
    to_decimal, Tag,
};
use ice_cream_shop::messages::ScreenReply;

#[test]
fn frame_round_trip_for_every_tag() {
    let tags = [
        Tag::Prepare,
        Tag::Commit,
        Tag::Abort,
        Tag::Ready,
        Tag::Finished,
        Tag::Keepalive,
        Tag::Access,
        Tag::Order,
        Tag::Ping,
        Tag::Election,
        Tag::Screen,
    ];
    let body = b"{\"Ping\":null}\nsecond line".to_vec();
    for tag in tags {
        let framed = frame(tag, &body);
        let (t, b) = split_frame(&framed).unwrap();
        assert_eq!(parse_tag(&t), Some(tag));
        assert_eq!(b, body);
    }
}

#[test]
fn frame_writes_tag_newline_body() {
    assert_eq!(frame(Tag::Prepare, b"{}"), b"prepare\n{}".to_vec());
    assert_eq!(tag_bytes(Tag::Keepalive), b"keepalive".to_vec());
}

#[test]
fn split_without_newline_is_none() {
    assert_eq!(split_frame(b"ping"), None);
    assert_eq!(split_frame(b"a\n"), Some((b"a".to_vec(), Vec::new())));
}

#[test]
fn unknown_tag_is_not_parsed() {
    assert_eq!(parse_tag(b"unknown"), None);
    assert_eq!(parse_tag(b"Ping"), None);
}

#[test]
fn decimal_round_trip() {
    assert_eq!(to_decimal(0), b"0".to_vec());
    assert_eq!(to_decimal(9), b"9".to_vec());
    assert_eq!(to_decimal(1234), b"1234".to_vec());
    assert_eq!(parse_decimal(b"1234"), Some(1234));
    assert_eq!(parse_decimal(&to_decimal(usize::MAX)), Some(usize::MAX));
}

#[test]
fn decimal_parse_refuses_bad_text() {
    assert_eq!(parse_decimal(b""), None);
    assert_eq!(parse_decimal(b"12a"), None);
    assert_eq!(parse_decimal(b"-1"), None);
    assert_eq!(parse_decimal(b"99999999999999999999999"), None);
}

#[test]
fn reply_lines() {
    assert_eq!(encode_reply(ScreenReply::Ready, 9), b"ready\n9".to_vec());
    assert_eq!(encode_reply(ScreenReply::Finished, 14), b"finished\n14".to_vec());
    assert_eq!(encode_reply(ScreenReply::Keepalive, 21), b"keepalive\n21".to_vec());
    assert_eq!(decode_reply(b"abort\n9"), Some((ScreenReply::Abort, 9)));
    assert_eq!(decode_reply(b"ping\n9"), None);
    assert_eq!(decode_reply(b"ready\nx"), None);
    for verb in [
        ScreenReply::Ready,
        ScreenReply::Abort,
        ScreenReply::Finished,
        ScreenReply::Keepalive,
    ] {
        assert_eq!(decode_reply(&encode_reply(verb, 77)), Some((verb, 77)));
    }
}
