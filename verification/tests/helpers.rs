use webgateway::protocols::utils::find_index_pos;
use webgateway::utils::backlog::LISTEN_BACKLOG_SIZE;
use webgateway::utils::{
    bytes_to_hex, default_false, default_true, hex_to_bytes, replace_sensitive_data, repr_bytes,
    try_hex_to_bytes,
};

#[test]
fn bytes_are_written_in_lower_case_hex() {
    assert_eq!(bytes_to_hex(&[]), "");
    assert_eq!(bytes_to_hex(&[0x00, 0x0f, 0xa0, 0xff]), "000fa0ff");
    assert_eq!(bytes_to_hex(b"Hello world!"), "48656c6c6f20776f726c6421");
}

#[test]
fn hex_is_read_pair_by_pair() {
    assert_eq!(hex_to_bytes(""), Vec::<u8>::new());
    assert_eq!(hex_to_bytes("000fa0ff"), vec![0x00, 0x0f, 0xa0, 0xff]);
    assert_eq!(hex_to_bytes("DEADbeef"), vec![0xde, 0xad, 0xbe, 0xef]);
    // a last digit alone is a byte of its own
    assert_eq!(hex_to_bytes("abc"), vec![0xab, 0x0c]);
    assert_eq!(hex_to_bytes("+f"), vec![0x0f]);
}

#[test]
fn hex_that_cannot_be_read_is_told() {
    assert_eq!(try_hex_to_bytes("zz"), None);
    assert_eq!(try_hex_to_bytes("0g"), None);
    assert_eq!(try_hex_to_bytes("f+"), None);
    assert_eq!(try_hex_to_bytes("-1"), None);
    assert_eq!(try_hex_to_bytes("+"), None);
    assert_eq!(try_hex_to_bytes("\u{e9}"), None);
    assert_eq!(try_hex_to_bytes("7f"), Some(vec![0x7f]));
}

#[test]
fn hex_round_trip() {
    let bytes: Vec<u8> = (0..=255u8).collect();
    assert_eq!(hex_to_bytes(&bytes_to_hex(&bytes)), bytes);
}

#[test]
fn bytes_are_shown_printably() {
    assert_eq!(repr_bytes(b""), "");
    assert_eq!(repr_bytes(b"abc ~"), "abc ~");
    assert_eq!(repr_bytes(b"\r\n\x00\x1f\x7f\xff"), "\\x0d\\x0a\\x00\\x1f\\x7f\\xff");
    assert_eq!(repr_bytes(b"a\\b"), "a\\b");
    assert_eq!(repr_bytes(b"PROXY \r\n"), "PROXY \\x0d\\x0a");
}

#[test]
fn booleans_by_default() {
    assert!(!default_false());
    assert!(default_true());
}

#[test]
fn short_secrets_stay_as_they_are() {
    assert_eq!(replace_sensitive_data(""), "");
    assert_eq!(replace_sensitive_data("abcd"), "abcd");
}

#[test]
fn long_secrets_keep_two_bytes_at_each_end() {
    assert_eq!(replace_sensitive_data("abcde"), "abde");
    assert_eq!(replace_sensitive_data("abcdef"), "abef");
    assert_eq!(replace_sensitive_data("abcdefg"), "ab*fg");
    assert_eq!(replace_sensitive_data("AKIDexampleSecretId"), "AK*************Id");
}

#[test]
fn first_occurrence_is_found() {
    assert_eq!(find_index_pos(b"PROXY UNKNOWN\r\nGET /\r\n", b"\r\n"), Some(13));
    assert_eq!(find_index_pos(b"abcabc", b"bc"), Some(1));
    assert_eq!(find_index_pos(b"abc", b"abc"), Some(0));
    assert_eq!(find_index_pos(b"abc", b""), Some(0));
    assert_eq!(find_index_pos(b"", b""), Some(0));
    assert_eq!(find_index_pos(b"abc", b"abcd"), None);
    assert_eq!(find_index_pos(b"abc", b"x"), None);
    assert_eq!(find_index_pos(&[1u32, 2, 3, 2, 3], &[2u32, 3]), Some(1));
}

#[test]
fn backlog_is_left_to_the_system() {
    assert_eq!(LISTEN_BACKLOG_SIZE, -1);
}
