use cache_pool::cache::{finish_get, finish_set};
use cache_pool::error::{Error, ErrorKind};
use cache_pool::reply::{decode_string, Reply};

fn text(reply: Reply) -> Result<String, Error> {
    decode_string(&reply)
}

#[test]
fn data_is_read_as_its_text() {
    assert_eq!(text(Reply::Data(b"direct_world".to_vec())), Ok(String::from("direct_world")));
    assert_eq!(text(Reply::Data(Vec::new())), Ok(String::new()));
}

#[test]
fn data_of_several_bytes_per_character_is_read() {
    let bytes = vec![0x67, 0x72, 0xC3, 0xBC, 0xC3, 0x9F, 0x20, 0xE2, 0x82, 0xAC, 0xF0, 0x9F, 0x98, 0x80];
    assert_eq!(text(Reply::Data(bytes)), Ok(String::from("grüß €😀")));
}

#[test]
fn status_lines_are_read_as_their_text() {
    assert_eq!(text(Reply::Okay), Ok(String::from("OK")));
    assert_eq!(text(Reply::Status(String::from("PONG"))), Ok(String::from("PONG")));
    assert_eq!(text(Reply::Status(String::new())), Ok(String::new()));
}

#[test]
fn absent_value_is_a_decoding_failure() {
    let e = text(Reply::Nil).expect_err("nothing to read");
    assert_eq!(e.kind(), ErrorKind::TypeDecoding);
    assert_ne!(e.kind(), ErrorKind::CommandExecution);
    assert!(!e.context().is_empty());
}

#[test]
fn numbers_and_lists_are_no_strings() {
    assert_eq!(text(Reply::Int(42)).expect_err("a number").kind(), ErrorKind::TypeDecoding);
    assert_eq!(text(Reply::Int(0)).expect_err("a number").kind(), ErrorKind::TypeDecoding);
    assert_eq!(text(Reply::Bulk(Vec::new())).expect_err("a list").kind(), ErrorKind::TypeDecoding);
    let nested = Reply::Bulk(vec![
        redis::Value::Data(b"a".to_vec()),
        redis::Value::Bulk(vec![redis::Value::Okay, redis::Value::Int(1)]),
        redis::Value::Nil,
    ]);
    assert_eq!(text(nested).expect_err("a list").kind(), ErrorKind::TypeDecoding);
}

#[test]
fn refusal_names_the_reply() {
    let e = text(Reply::Bulk(vec![redis::Value::Int(7)])).expect_err("a list");
    assert!(e.context().contains("int(7)"));
    let e = text(Reply::Nil).expect_err("nothing to read");
    assert!(e.context().contains("nil"));
    assert!(e.message().starts_with("error parsing string from redis result: "));
}

#[test]
fn bytes_that_are_no_utf8_are_a_decoding_failure() {
    for bytes in [
        vec![0xFF],
        vec![0x80],
        vec![0xC3],
        vec![0xC0, 0x80],
        vec![0xED, 0xA0, 0x80],
        vec![0x61, 0xF5, 0x80, 0x80, 0x80],
    ] {
        let e = text(Reply::Data(bytes)).expect_err("invalid bytes");
        assert_eq!(e.kind(), ErrorKind::TypeDecoding);
        assert_eq!(e.context(), "Invalid UTF-8");
    }
}

#[test]
fn fetch_ends_with_the_decoded_reply() {
    assert_eq!(finish_get(Ok(Reply::Data(b"mobc_world".to_vec()))), Ok(String::from("mobc_world")));
    let e = finish_get(Ok(Reply::Nil)).expect_err("no such key");
    assert_eq!(e.kind(), ErrorKind::TypeDecoding);
}

#[test]
fn fetch_passes_an_earlier_failure_on() {
    let failure = Error::new(ErrorKind::CommandExecution, String::from("connection reset"));
    assert_eq!(finish_get(Err(failure.clone())), Err(failure));
    let refused = Error::new(ErrorKind::Acquisition, String::from("timed out"));
    assert_eq!(finish_get(Err(refused.clone())), Err(refused));
}

#[test]
fn store_ends_with_nothing_or_the_failure() {
    assert_eq!(finish_set(Ok(Reply::Okay)), Ok(()));
    assert_eq!(finish_set(Ok(Reply::Int(1))), Ok(()));
    assert_eq!(finish_set(Ok(Reply::Nil)), Ok(()));
    let failure = Error::new(ErrorKind::CommandExecution, String::from("READONLY"));
    assert_eq!(finish_set(Err(failure.clone())), Err(failure));
}
