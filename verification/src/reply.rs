//! What the store answers, and how an answer is read as a string.

use crate::error::{Error, ErrorKind};
use vstd::prelude::*;
use vstd::utf8::{decode_utf8, valid_utf8};

verus! {

/// The error type of the `redis` crate; nothing of its inside is known here.
#[verifier::external_type_specification]
#[verifier::external_body]
pub struct ExRedisError(redis::RedisError);

/// The reply type of the `redis` crate; nothing of its inside is known here.
/// The items of a list are kept as values of this type.
#[verifier::external_type_specification]
#[verifier::external_body]
pub struct ExValue(redis::Value);

/// One reply of the store.
#[derive(Clone, Debug, PartialEq, Eq)]
pub enum Reply {
    /// No value.
    Nil,
    /// An integer.
    Int(i64),
    /// Binary data.
    Data(Vec<u8>),
    /// A list of replies, each as the transport gave it.
    Bulk(Vec<redis::Value>),
    /// A status line.
    Status(String),
    /// The status line `OK`.
    Okay,
}

/// A reply as a mathematical value. Of a list it keeps the length only: no
/// statement of this crate depends on what a list holds.
pub enum ReplyView {
    /// No value.
    Nil,
    /// An integer.
    Int(i64),
    /// Binary data.
    Data(Seq<u8>),
    /// A list of so many replies.
    Bulk(nat),
    /// A status line.
    Status(Seq<char>),
    /// The status line `OK`.
    Okay,
}

impl View for Reply {
    type V = ReplyView;

    open spec fn view(&self) -> ReplyView {
        match self {
            Reply::Nil => ReplyView::Nil,
            Reply::Int(n) => ReplyView::Int(*n),
            Reply::Data(bytes) => ReplyView::Data(bytes@),
            Reply::Bulk(items) => ReplyView::Bulk(items@.len()),
            Reply::Status(line) => ReplyView::Status(line@),
            Reply::Okay => ReplyView::Okay,
        }
    }
}

impl ReplyView {
    /// The string that the reply stands for: data that is valid UTF-8, or a
    /// status line. Nothing else stands for a string, an absent value least
    /// of all.
    pub open spec fn text(self) -> Option<Seq<char>> {
        match self {
            ReplyView::Data(bytes) => if valid_utf8(bytes) {
                Some(decode_utf8(bytes))
            } else {
                None
            },
            ReplyView::Status(line) => Some(line),
            ReplyView::Okay => Some("OK"@),
            _ => None,
        }
    }
}

/// Calls `redis::from_redis_value` for a `String` on the `redis::Value` of
/// the same variant and contents as `reply`. By that crate's conversion for
/// `String`, data gives its text where it is valid UTF-8, a status line gives
/// its text, `OK` gives "OK", and every other reply is refused.
#[verifier::external_body]
fn string_from_reply(reply: &Reply) -> (r: Result<String, redis::RedisError>)
    ensures
        r is Ok <==> reply@.text() is Some,
        r matches Ok(s) ==> Some(s@) == reply@.text(),
{
    let value = match reply {
        Reply::Nil => redis::Value::Nil,
        Reply::Int(n) => redis::Value::Int(*n),
        Reply::Data(bytes) => redis::Value::Data(bytes.clone()),
        Reply::Bulk(items) => redis::Value::Bulk(items.clone()),
        Reply::Status(line) => redis::Value::Status(line.clone()),
        Reply::Okay => redis::Value::Okay,
    };
    redis::from_redis_value::<String>(&value)
}

/// Reads a reply as a string. A reply that stands for no string, such as the
/// answer for a key that does not exist, is a decoding failure.
pub fn decode_string(reply: &Reply) -> (r: Result<String, Error>)
    ensures
        r is Ok <==> reply@.text() is Some,
        r matches Ok(s) ==> Some(s@) == reply@.text(),
        r matches Err(e) ==> e@.0 == ErrorKind::TypeDecoding,
{
    match string_from_reply(reply) {
        Ok(s) => Ok(s),
        Err(e) => Err(Error::new(ErrorKind::TypeDecoding, e.to_string())),
    }
}

} // verus!
