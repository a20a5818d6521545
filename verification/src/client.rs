//! Building the client handle and the pool, once, at startup.

use crate::config::PoolConfig;
use crate::error::{Error, ErrorKind};
use crate::pool::{Pool, PoolView};
use vstd::prelude::*;

verus! {

/// The client handle of the `redis` crate; nothing of its inside is known
/// here. It is built here and handed to whoever opens connections.
#[verifier::external_type_specification]
#[verifier::external_body]
pub struct ExClient(redis::Client);

/// The store that the standard setup talks to.
pub const REDIS_CON_STRING: &'static str = "redis://127.0.0.1/";

/// Whether `target` names the store by host and port: it begins with
/// `redis://`.
pub open spec fn names_host(target: Seq<char>) -> bool {
    target.len() >= 8 && target.subrange(0, 8) == "redis://"@
}

/// Whether `redis::Client::open` makes a handle of `target`, for a target
/// that names the store by host and port. For such a target the answer is
/// found from the text alone: the address is parsed, the host must be
/// there, the database number must be a number, and user and password must
/// decode.
pub uninterp spec fn host_target_accepted(target: Seq<char>) -> bool;

/// Calls `redis::Client::open` on `target`, which parses the target and
/// opens no connection. For a target that begins with `redis://` the call
/// succeeds or fails by the text of the target alone. Of any other target
/// nothing is claimed: what the call makes of a socket path or of an
/// encrypted connection depends on what the crate was built for.
#[verifier::external_body]
fn open_client(target: &str) -> (r: Result<redis::Client, redis::RedisError>)
    ensures
        names_host(target@) ==> (r is Ok <==> host_target_accepted(target@)),
{
    redis::Client::open(target)
}

/// Turns the answer of the client's constructor into the crate's terms: the
/// handle as it is, or a construction failure with the constructor's words.
pub fn checked_client(opened: Result<redis::Client, redis::RedisError>) -> (r: Result<
    redis::Client,
    Error,
>)
    ensures
        r is Ok <==> opened is Ok,
        r matches Ok(client) ==> opened == Ok::<redis::Client, redis::RedisError>(client),
        r matches Err(e) ==> e@.0 == ErrorKind::ClientConstruction,
{
    match opened {
        Ok(client) => Ok(client),
        Err(e) => Err(Error::new(ErrorKind::ClientConstruction, e.to_string())),
    }
}

/// Builds the client handle for `target`. No connection is opened. A target
/// that cannot be made into a handle is a construction failure, and there is
/// no other failure: a target that names the store by host and port gives a
/// handle exactly where the client's constructor accepts it.
pub fn open(target: &str) -> (r: Result<redis::Client, Error>)
    ensures
        names_host(target@) ==> (r is Ok <==> host_target_accepted(target@)),
        r matches Err(e) ==> e@.0 == ErrorKind::ClientConstruction,
{
    checked_client(open_client(target))
}

/// Builds the client handle for `target` and an empty pool with the given
/// settings. No connection is opened. A target that cannot be made into a
/// handle is a construction failure, and there is no other failure.
pub fn connect(target: &str, config: PoolConfig) -> (r: Result<(redis::Client, Pool), Error>)
    requires
        config.wf(),
    ensures
        names_host(target@) ==> (r is Ok <==> host_target_accepted(target@)),
        r matches Ok(built) ==> built.1@ == PoolView::empty(config) && built.1@.wf(),
        r matches Err(e) ==> e@.0 == ErrorKind::ClientConstruction,
{
    match open(target) {
        Ok(client) => Ok((client, Pool::new(config))),
        Err(e) => Err(e),
    }
}

} // verus!
