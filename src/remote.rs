use vstd::prelude::*;

use crate::identity::Identity;

verus! {

/// The body of the identity service's answer, as the transport layer decoded it.
pub enum ReplyBody {
    /// Not a JSON object in the shape of an identity record.
    Malformed,
    /// An object that carries an `error` field.
    ErrorObject,
    /// An identity record.
    Record(Identity),
}

/// What came back from asking the identity service to resolve a token.
pub enum Reply {
    /// The request failed or timed out before any status arrived.
    TransportFailure,
    /// A response with its status code and decoded body.
    Response { status: u16, body: ReplyBody },
}

/// The path, below the identity service's base address, that resolves a token.
pub open spec fn resolve_path() -> Seq<char> {
    "/api/auth/me"@
}

/// The identity a reply carries: only a success status with a record counts;
/// anything else means nobody is authenticated.
pub open spec fn reply_identity(reply: Reply) -> Option<Identity> {
    match reply {
        Reply::Response { status, body: ReplyBody::Record(id) } => if 200 <= status <= 299 {
            Some(id)
        } else {
            None
        },
        _ => None,
    }
}

/// Whether a token is worth sending to the identity service: an empty one
/// resolves to nobody without a network call.
pub fn needs_remote_lookup(token: &str) -> (r: bool)
    ensures
        r == (token@.len() > 0),
{
    !token.is_empty()
}

/// The address that resolves tokens at the identity service with base address `base`.
pub fn resolve_url(base: &str) -> (r: String)
    ensures
        r@ == base@ + resolve_path(),
{
    let mut url = base.to_owned();
    url.append("/api/auth/me");
    url
}

/// Turns the identity service's reply into the caller's identity, failing closed.
pub fn identity_from_reply(reply: Reply) -> (r: Option<Identity>)
    ensures
        r == reply_identity(reply),
{
    match reply {
        Reply::TransportFailure => None,
        Reply::Response { status, body } => match body {
            ReplyBody::Record(id) => if 200 <= status && status <= 299 {
                Some(id)
            } else {
                None
            },
            _ => None,
        },
    }
}

} // verus!
