//! The per-connection decisions: what to do with the first record inside
//! the authentication window, and how to route records that follow.
//!
//! The socket reads, the timer and the handshake live with the I/O layer;
//! it hands each decoded record here and acts on the verdict.
use crate::dispatcher::{AuthIntraMessage, ServerIntraMessage};
use crate::records::ClientMessage;
use vstd::prelude::*;

verus! {

/// The verdict on the first record of a connection.
#[derive(Debug)]
pub enum AuthGate {
    /// The record was `Authenticate`: register under this display name.
    Accept(String),
    /// Anything else: close the connection.
    Reject,
}

/// Judges the first record of a fresh connection: only `Authenticate`
/// carries on, anything else closes the connection.
pub fn auth_first_record(msg: ClientMessage) -> (r: AuthGate)
    ensures
        (msg matches ClientMessage::Authenticate(name) ==> r == AuthGate::Accept(name)),
        (msg matches ClientMessage::Authed(id, cmd) ==> r == AuthGate::Reject),
{
    match msg {
        ClientMessage::Authenticate(name) => AuthGate::Accept(name),
        ClientMessage::Authed(_, _) => AuthGate::Reject,
    }
}

/// Routes an inbound record from an authenticated connection: an `Authed`
/// command is forwarded to the hub with the connection's identity, and a
/// stray `Authenticate` is dropped.
pub fn route_inbound(conn: u64, msg: ClientMessage) -> (r: Option<ServerIntraMessage>)
    ensures
        (msg matches ClientMessage::Authed(id, cmd) ==> r == Option::Some(
            ServerIntraMessage::Auth(
                AuthIntraMessage { addr: conn, user_id: id, message: cmd },
            ),
        )),
        (msg matches ClientMessage::Authenticate(name) ==> r is None),
{
    match msg {
        ClientMessage::Authenticate(_) => Option::None,
        ClientMessage::Authed(user_id, message) => Option::Some(
            ServerIntraMessage::Auth(AuthIntraMessage { addr: conn, user_id, message }),
        ),
    }
}

} // verus!
