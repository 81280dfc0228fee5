//! Explicit, physical-interface-bound QUIC. Pairing never authorizes input.

pub mod native;
pub mod socket;

use crate::addr::SocketAddrV4;
use crate::guarded_endpoint::socket::{revoked, revoked_error};
use crate::io_error::{Cause, ErrorKind, IoError};
use crate::policy::{is_private_or_link_local, private_or_link_local};
use vstd::prelude::*;

verus! {

/// A user-selected adapter identity and exact numeric endpoints. No discovery or port fallback.
#[derive(Clone, Debug)]
pub struct NetworkSelection {
    pub stable_id: String,
    pub interface_index: u32,
    pub local: SocketAddrV4,
    pub peer: SocketAddrV4,
}

impl NetworkSelection {
    /// The selection names one adapter and two different machines on a private network.
    pub open spec fn is_exact(&self) -> bool {
        &&& self.stable_id@.len() > 0
        &&& vstd::utf8::encode_utf8(self.stable_id@).len() <= 256
        &&& self.interface_index != 0
        &&& self.local.port != 0
        &&& self.peer.port != 0
        &&& private_or_link_local(self.local.ip)
        &&& private_or_link_local(self.peer.ip)
        &&& self.local.ip != self.peer.ip
    }

    pub fn validate(&self) -> (result: Result<(), IoError>)
        ensures
            result == (if self.is_exact() {
                Ok::<(), IoError>(())
            } else {
                Err::<(), IoError>(
                    (IoError { kind: ErrorKind::InvalidInput, cause: Cause::Selection }),
                )
            }),
    {
        if self.stable_id.as_str().is_empty() || self.stable_id.as_str().as_bytes().len() > 256
            || self.interface_index == 0 || self.local.port == 0 || self.peer.port == 0
            || !is_private_or_link_local(self.local.ip) || !is_private_or_link_local(self.peer.ip)
            || self.local.ip == self.peer.ip {
            return Err(IoError::new(ErrorKind::InvalidInput, Cause::Selection));
        }
        Ok(())
    }
}

/// What came of asking the endpoint for an outgoing connection.
#[derive(Clone, Copy, Debug, Eq, PartialEq, Structural)]
pub enum Dialed {
    Connecting,
    /// The endpoint has stopped for good.
    Stopping,
    Refused,
}

/// What an endpoint does with an attempt to connect.
#[derive(Clone, Copy, Debug, Eq, PartialEq, Structural)]
pub enum DialVerdict {
    Proceed,
    Fail(IoError),
    /// The endpoint is revoked, so that the next attempt binds anew.
    RevokeAndFail(IoError),
}

/// Whether work may begin on an endpoint.
pub fn check_active(is_revoked: bool) -> (result: Result<(), IoError>)
    ensures
        result == (if is_revoked {
            Err::<(), IoError>(revoked())
        } else {
            Ok::<(), IoError>(())
        }),
{
    if is_revoked {
        Err(revoked_error())
    } else {
        Ok(())
    }
}

pub open spec fn dial_verdict(dialed: Dialed, is_revoked: bool) -> DialVerdict {
    match dialed {
        Dialed::Stopping => DialVerdict::RevokeAndFail(revoked()),
        Dialed::Refused => DialVerdict::Fail(
            IoError { kind: ErrorKind::Other, cause: Cause::Platform },
        ),
        Dialed::Connecting => if is_revoked {
            DialVerdict::Fail(revoked())
        } else {
            DialVerdict::Proceed
        },
    }
}

/// What follows an attempt to connect, where `is_revoked` was read after it.
///
/// A stopped endpoint is never reopened: revoking it makes the next attempt bind anew instead of
/// failing on this socket forever.
pub fn judge_dial(dialed: Dialed, is_revoked: bool) -> (verdict: DialVerdict)
    ensures
        verdict == dial_verdict(dialed, is_revoked),
{
    match dialed {
        Dialed::Stopping => DialVerdict::RevokeAndFail(revoked_error()),
        Dialed::Refused => DialVerdict::Fail(IoError::new(ErrorKind::Other, Cause::Platform)),
        Dialed::Connecting => if is_revoked {
            DialVerdict::Fail(revoked_error())
        } else {
            DialVerdict::Proceed
        },
    }
}

/// Whether waiting for a closed connection's last packets is over: when they are gone, or when
/// the endpoint is revoked, which no one announces.
pub fn wait_idle_or_revoked(idle: bool, is_revoked: bool) -> (over: Option<Result<(), IoError>>)
    ensures
        over == (if is_revoked {
            Some(Err::<(), IoError>(revoked()))
        } else if idle {
            Some(Ok::<(), IoError>(()))
        } else {
            None
        }),
{
    if is_revoked {
        Some(Err(revoked_error()))
    } else if idle {
        Some(Ok(()))
    } else {
        None
    }
}

/// A dial goes on exactly where it began and nothing was revoked meanwhile. Only an endpoint that
/// stopped for good is revoked, and a refusal is the platform's.
pub proof fn law_when_a_dial_goes_on(dialed: Dialed, is_revoked: bool)
    ensures
        dial_verdict(dialed, is_revoked) == DialVerdict::Proceed <==> dialed == Dialed::Connecting
            && !is_revoked,
        dial_verdict(dialed, is_revoked) is RevokeAndFail <==> dialed == Dialed::Stopping,
        dialed == Dialed::Connecting && is_revoked ==> dial_verdict(dialed, is_revoked)
            == DialVerdict::Fail(revoked()),
        dialed == Dialed::Refused ==> dial_verdict(dialed, is_revoked) == DialVerdict::Fail(
            IoError { kind: ErrorKind::Other, cause: Cause::Platform },
        ),
{
}

/// A selection is exact only with a name that is there and not too long, an interface, two ports and
/// two different addresses of a local network; with all of these it is.
pub proof fn law_which_selections_are_exact(selection: NetworkSelection)
    ensures
        selection.is_exact() <==> !(selection.stable_id@.len() == 0 || vstd::utf8::encode_utf8(
            selection.stable_id@,
        ).len() > 256 || selection.interface_index == 0 || selection.local.port == 0
            || selection.peer.port == 0 || !private_or_link_local(selection.local.ip)
            || !private_or_link_local(selection.peer.ip) || selection.local.ip
            == selection.peer.ip),
{
}

} // verus!
