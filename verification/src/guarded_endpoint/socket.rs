//! One socket that talks to one peer, and ends with its session.

use crate::addr::{Ipv4Addr, SocketAddrV4};
use crate::io_error::{Cause, ErrorKind, IoError};
use crate::policy::{LockView, NetworkLock};
use vstd::prelude::*;

verus! {

pub const MAX_DATAGRAM_BYTES: usize = 65_507;

pub const RECEIVE_BUDGET: usize = 32;

/// A datagram as the system reports it.
#[derive(Clone, Copy, Debug, Eq, PartialEq, Structural)]
pub struct Arrival {
    pub length: usize,
    pub source: SocketAddrV4,
    pub destination: Ipv4Addr,
    pub interface_index: u32,
}

/// A datagram that is to be sent. An address that is not IPv4 is `None`.
#[derive(Clone, Copy, Debug, Eq, PartialEq, Structural)]
pub struct Departure {
    pub destination: Option<SocketAddrV4>,
    pub source: SourceAddress,
    pub is_segmented: bool,
    pub length: usize,
}

/// The source address that a datagram asks for.
#[derive(Clone, Copy, Debug, Eq, PartialEq, Structural)]
pub enum SourceAddress {
    Any,
    V4(Ipv4Addr),
    V6,
}

/// Why a socket was revoked.
#[derive(Clone, Copy, Debug, Eq, PartialEq, Structural)]
pub enum Revocation {
    /// A transmit left the pinned peer, address, or size bounds.
    OutOfBounds,
    /// A datagram was written short.
    ShortWrite,
    /// The system failed.
    Failed(ErrorKind),
}

/// What the socket does with a datagram that is to be sent.
#[derive(Clone, Copy, Debug, Eq, PartialEq, Structural)]
pub enum SendPlan {
    Send,
    WouldBlock,
    RevokeAndBlock(Revocation),
}

/// What the socket answers after the system took a datagram or did not.
#[derive(Clone, Copy, Debug, Eq, PartialEq, Structural)]
pub enum SendOutcome {
    Sent,
    WouldBlock,
    RevokeAndBlock(Revocation),
}

/// How receiving starts.
#[derive(Clone, Copy, Debug, Eq, PartialEq, Structural)]
pub enum ReceiveStart {
    /// Poll with at most this many bytes of room.
    Poll(usize),
    Fail(IoError),
    RevokeAndFail(IoError),
}

/// What the system answers a poll for a datagram.
#[derive(Clone, Copy, Debug, Eq, PartialEq, Structural)]
pub enum Polled {
    Pending,
    Failed(IoError),
    Arrived(Arrival),
}

/// What a poll for a datagram gives.
#[derive(Clone, Copy, Debug, Eq, PartialEq, Structural)]
pub enum Received {
    Pending,
    Fail(IoError),
    RevokeAndFail(IoError),
    Deliver(Arrival),
    /// Unrelated traffic: poll again while the budget lasts.
    Skip,
}

/// What follows on the budget for unrelated traffic.
#[derive(Clone, Copy, Debug, Eq, PartialEq, Structural)]
pub enum NextPoll {
    Poll,
    Fail(IoError),
    /// Let other tasks run and come back.
    Yield,
}

/// What a poll for room to write gives.
#[derive(Clone, Copy, Debug, Eq, PartialEq, Structural)]
pub enum Writable {
    Ready,
    /// Wait on, and drop the wait that was under way unless `keep`.
    Pending { keep: bool },
    RevokeAndPend(ErrorKind),
}

pub open spec fn revoked() -> IoError {
    IoError { kind: ErrorKind::ConnectionAborted, cause: Cause::Revoked }
}

pub fn revoked_error() -> (error: IoError)
    ensures
        error == revoked(),
{
    IoError::new(ErrorKind::ConnectionAborted, Cause::Revoked)
}

/// The failure of a revoked socket. Its driver ignores a reset connection, so that one is given as
/// an aborted one, which ends the driver.
pub open spec fn failed(error: IoError) -> IoError {
    if error.kind == ErrorKind::ConnectionReset {
        IoError { kind: ErrorKind::ConnectionAborted, ..error }
    } else {
        error
    }
}

pub fn fail(error: IoError) -> (given: IoError)
    ensures
        given == failed(error),
{
    if error.kind == ErrorKind::ConnectionReset {
        IoError { kind: ErrorKind::ConnectionAborted, cause: error.cause }
    } else {
        error
    }
}

/// A socket pinned to one local address, one peer and one interface.
#[derive(Clone, Copy, Debug, Eq, PartialEq, Structural)]
pub struct GuardedSocket {
    pub local: SocketAddrV4,
    pub peer: SocketAddrV4,
    pub interface_index: u32,
}

/// The endpoints are those that a lock allows.
pub open spec fn is_authorized(lock: LockView, local: SocketAddrV4, peer: SocketAddrV4) -> bool {
    &&& local.port != 0
    &&& peer.port != 0
    &&& peer.ip == lock.peer
    &&& local.ip == lock.selected.address
}

impl GuardedSocket {
    /// Pins a bound socket to what `lock` allows.
    pub fn new(
        bound: Result<SocketAddrV4, IoError>,
        lock: &NetworkLock,
        local: SocketAddrV4,
        peer: SocketAddrV4,
        is_revoked: bool,
    ) -> (socket: Result<GuardedSocket, IoError>)
        ensures
            socket == (if lock@.revoked || is_revoked {
                Err::<GuardedSocket, IoError>(revoked())
            } else if is_authorized(lock@, local, peer) && bound is Err {
                Err::<GuardedSocket, IoError>(bound->Err_0)
            } else if !is_authorized(lock@, local, peer) || bound->Ok_0 != local {
                Err::<GuardedSocket, IoError>(
                    (IoError { kind: ErrorKind::InvalidInput, cause: Cause::UnauthorizedSocket }),
                )
            } else {
                Ok::<GuardedSocket, IoError>(
                    (GuardedSocket { local, peer, interface_index: lock@.selected.index }),
                )
            }),
    {
        if lock.is_revoked() || is_revoked {
            return Err(revoked_error());
        }
        if local.port == 0 || peer.port == 0 || peer.ip != lock.peer() || local.ip
            != lock.selected().address {
            return Err(IoError::new(ErrorKind::InvalidInput, Cause::UnauthorizedSocket));
        }
        match bound {
            Err(error) => Err(error),
            Ok(address) => if address != local {
                Err(IoError::new(ErrorKind::InvalidInput, Cause::UnauthorizedSocket))
            } else {
                Ok(GuardedSocket { local, peer, interface_index: lock.selected().index })
            },
        }
    }

    pub open spec fn allows(self, packet: Arrival) -> bool {
        &&& packet.source == self.peer
        &&& packet.destination == self.local.ip
        &&& packet.interface_index == self.interface_index
    }

    pub fn permits(&self, packet: Arrival) -> (permitted: bool)
        ensures
            permitted == self.allows(packet),
    {
        packet.source == self.peer && packet.destination == self.local.ip && packet.interface_index
            == self.interface_index
    }

    /// The datagram goes to the peer, from the pinned address, whole and in bounds.
    pub open spec fn may_leave(self, datagram: Departure) -> bool {
        &&& datagram.destination == Some(self.peer)
        &&& datagram.source == SourceAddress::Any || datagram.source == SourceAddress::V4(
            self.local.ip,
        )
        &&& !datagram.is_segmented
        &&& 0 < datagram.length <= MAX_DATAGRAM_BYTES
    }

    pub open spec fn send_plan(self, is_revoked: bool, datagram: Departure) -> SendPlan {
        if is_revoked {
            SendPlan::WouldBlock
        } else if !self.may_leave(datagram) {
            SendPlan::RevokeAndBlock(Revocation::OutOfBounds)
        } else {
            SendPlan::Send
        }
    }

    /// What to do with a datagram that is to be sent.
    ///
    /// Connection cleanup is abandoned on a hard send error, so a revoked socket only says that it
    /// would block and fails through its receive side.
    pub fn plan_send(&self, is_revoked: bool, datagram: Departure) -> (plan: SendPlan)
        ensures
            plan == self.send_plan(is_revoked, datagram),
    {
        if is_revoked {
            return SendPlan::WouldBlock;
        }
        let source_allowed = match datagram.source {
            SourceAddress::Any => true,
            SourceAddress::V4(address) => address == self.local.ip,
            SourceAddress::V6 => false,
        };
        let destination_allowed = match datagram.destination {
            Some(destination) => destination == self.peer,
            None => false,
        };
        if !destination_allowed || !source_allowed || datagram.is_segmented || datagram.length == 0
            || datagram.length > MAX_DATAGRAM_BYTES {
            return SendPlan::RevokeAndBlock(Revocation::OutOfBounds);
        }
        SendPlan::Send
    }

    /// What receiving starts with: room in the first buffer, where there is one.
    pub open spec fn receive_start(self, is_revoked: bool, room: Option<usize>) -> ReceiveStart {
        if is_revoked {
            ReceiveStart::Fail(revoked())
        } else {
            match room {
                None => ReceiveStart::RevokeAndFail(
                    IoError { kind: ErrorKind::InvalidInput, cause: Cause::MissingBuffer },
                ),
                Some(room) => if room == 0 {
                    ReceiveStart::RevokeAndFail(
                        IoError { kind: ErrorKind::InvalidInput, cause: Cause::EmptyBuffer },
                    )
                } else if room > MAX_DATAGRAM_BYTES {
                    ReceiveStart::Poll(MAX_DATAGRAM_BYTES)
                } else {
                    ReceiveStart::Poll(room)
                },
            }
        }
    }

    pub fn start_receive(&self, is_revoked: bool, room: Option<usize>) -> (start: ReceiveStart)
        ensures
            start == self.receive_start(is_revoked, room),
    {
        if is_revoked {
            return ReceiveStart::Fail(revoked_error());
        }
        match room {
            None => ReceiveStart::RevokeAndFail(
                IoError::new(ErrorKind::InvalidInput, Cause::MissingBuffer),
            ),
            Some(room) => if room == 0 {
                ReceiveStart::RevokeAndFail(
                    IoError::new(ErrorKind::InvalidInput, Cause::EmptyBuffer),
                )
            } else if room > MAX_DATAGRAM_BYTES {
                ReceiveStart::Poll(MAX_DATAGRAM_BYTES)
            } else {
                ReceiveStart::Poll(room)
            },
        }
    }

    pub open spec fn receive_result(self, is_revoked: bool, polled: Polled, capacity: usize) -> Received {
        if is_revoked {
            Received::Fail(revoked())
        } else {
            match polled {
                Polled::Pending => Received::Pending,
                Polled::Failed(error) => Received::RevokeAndFail(failed(error)),
                Polled::Arrived(packet) => if packet.length > capacity {
                    Received::RevokeAndFail(
                        IoError { kind: ErrorKind::InvalidData, cause: Cause::DatagramLength },
                    )
                } else if packet.length == 0 || !self.allows(packet) {
                    Received::Skip
                } else {
                    Received::Deliver(packet)
                },
            }
        }
    }

    /// What the answer to a poll with `capacity` bytes of room gives, where `is_revoked` was read
    /// after it.
    pub fn receive(&self, is_revoked: bool, polled: Polled, capacity: usize) -> (received: Received)
        ensures
            received == self.receive_result(is_revoked, polled, capacity),
    {
        if is_revoked {
            return Received::Fail(revoked_error());
        }
        match polled {
            Polled::Pending => Received::Pending,
            Polled::Failed(error) => Received::RevokeAndFail(fail(error)),
            Polled::Arrived(packet) => if packet.length > capacity {
                Received::RevokeAndFail(
                    IoError::new(ErrorKind::InvalidData, Cause::DatagramLength),
                )
            } else if packet.length == 0 || !self.permits(packet) {
                Received::Skip
            } else {
                Received::Deliver(packet)
            },
        }
    }

    /// The address the socket is bound to, as long as it is the pinned one. The flag says that the
    /// socket is revoked with the failure.
    pub fn local_addr(&self, is_revoked: bool, bound: Result<SocketAddrV4, IoError>) -> (address:
        Result<SocketAddrV4, (IoError, bool)>)
        ensures
            address == (if is_revoked {
                Err::<SocketAddrV4, (IoError, bool)>((revoked(), false))
            } else {
                match bound {
                    Err(error) => Err((failed(error), true)),
                    Ok(bound) => if bound == self.local {
                        Ok(bound)
                    } else {
                        Err(
                            (
                                IoError { kind: ErrorKind::InvalidData, cause: Cause::BoundAddress },
                                true,
                            ),
                        )
                    },
                }
            }),
    {
        if is_revoked {
            return Err((revoked_error(), false));
        }
        match bound {
            Err(error) => Err((fail(error), true)),
            Ok(bound) => if bound == self.local {
                Ok(bound)
            } else {
                Err((IoError::new(ErrorKind::InvalidData, Cause::BoundAddress), true))
            },
        }
    }
}

pub open spec fn send_outcome(
    is_revoked: bool,
    written: Result<usize, ErrorKind>,
    length: usize,
) -> SendOutcome {
    if is_revoked {
        SendOutcome::WouldBlock
    } else {
        match written {
            Ok(count) => if count == length {
                SendOutcome::Sent
            } else {
                SendOutcome::RevokeAndBlock(Revocation::ShortWrite)
            },
            Err(kind) => if kind == ErrorKind::WouldBlock {
                SendOutcome::WouldBlock
            } else {
                SendOutcome::RevokeAndBlock(Revocation::Failed(kind))
            },
        }
    }
}

/// What follows the system's answer to a datagram of `length` bytes, where `is_revoked` was read
/// after it.
pub fn judge_sent(is_revoked: bool, written: Result<usize, ErrorKind>, length: usize) -> (outcome:
    SendOutcome)
    ensures
        outcome == send_outcome(is_revoked, written, length),
{
    if is_revoked {
        return SendOutcome::WouldBlock;
    }
    match written {
        Ok(count) => if count == length {
            SendOutcome::Sent
        } else {
            SendOutcome::RevokeAndBlock(Revocation::ShortWrite)
        },
        Err(kind) => if kind == ErrorKind::WouldBlock {
            SendOutcome::WouldBlock
        } else {
            SendOutcome::RevokeAndBlock(Revocation::Failed(kind))
        },
    }
}

pub open spec fn poll_budget(polls: nat, is_revoked: bool) -> NextPoll {
    if polls >= RECEIVE_BUDGET {
        NextPoll::Yield
    } else if is_revoked {
        NextPoll::Fail(revoked())
    } else {
        NextPoll::Poll
    }
}

/// Whether to poll again after `polls` polls. Unrelated traffic is bounded per call without revoking
/// a valid session or starving other tasks.
pub fn next_poll(polls: usize, is_revoked: bool) -> (next: NextPoll)
    ensures
        next == poll_budget(polls as nat, is_revoked),
{
    if polls >= RECEIVE_BUDGET {
        NextPoll::Yield
    } else if is_revoked {
        NextPoll::Fail(revoked_error())
    } else {
        NextPoll::Poll
    }
}

/// What a wait for room to write gives, where `is_revoked` was read after it. A failure is told
/// through the receive side alone.
pub fn judge_writable(is_revoked: bool, waited: Option<Result<(), ErrorKind>>) -> (writable: Writable)
    ensures
        writable == (if is_revoked {
            Writable::Pending { keep: false }
        } else {
            match waited {
                None => Writable::Pending { keep: true },
                Some(Ok(())) => Writable::Ready,
                Some(Err(kind)) => Writable::RevokeAndPend(kind),
            }
        }),
{
    if is_revoked {
        return Writable::Pending { keep: false };
    }
    match waited {
        None => Writable::Pending { keep: true },
        Some(Ok(())) => Writable::Ready,
        Some(Err(kind)) => Writable::RevokeAndPend(kind),
    }
}

/// A revoked socket sends nothing, delivers nothing and starts no poll.
pub proof fn law_a_revoked_socket_is_silent(
    socket: GuardedSocket,
    datagram: Departure,
    polled: Polled,
    capacity: usize,
    room: Option<usize>,
    written: Result<usize, ErrorKind>,
)
    ensures
        socket.send_plan(true, datagram) == SendPlan::WouldBlock,
        socket.receive_result(true, polled, capacity) == Received::Fail(revoked()),
        socket.receive_start(true, room) == ReceiveStart::Fail(revoked()),
        send_outcome(true, written, datagram.length) == SendOutcome::WouldBlock,
{
}

/// Whatever is delivered came from the peer to the pinned address over the pinned interface, holds
/// something and fits the room; whatever is sent goes to the peer alone.
pub proof fn law_only_the_pinned_peer_is_heard_and_addressed(
    socket: GuardedSocket,
    polled: Polled,
    capacity: usize,
    datagram: Departure,
)
    ensures
        socket.receive_result(false, polled, capacity) matches Received::Deliver(packet) ==> polled
            == Polled::Arrived(packet) && packet.source == socket.peer && packet.destination
            == socket.local.ip && packet.interface_index == socket.interface_index && 0
            < packet.length <= capacity,
        socket.send_plan(false, datagram) == SendPlan::Send ==> datagram.destination == Some(
            socket.peer,
        ) && 0 < datagram.length <= MAX_DATAGRAM_BYTES,
{
}

/// A failure that ends a socket is never one that its driver ignores.
pub proof fn law_a_failed_socket_never_reports_a_reset(error: IoError)
    ensures
        failed(error).kind != ErrorKind::ConnectionReset,
        failed(error).cause == error.cause,
{
}

/// A datagram leaves exactly where it goes to the pinned peer, from the pinned address or from none
/// in particular, whole and within the size; any other revokes the socket.
pub proof fn law_which_datagrams_leave(socket: GuardedSocket, datagram: Departure)
    ensures
        ({
            let fits = datagram.destination == Some(socket.peer) && (datagram.source
                == SourceAddress::Any || datagram.source == SourceAddress::V4(socket.local.ip))
                && !datagram.is_segmented && 0 < datagram.length <= MAX_DATAGRAM_BYTES;
            socket.send_plan(false, datagram) == (if fits {
                SendPlan::Send
            } else {
                SendPlan::RevokeAndBlock(Revocation::OutOfBounds)
            })
        }),
{
}

/// A datagram of the pinned peer that reached the pinned address and interface is delivered as it
/// came; one of anything else, or an empty one, is passed over without a failure; one that is longer
/// than the room revokes the socket.
pub proof fn law_which_datagrams_are_delivered(
    socket: GuardedSocket,
    packet: Arrival,
    capacity: usize,
)
    ensures
        ({
            let own = packet.source == socket.peer && packet.destination == socket.local.ip
                && packet.interface_index == socket.interface_index;
            let received = socket.receive_result(false, Polled::Arrived(packet), capacity);
            &&& packet.length > capacity <==> received is RevokeAndFail
            &&& 0 < packet.length <= capacity && own ==> received == Received::Deliver(packet)
            &&& packet.length <= capacity && (packet.length == 0 || !own) ==> received
                == Received::Skip
            &&& socket.receive_result(false, Polled::Pending, capacity) == Received::Pending
        }),
{
}

/// A failure of the system revokes the socket and is told as it was, but for a reset, which a closed
/// session is told as.
pub proof fn law_system_failures_revoke(socket: GuardedSocket, error: IoError, capacity: usize)
    ensures
        socket.receive_result(false, Polled::Failed(error), capacity) is RevokeAndFail,
        error.kind != ErrorKind::ConnectionReset ==> socket.receive_result(
            false,
            Polled::Failed(error),
            capacity,
        ) == Received::RevokeAndFail(error),
        error.kind == ErrorKind::ConnectionReset ==> socket.receive_result(
            false,
            Polled::Failed(error),
            capacity,
        ) == Received::RevokeAndFail(
            IoError { kind: ErrorKind::ConnectionAborted, cause: error.cause },
        ),
{
}

/// A receive polls with the room there is, up to a datagram's size, and one without room revokes the
/// socket.
pub proof fn law_a_receive_needs_room(socket: GuardedSocket, room: Option<usize>)
    ensures
        socket.receive_start(false, room) is Poll <==> room is Some && room->0 > 0,
        socket.receive_start(false, room) matches ReceiveStart::Poll(capacity) ==> capacity
            <= room->0 && capacity <= MAX_DATAGRAM_BYTES && (capacity == room->0 || capacity
            == MAX_DATAGRAM_BYTES),
        !(room is Some && room->0 > 0) ==> socket.receive_start(false, room) is RevokeAndFail,
{
}

/// A datagram counts as sent exactly where all of it was written; a full queue is waited for, and
/// everything else revokes the socket.
pub proof fn law_when_a_datagram_was_sent(written: Result<usize, ErrorKind>, length: usize)
    ensures
        send_outcome(false, written, length) == SendOutcome::Sent <==> written == Ok::<
            usize,
            ErrorKind,
        >(length),
        send_outcome(false, written, length) == SendOutcome::WouldBlock <==> written == Err::<
            usize,
            _,
        >(ErrorKind::WouldBlock),
        written is Ok && written->Ok_0 != length ==> send_outcome(false, written, length)
            == SendOutcome::RevokeAndBlock(Revocation::ShortWrite),
        written matches Err(kind) ==> kind != ErrorKind::WouldBlock ==> send_outcome(
            false,
            written,
            length,
        ) == SendOutcome::RevokeAndBlock(Revocation::Failed(kind)),
{
}

/// A poll follows another until the budget is used up, unless the socket was revoked meanwhile.
pub proof fn law_polls_stay_within_the_budget(polls: nat, is_revoked: bool)
    ensures
        poll_budget(polls, is_revoked) == NextPoll::Yield <==> polls >= RECEIVE_BUDGET,
        poll_budget(polls, is_revoked) == NextPoll::Poll <==> polls < RECEIVE_BUDGET && !is_revoked,
        poll_budget(polls, is_revoked) is Fail ==> poll_budget(polls, is_revoked) == NextPoll::Fail(
            revoked(),
        ),
{
}

/// A socket is authorised exactly between the lock's own address and its peer, on real ports.
pub proof fn law_which_sockets_are_authorized(
    lock: LockView,
    local: SocketAddrV4,
    peer: SocketAddrV4,
)
    ensures
        is_authorized(lock, local, peer) <==> local == (SocketAddrV4 {
            ip: lock.selected.address,
            port: local.port,
        }) && peer == (SocketAddrV4 { ip: lock.peer, port: peer.port }) && !(local.port == 0
            || peer.port == 0),
{
}

} // verus!
