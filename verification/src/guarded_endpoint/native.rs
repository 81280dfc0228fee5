//! Native socket preparation for one selected, directly connected private peer.

use crate::addr::{Ipv4Addr, SocketAddrV4};
use crate::guarded_endpoint::NetworkSelection;
use crate::io_error::{Cause, ErrorKind, IoError, RouteCheckFailure};
use crate::policy::{
    interface_error, peer_error, validate_interface, validate_peer, InterfaceKind,
    InterfaceSnapshot, InterfaceView, LockView, NetworkLock, PolicyError, RouteSnapshot,
};
use vstd::prelude::*;
use vstd::slice::slice_to_vec;

verus! {

/// A network adapter as the platform describes it.
#[derive(Clone)]
pub struct Adapter {
    pub stable_id: String,
    pub name: String,
    pub index: u32,
    pub address: Ipv4Addr,
    pub prefix_len: u8,
    pub physical: bool,
    pub up: bool,
    pub ethernet: bool,
    pub wifi: bool,
    pub attachment: Option<Vec<u8>>,
}

/// A bare failure of one kind.
pub open spec fn bare(kind: ErrorKind) -> IoError {
    IoError { kind, cause: Cause::Kind }
}

pub open spec fn policy_failure(error: PolicyError) -> IoError {
    IoError {
        kind: match error {
            PolicyError::InterfaceChanged | PolicyError::SessionClosed =>
                ErrorKind::ConnectionAborted,
            _ => ErrorKind::InvalidInput,
        },
        cause: Cause::Policy(error),
    }
}

impl Adapter {
    pub open spec fn kind(&self) -> Option<InterfaceKind> {
        if self.ethernet && !self.wifi {
            Some(InterfaceKind::Ethernet)
        } else if self.wifi && !self.ethernet {
            Some(InterfaceKind::WiFi)
        } else {
            None
        }
    }

    /// Why the adapter cannot be used at all.
    pub open spec fn error(&self) -> Option<IoError> {
        if self.index == 0 || self.stable_id@.len() == 0 || self.address.0 == 0 {
            Some(bare(ErrorKind::InvalidData))
        } else if !self.physical || !self.up || self.kind() is None {
            Some(bare(ErrorKind::ConnectionAborted))
        } else {
            None
        }
    }

    pub open spec fn matches_selection(&self, selection: NetworkSelection) -> bool {
        &&& self.stable_id@ == selection.stable_id@
        &&& self.index == selection.interface_index
        &&& self.address == selection.local.ip
    }

    pub open spec fn same_identity(&self, other: Adapter) -> bool {
        &&& self.stable_id@ == other.stable_id@
        &&& self.name@ == other.name@
        &&& self.index == other.index
        &&& self.address == other.address
        &&& self.prefix_len == other.prefix_len
        &&& self.physical == other.physical
        &&& self.up == other.up
        &&& self.ethernet == other.ethernet
        &&& self.wifi == other.wifi
    }

    /// The interface that the adapter is, with its attachment.
    pub open spec fn interface(&self) -> InterfaceView {
        InterfaceView {
            stable_id: self.stable_id@,
            name: self.name@,
            index: self.index,
            address: self.address,
            prefix_len: self.prefix_len,
            kind: self.kind()->0,
            is_hardware: self.physical,
            is_up: self.up,
            network_signature: self.attachment->0@,
        }
    }

    /// Why no snapshot of the adapter is taken.
    pub open spec fn snapshot_error(&self) -> Option<IoError> {
        if self.error() is Some {
            self.error()
        } else if self.attachment is None {
            Some(policy_failure(PolicyError::UnknownAttachment))
        } else {
            match interface_error(self.interface()) {
                Some(error) => Some(policy_failure(error)),
                None => None,
            }
        }
    }
}

/// The places of the adapters that a selection names.
pub open spec fn matching(adapters: Seq<Adapter>, selection: NetworkSelection) -> Seq<int>
    decreases adapters.len(),
{
    if adapters.len() == 0 {
        Seq::empty()
    } else {
        let earlier = matching(adapters.drop_last(), selection);
        if adapters.last().matches_selection(selection) {
            earlier.push(adapters.len() - 1)
        } else {
            earlier
        }
    }
}

/// The place of the one adapter that a selection names.
pub open spec fn exact_adapter(adapters: Seq<Adapter>, selection: NetworkSelection) -> Result<
    int,
    IoError,
> {
    let found = matching(adapters, selection);
    if found.len() == 0 {
        Err(bare(ErrorKind::NotFound))
    } else if found.len() > 1 {
        Err(bare(ErrorKind::InvalidData))
    } else {
        Ok(found[0])
    }
}

/// A second match is never lost on the way to the end.
proof fn lemma_matching_grows(adapters: Seq<Adapter>, selection: NetworkSelection, count: int)
    requires
        0 <= count <= adapters.len(),
    ensures
        matching(adapters.take(count), selection).len() <= matching(adapters, selection).len(),
    decreases adapters.len() - count,
{
    if count < adapters.len() {
        assert(adapters.take(count + 1).drop_last() =~= adapters.take(count));
        lemma_matching_grows(adapters, selection, count + 1);
    } else {
        assert(adapters.take(count) =~= adapters);
    }
}

pub fn find_exact_adapter(adapters: &[Adapter], selection: &NetworkSelection) -> (found: Result<
    usize,
    IoError,
>)
    ensures
        match exact_adapter(adapters@, *selection) {
            Ok(place) => found matches Ok(index) && index == place && index < adapters@.len(),
            Err(error) => found == Err::<usize, _>(error),
        },
{
    let mut found: Option<usize> = None;
    let mut index: usize = 0;
    assert(adapters@.take(0) =~= Seq::empty());
    while index < adapters.len()
        invariant
            index <= adapters@.len(),
            match found {
                Some(place) => matching(adapters@.take(index as int), *selection) == seq![
                    place as int,
                ] && place < adapters@.len(),
                None => matching(adapters@.take(index as int), *selection).len() == 0,
            },
        decreases adapters@.len() - index,
    {
        assert(adapters@.take(index + 1).drop_last() =~= adapters@.take(index as int));
        let adapter = &adapters[index];
        if adapter.stable_id == selection.stable_id && adapter.index == selection.interface_index
            && adapter.address == selection.local.ip {
            if found.is_some() {
                proof {
                    lemma_matching_grows(adapters@, *selection, index + 1);
                }
                return Err(IoError::new(ErrorKind::InvalidData, Cause::Kind));
            }
            found = Some(index);
            assert(matching(adapters@.take(index + 1), *selection) =~= seq![index as int]);
        }
        index = index + 1;
    }
    assert(adapters@.take(index as int) =~= adapters@);
    match found {
        Some(place) => Ok(place),
        None => Err(IoError::new(ErrorKind::NotFound, Cause::Kind)),
    }
}

pub fn validate_initial_adapter(adapter: &Adapter) -> (result: Result<(), IoError>)
    ensures
        match adapter.error() {
            Some(error) => result == Err::<(), _>(error),
            None => result == Ok::<(), IoError>(()),
        },
{
    if adapter.index == 0 || adapter.stable_id.as_str().is_empty()
        || adapter.address.is_unspecified() {
        return Err(IoError::new(ErrorKind::InvalidData, Cause::Kind));
    }
    if !adapter.physical || !adapter.up || adapter_kind(adapter).is_none() {
        return Err(IoError::new(ErrorKind::ConnectionAborted, Cause::Kind));
    }
    Ok(())
}

pub fn same_adapter_identity(initial: &Adapter, observed: &Adapter) -> (same: bool)
    ensures
        same == initial.same_identity(*observed),
{
    initial.stable_id == observed.stable_id && initial.name == observed.name && initial.index
        == observed.index && initial.address == observed.address && initial.prefix_len
        == observed.prefix_len && initial.physical == observed.physical && initial.up
        == observed.up && initial.ethernet == observed.ethernet && initial.wifi == observed.wifi
}

pub fn adapter_kind(adapter: &Adapter) -> (kind: Option<InterfaceKind>)
    ensures
        kind == adapter.kind(),
{
    match (adapter.ethernet, adapter.wifi) {
        (true, false) => Some(InterfaceKind::Ethernet),
        (false, true) => Some(InterfaceKind::WiFi),
        _ => None,
    }
}

pub fn interface_snapshot(adapter: &Adapter) -> (snapshot: Result<InterfaceSnapshot, IoError>)
    ensures
        match adapter.snapshot_error() {
            Some(error) => snapshot == Err::<InterfaceSnapshot, _>(error),
            None => snapshot matches Ok(taken) && taken@ == adapter.interface(),
        },
{
    if let Err(error) = validate_initial_adapter(adapter) {
        return Err(error);
    }
    let kind = match adapter_kind(adapter) {
        Some(kind) => kind,
        None => return Err(IoError::new(ErrorKind::InvalidData, Cause::Kind)),
    };
    let network_signature = match &adapter.attachment {
        Some(attachment) => slice_to_vec(attachment.as_slice()),
        None => return Err(policy_category(PolicyError::UnknownAttachment)),
    };
    let snapshot = InterfaceSnapshot {
        stable_id: adapter.stable_id.clone(),
        name: adapter.name.clone(),
        index: adapter.index,
        address: adapter.address,
        prefix_len: adapter.prefix_len,
        kind,
        is_hardware: adapter.physical,
        is_up: adapter.up,
        network_signature,
    };
    match validate_interface(&snapshot) {
        Ok(()) => Ok(snapshot),
        Err(error) => Err(policy_category(error)),
    }
}

/// The place of the selected adapter in a fresh enumeration, as long as it still is the same one.
pub open spec fn observed(
    initial: Adapter,
    adapters: Seq<Adapter>,
    selection: NetworkSelection,
) -> Result<int, IoError> {
    match exact_adapter(adapters, selection) {
        Err(error) => Err(error),
        Ok(place) => if !initial.same_identity(adapters[place]) {
            Err(bare(ErrorKind::ConnectionAborted))
        } else {
            match adapters[place].error() {
                Some(error) => Err(error),
                None => Ok(place),
            }
        },
    }
}

pub fn observe_selected_adapter(
    initial: &Adapter,
    adapters: &[Adapter],
    selection: &NetworkSelection,
) -> (place: Result<usize, IoError>)
    ensures
        match observed(*initial, adapters@, *selection) {
            Ok(expected) => place matches Ok(index) && index == expected && index < adapters@.len(),
            Err(error) => place == Err::<usize, _>(error),
        },
{
    let place: usize = match find_exact_adapter(adapters, selection) {
        Ok(place) => place,
        Err(error) => return Err(error),
    };
    if !same_adapter_identity(initial, &adapters[place]) {
        return Err(IoError::new(ErrorKind::ConnectionAborted, Cause::Kind));
    }
    match validate_initial_adapter(&adapters[place]) {
        Ok(()) => Ok(place),
        Err(error) => Err(error),
    }
}

/// The interface that a fresh enumeration gives for the selection, where the peer can be reached
/// over it.
pub open spec fn selected_interface(
    initial: Adapter,
    adapters: Seq<Adapter>,
    selection: NetworkSelection,
    is_active: bool,
) -> Result<InterfaceView, IoError> {
    match observed(initial, adapters, selection) {
        Err(error) => Err(error),
        Ok(place) => if !is_active {
            Err(bare(ErrorKind::ConnectionAborted))
        } else if adapters[place].snapshot_error() is Some {
            Err(adapters[place].snapshot_error()->0)
        } else {
            match peer_error(adapters[place].interface(), selection.peer.ip) {
                Some(error) => Err(policy_failure(error)),
                None => Ok(adapters[place].interface()),
            }
        },
    }
}

/// The interface for a connection, from a fresh enumeration. `is_active` was read after it. The
/// route is asked next.
pub fn current_selection(
    initial: &Adapter,
    adapters: &[Adapter],
    selection: &NetworkSelection,
    is_active: bool,
) -> (selected: Result<InterfaceSnapshot, IoError>)
    ensures
        match selected_interface(*initial, adapters@, *selection, is_active) {
            Ok(interface) => selected matches Ok(snapshot) && snapshot@ == interface,
            Err(error) => selected == Err::<InterfaceSnapshot, _>(error),
        },
{
    let place: usize = match observe_selected_adapter(initial, adapters, selection) {
        Ok(place) => place,
        Err(error) => return Err(error),
    };
    if !is_active {
        return Err(IoError::new(ErrorKind::ConnectionAborted, Cause::Kind));
    }
    let snapshot = match interface_snapshot(&adapters[place]) {
        Ok(snapshot) => snapshot,
        Err(error) => return Err(error),
    };
    match validate_peer(&snapshot, selection.peer.ip) {
        Ok(()) => Ok(snapshot),
        Err(error) => Err(policy_category(error)),
    }
}

/// The failure of a route check, which keeps its kind alone.
pub fn route_check_error(kind: ErrorKind) -> (error: IoError)
    ensures
        error == (IoError { kind, cause: Cause::Route(RouteCheckFailure) }),
{
    IoError::new(kind, Cause::Route(RouteCheckFailure))
}

pub open spec fn bind_error(address: SocketAddrV4) -> Option<IoError> {
    if address.ip.0 == 0 || address.port == 0 {
        Some(bare(ErrorKind::InvalidInput))
    } else {
        None
    }
}

pub fn validate_exact_bind(address: SocketAddrV4) -> (result: Result<(), IoError>)
    ensures
        match bind_error(address) {
            Some(error) => result == Err::<(), _>(error),
            None => result == Ok::<(), IoError>(()),
        },
{
    if address.ip.is_unspecified() || address.port == 0 {
        return Err(IoError::new(ErrorKind::InvalidInput, Cause::Kind));
    }
    Ok(())
}

/// Whether a socket is bound where it was asked to be. An address that is not IPv4 is `None`.
pub fn verify_bound_address(bound: Result<Option<SocketAddrV4>, ErrorKind>, selected: SocketAddrV4) -> (result:
    Result<(), IoError>)
    ensures
        result == (match bound {
            Err(kind) => Err::<(), IoError>(bare(kind)),
            Ok(address) => if address == Some(selected) {
                Ok::<(), IoError>(())
            } else {
                Err::<(), IoError>(bare(ErrorKind::InvalidData))
            },
        }),
{
    match bound {
        Err(kind) => Err(native_category(kind)),
        Ok(Some(address)) => if address == selected {
            Ok(())
        } else {
            Err(IoError::new(ErrorKind::InvalidData, Cause::Kind))
        },
        Ok(None) => Err(IoError::new(ErrorKind::InvalidData, Cause::Kind)),
    }
}

/// Whether the session goes on, where `cancel` is a request's own signal.
pub fn require_active(is_revoked: bool, cancel: Option<bool>) -> (result: Result<(), IoError>)
    ensures
        result == (if is_revoked || cancel == Some(true) {
            Err::<(), IoError>(bare(ErrorKind::ConnectionAborted))
        } else {
            Ok::<(), IoError>(())
        }),
{
    if is_revoked || cancel == Some(true) {
        return Err(IoError::new(ErrorKind::ConnectionAborted, Cause::Kind));
    }
    Ok(())
}

/// Whether a request was not cancelled before there is a session.
pub fn require_cancel_active(cancel: Option<bool>) -> (result: Result<(), IoError>)
    ensures
        result == (if cancel == Some(true) {
            Err::<(), IoError>(bare(ErrorKind::ConnectionAborted))
        } else {
            Ok::<(), IoError>(())
        }),
{
    require_active(false, cancel)
}

/// A platform failure by its kind alone.
pub fn native_category(kind: ErrorKind) -> (error: IoError)
    ensures
        error == bare(kind),
{
    IoError::new(kind, Cause::Kind)
}

pub fn policy_category(error: PolicyError) -> (failure: IoError)
    ensures
        failure == policy_failure(error),
{
    let kind = match error {
        PolicyError::InterfaceChanged | PolicyError::SessionClosed => ErrorKind::ConnectionAborted,
        _ => ErrorKind::InvalidInput,
    };
    IoError::new(kind, Cause::Policy(error))
}

pub open spec fn lock_view(lock: Option<NetworkLock>) -> Option<LockView> {
    match lock {
        Some(lock) => Some(lock@),
        None => None,
    }
}

/// Whether the facts that a session is pinned to still hold, and the lock after the check.
pub open spec fn facts_hold(
    lock: Option<LockView>,
    current: Option<InterfaceView>,
    route: Option<Result<RouteSnapshot, IoError>>,
) -> (Option<LockView>, bool) {
    match (lock, current, route) {
        (Some(lock), Some(current), Some(Ok(route))) => {
            let (after, result) = lock.revalidated(Some(current), route);
            (Some(after), result is Ok)
        },
        _ => (lock, false),
    }
}

/// Whether a change notice leaves the session as it is: the same adapter, attachment, peer, and
/// on-link route. Anything unreadable, or a notice before the first snapshot, reads as a change.
pub fn pinned_facts_hold(
    lock: &mut Option<NetworkLock>,
    current: Option<&InterfaceSnapshot>,
    route: Option<Result<RouteSnapshot, IoError>>,
) -> (hold: bool)
    ensures
        (lock_view(*final(lock)), hold) == facts_hold(
            lock_view(*old(lock)),
            match current {
                Some(interface) => Some(interface@),
                None => None,
            },
            route,
        ),
{
    match (current, route) {
        (Some(current), Some(Ok(route))) => match lock {
            Some(lock) => lock.revalidate(Some(current), route).is_ok(),
            None => false,
        },
        _ => false,
    }
}

/// One step of asking the system for local-network access.
#[derive(Clone, Copy, Debug, Eq, PartialEq, Structural)]
pub enum RequestStep {
    RequireActive,
    Bind,
    Pin,
    Revalidate,
    Connect,
}

/// What a request does next.
#[derive(Clone, Copy, Debug, Eq, PartialEq)]
pub enum RequestAction {
    Run(RequestStep),
    Finish(Result<(), ErrorKind>),
}

/// The steps of a request in order.
pub open spec fn request_steps() -> Seq<RequestStep> {
    seq![
        RequestStep::RequireActive,
        RequestStep::Bind,
        RequestStep::RequireActive,
        RequestStep::Pin,
        RequestStep::RequireActive,
        RequestStep::Revalidate,
        RequestStep::RequireActive,
        RequestStep::Connect,
        RequestStep::RequireActive,
    ]
}

pub open spec fn request_action(done: nat, answer: Result<(), ErrorKind>) -> RequestAction {
    match answer {
        Err(kind) => RequestAction::Finish(Err(kind)),
        Ok(()) => if done < request_steps().len() {
            RequestAction::Run(request_steps()[done as int])
        } else {
            RequestAction::Finish(Ok(()))
        },
    }
}

/// What a request does after `done` steps of which the last one gave `answer`; a new request has
/// done none, with success.
pub fn request_with_gates(done: usize, answer: Result<(), ErrorKind>) -> (action: RequestAction)
    ensures
        action == request_action(done as nat, answer),
{
    match answer {
        Err(kind) => RequestAction::Finish(Err(kind)),
        Ok(()) => match done {
            0 | 2 | 4 | 6 | 8 => RequestAction::Run(RequestStep::RequireActive),
            1 => RequestAction::Run(RequestStep::Bind),
            3 => RequestAction::Run(RequestStep::Pin),
            5 => RequestAction::Run(RequestStep::Revalidate),
            7 => RequestAction::Run(RequestStep::Connect),
            _ => RequestAction::Finish(Ok(())),
        },
    }
}

/// A request touches the network only right after a check that it is still wanted, connects only
/// after its facts were checked again, and reports a check after it connected.
pub proof fn law_every_request_step_is_gated(place: int)
    requires
        0 <= place < request_steps().len(),
    ensures
        request_steps()[place] != RequestStep::RequireActive ==> place > 0 && request_steps()[place
            - 1] == RequestStep::RequireActive,
        request_steps()[place] == RequestStep::Connect ==> place > 1 && request_steps()[place - 2]
            == RequestStep::Revalidate && place + 1 < request_steps().len() && request_steps()[place
            + 1] == RequestStep::RequireActive,
        request_steps()[place] == RequestStep::Pin ==> place > 1 && request_steps()[place - 2]
            == RequestStep::Bind,
{
}

/// An adapter of one kind is of that kind, and one of both or of neither is of none.
pub proof fn law_which_kind_an_adapter_is(adapter: Adapter)
    ensures
        adapter.kind() == Some(InterfaceKind::Ethernet) <==> adapter.ethernet && !adapter.wifi,
        adapter.kind() == Some(InterfaceKind::WiFi) <==> adapter.wifi && !adapter.ethernet,
        adapter.kind() is None <==> adapter.ethernet == adapter.wifi,
{
}

/// An adapter stands exactly where it has an index, a name and an address, is physical, is up and is
/// of one kind; wired or not makes no difference. What it lacks of the first is invalid, of the rest
/// a lost connection.
pub proof fn law_which_adapters_stand(adapter: Adapter)
    ensures
        ({
            let is_named = adapter.index != 0 && adapter.stable_id@.len() > 0 && adapter.address.0
                != 0;
            let is_there = adapter.physical && adapter.up && adapter.ethernet != adapter.wifi;
            &&& adapter.error() is None <==> is_named && is_there
            &&& !is_named ==> adapter.error() == Some(
                IoError { kind: ErrorKind::InvalidData, cause: Cause::Kind },
            )
            &&& is_named && !is_there ==> adapter.error() == Some(
                IoError { kind: ErrorKind::ConnectionAborted, cause: Cause::Kind },
            )
        }),
{
}

/// A snapshot of an adapter that stands, whose attachment is known and whose interface the policy
/// accepts, succeeds; an unknown attachment and a refused interface are the policy's faults.
pub proof fn law_which_adapters_can_be_used(adapter: Adapter)
    ensures
        adapter.snapshot_error() is None <==> adapter.error() is None && adapter.attachment is Some
            && interface_error(adapter.interface()) is None,
        adapter.error() is Some ==> adapter.snapshot_error() == adapter.error(),
        adapter.error() is None && adapter.attachment is None ==> adapter.snapshot_error() == Some(
            IoError {
                kind: ErrorKind::InvalidInput,
                cause: Cause::Policy(PolicyError::UnknownAttachment),
            },
        ),
{
}

/// A policy fault that a changed network or a closed session is behind is a lost connection, every
/// other one an invalid input; the fault itself is kept.
pub proof fn law_policy_faults_are_kept(error: PolicyError)
    ensures
        policy_failure(error).cause == Cause::Policy(error),
        policy_failure(error).kind == ErrorKind::ConnectionAborted <==> error
            == PolicyError::InterfaceChanged || error == PolicyError::SessionClosed,
        policy_failure(error).kind == ErrorKind::ConnectionAborted || policy_failure(error).kind
            == ErrorKind::InvalidInput,
{
}

/// The interface of an adapter says what the adapter says.
pub proof fn law_an_interface_is_its_adapter(adapter: Adapter)
    requires
        adapter.error() is None,
        adapter.attachment is Some,
    ensures
        adapter.interface().stable_id == adapter.stable_id@,
        adapter.interface().name == adapter.name@,
        adapter.interface().index == adapter.index,
        adapter.interface().address == adapter.address,
        adapter.interface().prefix_len == adapter.prefix_len,
        adapter.interface().is_hardware && adapter.interface().is_up,
        adapter.interface().network_signature == adapter.attachment->0@,
        adapter.interface().kind == (if adapter.ethernet {
            InterfaceKind::Ethernet
        } else {
            InterfaceKind::WiFi
        }),
{
}

/// The matching places are exactly those of adapters with the selected name, index and address, each
/// once and in their order.
pub proof fn law_the_selected_adapters_match(adapters: Seq<Adapter>, selection: NetworkSelection)
    ensures
        forall|i: int|
            0 <= i < adapters.len() ==> (matching(adapters, selection).contains(i) <==> {
                &&& (#[trigger] adapters[i]).stable_id@ == selection.stable_id@
                &&& adapters[i].index == selection.interface_index
                &&& adapters[i].address == selection.local.ip
            }),
        forall|j: int|
            0 <= j < matching(adapters, selection).len() ==> 0 <= #[trigger] matching(
                adapters,
                selection,
            )[j] < adapters.len(),
        forall|j: int, k: int|
            0 <= j < k < matching(adapters, selection).len() ==> #[trigger] matching(
                adapters,
                selection,
            )[j] < #[trigger] matching(adapters, selection)[k],
    decreases adapters.len(),
{
    if adapters.len() > 0 {
        let earlier = matching(adapters.drop_last(), selection);
        let all = matching(adapters, selection);
        law_the_selected_adapters_match(adapters.drop_last(), selection);
        let last = adapters.len() - 1;
        assert forall|i: int| 0 <= i < adapters.len() implies (all.contains(i)
            <==> (#[trigger] adapters[i]).matches_selection(selection)) by {
            if i < last {
                assert(adapters.drop_last()[i] == adapters[i]);
                if earlier.contains(i) {
                    let j = choose|j: int| 0 <= j < earlier.len() && earlier[j] == i;
                    assert(all[j] == i);
                }
                if all.contains(i) {
                    let j = choose|j: int| 0 <= j < all.len() && all[j] == i;
                    assert(earlier[j] == i);
                }
            } else {
                if adapters[last].matches_selection(selection) {
                    assert(all[earlier.len() as int] == last);
                } else if all.contains(last) {
                    let j = choose|j: int| 0 <= j < all.len() && all[j] == last;
                    assert(earlier[j] == last);
                }
            }
        }
    }
}

/// An adapter is exact where one and only one matches: none is not found, and two are invalid.
pub proof fn law_one_adapter_is_exact(
    adapters: Seq<Adapter>,
    selection: NetworkSelection,
    place: int,
    other: int,
)
    requires
        0 <= place < adapters.len(),
        0 <= other < adapters.len(),
    ensures
        adapters[place].matches_selection(selection) ==> exact_adapter(adapters, selection) == Ok::<
            int,
            IoError,
        >(place) || exact_adapter(adapters, selection) == Err::<int, _>(
            IoError { kind: ErrorKind::InvalidData, cause: Cause::Kind },
        ),
        place != other && adapters[place].matches_selection(selection)
            && adapters[other].matches_selection(selection) ==> exact_adapter(adapters, selection)
            == Err::<int, _>(IoError { kind: ErrorKind::InvalidData, cause: Cause::Kind }),
        !adapters[place].matches_selection(selection) ==> exact_adapter(adapters, selection)
            != Ok::<int, IoError>(place),
        (forall|i: int|
            0 <= i < adapters.len() ==> !(#[trigger] adapters[i]).matches_selection(selection))
            ==> exact_adapter(adapters, selection) == Err::<int, _>(
            IoError { kind: ErrorKind::NotFound, cause: Cause::Kind },
        ),
        (forall|i: int|
            0 <= i < adapters.len() && i != place ==> !(
            #[trigger] adapters[i]).matches_selection(selection))
            && adapters[place].matches_selection(selection) ==> exact_adapter(adapters, selection)
            == Ok::<int, IoError>(place),
{
    law_the_selected_adapters_match(adapters, selection);
    let found = matching(adapters, selection);
    if found.len() > 0 {
        assert(found.contains(found[0]));
        assert(adapters[found[0]].matches_selection(selection));
    }
    if found.len() > 1 {
        assert(found[0] < found[1]);
        assert(found.contains(found[1]));
        assert(adapters[found[1]].matches_selection(selection));
    }
    if adapters[place].matches_selection(selection) {
        assert(found.contains(place));
        let j = choose|j: int| 0 <= j < found.len() && found[j] == place;
        if adapters[other].matches_selection(selection) {
            assert(found.contains(other));
            let k = choose|k: int| 0 <= k < found.len() && found[k] == other;
        }
    }
}

/// An adapter is the same one exactly while nothing that identifies it has changed.
pub proof fn law_an_observed_adapter_is_the_selected_one(
    initial: Adapter,
    adapters: Seq<Adapter>,
    selection: NetworkSelection,
)
    ensures
        observed(initial, adapters, selection) matches Ok(place) ==> exact_adapter(
            adapters,
            selection,
        ) == Ok::<int, IoError>(place) && adapters[place].error() is None
            && adapters[place].stable_id@ == initial.stable_id@ && adapters[place].name@
            == initial.name@ && adapters[place].index == initial.index && adapters[place].address
            == initial.address && adapters[place].prefix_len == initial.prefix_len
            && adapters[place].ethernet == initial.ethernet && adapters[place].wifi == initial.wifi
            && initial.physical && initial.up,
        exact_adapter(adapters, selection) matches Ok(place) ==> initial.same_identity(
            adapters[place],
        ) && adapters[place].error() is None ==> observed(initial, adapters, selection) == Ok::<
            int,
            IoError,
        >(place),
        exact_adapter(adapters, selection) matches Err(error) ==> observed(
            initial,
            adapters,
            selection,
        ) == Err::<int, _>(error),
        exact_adapter(adapters, selection) matches Ok(place) ==> !initial.same_identity(
            adapters[place],
        ) ==> observed(initial, adapters, selection) == Err::<int, _>(
            IoError { kind: ErrorKind::ConnectionAborted, cause: Cause::Kind },
        ),
        initial.same_identity(initial),
{
}

/// An interface is selected exactly where the adapter is still the one, the session is active, the
/// policy accepts the interface, and it accepts the peer on it.
pub proof fn law_which_interfaces_are_selected(
    initial: Adapter,
    adapters: Seq<Adapter>,
    selection: NetworkSelection,
    is_active: bool,
)
    ensures
        ({
            let selected = selected_interface(initial, adapters, selection, is_active);
            let place = observed(initial, adapters, selection);
            &&& selected is Ok <==> is_active && place is Ok && adapters[place->Ok_0].snapshot_error()
                is None && peer_error(
                adapters[place->Ok_0].interface(),
                selection.peer.ip,
            ) is None
            &&& selected matches Ok(interface) ==> interface == adapters[place->Ok_0].interface()
            &&& place matches Err(error) ==> selected == Err::<InterfaceView, _>(error)
            &&& place is Ok && !is_active ==> selected == Err::<InterfaceView, _>(
                IoError { kind: ErrorKind::ConnectionAborted, cause: Cause::Kind },
            )
        }),
{
}

/// Only a whole address can be bound.
pub proof fn law_which_addresses_can_be_bound(address: SocketAddrV4)
    ensures
        bind_error(address) is None <==> address.ip.0 != 0 && address.port != 0,
        bind_error(address) is Some ==> bind_error(address) == Some(
            IoError { kind: ErrorKind::InvalidInput, cause: Cause::Kind },
        ),
{
}

/// The facts hold only where the lock, the interface and the route are there and the lock takes
/// them; where one is missing, nothing is asked of the lock.
pub proof fn law_facts_hold_by_the_lock(
    lock: Option<LockView>,
    current: Option<InterfaceView>,
    route: Option<Result<RouteSnapshot, IoError>>,
)
    ensures
        ({
            let (after, hold) = facts_hold(lock, current, route);
            let known = lock is Some && current is Some && route is Some && route->0 is Ok;
            &&& !known ==> !hold && after == lock
            &&& known ==> after == Some((lock->0).revalidated(current, route->0->Ok_0).0) && (hold
                <==> (lock->0).revalidated(current, route->0->Ok_0).1 is Ok)
        }),
{
}

/// A request runs its steps in their order, each once, and ends with the first failure as it was, or
/// well after the last.
pub proof fn law_a_request_runs_its_steps(done: nat, answer: Result<(), ErrorKind>)
    ensures
        answer matches Err(kind) ==> request_action(done, answer) == RequestAction::Finish(
            Err(kind),
        ),
        answer is Ok && done < request_steps().len() ==> request_action(done, answer)
            == RequestAction::Run(request_steps()[done as int]),
        answer is Ok && done >= request_steps().len() ==> request_action(done, answer)
            == RequestAction::Finish(Ok(())),
        request_steps().last() == RequestStep::RequireActive,
        request_steps().len() > 0,
{
}

} // verus!
