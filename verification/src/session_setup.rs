//! Explicit paired metadata inspection and fresh session checks before input starts.

use crate::addr::SocketAddrV4;
use crate::crypto::{sha256, CertificateFingerprint, DeviceIdentity};
use crate::display_arrangement::{
    all_ways, arranged, inherit_display_edges, is_hidden, EdgeLink, Placed,
};
use crate::guarded_endpoint::native::Adapter;
use crate::guarded_endpoint::NetworkSelection;
use crate::identity_store::{
    stored_pairs, PeerStoreCall, ProtectedPeerStore, StorageError, StoredPeer,
};
use crate::io_error::ErrorKind;
use crate::pairing::{
    decoded_record, initiates, initiates_connection, opposite, opposite_platform,
    ConfirmedPeerRecord, RecordView, PAIRING_PORT,
};
use crate::protocol::{
    same_geometries, ControlPermissions, Coordinate, DeviceId, DisplayDescription, DisplayId,
    DisplayTopology, Platform, Point, SessionPurpose,
};
use crate::session_handshake::{device_id_from_fingerprint, device_of, HandshakeError};
use crate::text::{ascii, decimal, push_decimal};
use crate::time::{span, Duration};
use vstd::prelude::*;

verus! {

/// The whole rendezvous for one explicit local action, unchanged by the dial retry: 120 s.
pub const CONNECT_WINDOW: Duration = 120_000_000_000;

/// One dial attempt covers connect plus negotiate; the other computer may not be listening yet: 4 s.
pub const DIAL_ATTEMPT_DEADLINE: Duration = 4_000_000_000;

/// 2 s.
pub const DIAL_INTERVAL: Duration = 2_000_000_000;

/// 10 ms.
pub const CANCEL_POLL_INTERVAL: Duration = 10_000_000;

/// A deliberate stop, or a native stop request, keeps the socket open for these 100 ms so the
/// session's QUIC close can leave; a native revocation still closes it at once.
pub const STOP_GRACE: Duration = 100_000_000;

/// Identical attempt failures repeat every few seconds for as long as the peer stays wrong: 60 s.
pub const REPEAT_LOG_INTERVAL: Duration = 60_000_000_000;

/// The longest a retiring endpoint may hold its pinned port; one that hangs leaves the next bind
/// to report the port as busy: 3 s.
pub const RETIRED_ENDPOINT_DRAIN: Duration = 3_000_000_000;

/// The most links a layout may have.
pub const MAX_LINKS: usize = 64;

#[derive(Clone, Copy, Debug, PartialEq, Eq, Structural)]
pub enum SetupFailure {
    Identity,
    PairingRequired,
    NetworkSelection,
    NetworkRoute,
    /// The pinned port is still closing from a previous session on this computer.
    PortBusy,
    Connection,
    /// The other computer presented an identity other than the paired one; pairing again fixes it.
    PeerIdentityChanged,
    Handshake,
    Cancelled,
    Displays,
    ChangedSinceInspection,
    Layout,
    PurposeMismatch,
    VersionMismatch,
    /// A layout exchange stopped before both sides had it.
    LayoutSyncIncomplete,
    /// Both sides, or neither, came with a layout.
    LayoutSyncConflict,
}

pub fn check_cancel(is_revoked: bool) -> (result: Result<(), SetupFailure>)
    ensures
        result == (if is_revoked {
            Err::<(), SetupFailure>(SetupFailure::Cancelled)
        } else {
            Ok::<(), SetupFailure>(())
        }),
{
    if is_revoked {
        Err(SetupFailure::Cancelled)
    } else {
        Ok(())
    }
}

/// What the signals of a session say.
#[derive(Clone, Copy, Debug, PartialEq, Eq, Structural)]
pub struct Signals {
    pub cancel_revoked: bool,
    pub native_revoked: bool,
    pub native_stopping: bool,
}

/// What the watch over a session's signals does next.
#[derive(Clone, Copy, Debug, PartialEq, Eq, Structural)]
pub enum WatchAction {
    /// Mark both signals revoked, close the endpoint and end the watch.
    Revoke,
    /// Ask both signals to stop, and look again.
    RequestStop,
    Wait,
}

/// Hands a cancellation on to the endpoint, after a grace where the stop was asked for.
#[derive(Clone, Copy, Debug, PartialEq, Eq, Structural)]
pub struct CancellationWatch {
    pub stop_requested_at: Option<Duration>,
}

impl CancellationWatch {
    pub fn start() -> (watch: CancellationWatch)
        ensures
            watch == (CancellationWatch { stop_requested_at: None }),
    {
        CancellationWatch { stop_requested_at: None }
    }

    pub open spec fn grace_over(self, now: Duration) -> bool {
        self.stop_requested_at matches Some(at) && span(now as nat, at as nat) >= STOP_GRACE
    }

    pub open spec fn next(self, now: Duration, signals: Signals) -> (CancellationWatch, WatchAction) {
        if signals.native_revoked || self.grace_over(now) {
            (self, WatchAction::Revoke)
        } else if (signals.cancel_revoked || signals.native_stopping) && self.stop_requested_at is None {
            (CancellationWatch { stop_requested_at: Some(now) }, WatchAction::RequestStop)
        } else {
            (self, WatchAction::Wait)
        }
    }

    /// Looks at the signals once.
    pub fn look(&mut self, now: Duration, signals: Signals) -> (action: WatchAction)
        ensures
            (*final(self), action) == old(self).next(now, signals),
    {
        let grace_over = match self.stop_requested_at {
            Some(at) => now >= at && now - at >= STOP_GRACE,
            None => false,
        };
        if signals.native_revoked || grace_over {
            return WatchAction::Revoke;
        }
        if (signals.cancel_revoked || signals.native_stopping) && self.stop_requested_at.is_none() {
            self.stop_requested_at = Some(now);
            return WatchAction::RequestStop;
        }
        WatchAction::Wait
    }
}

/// A stop that was asked for revokes the endpoint only when its grace is over, and then does; a
/// native revocation revokes it at once.
pub proof fn law_a_stop_leaves_its_grace(
    watch: CancellationWatch,
    now: Duration,
    signals: Signals,
)
    ensures
        signals.native_revoked ==> watch.next(now, signals).1 == WatchAction::Revoke,
        !signals.native_revoked && watch.next(now, signals).1 == WatchAction::Revoke ==>
            watch.stop_requested_at is Some && span(
            now as nat,
            watch.stop_requested_at->0 as nat,
        ) >= STOP_GRACE,
        watch.stop_requested_at is Some && span(now as nat, watch.stop_requested_at->0 as nat)
            >= STOP_GRACE ==> watch.next(now, signals).1 == WatchAction::Revoke,
        watch.next(now, signals).1 == WatchAction::RequestStop ==> watch.stop_requested_at is None
            && watch.next(now, signals).0.stop_requested_at == Some(now),
{
}

/// The text by which a user selects an adapter.
pub open spec fn adapter_text(adapter: Adapter) -> Seq<char> {
    adapter.stable_id@ + seq![':'] + ascii(decimal(adapter.index as nat)) + seq![':'] + ascii(
        adapter.address.text(),
    )
}

/// The places of the adapters that a text selects.
pub open spec fn selected_places(adapters: Seq<Adapter>, interface_id: Seq<char>) -> Seq<int>
    decreases adapters.len(),
{
    if adapters.len() == 0 {
        Seq::empty()
    } else {
        let earlier = selected_places(adapters.drop_last(), interface_id);
        if adapter_text(adapters.last()) == interface_id {
            earlier.push(adapters.len() - 1)
        } else {
            earlier
        }
    }
}

pub open spec fn is_usable(adapter: Adapter) -> bool {
    &&& adapter.physical
    &&& adapter.up
    &&& adapter.wifi || adapter.ethernet
    &&& adapter.attachment is Some
}

proof fn lemma_selected_places_grow(
    adapters: Seq<Adapter>,
    interface_id: Seq<char>,
    count: int,
)
    requires
        0 <= count <= adapters.len(),
    ensures
        selected_places(adapters.take(count), interface_id).len() <= selected_places(
            adapters,
            interface_id,
        ).len(),
    decreases adapters.len() - count,
{
    if count < adapters.len() {
        assert(adapters.take(count + 1).drop_last() =~= adapters.take(count));
        lemma_selected_places_grow(adapters, interface_id, count + 1);
    } else {
        assert(adapters.take(count) =~= adapters);
    }
}

fn describe(adapter: &Adapter) -> (text: String)
    ensures
        text@ == adapter_text(*adapter),
{
    proof {
        reveal_strlit(":");
    }
    let mut text = String::new();
    text.append(adapter.stable_id.as_str());
    text.append(":");
    push_decimal(&mut text, adapter.index as u64);
    text.append(":");
    adapter.address.push_text(&mut text);
    assert(text@ =~= adapter_text(*adapter));
    text
}

/// The selection that a text makes among the adapters, as long as exactly one matches and can be
/// used. The peer is filled in later.
pub fn selected_network(interface_id: &String, adapters: &[Adapter]) -> (selection: Result<
    NetworkSelection,
    SetupFailure,
>)
    ensures
        ({
            let places = selected_places(adapters@, interface_id@);
            if places.len() == 1 && is_usable(adapters@[places[0]]) {
                selection matches Ok(chosen) && chosen.stable_id@
                    == adapters@[places[0]].stable_id@ && chosen.interface_index
                    == adapters@[places[0]].index && chosen.local == (SocketAddrV4 {
                    ip: adapters@[places[0]].address,
                    port: PAIRING_PORT,
                }) && chosen.peer == chosen.local
            } else {
                selection == Err::<NetworkSelection, _>(SetupFailure::NetworkSelection)
            }
        }),
{
    let mut found: Option<usize> = None;
    let mut index: usize = 0;
    assert(adapters@.take(0) =~= Seq::empty());
    while index < adapters.len()
        invariant
            index <= adapters@.len(),
            match found {
                Some(place) => selected_places(adapters@.take(index as int), interface_id@) == seq![
                    place as int,
                ] && place < adapters@.len(),
                None => selected_places(adapters@.take(index as int), interface_id@).len() == 0,
            },
        decreases adapters@.len() - index,
    {
        assert(adapters@.take(index + 1).drop_last() =~= adapters@.take(index as int));
        let text = describe(&adapters[index]);
        if text == *interface_id {
            if found.is_some() {
                proof {
                    lemma_selected_places_grow(adapters@, interface_id@, index + 1);
                }
                return Err(SetupFailure::NetworkSelection);
            }
            found = Some(index);
            assert(selected_places(adapters@.take(index + 1), interface_id@) =~= seq![
                index as int,
            ]);
        }
        index = index + 1;
    }
    assert(adapters@.take(index as int) =~= adapters@);
    let place: usize = match found {
        Some(place) => place,
        None => return Err(SetupFailure::NetworkSelection),
    };
    let adapter = &adapters[place];
    if !adapter.physical || !adapter.up || !(adapter.wifi || adapter.ethernet)
        || adapter.attachment.is_none() {
        return Err(SetupFailure::NetworkSelection);
    }
    let local = SocketAddrV4::new(adapter.address, PAIRING_PORT);
    Ok(
        NetworkSelection {
            stable_id: adapter.stable_id.clone(),
            interface_index: adapter.index,
            local,
            peer: local,
        },
    )
}

/// What a bound endpoint knows of the two computers that it joins.
pub struct PreparedEndpoint {
    pub local_device: DeviceId,
    pub peer_device: DeviceId,
    pub local_platform: Platform,
    pub peer_platform: Platform,
    pub control: ControlPermissions,
    pub dials: bool,
    pub interface_id: String,
}

impl PreparedEndpoint {
    /// Exactly one of the two paired computers dials; the other one listens.
    pub fn dials(&self) -> (dials: bool)
        ensures
            dials == self.dials,
    {
        self.dials
    }

    /// The permissions that a handshake carries. Setup always carries both directions.
    pub fn control_for(&self, purpose: SessionPurpose) -> (control: ControlPermissions)
        ensures
            purpose == SessionPurpose::Setup ==> control.is_both(),
            purpose != SessionPurpose::Setup ==> control == self.control,
    {
        if purpose == SessionPurpose::Setup {
            ControlPermissions::both()
        } else {
            self.control
        }
    }

    /// The facts of a session that was negotiated with these displays.
    pub fn inspect(
        &self,
        local_fingerprint: CertificateFingerprint,
        peer_fingerprint: CertificateFingerprint,
        local_displays: DisplayTopology,
        peer_displays: DisplayTopology,
    ) -> (inspection: InspectedPeer)
        ensures
            inspection.local_device == self.local_device,
            inspection.peer_device == self.peer_device,
            inspection.local_fingerprint == local_fingerprint,
            inspection.peer_fingerprint == peer_fingerprint,
            inspection.local_platform == self.local_platform,
            inspection.peer_platform == self.peer_platform,
            inspection.local_displays == local_displays,
            inspection.peer_displays == peer_displays,
            inspection.interface_id@ == self.interface_id@,
    {
        InspectedPeer {
            local_device: self.local_device,
            peer_device: self.peer_device,
            local_fingerprint,
            peer_fingerprint,
            local_platform: self.local_platform,
            peer_platform: self.peer_platform,
            local_displays,
            peer_displays,
            interface_id: self.interface_id.clone(),
        }
    }
}

/// The identity to share with, from what the protected store gave.
pub fn prepare_identity(loaded: Result<Option<DeviceIdentity>, StorageError>) -> (identity: Result<
    DeviceIdentity,
    SetupFailure,
>)
    ensures
        identity == (match loaded {
            Ok(Some(found)) => Ok::<DeviceIdentity, SetupFailure>(found),
            Ok(None) => Err::<DeviceIdentity, SetupFailure>(SetupFailure::PairingRequired),
            Err(_) => Err::<DeviceIdentity, SetupFailure>(SetupFailure::Identity),
        }),
{
    match loaded {
        Ok(Some(found)) => Ok(found),
        Ok(None) => Err(SetupFailure::PairingRequired),
        Err(_) => Err(SetupFailure::Identity),
    }
}

/// What an endpoint for a confirmed peer knows.
///
/// Control permissions bind every sharing connection. Setup always carries both.
pub fn prepare_endpoint(
    interface_id: &String,
    control: ControlPermissions,
    local_platform: Platform,
    local: CertificateFingerprint,
    record: &ConfirmedPeerRecord,
) -> (prepared: PreparedEndpoint)
    ensures
        ({
            let peer = sha256(record@.peer.certificate);
            &&& prepared.local_device.0@ == device_of(local@)
            &&& prepared.peer_device.0@ == device_of(peer)
            &&& prepared.local_platform == local_platform
            &&& prepared.peer_platform == (match record@.peer.platform {
                Some(platform) => platform,
                None => opposite(local_platform),
            })
            &&& prepared.control == control
            &&& prepared.dials == initiates(local_platform, local@, record@.peer.platform, peer)
            &&& prepared.interface_id@ == interface_id@
        }),
{
    let peer = record.peer().fingerprint();
    let peer_platform = match record.peer().platform() {
        Some(platform) => platform,
        None => opposite_platform(local_platform),
    };
    PreparedEndpoint {
        local_device: device_id_from_fingerprint(local),
        peer_device: device_id_from_fingerprint(peer),
        local_platform,
        peer_platform,
        control,
        dials: initiates_connection(local_platform, local, record.peer().platform(), peer),
        interface_id: interface_id.clone(),
    }
}

/// Why an endpoint could not be bound.
pub fn bind_failure(kind: ErrorKind) -> (failure: SetupFailure)
    ensures
        failure == (if kind == ErrorKind::AddrInUse {
            SetupFailure::PortBusy
        } else {
            SetupFailure::NetworkRoute
        }),
{
    if kind == ErrorKind::AddrInUse {
        SetupFailure::PortBusy
    } else {
        SetupFailure::NetworkRoute
    }
}

/// The first record for `peer` among stored ones; a record that no longer decodes for the local
/// identity is a stale pairing and never matches.
pub open spec fn first_confirmed(
    stored: Seq<(Seq<char>, Seq<u8>)>,
    local: Seq<u8>,
    peer: Seq<u8>,
) -> Option<RecordView>
    decreases stored.len(),
{
    if stored.len() == 0 {
        None
    } else {
        match decoded_record(stored[0].1, local) {
            Ok(record) => if sha256(record.peer.certificate) == peer {
                Some(record)
            } else {
                first_confirmed(stored.drop_first(), local, peer)
            },
            Err(_) => first_confirmed(stored.drop_first(), local, peer),
        }
    }
}

/// The first record for `peer` among stored ones.
pub fn find_confirmed(
    stored: &[StoredPeer],
    local: CertificateFingerprint,
    peer: CertificateFingerprint,
) -> (found: Result<ConfirmedPeerRecord, SetupFailure>)
    ensures
        match first_confirmed(stored_pairs(stored@), local@, peer@) {
            Some(record) => found matches Ok(confirmed) && confirmed@ == record,
            None => found == Err::<ConfirmedPeerRecord, _>(SetupFailure::PairingRequired),
        },
{
    let ghost pairs = stored_pairs(stored@);
    let mut index: usize = 0;
    assert(pairs.skip(0) =~= pairs);
    while index < stored.len()
        invariant
            index <= stored@.len(),
            pairs == stored_pairs(stored@),
            first_confirmed(pairs, local@, peer@) == first_confirmed(
                pairs.skip(index as int),
                local@,
                peer@,
            ),
        decreases stored@.len() - index,
    {
        assert(pairs.skip(index as int)[0] == stored@[index as int]@);
        assert(pairs.skip(index as int).drop_first() =~= pairs.skip(index + 1));
        if let Ok(record) = ConfirmedPeerRecord::decode(stored[index].record.as_slice(), local) {
            if record.peer().fingerprint().same(&peer) {
                return Ok(record);
            }
        }
        index = index + 1;
    }
    Err(SetupFailure::PairingRequired)
}

/// The stored record for `peer` among this computer's pairings.
pub fn confirmed_peer<S: ProtectedPeerStore>(
    store: &mut S,
    local: CertificateFingerprint,
    peer: CertificateFingerprint,
) -> (found: Result<ConfirmedPeerRecord, SetupFailure>)
    ensures
        final(store).history().len() == old(store).history().len() + 1,
        final(store).history().drop_last() == old(store).history(),
        final(store).history().last() matches PeerStoreCall::List(listed) && match listed {
            Err(_) => found == Err::<ConfirmedPeerRecord, _>(SetupFailure::Identity),
            Ok(stored) => match first_confirmed(stored, local@, peer@) {
                Some(record) => found matches Ok(confirmed) && confirmed@ == record,
                None => found == Err::<ConfirmedPeerRecord, _>(SetupFailure::PairingRequired),
            },
        },
{
    let listed = store.list();
    assert(store.history().drop_last() =~= old(store).history());
    match listed {
        Err(_) => Err(SetupFailure::Identity),
        Ok(stored) => find_confirmed(stored.as_slice(), local, peer),
    }
}

/// A confirmed peer is one that a person confirmed: its record was stored for the local identity
/// and carries the certificate with the asked fingerprint.
pub proof fn law_only_stored_pairings_are_confirmed(
    stored: Seq<(Seq<char>, Seq<u8>)>,
    local: Seq<u8>,
    peer: Seq<u8>,
)
    requires
        first_confirmed(stored, local, peer) is Some,
    ensures
        exists|i: int|
            0 <= i < stored.len() && decoded_record((#[trigger] stored[i]).1, local) == Ok::<
                RecordView,
                crate::pairing::PairingError,
            >(first_confirmed(stored, local, peer)->0),
        first_confirmed(stored, local, peer)->0.local == local,
        sha256(first_confirmed(stored, local, peer)->0.peer.certificate) == peer,
    decreases stored.len(),
{
    let found = first_confirmed(stored, local, peer)->0;
    if decoded_record(stored[0].1, local) == Ok::<RecordView, crate::pairing::PairingError>(found)
        && sha256(found.peer.certificate) == peer {
        assert(decoded_record(stored[0].1, local) is Ok);
    } else {
        let rest = stored.drop_first();
        law_only_stored_pairings_are_confirmed(rest, local, peer);
        let i = choose|i: int|
            0 <= i < rest.len() && decoded_record((#[trigger] rest[i]).1, local) == Ok::<
                RecordView,
                crate::pairing::PairingError,
            >(found);
        assert(rest[i] == stored[i + 1]);
    }
}

/// Whether work on an endpoint is over, whatever became of it.
pub fn cancel_or_endpoint_revoked(cancel: Option<bool>, endpoint_revoked: bool) -> (over: bool)
    ensures
        over == (cancel == Some(true) || endpoint_revoked),
{
    cancel == Some(true) || endpoint_revoked
}

/// How a connection failed, where that is a TLS alert of either side.
#[derive(Clone, Copy, Debug, PartialEq, Eq, Structural)]
pub enum ConnectionFailure {
    /// This side ended it with a transport error code.
    Transport(u64),
    /// The peer's transport closed it with an error code.
    PeerClosed(u64),
    Other,
}

/// The transport error code of the TLS alert `access_denied`.
pub const ACCESS_DENIED_CODE: u64 = 0x131;

/// The transport error code of the TLS alert `bad_certificate`.
pub const BAD_CERTIFICATE_CODE: u64 = 0x12a;

/// A pin refusal on either side.
pub open spec fn is_refusal(failure: ConnectionFailure) -> bool {
    match failure {
        ConnectionFailure::Transport(code) => code == ACCESS_DENIED_CODE,
        ConnectionFailure::PeerClosed(code) => code == ACCESS_DENIED_CODE || code
            == BAD_CERTIFICATE_CODE,
        ConnectionFailure::Other => false,
    }
}

/// A pin refusal on either side. A leaf other than the pinned one is refused with the alert
/// `access_denied`; a peer refusing this computer's certificate closes with that alert or
/// `bad_certificate`.
pub fn refused_identity(failure: ConnectionFailure) -> (refused: bool)
    ensures
        refused == is_refusal(failure),
{
    match failure {
        ConnectionFailure::Transport(code) => code == ACCESS_DENIED_CODE,
        ConnectionFailure::PeerClosed(code) => code == ACCESS_DENIED_CODE || code
            == BAD_CERTIFICATE_CODE,
        ConnectionFailure::Other => false,
    }
}

/// What is said of a failed attempt.
pub enum AttemptReport {
    Nothing,
    Debug(String),
    /// The other computer presented this certificate, or refused ours where there is none.
    WarnRefused(Option<CertificateFingerprint>),
}

/// What a report says.
pub enum ReportView {
    Nothing,
    Debug(Seq<char>),
    WarnRefused(Option<Seq<u8>>),
}

impl View for AttemptReport {
    type V = ReportView;

    open spec fn view(&self) -> ReportView {
        match self {
            AttemptReport::Nothing => ReportView::Nothing,
            AttemptReport::Debug(line) => ReportView::Debug(line@),
            AttemptReport::WarnRefused(refused) => ReportView::WarnRefused(
                fingerprint_view(*refused),
            ),
        }
    }
}

pub open spec fn fingerprint_view(fingerprint: Option<CertificateFingerprint>) -> Option<Seq<u8>> {
    match fingerprint {
        Some(known) => Some(known@),
        None => None,
    }
}

/// The report of an optional line.
pub open spec fn line_report(line: Option<Seq<char>>) -> ReportView {
    match line {
        Some(line) => ReportView::Debug(line),
        None => ReportView::Nothing,
    }
}

/// Keeps a failing retry loop from rotating every earlier line out of the bounded log.
pub struct AttemptLog {
    line: Option<String>,
    logged_at: Option<Duration>,
    repeats: u64,
    /// The last refusal warned about: the refused certificate, or None when the peer refused ours.
    warned: Option<Option<CertificateFingerprint>>,
}

/// What the log of attempts remembers.
pub struct AttemptLogView {
    pub line: Option<Seq<char>>,
    pub logged_at: Option<Duration>,
    pub repeats: u64,
    pub warned: Option<Option<Seq<u8>>>,
}

impl View for AttemptLog {
    type V = AttemptLogView;

    closed spec fn view(&self) -> AttemptLogView {
        AttemptLogView {
            line: match self.line {
                Some(line) => Some(line@),
                None => None,
            },
            logged_at: self.logged_at,
            repeats: self.repeats,
            warned: match self.warned {
                Some(refused) => Some(fingerprint_view(refused)),
                None => None,
            },
        }
    }
}

/// A repeated line with how often it came since it was last reported.
pub open spec fn repeated_text(line: Seq<char>, count: nat) -> Seq<char> {
    line + " (repeated "@ + ascii(decimal(count)) + " times since the last report)"@
}

/// A new line with how often the one before it came without a report.
pub open spec fn changed_text(line: Seq<char>, unreported: nat) -> Seq<char> {
    if unreported == 0 {
        line
    } else {
        line + " (the previous failure repeated "@ + ascii(decimal(unreported)) + " more times)"@
    }
}

impl AttemptLogView {
    /// The log after a line, and what is logged now: a run's first line, then one a minute with its
    /// count.
    pub open spec fn noted(self, line: Seq<char>, now: Duration) -> (
        AttemptLogView,
        Option<Seq<char>>,
    ) {
        let count = (self.repeats + 1) as u64;
        if self.line == Some(line) {
            if self.logged_at matches Some(at) && span(now as nat, at as nat)
                < REPEAT_LOG_INTERVAL {
                (AttemptLogView { repeats: count, ..self }, None)
            } else {
                (
                    AttemptLogView { repeats: 0, logged_at: Some(now), ..self },
                    Some(repeated_text(line, count as nat)),
                )
            }
        } else {
            (
                AttemptLogView { line: Some(line), logged_at: Some(now), repeats: 0, ..self },
                Some(changed_text(line, self.repeats as nat)),
            )
        }
    }

    /// The log after a refusal, and what is said of it: a warning for each refused identity once.
    pub open spec fn refused(self, line: Seq<char>, refused: Option<Seq<u8>>, now: Duration) -> (
        AttemptLogView,
        ReportView,
    ) {
        let warned = AttemptLogView { warned: Some(refused), ..self };
        let (after, report) = warned.noted(line, now);
        if self.warned == Some(refused) {
            (after, line_report(report))
        } else {
            (after, ReportView::WarnRefused(refused))
        }
    }
}

impl AttemptLog {
    pub fn new() -> (log: AttemptLog)
        ensures
            log@ == (AttemptLogView { line: None, logged_at: None, repeats: 0, warned: None }),
    {
        AttemptLog { line: None, logged_at: None, repeats: 0, warned: None }
    }

    /// Whether one more repeat can be counted.
    pub fn has_room(&self) -> (room: bool)
        ensures
            room == (self@.repeats < u64::MAX),
    {
        self.repeats < u64::MAX
    }

    /// The line to log now, if any: a run's first line, then one a minute carrying its count.
    pub fn repeated(&mut self, line: String, now: Duration) -> (logged: Option<String>)
        requires
            old(self)@.repeats < u64::MAX,
        ensures
            ({
                let (after, expected) = old(self)@.noted(line@, now);
                &&& final(self)@ == after
                &&& match expected {
                    Some(text) => logged matches Some(given) && given@ == text,
                    None => logged is None,
                }
            }),
    {
        proof {
            reveal_strlit(" (repeated ");
            reveal_strlit(" times since the last report)");
            reveal_strlit(" (the previous failure repeated ");
            reveal_strlit(" more times)");
        }
        let same = match &self.line {
            Some(known) => *known == line,
            None => false,
        };
        if same {
            self.repeats = self.repeats + 1;
            let recent = match self.logged_at {
                Some(at) => now < at || now - at < REPEAT_LOG_INTERVAL,
                None => false,
            };
            if recent {
                return None;
            }
            let mut summary = line;
            summary.append(" (repeated ");
            push_decimal(&mut summary, self.repeats);
            summary.append(" times since the last report)");
            self.repeats = 0;
            self.logged_at = Some(now);
            return Some(summary);
        }
        let mut summary = line.clone();
        if self.repeats != 0 {
            summary.append(" (the previous failure repeated ");
            push_decimal(&mut summary, self.repeats);
            summary.append(" more times)");
        }
        self.line = Some(line);
        self.logged_at = Some(now);
        self.repeats = 0;
        Some(summary)
    }

    /// Whether a refusal is another one than the last.
    pub fn first_refusal(&mut self, refused: Option<CertificateFingerprint>) -> (first: bool)
        ensures
            first == (old(self)@.warned != Some(fingerprint_view(refused))),
            final(self)@ == (AttemptLogView {
                warned: Some(fingerprint_view(refused)),
                ..old(self)@
            }),
    {
        let known = match (self.warned, refused) {
            (Some(Some(last)), Some(current)) => last.same(&current),
            (Some(None), None) => true,
            _ => false,
        };
        self.warned = Some(refused);
        !known
    }
}

/// A refused identity, with what is said of it: a warning for each one once, and the collapsed line
/// for its repeats.
pub fn identity_changed(
    log: &mut AttemptLog,
    line: String,
    refused: Option<CertificateFingerprint>,
    now: Duration,
) -> (outcome: (SetupFailure, AttemptReport))
    requires
        old(log)@.repeats < u64::MAX,
    ensures
        outcome.0 == SetupFailure::PeerIdentityChanged,
        (final(log)@, outcome.1@) == old(log)@.refused(line@, fingerprint_view(refused), now),
{
    let first = log.first_refusal(refused);
    // The warning stands for this line's first occurrence.
    let collapsed = log.repeated(line, now);
    let report = if first {
        AttemptReport::WarnRefused(refused)
    } else {
        match collapsed {
            Some(text) => AttemptReport::Debug(text),
            None => AttemptReport::Nothing,
        }
    };
    (SetupFailure::PeerIdentityChanged, report)
}

/// A failed attempt's line, collapsed with its repeats.
pub fn note_attempt_failure(log: &mut AttemptLog, line: String, now: Duration) -> (report:
    AttemptReport)
    requires
        old(log)@.repeats < u64::MAX,
    ensures
        final(log)@ == old(log)@.noted(line@, now).0,
        report@ == line_report(old(log)@.noted(line@, now).1),
{
    match log.repeated(line, now) {
        Some(text) => AttemptReport::Debug(text),
        None => AttemptReport::Nothing,
    }
}

/// Why no connection came about, with what is said of it.
pub fn connection_failure(
    log: &mut AttemptLog,
    line: String,
    cause: Option<ConnectionFailure>,
    refused: Option<CertificateFingerprint>,
    now: Duration,
) -> (outcome: (SetupFailure, AttemptReport))
    requires
        old(log)@.repeats < u64::MAX,
    ensures
        if cause matches Some(failure) && is_refusal(failure) {
            &&& outcome.0 == SetupFailure::PeerIdentityChanged
            &&& (final(log)@, outcome.1@) == old(log)@.refused(line@, fingerprint_view(refused), now)
        } else {
            &&& outcome.0 == SetupFailure::Connection
            &&& final(log)@ == old(log)@.noted(line@, now).0
            &&& outcome.1@ == line_report(old(log)@.noted(line@, now).1)
        },
{
    let is_refused = match cause {
        Some(failure) => refused_identity(failure),
        None => false,
    };
    if is_refused {
        identity_changed(log, line, refused, now)
    } else {
        (SetupFailure::Connection, note_attempt_failure(log, line, now))
    }
}

/// How a failed handshake ends an attempt.
pub open spec fn handshake_verdict(error: HandshakeError) -> SetupFailure {
    match error {
        HandshakeError::PurposeMismatch => SetupFailure::PurposeMismatch,
        HandshakeError::ControlMismatch => SetupFailure::ChangedSinceInspection,
        HandshakeError::PeerHelloMismatch => SetupFailure::VersionMismatch,
        _ => SetupFailure::Handshake,
    }
}

/// Distinguishes a peer that answered but disagrees from a peer that could not be reached.
pub fn handshake_failure(error: HandshakeError) -> (failure: SetupFailure)
    ensures
        failure == handshake_verdict(error),
{
    match error {
        HandshakeError::PurposeMismatch => SetupFailure::PurposeMismatch,
        // A changed saved control map must be agreed over the setup link.
        HandshakeError::ControlMismatch => SetupFailure::ChangedSinceInspection,
        HandshakeError::PeerHelloMismatch => SetupFailure::VersionMismatch,
        _ => SetupFailure::Handshake,
    }
}

pub open spec fn is_retried(failure: SetupFailure) -> bool {
    ||| failure == SetupFailure::Connection
    ||| failure == SetupFailure::Handshake
    ||| failure == SetupFailure::PortBusy
}

/// Only reach and timing failures are worth another dial. A disagreement repeats itself: a peer in
/// a different step (setup link versus sharing) answers the same way every time, so the caller must
/// change step rather than dial on, and `PurposeMismatch` is reported at once.
pub fn is_transient(failure: SetupFailure) -> (transient: bool)
    ensures
        transient == is_retried(failure),
{
    match failure {
        SetupFailure::Connection | SetupFailure::Handshake | SetupFailure::PortBusy => true,
        _ => false,
    }
}

/// A disagreement in the handshake is never dialed again; any other handshake error is.
pub proof fn law_disagreements_are_not_retried(error: HandshakeError)
    ensures
        is_retried(handshake_verdict(error)) == !error.is_disagreement(),
{
}

/// How a prepared endpoint comes to a connection.
#[derive(Clone, Copy, Debug, PartialEq, Eq, Structural)]
pub enum ConnectMode {
    DialUntilNegotiated,
    DialOnce,
    AcceptOnce,
}

/// How a prepared endpoint comes to a connection. Start order must not decide a share, and only the
/// dialing side can retry.
pub fn connect_mode(dials: bool, purpose: SessionPurpose) -> (mode: ConnectMode)
    ensures
        mode == (if !dials {
            ConnectMode::AcceptOnce
        } else if purpose == SessionPurpose::Share {
            ConnectMode::DialUntilNegotiated
        } else {
            ConnectMode::DialOnce
        }),
{
    if !dials {
        ConnectMode::AcceptOnce
    } else if purpose == SessionPurpose::Share {
        ConnectMode::DialUntilNegotiated
    } else {
        ConnectMode::DialOnce
    }
}

/// What came of one dial attempt within its deadline.
#[derive(Clone, Copy, Debug, PartialEq, Eq, Structural)]
pub enum Attempt {
    Established,
    Failed(SetupFailure),
    TimedOut,
}

/// What follows a dial attempt.
#[derive(Clone, Copy, Debug, PartialEq, Eq, Structural)]
pub enum DialStep {
    Return,
    Fail(SetupFailure),
    /// Sleep for the interval, look for a cancellation, and dial again.
    DialAgain,
}

/// What follows a dial attempt, where `cancelled` was read after it.
pub fn dial_until_negotiated(attempt: Attempt, cancelled: bool) -> (step: DialStep)
    ensures
        step == (match attempt {
            Attempt::Established => DialStep::Return,
            Attempt::Failed(failure) => if !is_retried(failure) {
                DialStep::Fail(failure)
            } else if cancelled {
                DialStep::Fail(SetupFailure::Cancelled)
            } else {
                DialStep::DialAgain
            },
            Attempt::TimedOut => if cancelled {
                DialStep::Fail(SetupFailure::Cancelled)
            } else {
                DialStep::DialAgain
            },
        }),
{
    match attempt {
        Attempt::Established => return DialStep::Return,
        Attempt::Failed(failure) => {
            if !is_transient(failure) {
                return DialStep::Fail(failure);
            }
        },
        Attempt::TimedOut => {},
    }
    if cancelled {
        DialStep::Fail(SetupFailure::Cancelled)
    } else {
        DialStep::DialAgain
    }
}

/// The one endpoint a standing share keeps between sessions.
pub struct StandingSlot<E> {
    pub held: Option<E>,
}

/// What a standing share finds in its slot.
pub enum Standing<E> {
    /// This endpoint serves the next session.
    Serve(E),
    /// This endpoint lets go of the port before a new one is bound.
    RetireThenBind(E),
    Bind,
}

impl<E> StandingSlot<E> {
    pub fn new() -> (slot: StandingSlot<E>)
        ensures
            slot.held is None,
    {
        StandingSlot { held: None }
    }

    /// A stop request is permanent on the signal, so the next session on it would end at once.
    pub fn serves_again(is_stopping: bool) -> (serves: bool)
        ensures
            serves == !is_stopping,
    {
        !is_stopping
    }

    /// Empties the slot for the next session, where `is_stopping` tells the state of what it held.
    /// The pinned port has no address reuse: a retired endpoint lets go of it before a new bind.
    pub fn take_or_bind(&mut self, is_stopping: bool) -> (standing: Standing<E>)
        ensures
            final(self).held is None,
            standing == (match old(self).held {
                None => Standing::Bind,
                Some(endpoint) => if is_stopping {
                    Standing::RetireThenBind(endpoint)
                } else {
                    Standing::Serve(endpoint)
                },
            }),
    {
        match self.held.take() {
            None => Standing::Bind,
            Some(endpoint) => if Self::serves_again(is_stopping) {
                Standing::Serve(endpoint)
            } else {
                Standing::RetireThenBind(endpoint)
            },
        }
    }

    /// Keeps an ended session's endpoint, or gives it back to be retired.
    pub fn keep(&mut self, endpoint: E, is_stopping: bool) -> (retired: Option<E>)
        ensures
            is_stopping ==> retired == Some(endpoint) && final(self).held == old(self).held,
            !is_stopping ==> retired is None && final(self).held == Some(endpoint),
    {
        if Self::serves_again(is_stopping) {
            self.held = Some(endpoint);
            None
        } else {
            Some(endpoint)
        }
    }

    /// Holds without judging it; the next `take_or_bind` retires it if it cannot serve.
    pub fn hold(&mut self, endpoint: E)
        ensures
            final(self).held == Some(endpoint),
    {
        self.held = Some(endpoint);
    }
}

#[derive(Clone)]
pub struct InspectedPeer {
    pub local_device: DeviceId,
    pub peer_device: DeviceId,
    pub local_fingerprint: CertificateFingerprint,
    pub peer_fingerprint: CertificateFingerprint,
    pub local_platform: Platform,
    pub peer_platform: Platform,
    pub local_displays: DisplayTopology,
    pub peer_displays: DisplayTopology,
    pub interface_id: String,
}

/// A display's rectangle after its block was moved.
#[derive(Clone, Copy, Debug, PartialEq, Eq, Structural)]
pub struct Rect {
    pub left: Coordinate,
    pub top: Coordinate,
    pub right: Coordinate,
    pub bottom: Coordinate,
}

/// A display of a computer at a rectangle.
pub open spec fn placed(id: DisplayId, machine: DeviceId, rect: Rect) -> Placed {
    Placed {
        id,
        machine,
        left: rect.left,
        top: rect.top,
        right: rect.right,
        bottom: rect.bottom,
    }
}

/// A display's rectangle where its own computer puts it.
pub open spec fn own_rect(display: DisplayDescription) -> Rect {
    Rect {
        left: display.logical_origin.x,
        top: display.logical_origin.y,
        right: display.logical_end.x,
        bottom: display.logical_end.y,
    }
}

/// The displays of both computers: local ones where they are, the peer's where they were moved to.
pub open spec fn all_placed(
    local: Seq<DisplayDescription>,
    local_device: DeviceId,
    peer: Seq<DisplayDescription>,
    peer_device: DeviceId,
    moved: Seq<Rect>,
) -> Seq<Placed> {
    Seq::new(
        local.len(),
        |i: int| placed(local[i].id, local_device, own_rect(local[i])),
    ) + Seq::new(peer.len(), |i: int| placed(peer[i].id, peer_device, moved[i]))
}

/// A display with this id is among those placed.
pub open spec fn knows(displays: Seq<Placed>, id: DisplayId) -> bool {
    exists|i: int| 0 <= i < displays.len() && (#[trigger] displays[i]).id == id
}

/// Every hidden display is one of those placed.
pub open spec fn all_known(displays: Seq<Placed>, hidden: Seq<DisplayId>) -> bool {
    forall|i: int| 0 <= i < hidden.len() ==> knows(displays, #[trigger] hidden[i])
}

/// A computer of a topology.
#[derive(Clone, Copy, Debug, PartialEq, Eq)]
pub struct Machine {
    pub id: DeviceId,
    pub platform: Platform,
}

/// A display of a topology, where its computer's block was moved to.
#[derive(Clone, Debug, PartialEq, Eq)]
pub struct Display {
    pub id: DisplayId,
    pub machine: DeviceId,
    pub name: String,
    pub native_width: u32,
    pub native_height: u32,
    pub logical_size: Point,
    pub rect: Rect,
    pub scale_factor: Coordinate,
    pub is_primary: bool,
    /// Nothing routes the pointer onto a display that is not.
    pub in_use: bool,
}

impl Display {
    /// The display that `description` tells of, at `rect`.
    pub open spec fn shows(
        self,
        description: DisplayDescription,
        machine: DeviceId,
        rect: Rect,
        hidden: Seq<DisplayId>,
    ) -> bool {
        &&& self.id == description.id
        &&& self.machine == machine
        &&& self.name@ == description.name@
        &&& self.native_width == description.native_width
        &&& self.native_height == description.native_height
        &&& self.logical_size == description.logical_size
        &&& self.rect == rect
        &&& self.scale_factor == description.scale_factor
        &&& self.is_primary == description.is_primary
        &&& self.in_use == !hidden.contains(description.id)
    }

    fn shown(
        description: &DisplayDescription,
        machine: DeviceId,
        rect: Rect,
        hidden: &[DisplayId],
    ) -> (display: Display)
        ensures
            display.shows(*description, machine, rect, hidden@),
    {
        Display {
            id: description.id,
            machine,
            name: description.name.clone(),
            native_width: description.native_width,
            native_height: description.native_height,
            logical_size: description.logical_size,
            rect,
            scale_factor: description.scale_factor,
            is_primary: description.is_primary,
            in_use: !is_hidden(hidden, description.id),
        }
    }
}

/// The displays of both computers and every way between them.
#[derive(Clone, Debug, PartialEq, Eq)]
pub struct Topology {
    pub machines: Vec<Machine>,
    pub displays: Vec<Display>,
    pub links: Vec<EdgeLink>,
}

impl InspectedPeer {
    /// The same two computers on the same network with the same displays.
    pub open spec fn agrees(&self, fresh: InspectedPeer) -> bool {
        &&& self.local_fingerprint@ == fresh.local_fingerprint@
        &&& self.peer_fingerprint@ == fresh.peer_fingerprint@
        &&& self.local_device.0@ == fresh.local_device.0@
        &&& self.peer_device.0@ == fresh.peer_device.0@
        &&& self.local_platform == fresh.local_platform
        &&& self.peer_platform == fresh.peer_platform
        &&& self.interface_id@ == fresh.interface_id@
        &&& same_geometries(self.local_displays@, fresh.local_displays@)
        &&& same_geometries(self.peer_displays@, fresh.peer_displays@)
    }

    pub fn matches(&self, fresh: &InspectedPeer) -> (same: bool)
        ensures
            same == self.agrees(*fresh),
    {
        self.local_fingerprint.same(&fresh.local_fingerprint) && self.peer_fingerprint.same(
            &fresh.peer_fingerprint,
        ) && self.local_device.same(&fresh.local_device) && self.peer_device.same(
            &fresh.peer_device,
        ) && self.local_platform == fresh.local_platform && self.peer_platform
            == fresh.peer_platform && self.interface_id == fresh.interface_id
            && self.local_displays.same_geometry(&fresh.local_displays)
            && self.peer_displays.same_geometry(&fresh.peer_displays)
    }

    /// The displays of both computers, with the peer's block where `moved` puts it.
    pub open spec fn placed_displays(&self, moved: Seq<Rect>) -> Seq<Placed> {
        all_placed(
            self.local_displays@,
            self.local_device,
            self.peer_displays@,
            self.peer_device,
            moved,
        )
    }

    /// The links that were laid and after them the inherited ones, where the whole makes a layout.
    pub open spec fn layout(
        &self,
        links: Seq<EdgeLink>,
        hidden: Seq<DisplayId>,
        offset_is_finite: bool,
        moved: Seq<Rect>,
    ) -> Option<Seq<EdgeLink>> {
        let displays = self.placed_displays(moved);
        let all = links + all_ways(displays, hidden, displays.len() as int);
        if links.len() <= MAX_LINKS && offset_is_finite && all_known(displays, hidden) && arranged(
            displays,
            links,
            hidden,
        ) && all.len() <= MAX_LINKS {
            Some(all)
        } else {
            None
        }
    }

    /// The topology of both computers with these links.
    pub open spec fn is_topology(
        &self,
        topology: Topology,
        links: Seq<EdgeLink>,
        hidden: Seq<DisplayId>,
        moved: Seq<Rect>,
    ) -> bool {
        &&& topology.machines@ == seq![
            Machine { id: self.local_device, platform: self.local_platform },
            Machine { id: self.peer_device, platform: self.peer_platform },
        ]
        &&& topology.links@ == links
        &&& topology.displays@.len() == self.local_displays@.len() + self.peer_displays@.len()
        &&& forall|i: int|
            0 <= i < self.local_displays@.len() ==> (#[trigger] topology.displays@[i]).shows(
                self.local_displays@[i],
                self.local_device,
                own_rect(self.local_displays@[i]),
                hidden,
            )
        &&& forall|i: int|
            self.local_displays@.len() <= i < topology.displays@.len() ==> (
            #[trigger] topology.displays@[i]).shows(
                self.peer_displays@[i - self.local_displays@.len()],
                self.peer_device,
                moved[i - self.local_displays@.len()],
                hidden,
            )
    }

    /// Keeps local native geometry and takes the peer's entire display block as it was moved: one
    /// rectangle of `moved` for each of the peer's displays. `is_valid` says whether the protocol
    /// admits the share of an edge that each inherited link takes, and the topology they all make.
    pub fn outbound_topology(
        &self,
        links: Vec<EdgeLink>,
        hidden: &[DisplayId],
        offset_is_finite: bool,
        moved: &[Rect],
        is_valid: bool,
    ) -> (topology: Result<Topology, SetupFailure>)
        requires
            moved@.len() == self.peer_displays@.len(),
        ensures
            match self.layout(links@, hidden@, offset_is_finite, moved@) {
                Some(all) if is_valid => topology matches Ok(made) && self.is_topology(
                    made,
                    all,
                    hidden@,
                    moved@,
                ),
                _ => topology == Err::<Topology, _>(SetupFailure::Layout),
            },
    {
        if links.len() > MAX_LINKS || !offset_is_finite {
            return Err(SetupFailure::Layout);
        }
        let placed = self.place_all(moved);
        if !knows_all(placed.as_slice(), hidden) {
            return Err(SetupFailure::Layout);
        }
        let links = match inherit_display_edges(placed.as_slice(), links, hidden, is_valid) {
            Ok(links) => links,
            Err(()) => return Err(SetupFailure::Layout),
        };
        if links.len() > MAX_LINKS {
            return Err(SetupFailure::Layout);
        }
        let mut machines: Vec<Machine> = Vec::new();
        machines.push(Machine { id: self.local_device, platform: self.local_platform });
        machines.push(Machine { id: self.peer_device, platform: self.peer_platform });
        assert(machines@ =~= seq![
            Machine { id: self.local_device, platform: self.local_platform },
            Machine { id: self.peer_device, platform: self.peer_platform },
        ]);
        let displays = self.show_all(hidden, moved);
        Ok(Topology { machines, displays, links })
    }

    fn show_all(&self, hidden: &[DisplayId], moved: &[Rect]) -> (displays: Vec<Display>)
        requires
            moved@.len() == self.peer_displays@.len(),
        ensures
            displays@.len() == self.local_displays@.len() + self.peer_displays@.len(),
            forall|i: int|
                0 <= i < self.local_displays@.len() ==> (#[trigger] displays@[i]).shows(
                    self.local_displays@[i],
                    self.local_device,
                    own_rect(self.local_displays@[i]),
                    hidden@,
                ),
            forall|i: int|
                self.local_displays@.len() <= i < displays@.len() ==> (
                #[trigger] displays@[i]).shows(
                    self.peer_displays@[i - self.local_displays@.len()],
                    self.peer_device,
                    moved@[i - self.local_displays@.len()],
                    hidden@,
                ),
    {
        let mut displays: Vec<Display> = Vec::new();
        let mut index: usize = 0;
        while index < self.local_displays.displays.len()
            invariant
                index <= self.local_displays@.len(),
                self.local_displays@ == self.local_displays.displays@,
                displays@.len() == index,
                forall|i: int|
                    0 <= i < index ==> (#[trigger] displays@[i]).shows(
                        self.local_displays@[i],
                        self.local_device,
                        own_rect(self.local_displays@[i]),
                        hidden@,
                    ),
            decreases self.local_displays@.len() - index,
        {
            let display = &self.local_displays.displays[index];
            let rect = Rect {
                left: display.logical_origin.x,
                top: display.logical_origin.y,
                right: display.logical_end.x,
                bottom: display.logical_end.y,
            };
            displays.push(Display::shown(display, self.local_device, rect, hidden));
            index = index + 1;
        }
        let ghost base = self.local_displays@.len() as int;
        let ghost own = displays@;
        let mut place: usize = 0;
        while place < self.peer_displays.displays.len()
            invariant
                place <= self.peer_displays@.len(),
                self.peer_displays@ == self.peer_displays.displays@,
                moved@.len() == self.peer_displays@.len(),
                base == self.local_displays@.len() == own.len(),
                displays@.len() == base + place,
                displays@.take(base) == own,
                forall|i: int|
                    base <= i < base + place ==> (#[trigger] displays@[i]).shows(
                        self.peer_displays@[i - base],
                        self.peer_device,
                        moved@[i - base],
                        hidden@,
                    ),
            decreases self.peer_displays@.len() - place,
        {
            displays.push(
                Display::shown(
                    &self.peer_displays.displays[place],
                    self.peer_device,
                    moved[place],
                    hidden,
                ),
            );
            assert(displays@.take(base) =~= own);
            place = place + 1;
        }
        assert forall|i: int| 0 <= i < base implies (#[trigger] displays@[i]).shows(
            self.local_displays@[i],
            self.local_device,
            own_rect(self.local_displays@[i]),
            hidden@,
        ) by {
            assert(displays@[i] == displays@.take(base)[i]);
        }
        displays
    }

    fn place_all(&self, moved: &[Rect]) -> (displays: Vec<Placed>)
        requires
            moved@.len() == self.peer_displays@.len(),
        ensures
            displays@ == self.placed_displays(moved@),
    {
        let mut displays: Vec<Placed> = Vec::new();
        let ghost all = self.placed_displays(moved@);
        let mut index: usize = 0;
        while index < self.local_displays.displays.len()
            invariant
                index <= self.local_displays@.len(),
                self.local_displays@ == self.local_displays.displays@,
                all == self.placed_displays(moved@),
                displays@ == all.take(index as int),
            decreases self.local_displays@.len() - index,
        {
            let display = &self.local_displays.displays[index];
            displays.push(
                Placed {
                    id: display.id,
                    machine: self.local_device,
                    left: display.logical_origin.x,
                    top: display.logical_origin.y,
                    right: display.logical_end.x,
                    bottom: display.logical_end.y,
                },
            );
            assert(displays@ =~= all.take(index + 1));
            index = index + 1;
        }
        let ghost base = self.local_displays@.len() as int;
        let mut place: usize = 0;
        while place < self.peer_displays.displays.len()
            invariant
                place <= self.peer_displays@.len(),
                self.peer_displays@ == self.peer_displays.displays@,
                moved@.len() == self.peer_displays@.len(),
                all == self.placed_displays(moved@),
                base == self.local_displays@.len(),
                displays@ == all.take(base + place),
            decreases self.peer_displays@.len() - place,
        {
            let rect = moved[place];
            displays.push(
                Placed {
                    id: self.peer_displays.displays[place].id,
                    machine: self.peer_device,
                    left: rect.left,
                    top: rect.top,
                    right: rect.right,
                    bottom: rect.bottom,
                },
            );
            assert(displays@ =~= all.take(base + place + 1));
            place = place + 1;
        }
        assert(all.take(base + place) =~= all);
        displays
    }
}

/// Whether a display with this id is among those placed.
fn has_display(displays: &[Placed], id: DisplayId) -> (found: bool)
    ensures
        found == knows(displays@, id),
{
    let mut index: usize = 0;
    while index < displays.len()
        invariant
            index <= displays@.len(),
            forall|i: int| 0 <= i < index ==> (#[trigger] displays@[i]).id != id,
        decreases displays@.len() - index,
    {
        if displays[index].id == id {
            return true;
        }
        index = index + 1;
    }
    false
}

/// Whether every hidden display is one of those placed.
fn knows_all(displays: &[Placed], hidden: &[DisplayId]) -> (known: bool)
    ensures
        known == all_known(displays@, hidden@),
{
    let mut index: usize = 0;
    while index < hidden.len()
        invariant
            index <= hidden@.len(),
            forall|i: int| 0 <= i < index ==> knows(displays@, #[trigger] hidden@[i]),
        decreases hidden@.len() - index,
    {
        if !has_display(displays, hidden[index]) {
            return false;
        }
        index = index + 1;
    }
    true
}

/// A watch asks for a stop at the first sign of one and once only, and otherwise waits; what it has
/// asked for stays asked.
pub proof fn law_a_stop_is_asked_for_once(
    watch: CancellationWatch,
    now: Duration,
    signals: Signals,
)
    requires
        !signals.native_revoked,
    ensures
        watch.stop_requested_at is None && (signals.cancel_revoked || signals.native_stopping)
            ==> watch.next(now, signals) == (
            CancellationWatch { stop_requested_at: Some(now) },
            WatchAction::RequestStop,
        ),
        watch.stop_requested_at is None && !signals.cancel_revoked && !signals.native_stopping
            ==> watch.next(now, signals) == (watch, WatchAction::Wait),
        watch.stop_requested_at is Some ==> watch.next(now, signals).0 == watch && watch.next(
            now,
            signals,
        ).1 != WatchAction::RequestStop,
{
}

/// The selected places are exactly those whose adapter has the wanted name, each once and in their
/// order.
pub proof fn law_the_named_adapters_are_selected(adapters: Seq<Adapter>, interface_id: Seq<char>)
    ensures
        forall|i: int|
            0 <= i < adapters.len() ==> (selected_places(adapters, interface_id).contains(i)
                <==> adapter_text(#[trigger] adapters[i]) == interface_id),
        forall|j: int|
            0 <= j < selected_places(adapters, interface_id).len() ==> 0
                <= #[trigger] selected_places(adapters, interface_id)[j] < adapters.len(),
        forall|j: int, k: int|
            0 <= j < k < selected_places(adapters, interface_id).len()
                ==> #[trigger] selected_places(adapters, interface_id)[j]
                < #[trigger] selected_places(adapters, interface_id)[k],
    decreases adapters.len(),
{
    if adapters.len() > 0 {
        let earlier = selected_places(adapters.drop_last(), interface_id);
        let all = selected_places(adapters, interface_id);
        law_the_named_adapters_are_selected(adapters.drop_last(), interface_id);
        let last = adapters.len() - 1;
        assert forall|i: int| 0 <= i < adapters.len() implies (all.contains(i) <==> adapter_text(
            #[trigger] adapters[i],
        ) == interface_id) by {
            if i < last {
                assert(adapters.drop_last()[i] == adapters[i]);
                if earlier.contains(i) {
                    let j = choose|j: int| 0 <= j < earlier.len() && earlier[j] == i;
                    assert(all[j] == i);
                }
                if all.contains(i) {
                    let j = choose|j: int| 0 <= j < all.len() && all[j] == i;
                    assert(earlier[j] == i);
                }
            } else {
                if adapter_text(adapters[last]) == interface_id {
                    assert(all[earlier.len() as int] == last);
                } else if all.contains(last) {
                    let j = choose|j: int| 0 <= j < all.len() && all[j] == last;
                    assert(earlier[j] == last);
                }
            }
        }
    }
}

/// Adapters of the same text are the same adapter's name, index and address in their order: the text
/// is the name, the index and the address, with colons between.
pub proof fn law_an_adapter_is_named_by_its_parts(adapter: Adapter)
    ensures
        ({
            let text = adapter_text(adapter);
            let name = adapter.stable_id@.len() as int;
            let index = decimal(adapter.index as nat).len() as int;
            &&& text.take(name) == adapter.stable_id@
            &&& text[name] == ':'
            &&& text.subrange(name + 1, name + 1 + index) == ascii(decimal(adapter.index as nat))
            &&& text[name + 1 + index] == ':'
            &&& text.skip(name + index + 2) == ascii(adapter.address.text())
        }),
{
    let text = adapter_text(adapter);
    let name = adapter.stable_id@.len() as int;
    let number = ascii(decimal(adapter.index as nat));
    let index = number.len() as int;
    assert(text.take(name) =~= adapter.stable_id@);
    assert(text.subrange(name + 1, name + 1 + index) =~= number);
    assert(text.skip(name + index + 2) =~= ascii(adapter.address.text()));
}

/// A physical adapter that is up is usable with or without a wire, as soon as its attachment is
/// known; anything else is not.
pub proof fn law_which_adapters_are_usable(adapter: Adapter)
    ensures
        is_usable(adapter) <==> adapter.physical && adapter.up && adapter.attachment is Some && !(
        !adapter.wifi && !adapter.ethernet),
        is_usable(Adapter { wifi: true, ethernet: false, ..adapter }) == is_usable(
            Adapter { wifi: false, ethernet: true, ..adapter },
        ),
{
}

/// A pairing with the peer that is stored here is found wherever it stands, and it is the first one:
/// nothing before it is a pairing with this peer.
pub proof fn law_a_stored_pairing_is_confirmed(
    stored: Seq<(Seq<char>, Seq<u8>)>,
    local: Seq<u8>,
    peer: Seq<u8>,
    place: int,
)
    requires
        0 <= place < stored.len(),
        decoded_record(stored[place].1, local) is Ok,
        sha256((decoded_record(stored[place].1, local)->Ok_0).peer.certificate) == peer,
        forall|i: int|
            0 <= i < place ==> (decoded_record((#[trigger] stored[i]).1, local) matches Ok(record)
                ==> sha256(record.peer.certificate) != peer),
    ensures
        first_confirmed(stored, local, peer) == Some(decoded_record(stored[place].1, local)->Ok_0),
    decreases stored.len(),
{
    if place > 0 {
        let rest = stored.drop_first();
        assert(rest[place - 1] == stored[place]);
        assert forall|i: int| 0 <= i < place - 1 implies (decoded_record(
            (#[trigger] rest[i]).1,
            local,
        ) matches Ok(record) ==> sha256(record.peer.certificate) != peer) by {
            assert(rest[i] == stored[i + 1]);
        }
        assert(decoded_record(stored[0].1, local) matches Ok(record) ==> sha256(
            record.peer.certificate,
        ) != peer);
        law_a_stored_pairing_is_confirmed(rest, local, peer, place - 1);
    }
}

/// A closed connection is a refusal exactly where the code says so: that access was denied, on either
/// side, or, from the peer, that the certificate is bad.
pub proof fn law_which_closes_are_refusals(failure: ConnectionFailure)
    ensures
        is_refusal(failure) <==> failure == ConnectionFailure::Transport(ACCESS_DENIED_CODE)
            || failure == ConnectionFailure::PeerClosed(ACCESS_DENIED_CODE) || failure
            == ConnectionFailure::PeerClosed(BAD_CERTIFICATE_CODE),
{
}

/// A failure that is new is reported at once. One that repeats itself is only counted until the
/// interval is over, and is then reported with its count; none is lost, and the log is of the last
/// failure.
pub proof fn law_which_attempts_are_reported(log: AttemptLogView, line: Seq<char>, now: Duration)
    requires
        log.repeats < u64::MAX,
    ensures
        ({
            let (after, report) = log.noted(line, now);
            let quiet = log.line == Some(line) && log.logged_at is Some && (now
                < log.logged_at->0 || now - log.logged_at->0 < REPEAT_LOG_INTERVAL);
            &&& after.line == Some(line)
            &&& after.warned == log.warned
            &&& report is None <==> quiet
            &&& quiet ==> after.repeats == log.repeats + 1 && after.logged_at == log.logged_at
            &&& !quiet ==> after.repeats == 0 && after.logged_at == Some(now)
            &&& !quiet && log.line == Some(line) ==> report == Some(
                repeated_text(line, (log.repeats + 1) as nat),
            )
            &&& log.line != Some(line) && log.repeats == 0 ==> report == Some(line)
            &&& log.line != Some(line) && log.repeats > 0 ==> report == Some(
                line + " (the previous failure repeated "@ + ascii(decimal(log.repeats as nat))
                    + " more times)"@,
            )
        }),
{
}

/// A refusal warns once for each certificate: again only where another one was refused since. A
/// refusal that warned before is reported as any other failure.
pub proof fn law_a_refusal_warns_once(
    log: AttemptLogView,
    line: Seq<char>,
    refused: Option<Seq<u8>>,
    now: Duration,
    later: Duration,
)
    ensures
        ({
            let (after, report) = log.refused(line, refused, now);
            &&& after.warned == Some(refused)
            &&& log.warned != Some(refused) ==> report == ReportView::WarnRefused(refused)
            &&& log.warned == Some(refused) ==> !(report is WarnRefused)
            &&& !(after.refused(line, refused, later).1 is WarnRefused)
            &&& after.line == Some(line)
        }),
{
}

/// Only a failure to reach the peer is tried again; what both sides disagree on is named for what it
/// is.
pub proof fn law_how_handshakes_fail(error: HandshakeError, failure: SetupFailure)
    ensures
        handshake_verdict(error) == SetupFailure::PurposeMismatch <==> error
            == HandshakeError::PurposeMismatch,
        handshake_verdict(error) == SetupFailure::ChangedSinceInspection <==> error
            == HandshakeError::ControlMismatch,
        handshake_verdict(error) == SetupFailure::VersionMismatch <==> error
            == HandshakeError::PeerHelloMismatch,
        !error.is_disagreement() ==> handshake_verdict(error) == SetupFailure::Handshake,
        is_retried(failure) <==> failure == SetupFailure::Connection || failure
            == SetupFailure::Handshake || failure == SetupFailure::PortBusy,
{
}

/// An inspection agrees with itself, and two agree whichever is asked; one in which a computer, its
/// platform or the interface is another does not agree.
pub proof fn law_inspections_agree_in_everything(one: InspectedPeer, other: InspectedPeer)
    ensures
        one.agrees(other) ==> one.local_fingerprint@ == other.local_fingerprint@
            && one.peer_fingerprint@ == other.peer_fingerprint@ && one.local_device.0@
            == other.local_device.0@ && one.peer_device.0@ == other.peer_device.0@
            && one.local_platform == other.local_platform && one.peer_platform
            == other.peer_platform && one.interface_id@ == other.interface_id@ && same_geometries(
            one.local_displays@,
            other.local_displays@,
        ) && same_geometries(one.peer_displays@, other.peer_displays@),
        one.local_fingerprint@ == other.local_fingerprint@ && one.peer_fingerprint@
            == other.peer_fingerprint@ && one.local_device.0@ == other.local_device.0@
            && one.peer_device.0@ == other.peer_device.0@ && one.local_platform
            == other.local_platform && one.peer_platform == other.peer_platform && one.interface_id@
            == other.interface_id@ && one.local_displays@ == other.local_displays@
            && one.peer_displays@ == other.peer_displays@ && same_geometries(
            one.local_displays@,
            one.local_displays@,
        ) && same_geometries(one.peer_displays@, one.peer_displays@) ==> one.agrees(other),
{
}

/// Every display stands in the layout once, the own ones where the system has them and the peer's
/// where they were moved to, each with its own computer.
pub proof fn law_every_display_is_placed(inspected: InspectedPeer, moved: Seq<Rect>, i: int)
    requires
        moved.len() == inspected.peer_displays@.len(),
        0 <= i < inspected.local_displays@.len() + inspected.peer_displays@.len(),
    ensures
        ({
            let local = inspected.local_displays@;
            let peer = inspected.peer_displays@;
            let stands = inspected.placed_displays(moved)[i];
            &&& inspected.placed_displays(moved).len() == local.len() + peer.len()
            &&& i < local.len() ==> stands.id == local[i].id && stands.machine
                == inspected.local_device && stands.left == local[i].logical_origin.x && stands.top
                == local[i].logical_origin.y && stands.right == local[i].logical_end.x
                && stands.bottom == local[i].logical_end.y
            &&& i >= local.len() ==> stands.id == peer[i - local.len()].id && stands.machine
                == inspected.peer_device && stands.left == moved[i - local.len()].left && stands.top
                == moved[i - local.len()].top && stands.right == moved[i - local.len()].right
                && stands.bottom == moved[i - local.len()].bottom
        }),
{
}

/// A layout that is accepted keeps the given links in front and adds the inherited ways; one is
/// refused where a hidden display is none of the two computers', where the displays are not
/// arranged, or where there are too many links.
pub proof fn law_which_layouts_are_accepted(
    inspected: InspectedPeer,
    links: Seq<EdgeLink>,
    hidden: Seq<DisplayId>,
    offset_is_finite: bool,
    moved: Seq<Rect>,
)
    ensures
        ({
            let displays = inspected.placed_displays(moved);
            let layout = inspected.layout(links, hidden, offset_is_finite, moved);
            &&& layout is Some ==> layout->0.len() <= MAX_LINKS && links.len() <= MAX_LINKS
                && offset_is_finite && layout->0.take(links.len() as int) == links
                && layout->0.skip(links.len() as int) == all_ways(
                displays,
                hidden,
                displays.len() as int,
            ) && arranged(displays, links, hidden) && (forall|i: int|
                0 <= i < hidden.len() ==> knows(displays, #[trigger] hidden[i]))
            &&& layout is None ==> !offset_is_finite || !arranged(displays, links, hidden) || (
            exists|i: int| 0 <= i < hidden.len() && !knows(displays, #[trigger] hidden[i]))
                || links.len() + all_ways(displays, hidden, displays.len() as int).len() > MAX_LINKS
        }),
{
    let displays = inspected.placed_displays(moved);
    let ways = all_ways(displays, hidden, displays.len() as int);
    assert((links + ways).take(links.len() as int) =~= links);
    assert((links + ways).skip(links.len() as int) =~= ways);
}

/// A layout knows the displays that stand in it, by their ids, and no other.
pub proof fn law_which_displays_are_known(displays: Seq<Placed>, place: int, id: DisplayId)
    requires
        0 <= place < displays.len(),
        forall|i: int| 0 <= i < displays.len() ==> (#[trigger] displays[i]).id != id,
    ensures
        knows(displays, displays[place].id),
        !knows(displays, id),
{
}

/// A topology shows every display of both computers, the own ones first, each as it was described and
/// with its computer, and in use exactly where it is not hidden; the own ones stand where the system
/// has them, the peer's where they were moved to.
pub proof fn law_a_topology_shows_every_display(
    inspected: InspectedPeer,
    topology: Topology,
    links: Seq<EdgeLink>,
    hidden: Seq<DisplayId>,
    moved: Seq<Rect>,
    i: int,
)
    requires
        inspected.is_topology(topology, links, hidden, moved),
        0 <= i < inspected.local_displays@.len() + inspected.peer_displays@.len(),
    ensures
        ({
            let local = inspected.local_displays@;
            let described = if i < local.len() {
                local[i]
            } else {
                inspected.peer_displays@[i - local.len()]
            };
            let shown = topology.displays@[i];
            &&& topology.displays@.len() == local.len() + inspected.peer_displays@.len()
            &&& topology.links@ == links
            &&& topology.machines@.len() == 2
            &&& topology.machines@[0].id == inspected.local_device
            &&& topology.machines@[1].id == inspected.peer_device
            &&& topology.machines@[0].platform == inspected.local_platform
            &&& topology.machines@[1].platform == inspected.peer_platform
            &&& shown.id == described.id
            &&& shown.name@ == described.name@
            &&& shown.native_width == described.native_width
            &&& shown.native_height == described.native_height
            &&& shown.logical_size == described.logical_size
            &&& shown.scale_factor == described.scale_factor
            &&& shown.is_primary == described.is_primary
            &&& shown.in_use <==> !hidden.contains(described.id)
            &&& i < local.len() ==> shown.machine == inspected.local_device && shown.rect.left
                == described.logical_origin.x && shown.rect.top == described.logical_origin.y
                && shown.rect.right == described.logical_end.x && shown.rect.bottom
                == described.logical_end.y
            &&& i >= local.len() ==> shown.machine == inspected.peer_device && shown.rect
                == moved[i - local.len()]
        }),
{
}

} // verus!
