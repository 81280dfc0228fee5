//! Validation is required before socket creation and again whenever the interface changes.

use crate::addr::Ipv4Addr;
use crate::bytes::same_bytes;
use vstd::arithmetic::power2::pow2;
use vstd::prelude::*;
use vstd::string::StringSliceAdditionalSpecFns;

verus! {

#[derive(Clone, Copy, Debug, PartialEq, Eq, Structural)]
pub enum InterfaceKind {
    Ethernet,
    WiFi,
    Other,
}

#[derive(Clone)]
pub struct InterfaceSnapshot {
    pub stable_id: String,
    pub name: String,
    pub index: u32,
    pub address: Ipv4Addr,
    pub prefix_len: u8,
    pub kind: InterfaceKind,
    pub is_hardware: bool,
    pub is_up: bool,
    /// Changes on network attachment/profile changes even when DHCP reuses the same address.
    pub network_signature: Vec<u8>,
}

/// What an interface snapshot says.
pub struct InterfaceView {
    pub stable_id: Seq<char>,
    pub name: Seq<char>,
    pub index: u32,
    pub address: Ipv4Addr,
    pub prefix_len: u8,
    pub kind: InterfaceKind,
    pub is_hardware: bool,
    pub is_up: bool,
    pub network_signature: Seq<u8>,
}

impl View for InterfaceSnapshot {
    type V = InterfaceView;

    open spec fn view(&self) -> InterfaceView {
        InterfaceView {
            stable_id: self.stable_id@,
            name: self.name@,
            index: self.index,
            address: self.address,
            prefix_len: self.prefix_len,
            kind: self.kind,
            is_hardware: self.is_hardware,
            is_up: self.is_up,
            network_signature: self.network_signature@,
        }
    }
}

impl InterfaceSnapshot {
    pub fn same(&self, other: &InterfaceSnapshot) -> (same: bool)
        ensures
            same == (self@ == other@),
    {
        self.stable_id == other.stable_id && self.name == other.name && self.index == other.index
            && self.address == other.address && self.prefix_len == other.prefix_len && self.kind
            == other.kind && self.is_hardware == other.is_hardware && self.is_up == other.is_up
            && same_bytes(self.network_signature.as_slice(), other.network_signature.as_slice())
    }
}

#[derive(Clone, Copy, Debug, PartialEq, Eq, Structural)]
pub struct RouteSnapshot {
    pub interface_index: u32,
    pub source: Ipv4Addr,
    /// An unspecified next hop denotes a directly connected route.
    pub next_hop: Ipv4Addr,
}

#[derive(Clone, Copy, Debug, PartialEq, Eq, Structural)]
pub enum PolicyError {
    InvalidInterface,
    UnknownAttachment,
    InterfaceDown,
    NonPhysicalInterface,
    InvalidSubnet,
    NonPrivateAddress,
    PeerIsLocal,
    NetworkOrBroadcastAddress,
    OffLinkPeer,
    RoutedPeer,
    WrongInterface,
    InterfaceChanged,
    SessionClosed,
    DiscoveryDisabled,
}

impl PolicyError {
    pub open spec fn text(self) -> Seq<char> {
        match self {
            PolicyError::InvalidInterface =>
                "select a physical interface with a valid stable identifier"@,
            PolicyError::UnknownAttachment =>
                "the current physical network attachment could not be identified"@,
            PolicyError::InterfaceDown => "the selected interface is down"@,
            PolicyError::NonPhysicalInterface =>
                "only physical Ethernet and Wi-Fi interfaces are allowed"@,
            PolicyError::InvalidSubnet =>
                "the selected IPv4 subnet must have a prefix between 8 and 31"@,
            PolicyError::NonPrivateAddress =>
                "only RFC1918 private or IPv4 link-local addresses are allowed"@,
            PolicyError::PeerIsLocal => "the peer must be another machine"@,
            PolicyError::NetworkOrBroadcastAddress =>
                "a subnet or broadcast address cannot be a peer"@,
            PolicyError::OffLinkPeer =>
                "the peer is outside the selected directly connected subnet"@,
            PolicyError::RoutedPeer => "the route to the peer uses a gateway"@,
            PolicyError::WrongInterface => "the route or packet uses an unselected interface"@,
            PolicyError::InterfaceChanged =>
                "the selected interface or network changed; reconnect explicitly"@,
            PolicyError::SessionClosed => "this network lock has been revoked"@,
            PolicyError::DiscoveryDisabled => "discovery is not supported in this version"@,
        }
    }

    /// The text shown to a user.
    pub fn message(&self) -> (message: &'static str)
        ensures
            message@ == self.text(),
    {
        match self {
            PolicyError::InvalidInterface =>
                "select a physical interface with a valid stable identifier",
            PolicyError::UnknownAttachment =>
                "the current physical network attachment could not be identified",
            PolicyError::InterfaceDown => "the selected interface is down",
            PolicyError::NonPhysicalInterface =>
                "only physical Ethernet and Wi-Fi interfaces are allowed",
            PolicyError::InvalidSubnet =>
                "the selected IPv4 subnet must have a prefix between 8 and 31",
            PolicyError::NonPrivateAddress =>
                "only RFC1918 private or IPv4 link-local addresses are allowed",
            PolicyError::PeerIsLocal => "the peer must be another machine",
            PolicyError::NetworkOrBroadcastAddress =>
                "a subnet or broadcast address cannot be a peer",
            PolicyError::OffLinkPeer =>
                "the peer is outside the selected directly connected subnet",
            PolicyError::RoutedPeer => "the route to the peer uses a gateway",
            PolicyError::WrongInterface => "the route or packet uses an unselected interface",
            PolicyError::InterfaceChanged =>
                "the selected interface or network changed; reconnect explicitly",
            PolicyError::SessionClosed => "this network lock has been revoked",
            PolicyError::DiscoveryDisabled => "discovery is not supported in this version",
        }
    }
}

/// A check that fails with an error or passes.
pub open spec fn verdict(error: Option<PolicyError>) -> Result<(), PolicyError> {
    match error {
        Some(error) => Err(error),
        None => Ok(()),
    }
}

pub open spec fn private_or_link_local(address: Ipv4Addr) -> bool {
    address.in_private_block() || address.in_link_local_block()
}

/// How many addresses a subnet with this prefix has.
pub open spec fn subnet_size(prefix: int) -> nat
    decreases 32 - prefix,
{
    if prefix >= 32 {
        1
    } else {
        2 * subnet_size(prefix + 1)
    }
}

/// A subnet has a size that fits an address.
proof fn lemma_subnet_size(prefix: int)
    requires
        8 <= prefix <= 32,
    ensures
        0 < subnet_size(prefix) <= 0x100_0000,
    decreases prefix,
{
    reveal_with_fuel(subnet_size, 25);
    if prefix == 8 {
        assert(subnet_size(8) == 0x100_0000);
    } else {
        lemma_subnet_size(prefix - 1);
    }
}

/// The number of the subnet that an address lies in.
pub open spec fn subnet(address: Ipv4Addr, prefix: int) -> int {
    address.0 as int / subnet_size(prefix) as int
}

/// The place of an address within its subnet.
pub open spec fn host(address: Ipv4Addr, prefix: int) -> int {
    address.0 as int % subnet_size(prefix) as int
}

/// The first and the last address of a subnet are no host, but for a pair on one cable.
pub open spec fn host_error(address: Ipv4Addr, prefix: int) -> Option<PolicyError> {
    if prefix != 31 && (host(address, prefix) == 0 || host(address, prefix) == subnet_size(prefix)
        - 1) {
        Some(PolicyError::NetworkOrBroadcastAddress)
    } else {
        None
    }
}

/// Every byte is zero.
pub open spec fn is_blank(bytes: Seq<u8>) -> bool {
    forall|i: int| 0 <= i < bytes.len() ==> #[trigger] bytes[i] == 0
}

/// Why an interface cannot carry a connection.
pub open spec fn interface_error(interface: InterfaceView) -> Option<PolicyError> {
    if interface.index == 0 || interface.stable_id.len() == 0 || vstd::utf8::encode_utf8(
        interface.stable_id,
    ).len() > 256 {
        Some(PolicyError::InvalidInterface)
    } else if interface.network_signature.len() == 0 || interface.network_signature.len() > 128
        || is_blank(interface.network_signature) {
        Some(PolicyError::UnknownAttachment)
    } else if !interface.is_up {
        Some(PolicyError::InterfaceDown)
    } else if !interface.is_hardware || interface.kind == InterfaceKind::Other {
        Some(PolicyError::NonPhysicalInterface)
    } else if !(8 <= interface.prefix_len <= 31) {
        Some(PolicyError::InvalidSubnet)
    } else if !private_or_link_local(interface.address) {
        Some(PolicyError::NonPrivateAddress)
    } else {
        host_error(interface.address, interface.prefix_len as int)
    }
}

/// Why a peer cannot be reached over an interface.
pub open spec fn peer_error(interface: InterfaceView, peer: Ipv4Addr) -> Option<PolicyError> {
    if interface_error(interface) is Some {
        interface_error(interface)
    } else if !private_or_link_local(peer) {
        Some(PolicyError::NonPrivateAddress)
    } else if interface.address == peer {
        Some(PolicyError::PeerIsLocal)
    } else if subnet(interface.address, interface.prefix_len as int) != subnet(
        peer,
        interface.prefix_len as int,
    ) {
        Some(PolicyError::OffLinkPeer)
    } else {
        host_error(peer, interface.prefix_len as int)
    }
}

/// Why a route does not lead straight out of an interface.
pub open spec fn route_error(interface: InterfaceView, route: RouteSnapshot) -> Option<PolicyError> {
    if route.interface_index != interface.index || route.source != interface.address {
        Some(PolicyError::WrongInterface)
    } else if route.next_hop.0 != 0 {
        Some(PolicyError::RoutedPeer)
    } else {
        None
    }
}

/// The interface and the peer that a connection is bound to.
pub struct LockView {
    pub selected: InterfaceView,
    pub peer: Ipv4Addr,
    pub revoked: bool,
}

impl LockView {
    /// What was validated when the lock was made.
    pub open spec fn wf(self) -> bool {
        peer_error(self.selected, self.peer) is None
    }

    pub open spec fn revalidated(
        self,
        current: Option<InterfaceView>,
        route: RouteSnapshot,
    ) -> (LockView, Result<(), PolicyError>) {
        let error = if current != Some(self.selected) {
            Some(PolicyError::InterfaceChanged)
        } else {
            route_error(self.selected, route)
        };
        if self.revoked {
            (self, Err(PolicyError::SessionClosed))
        } else {
            (LockView { revoked: error is Some, ..self }, verdict(error))
        }
    }

    pub open spec fn packet_error(
        self,
        local: Ipv4Addr,
        source: Ipv4Addr,
        arrival_interface: u32,
    ) -> Option<PolicyError> {
        if self.revoked {
            Some(PolicyError::SessionClosed)
        } else if local != self.selected.address || arrival_interface != self.selected.index {
            Some(PolicyError::WrongInterface)
        } else if source != self.peer {
            Some(PolicyError::OffLinkPeer)
        } else {
            None
        }
    }
}

#[derive(Clone)]
pub struct NetworkLock {
    selected: InterfaceSnapshot,
    peer: Ipv4Addr,
    revoked: bool,
}

impl View for NetworkLock {
    type V = LockView;

    closed spec fn view(&self) -> LockView {
        LockView { selected: self.selected@, peer: self.peer, revoked: self.revoked }
    }
}

/// Why no lock is made.
pub open spec fn lock_error(
    selected: InterfaceView,
    peer: Ipv4Addr,
    route: RouteSnapshot,
    allow_discovery: bool,
) -> Option<PolicyError> {
    if allow_discovery {
        Some(PolicyError::DiscoveryDisabled)
    } else if peer_error(selected, peer) is Some {
        peer_error(selected, peer)
    } else {
        route_error(selected, route)
    }
}

impl NetworkLock {
    pub fn new(
        selected: InterfaceSnapshot,
        peer: Ipv4Addr,
        route: RouteSnapshot,
        allow_discovery: bool,
    ) -> (lock: Result<NetworkLock, PolicyError>)
        ensures
            match lock_error(selected@, peer, route, allow_discovery) {
                Some(error) => lock == Err::<NetworkLock, _>(error),
                None => lock matches Ok(made) && made@.wf() && made@ == (LockView {
                    selected: selected@,
                    peer,
                    revoked: false,
                }),
            },
    {
        if allow_discovery {
            return Err(PolicyError::DiscoveryDisabled);
        }
        if let Err(error) = validate_interface(&selected) {
            return Err(error);
        }
        if let Err(error) = validate_peer(&selected, peer) {
            return Err(error);
        }
        if let Err(error) = validate_route(&selected, route) {
            return Err(error);
        }
        Ok(NetworkLock { selected, peer, revoked: false })
    }

    pub fn selected(&self) -> (selected: &InterfaceSnapshot)
        ensures
            selected@ == self@.selected,
    {
        &self.selected
    }

    pub fn peer(&self) -> (peer: Ipv4Addr)
        ensures
            peer == self@.peer,
    {
        self.peer
    }

    pub fn is_revoked(&self) -> (revoked: bool)
        ensures
            revoked == self@.revoked,
    {
        self.revoked
    }

    /// Revocation is sticky: restoring the old address must not silently resume input forwarding.
    pub fn revalidate(
        &mut self,
        current: Option<&InterfaceSnapshot>,
        route: RouteSnapshot,
    ) -> (result: Result<(), PolicyError>)
        ensures
            (final(self)@, result) == old(self)@.revalidated(
                match current {
                    Some(interface) => Some(interface@),
                    None => None,
                },
                route,
            ),
    {
        if self.revoked {
            return Err(PolicyError::SessionClosed);
        }
        let result = match current {
            Some(current) => if current.same(&self.selected) {
                validate_route(current, route)
            } else {
                Err(PolicyError::InterfaceChanged)
            },
            None => Err(PolicyError::InterfaceChanged),
        };
        if result.is_err() {
            self.revoked = true;
        }
        result
    }

    pub fn authorize_packet(
        &self,
        local: Ipv4Addr,
        source: Ipv4Addr,
        arrival_interface: u32,
    ) -> (result: Result<(), PolicyError>)
        ensures
            result == verdict(self@.packet_error(local, source, arrival_interface)),
    {
        if self.revoked {
            return Err(PolicyError::SessionClosed);
        }
        if local != self.selected.address || arrival_interface != self.selected.index {
            return Err(PolicyError::WrongInterface);
        }
        if source != self.peer {
            return Err(PolicyError::OffLinkPeer);
        }
        Ok(())
    }
}

pub fn is_private_or_link_local(address: Ipv4Addr) -> (allowed: bool)
    ensures
        allowed == private_or_link_local(address),
{
    address.is_private() || address.is_link_local()
}

/// Whether every byte is zero.
fn all_zero(bytes: &[u8]) -> (zero: bool)
    ensures
        zero == is_blank(bytes@),
{
    let mut index: usize = 0;
    while index < bytes.len()
        invariant
            index <= bytes@.len(),
            forall|i: int| 0 <= i < index ==> #[trigger] bytes@[i] == 0,
        decreases bytes@.len() - index,
    {
        if bytes[index] != 0 {
            return false;
        }
        index = index + 1;
    }
    true
}

pub fn validate_interface(interface: &InterfaceSnapshot) -> (result: Result<(), PolicyError>)
    ensures
        result == verdict(interface_error(interface@)),
{
    if interface.index == 0 || interface.stable_id.as_str().is_empty()
        || interface.stable_id.as_str().as_bytes().len() > 256 {
        return Err(PolicyError::InvalidInterface);
    }
    if interface.network_signature.is_empty() || interface.network_signature.len() > 128
        || all_zero(interface.network_signature.as_slice()) {
        return Err(PolicyError::UnknownAttachment);
    }
    if !interface.is_up {
        return Err(PolicyError::InterfaceDown);
    }
    if !interface.is_hardware || interface.kind == InterfaceKind::Other {
        return Err(PolicyError::NonPhysicalInterface);
    }
    if !(8 <= interface.prefix_len && interface.prefix_len <= 31) {
        return Err(PolicyError::InvalidSubnet);
    }
    if !is_private_or_link_local(interface.address) {
        return Err(PolicyError::NonPrivateAddress);
    }
    validate_host(interface.address, interface.prefix_len)
}

pub fn validate_peer(interface: &InterfaceSnapshot, peer: Ipv4Addr) -> (result: Result<
    (),
    PolicyError,
>)
    ensures
        result == verdict(peer_error(interface@, peer)),
{
    if let Err(error) = validate_interface(interface) {
        return Err(error);
    }
    if !is_private_or_link_local(peer) {
        return Err(PolicyError::NonPrivateAddress);
    }
    if interface.address == peer {
        return Err(PolicyError::PeerIsLocal);
    }
    let size: u32 = addresses(interface.prefix_len);
    if interface.address.0 / size != peer.0 / size {
        return Err(PolicyError::OffLinkPeer);
    }
    validate_host(peer, interface.prefix_len)
}

/// How many addresses a subnet with this prefix has.
fn addresses(prefix: u8) -> (size: u32)
    requires
        8 <= prefix <= 32,
    ensures
        size == subnet_size(prefix as int),
        0 < size,
{
    let mut size: u32 = 1;
    let mut place: u8 = 32;
    while place > prefix
        invariant
            8 <= prefix <= place <= 32,
            size == subnet_size(place as int),
            0 < size,
        decreases place,
    {
        proof {
            lemma_subnet_size(place - 1);
        }
        place = place - 1;
        size = size * 2;
    }
    size
}

fn validate_host(address: Ipv4Addr, prefix: u8) -> (result: Result<(), PolicyError>)
    requires
        8 <= prefix <= 32,
    ensures
        result == verdict(host_error(address, prefix as int)),
{
    if prefix == 31 {
        return Ok(());
    }
    let size: u32 = addresses(prefix);
    let host: u32 = address.0 % size;
    if host == 0 || host == size - 1 {
        return Err(PolicyError::NetworkOrBroadcastAddress);
    }
    Ok(())
}

fn validate_route(interface: &InterfaceSnapshot, route: RouteSnapshot) -> (result: Result<
    (),
    PolicyError,
>)
    ensures
        result == verdict(route_error(interface@, route)),
{
    if route.interface_index != interface.index || route.source != interface.address {
        return Err(PolicyError::WrongInterface);
    }
    if !route.next_hop.is_unspecified() {
        return Err(PolicyError::RoutedPeer);
    }
    Ok(())
}

/// A revoked lock stays revoked, whatever the interface and the route turn into, and authorizes no
/// packet.
pub proof fn law_revocation_is_permanent(
    lock: LockView,
    current: Option<InterfaceView>,
    route: RouteSnapshot,
    local: Ipv4Addr,
    source: Ipv4Addr,
    arrival_interface: u32,
)
    requires
        lock.revoked,
    ensures
        lock.revalidated(current, route) == (lock, Err::<(), _>(PolicyError::SessionClosed)),
        lock.packet_error(local, source, arrival_interface) == Some(PolicyError::SessionClosed),
{
}

/// A check that fails revokes the lock, and one that passes changes nothing.
pub proof fn law_a_failed_check_revokes(
    lock: LockView,
    current: Option<InterfaceView>,
    route: RouteSnapshot,
)
    ensures
        lock.revalidated(current, route).0.revoked == (lock.revalidated(current, route).1 is Err),
        lock.revalidated(current, route).0.selected == lock.selected,
        lock.revalidated(current, route).0.peer == lock.peer,
        lock.wf() ==> lock.revalidated(current, route).0.wf(),
{
}

/// A packet passes only from the one peer, which is another machine on the same subnet with an
/// address that is never routed on the Internet.
pub proof fn law_authorized_packets_stay_on_the_link(
    lock: LockView,
    local: Ipv4Addr,
    source: Ipv4Addr,
    arrival_interface: u32,
)
    requires
        lock.wf(),
        lock.packet_error(local, source, arrival_interface) is None,
    ensures
        source == lock.peer,
        local == lock.selected.address,
        source != local,
        arrival_interface == lock.selected.index,
        private_or_link_local(source),
        subnet(source, lock.selected.prefix_len as int) == subnet(
            local,
            lock.selected.prefix_len as int,
        ),
{
}

/// The first `prefix` bits of two addresses are the same.
pub open spec fn same_leading_bits(a: Ipv4Addr, b: Ipv4Addr, prefix: nat) -> bool {
    a.0 as int / pow2((32 - prefix) as nat) as int == b.0 as int / pow2((32 - prefix) as nat) as int
}

/// The bits of an address behind its first `prefix` ones.
pub open spec fn trailing_bits(address: Ipv4Addr, prefix: nat) -> int {
    address.0 as int % pow2((32 - prefix) as nat) as int
}

/// The addresses that never leave a site: 10.0.0.0 to 10.255.255.255, 172.16.0.0 to 172.31.255.255,
/// 192.168.0.0 to 192.168.255.255, and 169.254.0.0 to 169.254.255.255.
pub open spec fn stays_on_site(address: Ipv4Addr) -> bool {
    ||| 0x0a00_0000 <= address.0 <= 0x0aff_ffff
    ||| 0xac10_0000 <= address.0 <= 0xac1f_ffff
    ||| 0xc0a8_0000 <= address.0 <= 0xc0a8_ffff
    ||| 0xa9fe_0000 <= address.0 <= 0xa9fe_ffff
}

/// An address of a subnet that names one machine.
pub open spec fn names_a_machine(address: Ipv4Addr, prefix: nat) -> bool {
    ||| prefix == 31
    ||| 0 < trailing_bits(address, prefix) < pow2((32 - prefix) as nat) - 1
}

proof fn lemma_subnet_size_is_a_power(prefix: int)
    requires
        0 <= prefix <= 32,
    ensures
        subnet_size(prefix) == pow2((32 - prefix) as nat),
    decreases 32 - prefix,
{
    if prefix == 32 {
        vstd::arithmetic::power2::lemma2_to64();
    } else {
        lemma_subnet_size_is_a_power(prefix + 1);
        vstd::arithmetic::power2::lemma_pow2_unfold((32 - prefix) as nat);
    }
}

proof fn lemma_site_addresses(address: Ipv4Addr)
    ensures
        private_or_link_local(address) == stays_on_site(address),
{
}

/// How many bytes an interface's identifier takes.
pub open spec fn identifier_bytes(interface: InterfaceView) -> nat {
    vstd::utf8::encode_utf8(interface.stable_id).len()
}

/// An interface is accepted exactly where it can be identified by 1 to 256 bytes and a nonzero
/// index, its attachment is known by 1 to 128 bytes that are not all zero, it is up, it is hardware
/// of one of the two physical kinds, its prefix lies between 8 and 31, and its address stays on the
/// site and names a machine of that subnet.
pub proof fn law_which_interfaces_are_accepted(interface: InterfaceView)
    ensures
        interface_error(interface) is None <==> {
            &&& interface.index > 0
            &&& interface.stable_id.len() > 0
            &&& identifier_bytes(interface) <= 256
            &&& 1 <= interface.network_signature.len() <= 128
            &&& exists|i: int|
                0 <= i < interface.network_signature.len()
                    && #[trigger] interface.network_signature[i] != 0
            &&& interface.is_up
            &&& interface.is_hardware
            &&& interface.kind == InterfaceKind::Ethernet || interface.kind == InterfaceKind::WiFi
            &&& 8 <= interface.prefix_len <= 31
            &&& stays_on_site(interface.address)
            &&& names_a_machine(interface.address, interface.prefix_len as nat)
        },
{
    lemma_site_addresses(interface.address);
    if 8 <= interface.prefix_len <= 31 {
        lemma_subnet_size_is_a_power(interface.prefix_len as int);
        lemma_subnet_size(interface.prefix_len as int);
        lemma_place_in_subnet(interface.address, interface.prefix_len as int);
    }
}

proof fn lemma_place_in_subnet(address: Ipv4Addr, prefix: int)
    requires
        8 <= prefix <= 32,
    ensures
        0 <= host(address, prefix) < subnet_size(prefix),
{
    lemma_subnet_size(prefix);
    vstd::arithmetic::div_mod::lemma_mod_bound(address.0 as int, subnet_size(prefix) as int);
}

/// Ethernet and Wi-Fi are alike to the policy, and so are two names for one interface.
pub proof fn law_physical_kinds_are_alike(
    interface: InterfaceView,
    name: Seq<char>,
    peer: Ipv4Addr,
    route: RouteSnapshot,
)
    requires
        interface.kind == InterfaceKind::Ethernet || interface.kind == InterfaceKind::WiFi,
    ensures
        forall|kind: InterfaceKind|
            kind == InterfaceKind::Ethernet || kind == InterfaceKind::WiFi ==> {
                let other = InterfaceView { kind, name, ..interface };
                &&& #[trigger] interface_error(InterfaceView { kind, name, ..interface })
                    == interface_error(interface)
                &&& peer_error(other, peer) == peer_error(interface, peer)
                &&& route_error(other, route) == route_error(interface, route)
            },
{
}

/// What is wrong with an interface is named by the first fault in this order: its identity, its
/// attachment, that it is down, that it is not physical, its prefix, its address.
pub proof fn law_interface_faults_are_named(interface: InterfaceView)
    ensures
        match interface_error(interface) {
            None => true,
            Some(PolicyError::InvalidInterface) => interface.index == 0
                || interface.stable_id.len() == 0 || identifier_bytes(interface) > 256,
            Some(PolicyError::UnknownAttachment) => interface.network_signature.len() == 0
                || interface.network_signature.len() > 128 || forall|i: int|
                0 <= i < interface.network_signature.len()
                    ==> #[trigger] interface.network_signature[i] == 0,
            Some(PolicyError::InterfaceDown) => !interface.is_up,
            Some(PolicyError::NonPhysicalInterface) => interface.is_up && (!interface.is_hardware
                || interface.kind == InterfaceKind::Other),
            Some(PolicyError::InvalidSubnet) => interface.is_up && interface.is_hardware && (
            interface.prefix_len < 8 || interface.prefix_len > 31),
            Some(PolicyError::NonPrivateAddress) => interface.is_up && interface.is_hardware
                && 8 <= interface.prefix_len <= 31 && !stays_on_site(interface.address),
            Some(PolicyError::NetworkOrBroadcastAddress) => 8 <= interface.prefix_len <= 30
                && stays_on_site(interface.address) && (trailing_bits(
                interface.address,
                interface.prefix_len as nat,
            ) == 0 || trailing_bits(interface.address, interface.prefix_len as nat) == pow2(
                (32 - interface.prefix_len) as nat,
            ) - 1),
            Some(_) => false,
        },
{
    lemma_site_addresses(interface.address);
    if 8 <= interface.prefix_len <= 31 {
        lemma_subnet_size_is_a_power(interface.prefix_len as int);
    }
}

/// A peer is accepted over an accepted interface exactly where it is another machine of the same
/// subnet: its leading bits are those of the interface, its address stays on the site, is not the
/// interface's own, and names a machine. Two machines of one subnet accept each other.
pub proof fn law_which_peers_are_accepted(interface: InterfaceView, peer: Ipv4Addr)
    requires
        interface_error(interface) is None,
    ensures
        peer_error(interface, peer) is None <==> {
            &&& peer != interface.address
            &&& stays_on_site(peer)
            &&& same_leading_bits(interface.address, peer, interface.prefix_len as nat)
            &&& names_a_machine(peer, interface.prefix_len as nat)
        },
        peer_error(interface, peer) is None ==> {
            let theirs = InterfaceView { address: peer, ..interface };
            interface_error(theirs) is None && peer_error(theirs, interface.address) is None
        },
        match peer_error(interface, peer) {
            None => true,
            Some(PolicyError::NonPrivateAddress) => !stays_on_site(peer),
            Some(PolicyError::PeerIsLocal) => peer == interface.address,
            Some(PolicyError::OffLinkPeer) => !same_leading_bits(
                interface.address,
                peer,
                interface.prefix_len as nat,
            ),
            Some(PolicyError::NetworkOrBroadcastAddress) => !names_a_machine(
                peer,
                interface.prefix_len as nat,
            ),
            Some(_) => false,
        },
{
    lemma_site_addresses(interface.address);
    lemma_site_addresses(peer);
    lemma_subnet_size_is_a_power(interface.prefix_len as int);
    lemma_subnet_size(interface.prefix_len as int);
    lemma_place_in_subnet(peer, interface.prefix_len as int);
    lemma_place_in_subnet(interface.address, interface.prefix_len as int);
}

/// A refused interface refuses every peer, for its own fault.
pub proof fn law_a_refused_interface_refuses_every_peer(interface: InterfaceView, peer: Ipv4Addr)
    requires
        interface_error(interface) is Some,
    ensures
        peer_error(interface, peer) == interface_error(interface),
{
}

/// A route is accepted exactly where it leaves by the selected interface from its own address with
/// no gateway in between.
pub proof fn law_which_routes_are_accepted(interface: InterfaceView, route: RouteSnapshot)
    ensures
        route_error(interface, route) is None <==> route == (RouteSnapshot {
            interface_index: interface.index,
            source: interface.address,
            next_hop: Ipv4Addr(0),
        }),
        route_error(interface, route) == Some(PolicyError::RoutedPeer) ==> route.next_hop.0 != 0
            && route.source == interface.address,
        route_error(interface, route) is Some ==> route_error(interface, route) == Some(
            PolicyError::RoutedPeer,
        ) || route_error(interface, route) == Some(PolicyError::WrongInterface),
        route.interface_index != interface.index || route.source != interface.address
            ==> route_error(interface, route) == Some(PolicyError::WrongInterface),
{
}

/// A lock is made exactly where discovery is not asked for and interface, peer and route are all
/// accepted. As long as nothing changes it goes on passing both its checks and the peer's packets.
pub proof fn law_an_unchanged_network_stays_open(
    selected: InterfaceView,
    peer: Ipv4Addr,
    route: RouteSnapshot,
)
    requires
        lock_error(selected, peer, route, false) is None,
    ensures
        interface_error(selected) is None,
        peer_error(selected, peer) is None,
        route_error(selected, route) is None,
        lock_error(selected, peer, route, true) is Some,
        ({
            let lock = LockView { selected, peer, revoked: false };
            &&& lock.revalidated(Some(selected), route) == (lock, Ok::<(), PolicyError>(()))
            &&& lock.packet_error(selected.address, peer, selected.index) is None
        }),
{
}

/// Accepted parts make a lock.
pub proof fn law_accepted_parts_make_a_lock(
    selected: InterfaceView,
    peer: Ipv4Addr,
    route: RouteSnapshot,
)
    ensures
        peer_error(selected, peer) is None && route_error(selected, route) is None
            ==> lock_error(selected, peer, route, false) is None,
        peer_error(selected, peer) is Some ==> lock_error(selected, peer, route, false)
            == peer_error(selected, peer),
{
}

/// Any change of the interface, down to the attachment that no address shows, revokes the lock; so
/// does a route that is no longer direct. A packet that differs in any of the three from what the
/// lock is bound to is refused.
pub proof fn law_every_change_revokes(
    lock: LockView,
    current: Option<InterfaceView>,
    route: RouteSnapshot,
    local: Ipv4Addr,
    source: Ipv4Addr,
    arrival_interface: u32,
)
    requires
        !lock.revoked,
    ensures
        current != Some(lock.selected) ==> lock.revalidated(current, route).1 == Err::<(), _>(
            PolicyError::InterfaceChanged,
        ),
        current == Some(lock.selected) && route_error(lock.selected, route) is Some
            ==> lock.revalidated(current, route).1 == Err::<(), _>(
            route_error(lock.selected, route)->0,
        ),
        lock.revalidated(current, route).1 is Err ==> lock.revalidated(current, route).0.revoked,
        local == lock.selected.address && source == lock.peer && arrival_interface
            == lock.selected.index <==> lock.packet_error(local, source, arrival_interface) is None,
        local == lock.selected.address && arrival_interface == lock.selected.index && source
            != lock.peer ==> lock.packet_error(local, source, arrival_interface) == Some(
            PolicyError::OffLinkPeer,
        ),
        local != lock.selected.address || arrival_interface != lock.selected.index
            ==> lock.packet_error(local, source, arrival_interface) == Some(
            PolicyError::WrongInterface,
        ),
{
}

} // verus!
