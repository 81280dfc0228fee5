use monhop_transport::addr::Ipv4Addr;
use monhop_transport::policy::{
    is_private_or_link_local, validate_interface, validate_peer, InterfaceKind, InterfaceSnapshot,
    NetworkLock, PolicyError, RouteSnapshot,
};

fn address(text: &str) -> Ipv4Addr {
    Ipv4Addr::parse(text.as_bytes()).unwrap()
}

fn selected() -> InterfaceSnapshot {
    InterfaceSnapshot {
        stable_id: "physical-adapter-id".into(),
        name: "Ethernet".into(),
        index: 7,
        address: Ipv4Addr::new(192, 168, 50, 10),
        prefix_len: 24,
        kind: InterfaceKind::Ethernet,
        is_hardware: true,
        is_up: true,
        network_signature: vec![1; 32],
    }
}

fn route() -> RouteSnapshot {
    RouteSnapshot {
        interface_index: 7,
        source: selected().address,
        next_hop: Ipv4Addr(0),
    }
}

fn lock() -> NetworkLock {
    NetworkLock::new(selected(), Ipv4Addr::new(192, 168, 50, 12), route(), false).unwrap()
}

#[test]
fn only_exact_private_peer_on_selected_interface_is_authorized() {
    let lock = lock();
    assert!(
        lock.authorize_packet(selected().address, lock.peer(), 7)
            .is_ok()
    );
    assert_eq!(
        lock.authorize_packet(selected().address, lock.peer(), 8),
        Err(PolicyError::WrongInterface)
    );
    assert_eq!(
        lock.authorize_packet(selected().address, Ipv4Addr::new(192, 168, 50, 13), 7),
        Err(PolicyError::OffLinkPeer)
    );
}

#[test]
fn unknown_attachment_cannot_authorize_a_connection() {
    let mut interface = selected();
    for signature in [vec![], vec![0; 32], vec![1; 129]] {
        interface.network_signature = signature;
        assert_eq!(
            validate_interface(&interface),
            Err(PolicyError::UnknownAttachment)
        );
    }
}

#[test]
fn off_subnet_and_wan_peers_are_rejected_before_binding() {
    for peer in [
        "8.8.8.8",
        "1.1.1.1",
        "127.0.0.1",
        "0.0.0.0",
        "224.0.0.1",
        "255.255.255.255",
        "100.64.0.1",
        "192.0.2.2",
    ] {
        assert_eq!(
            validate_peer(&selected(), address(peer)),
            Err(PolicyError::NonPrivateAddress)
        );
    }
    for peer in ["192.168.51.12", "10.0.0.2", "172.16.0.2"] {
        assert_eq!(
            validate_peer(&selected(), address(peer)),
            Err(PolicyError::OffLinkPeer)
        );
    }
    for peer in ["192.168.50.0", "192.168.50.255"] {
        assert_eq!(
            validate_peer(&selected(), address(peer)),
            Err(PolicyError::NetworkOrBroadcastAddress)
        );
    }
}

#[test]
fn on_subnet_peer_with_gateway_is_still_rejected() {
    let route = RouteSnapshot {
        next_hop: Ipv4Addr::new(192, 168, 50, 1),
        ..route()
    };
    assert_eq!(
        NetworkLock::new(selected(), lock().peer(), route, false).err().unwrap(),
        PolicyError::RoutedPeer
    );
}

#[test]
fn vpn_and_virtual_ethernet_adapters_are_not_physical() {
    let mut interface = selected();
    interface.is_hardware = false;
    assert_eq!(
        validate_interface(&interface),
        Err(PolicyError::NonPhysicalInterface)
    );
    interface.is_hardware = true;
    interface.kind = InterfaceKind::Other;
    assert_eq!(
        validate_interface(&interface),
        Err(PolicyError::NonPhysicalInterface)
    );
}

#[test]
fn interface_changes_revoke_permanently_without_fallback() {
    let mut changed = selected();
    changed.index = 8;
    let mut lock = lock();
    assert_eq!(
        lock.revalidate(Some(&changed), route()),
        Err(PolicyError::InterfaceChanged)
    );
    assert_eq!(
        lock.revalidate(Some(&selected()), route()),
        Err(PolicyError::SessionClosed)
    );
    assert_eq!(
        lock.authorize_packet(selected().address, lock.peer(), 7),
        Err(PolicyError::SessionClosed)
    );
}

#[test]
fn wifi_network_change_is_detected_even_with_same_ip() {
    let mut changed = selected();
    changed.network_signature[0] = 2;
    assert_eq!(
        lock().revalidate(Some(&changed), route()),
        Err(PolicyError::InterfaceChanged)
    );
    assert_eq!(
        lock().revalidate(None, route()),
        Err(PolicyError::InterfaceChanged)
    );
}

#[test]
fn changed_gateway_or_egress_revokes_session() {
    let mut lock = lock();
    assert_eq!(
        lock.revalidate(
            Some(&selected()),
            RouteSnapshot {
                interface_index: 88,
                ..route()
            }
        ),
        Err(PolicyError::WrongInterface)
    );
    assert!(lock.is_revoked());
}

#[test]
fn direct_cable_slash31_is_valid_but_slash32_is_not() {
    let interface = InterfaceSnapshot {
        prefix_len: 31,
        ..selected()
    };
    assert!(validate_peer(&interface, Ipv4Addr::new(192, 168, 50, 11)).is_ok());
    assert_eq!(
        validate_interface(&InterfaceSnapshot {
            prefix_len: 32,
            ..interface
        }),
        Err(PolicyError::InvalidSubnet)
    );
}

#[test]
fn invalid_masks_never_panic_or_permit_wildcards() {
    for prefix_len in [0, 1, 7, 32, 33, 255] {
        assert_eq!(
            validate_interface(&InterfaceSnapshot {
                prefix_len,
                ..selected()
            }),
            Err(PolicyError::InvalidSubnet)
        );
    }
    assert_eq!(
        NetworkLock::new(selected(), lock().peer(), route(), true).err().unwrap(),
        PolicyError::DiscoveryDisabled
    );
}

#[test]
fn interfaces_are_refused_for_the_first_reason_that_holds() {
    let mut interface = selected();
    interface.index = 0;
    assert_eq!(
        validate_interface(&interface),
        Err(PolicyError::InvalidInterface)
    );
    let mut interface = selected();
    interface.is_up = false;
    assert_eq!(
        validate_interface(&interface),
        Err(PolicyError::InterfaceDown)
    );
    let mut interface = selected();
    interface.address = Ipv4Addr::new(8, 8, 8, 8);
    assert_eq!(
        validate_interface(&interface),
        Err(PolicyError::NonPrivateAddress)
    );
    assert!(validate_interface(&selected()).is_ok());
}

#[test]
fn private_and_link_local_addresses_are_told_from_the_rest() {
    for text in ["10.0.0.1", "172.16.0.1", "172.31.255.254", "192.168.0.1", "169.254.1.1"] {
        assert!(is_private_or_link_local(address(text)), "{}", text);
    }
    for text in ["11.0.0.1", "172.15.0.1", "172.32.0.1", "192.169.0.1", "169.253.1.1"] {
        assert!(!is_private_or_link_local(address(text)), "{}", text);
    }
}

#[test]
fn addresses_are_read_as_four_plain_decimal_bytes() {
    assert_eq!(address("192.168.50.12"), Ipv4Addr::new(192, 168, 50, 12));
    assert_eq!(address("192.168.50.12").octets(), [192, 168, 50, 12]);
    for text in ["", "1.2.3", "1.2.3.4.5", "256.1.1.1", "01.2.3.4", "1.2.3.x", " 1.2.3.4"] {
        assert_eq!(Ipv4Addr::parse(text.as_bytes()), None, "{}", text);
    }
    let mut written = String::new();
    Ipv4Addr::new(10, 0, 255, 7).push_text(&mut written);
    assert_eq!(written, "10.0.255.7");
}

#[test]
fn a_failed_check_revokes_for_good() {
    let mut lock = lock();
    assert_eq!(
        lock.revalidate(None, route()),
        Err(PolicyError::InterfaceChanged)
    );
    assert!(lock.is_revoked());
    assert_eq!(
        lock.authorize_packet(selected().address, lock.peer(), 7),
        Err(PolicyError::SessionClosed)
    );
    assert_eq!(lock.selected().index, 7);
}

#[test]
fn refusals_have_their_texts() {
    assert_eq!(
        PolicyError::DiscoveryDisabled.message(),
        "discovery is not supported in this version"
    );
}
