use monhop_transport::addr::{Ipv4Addr, SocketAddrV4};
use monhop_transport::crypto::{CertificateFingerprint, DeviceIdentity};
use monhop_transport::pairing::{
    decode_hex, encode_pair_frame, initiates_connection, opposite_platform, validate_pair_frame,
    ConfirmedPeerRecord, PairFrameKind, PairingError, PairingOffer, MAX_PAIRING_CERT_BYTES,
    MAX_PAIRING_CODE_BYTES, MAX_PEER_RECORD_BYTES, PAIRING_PORT,
};
use monhop_transport::protocol::Platform;

fn endpoint(text: &str) -> SocketAddrV4 {
    let (ip, port) = text.split_once(':').unwrap();
    SocketAddrV4::new(
        Ipv4Addr::parse(ip.as_bytes()).unwrap(),
        port.parse().unwrap(),
    )
}

fn offer(identity: &DeviceIdentity) -> PairingOffer {
    PairingOffer::new(
        endpoint("192.168.1.2:24872"),
        identity.certificate_der(),
    )
    .unwrap()
}

#[test]
fn public_code_and_protected_peer_round_trip() {
    let local = DeviceIdentity::generate().unwrap();
    let remote = DeviceIdentity::generate().unwrap();
    let peer = offer(&remote);
    assert!(PairingOffer::parse(&peer.to_code()).unwrap() == peer);
    let record = ConfirmedPeerRecord::new(local.fingerprint(), peer).unwrap();
    assert!(
        ConfirmedPeerRecord::decode(&record.encode(), local.fingerprint()).unwrap() == record
    );
    assert!(record.encode().len() <= MAX_PEER_RECORD_BYTES);
}

#[test]
fn platform_travels_in_code_and_record_and_legacy_forms_stay_readable() {
    let local = DeviceIdentity::generate().unwrap();
    let remote = DeviceIdentity::generate().unwrap();
    let peer = offer(&remote).with_platform(Platform::MacOs);
    assert!(peer.to_code().starts_with("LKM2:mac:"));
    let parsed = PairingOffer::parse(&peer.to_code()).unwrap();
    assert_eq!(parsed.platform(), Some(Platform::MacOs));
    assert!(parsed == peer);
    let record = ConfirmedPeerRecord::new(local.fingerprint(), peer.clone()).unwrap();
    let decoded = ConfirmedPeerRecord::decode(&record.encode(), local.fingerprint()).unwrap();
    assert_eq!(decoded.peer().platform(), Some(Platform::MacOs));
    assert!(decoded == record);

    let legacy_code = offer(&remote).to_code();
    assert!(legacy_code.starts_with("LKM1:"));
    assert_eq!(PairingOffer::parse(&legacy_code).unwrap().platform(), None);
    let mut legacy = Vec::new();
    legacy.extend_from_slice(b"LKMP\x01");
    legacy.extend_from_slice(local.fingerprint().as_bytes());
    legacy.extend_from_slice(&[192, 168, 1, 2]);
    legacy.extend_from_slice(&PAIRING_PORT.to_be_bytes());
    legacy.extend_from_slice(&(remote.certificate_der().len() as u16).to_be_bytes());
    legacy.extend_from_slice(remote.certificate_der());
    let decoded = ConfirmedPeerRecord::decode(&legacy, local.fingerprint()).unwrap();
    assert_eq!(decoded.peer().platform(), None);
    assert!(decoded.peer() == &offer(&remote));
}

#[test]
fn exactly_one_side_initiates_for_every_platform_pairing() {
    let a = DeviceIdentity::generate().unwrap().fingerprint();
    let b = DeviceIdentity::generate().unwrap().fingerprint();
    assert!(initiates_connection(
        Platform::Windows,
        a,
        Some(Platform::MacOs),
        b
    ));
    assert!(!initiates_connection(
        Platform::MacOs,
        b,
        Some(Platform::Windows),
        a
    ));
    assert!(initiates_connection(Platform::Windows, a, None, b));
    assert!(!initiates_connection(Platform::MacOs, a, None, b));
    for platform in [Platform::MacOs, Platform::Windows] {
        let ab = initiates_connection(platform, a, Some(platform), b);
        let ba = initiates_connection(platform, b, Some(platform), a);
        assert_ne!(ab, ba);
    }
}

#[test]
fn malformed_public_codes_fail_before_use() {
    let identity = DeviceIdentity::generate().unwrap();
    let valid = offer(&identity).to_code();
    for value in [
        "",
        "LKM2:a:b:c",
        "LKM2:linux:192.168.1.2:24872:00",
        "LKM1:192.168.1.2:24872:zz",
        &"x".repeat(MAX_PAIRING_CODE_BYTES + 1),
        &format!("{valid}:extra"),
    ] {
        assert!(PairingOffer::parse(value).is_err());
    }
    for address in [
        "0.0.0.0:24872",
        "127.0.0.1:24872",
        "8.8.8.8:24872",
        "224.0.0.1:24872",
        "192.168.1.2:0",
        "192.168.1.2:24873",
    ] {
        assert!(
            PairingOffer::new(endpoint(address), identity.certificate_der()).is_err()
        );
    }
    assert!(
        PairingOffer::new(
            endpoint("192.168.1.2:24872"),
            &[1; MAX_PAIRING_CERT_BYTES + 1]
        )
        .is_err()
    );
    assert!(PairingOffer::new(endpoint("192.168.1.2:24872"), b"not DER").is_err());
}

#[test]
fn trust_record_rejects_self_wrong_local_and_nonexact_records() {
    let local = DeviceIdentity::generate().unwrap();
    let remote = DeviceIdentity::generate().unwrap();
    assert!(ConfirmedPeerRecord::new(local.fingerprint(), offer(&local)).is_err());
    let bytes = ConfirmedPeerRecord::new(local.fingerprint(), offer(&remote))
        .unwrap()
        .encode();
    assert!(matches!(
        ConfirmedPeerRecord::decode(&bytes, remote.fingerprint()),
        Err(PairingError::WrongLocalIdentity)
    ));
    for end in 0..bytes.len() {
        assert!(ConfirmedPeerRecord::decode(&bytes[..end], local.fingerprint()).is_err());
    }
    let mut trailing = bytes.clone();
    trailing.push(0);
    assert!(ConfirmedPeerRecord::decode(&trailing, local.fingerprint()).is_err());
    let mut version = bytes;
    version[4] = 3;
    assert!(ConfirmedPeerRecord::decode(&version, local.fingerprint()).is_err());
    assert!(
        ConfirmedPeerRecord::decode(&vec![0; MAX_PEER_RECORD_BYTES + 1], local.fingerprint())
            .is_err()
    );
}

#[test]
fn pairing_messages_bind_both_complete_identities_and_phase() {
    let a = CertificateFingerprint::from_certificate_der(b"a".as_slice());
    let b = CertificateFingerprint::from_certificate_der(b"b".as_slice());
    let message = encode_pair_frame(PairFrameKind::Hello, a, b);
    assert!(validate_pair_frame(&message, PairFrameKind::Hello, a, b).is_ok());
    assert!(validate_pair_frame(&message, PairFrameKind::Saved, a, b).is_err());
    assert!(validate_pair_frame(&message, PairFrameKind::Hello, b, a).is_err());
    for index in 0..message.len() {
        let mut bad = message;
        bad[index] ^= 1;
        assert!(validate_pair_frame(&bad, PairFrameKind::Hello, a, b).is_err());
    }
    assert!(validate_pair_frame(&message[..69], PairFrameKind::Hello, a, b).is_err());
}

#[test]
fn codes_spell_out_the_address_and_the_certificate() {
    let identity = DeviceIdentity::generate().unwrap();
    let hex: String = identity
        .certificate_der()
        .iter()
        .map(|byte| format!("{:02X}", byte))
        .collect();
    let peer = offer(&identity);
    assert_eq!(peer.to_code(), format!("LKM1:192.168.1.2:24872:{}", hex));
    assert_eq!(
        peer.clone().with_platform(Platform::Windows).to_code(),
        format!("LKM2:win:192.168.1.2:24872:{}", hex)
    );
    assert_eq!(peer.endpoint(), endpoint("192.168.1.2:24872"));
    let lower = PairingOffer::parse(&format!("LKM1:192.168.1.2:24872:{}", hex.to_lowercase()));
    assert!(lower.unwrap() == peer);
}

#[test]
fn a_record_is_laid_out_in_the_current_form() {
    let local = DeviceIdentity::generate().unwrap();
    let remote = DeviceIdentity::generate().unwrap();
    let record =
        ConfirmedPeerRecord::new(local.fingerprint(), offer(&remote).with_platform(Platform::MacOs))
            .unwrap();
    let bytes = record.encode();
    let length = remote.certificate_der().len();
    let mut expected = b"LKMP\x02".to_vec();
    expected.extend_from_slice(local.fingerprint().as_bytes());
    expected.push(2);
    expected.extend_from_slice(&[192, 168, 1, 2, 0x61, 0x28]);
    expected.extend_from_slice(&[(length / 256) as u8, (length % 256) as u8]);
    expected.extend_from_slice(remote.certificate_der());
    assert_eq!(bytes, expected);
    assert!(record.local() == local.fingerprint());
}

#[test]
fn an_offer_names_the_peer_that_is_pinned() {
    let identity = DeviceIdentity::generate().unwrap();
    let peer = offer(&identity);
    assert!(peer.fingerprint() == identity.fingerprint());
    let pinned = peer.verified_peer().ok().unwrap();
    assert!(pinned.fingerprint() == identity.fingerprint());
    assert_eq!(pinned.certificate_der(), identity.certificate_der());
    assert!(peer.same(&peer.duplicate()));
}

#[test]
fn refused_offers_say_why() {
    let identity = DeviceIdentity::generate().unwrap();
    assert!(matches!(
        PairingOffer::new(endpoint("8.8.8.8:24872"), identity.certificate_der()),
        Err(PairingError::InvalidAddress)
    ));
    assert!(matches!(
        PairingOffer::new(endpoint("192.168.1.2:24872"), b"not DER".as_slice()),
        Err(PairingError::InvalidCertificate)
    ));
    assert!(matches!(
        ConfirmedPeerRecord::new(identity.fingerprint(), offer(&identity)),
        Err(PairingError::SameIdentity)
    ));
    assert!(matches!(
        PairingOffer::parse("LKM3:192.168.1.2:24872:00"),
        Err(PairingError::InvalidCode)
    ));
}

#[test]
fn hexadecimal_text_is_read_in_pairs() {
    assert_eq!(decode_hex(b"00fFa0".as_slice()), Ok(vec![0, 255, 160]));
    for text in ["", "0", "0g", "000"] {
        assert_eq!(
            decode_hex(text.as_bytes()),
            Err(PairingError::InvalidCode)
        );
    }
}

#[test]
fn pairing_messages_are_spelled_out() {
    let a = fingerprint_of([1; 32]);
    let b = fingerprint_of([2; 32]);
    let mut expected = b"LKP1\x01\x02".to_vec();
    expected.extend_from_slice(&[1; 32]);
    expected.extend_from_slice(&[2; 32]);
    assert_eq!(
        encode_pair_frame(PairFrameKind::Saved, a, b).to_vec(),
        expected
    );
}

#[test]
fn each_platform_has_its_opposite() {
    assert_eq!(opposite_platform(Platform::MacOs), Platform::Windows);
    assert_eq!(opposite_platform(Platform::Windows), Platform::MacOs);
}

fn fingerprint_of(bytes: [u8; 32]) -> CertificateFingerprint {
    let text: String = bytes.iter().map(|byte| format!("{byte:02x}")).collect();
    CertificateFingerprint::parse_full(&text).expect("full fingerprint")
}
