use monhop_transport::crypto::{
    import_generated, judge_identity, private_key_der_for_protected_storage, validate_certificate_length,
    validate_private_key_length, CertificateFingerprint, CryptoError, DeviceIdentity, KeyFindings,
    KeyMatch, SecretBytes, VerifiedPeer, LOCAL_TLS_SERVER_NAME, MAX_CERTIFICATE_DER_LENGTH,
    MAX_PRIVATE_KEY_DER_LENGTH,
};

/// The digest of the three bytes "abc".
const ABC: &str = "BA7816BF8F01CFEA414140DE5DAE2223B00361A396177A9CB410FF61F20015AD";

const FOUND: KeyFindings = KeyFindings {
    loaded: true,
    signs_with_p256: true,
    keys: KeyMatch::Matches,
};

fn pin(identity: &DeviceIdentity) -> Result<VerifiedPeer, CryptoError> {
    VerifiedPeer::from_certificate_der(
        identity.certificate_der(),
        &identity.fingerprint().full_hex(),
    )
}

#[test]
fn a_fingerprint_is_the_digest_of_the_whole_certificate() {
    let fingerprint = CertificateFingerprint::from_certificate_der(b"abc");
    assert_eq!(fingerprint.full_hex(), ABC);
    assert_eq!(fingerprint.as_bytes()[..3], [0xBA, 0x78, 0x16]);
    assert!(!fingerprint.same(&CertificateFingerprint::from_certificate_der(b"abd")));
}

#[test]
fn a_fingerprint_is_shown_in_colon_separated_bytes() {
    let mut bytes = [0_u8; 32];
    bytes[0] = 0x0A;
    bytes[31] = 0xF0;
    let shown = fingerprint_of(bytes).display();
    assert_eq!(shown.len(), 95);
    assert!(shown.starts_with("0A:00:00:"));
    assert!(shown.ends_with(":00:F0"));
}

#[test]
fn only_the_full_unseparated_fingerprint_parses() {
    let fingerprint = CertificateFingerprint::from_certificate_der(b"abc");
    for text in [ABC.to_string(), ABC.to_lowercase()] {
        let parsed = CertificateFingerprint::parse_full(&text);
        assert!(parsed.is_ok_and(|parsed| parsed == fingerprint));
    }
    for text in [
        String::new(),
        ABC[..63].to_string(),
        format!("{}0", ABC),
        fingerprint.display(),
        ABC.replace('B', "G"),
        ABC.replace("BA", "é"),
    ] {
        assert!(matches!(
            CertificateFingerprint::parse_full(&text),
            Err(CryptoError::InvalidFingerprint)
        ));
    }
}

#[test]
fn lengths_are_bounded_before_anything_is_parsed() {
    assert_eq!(
        validate_certificate_length(&[]),
        Err(CryptoError::EmptyCertificate)
    );
    assert_eq!(
        validate_certificate_length(&vec![0; MAX_CERTIFICATE_DER_LENGTH]),
        Ok(())
    );
    assert_eq!(
        validate_certificate_length(&vec![0; MAX_CERTIFICATE_DER_LENGTH + 1]),
        Err(CryptoError::CertificateTooLarge)
    );
    assert_eq!(
        validate_private_key_length(&[]),
        Err(CryptoError::EmptyPrivateKey)
    );
    assert_eq!(
        validate_private_key_length(&vec![0; MAX_PRIVATE_KEY_DER_LENGTH]),
        Ok(())
    );
    assert_eq!(
        validate_private_key_length(&vec![0; MAX_PRIVATE_KEY_DER_LENGTH + 1]),
        Err(CryptoError::PrivateKeyTooLarge)
    );
}

#[test]
fn findings_decide_about_an_identity() {
    let judge = |findings| judge_identity(&[1], &[1], findings);
    assert_eq!(judge(FOUND), Ok(()));
    assert_eq!(
        judge(KeyFindings {
            loaded: false,
            ..FOUND
        }),
        Err(CryptoError::InvalidPrivateKey)
    );
    assert_eq!(
        judge(KeyFindings {
            signs_with_p256: false,
            ..FOUND
        }),
        Err(CryptoError::InvalidPrivateKey)
    );
    for (keys, error) in [
        (KeyMatch::Inconsistent, CryptoError::KeyCertificateMismatch),
        (KeyMatch::NoCertificate, CryptoError::InvalidCertificate),
        (
            KeyMatch::InvalidCertificate,
            CryptoError::InvalidCertificate,
        ),
        (KeyMatch::NotLoaded, CryptoError::InvalidPrivateKey),
        (KeyMatch::Other, CryptoError::TlsConfiguration),
    ] {
        assert_eq!(judge(KeyFindings { keys, ..FOUND }), Err(error));
    }
    assert_eq!(
        judge_identity(&[], &[], FOUND),
        Err(CryptoError::EmptyPrivateKey)
    );
    assert_eq!(
        judge_identity(&[1], &[], FOUND),
        Err(CryptoError::EmptyCertificate)
    );
}

#[test]
fn a_generated_identity_imports_again_with_its_own_certificate_only() {
    let identity = DeviceIdentity::generate().ok().unwrap();
    let other = DeviceIdentity::generate().ok().unwrap();
    let private_key = private_key_der_for_protected_storage(&identity);
    let imported =
        DeviceIdentity::from_pkcs8_and_certificate(private_key, identity.certificate_der())
            .ok()
            .unwrap();
    assert_eq!(imported.certificate_der(), identity.certificate_der());
    assert!(imported.fingerprint() == identity.fingerprint());
    assert!(imported.fingerprint() != other.fingerprint());
    assert_eq!(
        DeviceIdentity::from_pkcs8_and_certificate(private_key, other.certificate_der()).err(),
        Some(CryptoError::KeyCertificateMismatch)
    );
    assert_eq!(
        DeviceIdentity::from_pkcs8_and_certificate(&[1, 2, 3], identity.certificate_der()).err(),
        Some(CryptoError::InvalidPrivateKey)
    );
    assert_eq!(
        DeviceIdentity::from_pkcs8_and_certificate(private_key, &[1, 2, 3]).err(),
        Some(CryptoError::InvalidCertificate)
    );
}

#[test]
fn a_generated_certificate_carries_the_local_name() {
    let identity = DeviceIdentity::generate().ok().unwrap();
    let name = LOCAL_TLS_SERVER_NAME.as_bytes();
    assert!(identity
        .certificate_der()
        .windows(name.len())
        .any(|window| window == name));
}

#[test]
fn a_peer_is_pinned_only_under_its_own_fingerprint() {
    let identity = DeviceIdentity::generate().ok().unwrap();
    let other = DeviceIdentity::generate().ok().unwrap();
    let peer = pin(&identity).ok().unwrap();
    assert!(peer.fingerprint() == identity.fingerprint());
    assert_eq!(peer.certificate_der(), identity.certificate_der());
    let attempt = |certificate: &[u8], text: &str| {
        VerifiedPeer::from_certificate_der(certificate, text).err()
    };
    assert_eq!(
        attempt(identity.certificate_der(), &other.fingerprint().full_hex()),
        Some(CryptoError::FingerprintMismatch)
    );
    assert_eq!(
        attempt(identity.certificate_der(), "short"),
        Some(CryptoError::InvalidFingerprint)
    );
    assert_eq!(attempt(&[], ABC), Some(CryptoError::EmptyCertificate));
    assert_eq!(attempt(b"abc", ABC), Some(CryptoError::InvalidCertificate));
}

#[test]
fn a_peer_presents_exactly_the_pinned_certificate() {
    let identity = DeviceIdentity::generate().ok().unwrap();
    let other = DeviceIdentity::generate().ok().unwrap();
    let peer = pin(&identity).ok().unwrap();
    assert!(peer.verify_exact_leaf(identity.certificate_der(), 0));
    assert!(!peer.verify_exact_leaf(identity.certificate_der(), 1));
    assert!(!peer.verify_exact_leaf(other.certificate_der(), 0));
    assert!(!peer.verify_exact_leaf(&[], 0));
}

#[test]
fn secret_bytes_are_lent_and_wiped() {
    let mut secret = SecretBytes::new(vec![1, 2, 3]);
    assert_eq!(secret.as_slice(), [1, 2, 3]);
    secret.wipe();
    assert!(secret.as_slice().is_empty());
}

#[test]
fn errors_name_the_failed_property() {
    for (error, text) in [
        (
            CryptoError::EmptyCertificate,
            "certificate DER must not be empty",
        ),
        (
            CryptoError::CertificateTooLarge,
            "certificate DER exceeds the MonHop limit",
        ),
        (
            CryptoError::EmptyPrivateKey,
            "PKCS#8 private key DER must not be empty",
        ),
        (
            CryptoError::PrivateKeyTooLarge,
            "PKCS#8 private key DER exceeds the MonHop limit",
        ),
        (
            CryptoError::InvalidPrivateKey,
            "private key is not a supported P-256 PKCS#8 key",
        ),
        (
            CryptoError::InvalidCertificate,
            "certificate DER is invalid",
        ),
        (
            CryptoError::KeyCertificateMismatch,
            "private key does not match the certificate",
        ),
        (
            CryptoError::InvalidFingerprint,
            "fingerprint must contain exactly 64 hexadecimal characters",
        ),
        (
            CryptoError::FingerprintMismatch,
            "certificate does not match the expected full fingerprint",
        ),
        (
            CryptoError::RootStore,
            "certificate cannot be used as a pinned trust anchor",
        ),
        (
            CryptoError::CertificateVerifier,
            "pinned certificate verifier could not be configured",
        ),
        (
            CryptoError::TlsConfiguration,
            "TLS configuration could not be created",
        ),
        (
            CryptoError::QuicConfiguration,
            "QUIC configuration could not be created",
        ),
    ] {
        assert_eq!(error.message(), text);
    }
}

fn fingerprint_of(bytes: [u8; 32]) -> CertificateFingerprint {
    let text: String = bytes.iter().map(|byte| format!("{byte:02x}")).collect();
    CertificateFingerprint::parse_full(&text).expect("full fingerprint")
}

#[test]
fn a_missing_key_or_certificate_is_named() {
    let identity = DeviceIdentity::generate().expect("identity");
    let key = private_key_der_for_protected_storage(&identity);
    let certificate = identity.certificate_der();
    assert!(matches!(
        import_generated(None, Some(certificate)),
        Err(CryptoError::InvalidPrivateKey)
    ));
    assert!(matches!(
        import_generated(None, None),
        Err(CryptoError::InvalidPrivateKey)
    ));
    assert!(matches!(
        import_generated(Some(key), None),
        Err(CryptoError::InvalidCertificate)
    ));
    let imported = import_generated(Some(key), Some(certificate)).expect("imported identity");
    assert!(imported.fingerprint() == identity.fingerprint());
}
