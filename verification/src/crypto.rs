//! Identities of explicitly paired MonHop devices.
//!
//! Pairing must compare [`CertificateFingerprint`] values out of band on both
//! physical machines. A pin is never learned from a connection attempt.

use crate::bytes::{array_32, same_bytes};
use crate::hex::{all_digits, decode_pairs, digit, hex, hex_bytes, hex_text, push_byte};
use rcgen::{
    BasicConstraints, CertificateParams, DnType, ExtendedKeyUsagePurpose, IsCa, KeyPair,
    KeyUsagePurpose, PKCS_ECDSA_P256_SHA256,
};
use rustls::pki_types::{CertificateDer, PrivateKeyDer, PrivatePkcs8KeyDer};
use rustls::sign::CertifiedKey;
use rustls::{RootCertStore, SignatureScheme};
use sha2::{Digest, Sha256};
use vstd::prelude::*;
use vstd::slice::slice_to_vec;
use vstd::string::StringSliceAdditionalSpecFns;
use zeroize::{Zeroize, Zeroizing};

verus! {

/// Fixed logical TLS name carried in every MonHop certificate SAN.
///
/// This name is only checked inside TLS. It does not cause DNS resolution or
/// any network lookup.
pub const LOCAL_TLS_SERVER_NAME: &'static str = "monhop.invalid";

/// Certificate DER is public but still bounded before parsing or pinning.
pub const MAX_CERTIFICATE_DER_LENGTH: usize = 16_384;

/// MonHop identity keys are P-256 PKCS#8 documents and must remain small.
pub const MAX_PRIVATE_KEY_DER_LENGTH: usize = 4_096;

pub const MAX_BIDIRECTIONAL_STREAMS: u32 = 4;

pub const MAX_UNIDIRECTIONAL_STREAMS: u32 = 0;

pub const STREAM_RECEIVE_WINDOW: u32 = 16_384;

pub const CONNECTION_RECEIVE_WINDOW: u32 = 65_536;

pub const SEND_WINDOW: u64 = 65_536;

pub const DATAGRAM_BUFFER_SIZE: usize = 8_192;

pub const CRYPTO_BUFFER_SIZE: usize = 8_192;

pub const MAX_IDLE_TIMEOUT_MILLIS: u32 = 10_000;

pub const KEEP_ALIVE_INTERVAL: crate::time::Duration = 3_000_000_000;

pub const MAX_PENDING_INCOMING: usize = 4;

pub const INCOMING_BUFFER_SIZE: u64 = 32_768;

pub const TOTAL_INCOMING_BUFFER_SIZE: u64 = 131_072;

/// Errors intentionally identify a failed security property without exposing
/// certificates, private keys, packet bytes, or other sensitive material.
#[derive(Clone, Copy, Debug, Eq, PartialEq, Structural)]
pub enum CryptoError {
    EmptyCertificate,
    CertificateTooLarge,
    EmptyPrivateKey,
    PrivateKeyTooLarge,
    InvalidPrivateKey,
    InvalidCertificate,
    KeyCertificateMismatch,
    InvalidFingerprint,
    FingerprintMismatch,
    RootStore,
    CertificateVerifier,
    TlsConfiguration,
    QuicConfiguration,
}

impl CryptoError {
    /// What the error tells a reader.
    pub open spec fn text(self) -> Seq<char> {
        match self {
            CryptoError::EmptyCertificate => "certificate DER must not be empty"@,
            CryptoError::CertificateTooLarge => "certificate DER exceeds the MonHop limit"@,
            CryptoError::EmptyPrivateKey => "PKCS#8 private key DER must not be empty"@,
            CryptoError::PrivateKeyTooLarge => "PKCS#8 private key DER exceeds the MonHop limit"@,
            CryptoError::InvalidPrivateKey => "private key is not a supported P-256 PKCS#8 key"@,
            CryptoError::InvalidCertificate => "certificate DER is invalid"@,
            CryptoError::KeyCertificateMismatch => "private key does not match the certificate"@,
            CryptoError::InvalidFingerprint =>
                "fingerprint must contain exactly 64 hexadecimal characters"@,
            CryptoError::FingerprintMismatch =>
                "certificate does not match the expected full fingerprint"@,
            CryptoError::RootStore => "certificate cannot be used as a pinned trust anchor"@,
            CryptoError::CertificateVerifier =>
                "pinned certificate verifier could not be configured"@,
            CryptoError::TlsConfiguration => "TLS configuration could not be created"@,
            CryptoError::QuicConfiguration => "QUIC configuration could not be created"@,
        }
    }

    pub fn message(&self) -> (message: String)
        ensures
            message@ == self.text(),
    {
        let text = match self {
            CryptoError::EmptyCertificate => "certificate DER must not be empty",
            CryptoError::CertificateTooLarge => "certificate DER exceeds the MonHop limit",
            CryptoError::EmptyPrivateKey => "PKCS#8 private key DER must not be empty",
            CryptoError::PrivateKeyTooLarge => "PKCS#8 private key DER exceeds the MonHop limit",
            CryptoError::InvalidPrivateKey => "private key is not a supported P-256 PKCS#8 key",
            CryptoError::InvalidCertificate => "certificate DER is invalid",
            CryptoError::KeyCertificateMismatch => "private key does not match the certificate",
            CryptoError::InvalidFingerprint =>
                "fingerprint must contain exactly 64 hexadecimal characters",
            CryptoError::FingerprintMismatch =>
                "certificate does not match the expected full fingerprint",
            CryptoError::RootStore => "certificate cannot be used as a pinned trust anchor",
            CryptoError::CertificateVerifier =>
                "pinned certificate verifier could not be configured",
            CryptoError::TlsConfiguration => "TLS configuration could not be created",
            CryptoError::QuicConfiguration => "QUIC configuration could not be created",
        };
        text.to_owned()
    }
}

/// The SHA-256 digest of a byte sequence.
pub uninterp spec fn sha256(bytes: Seq<u8>) -> Seq<u8>;

/// Calls `Sha256::digest` of the `sha2` crate. The digest depends on the bytes alone.
#[verifier::external_body]
pub(crate) fn sha256_digest(bytes: &[u8]) -> (digest: [u8; 32])
    ensures
        digest@ == sha256(bytes@),
{
    Sha256::digest(bytes).into()
}

/// The DER certificate can serve as a trust anchor.
pub uninterp spec fn is_trust_anchor(certificate: Seq<u8>) -> bool;

/// Calls `RootCertStore::add` of the `rustls` crate on an empty store. Whether the certificate is
/// accepted depends on its bytes alone.
#[verifier::external_body]
fn accepts_trust_anchor(certificate: &[u8]) -> (accepted: bool)
    ensures
        accepted == is_trust_anchor(certificate@),
{
    RootCertStore::empty().add(CertificateDer::from(certificate)).is_ok()
}

/// A complete SHA-256 certificate fingerprint. Its view is its 32 bytes.
///
/// [`CertificateFingerprint::display`] renders the value as uppercase colon-separated bytes for
/// humans. [`CertificateFingerprint::parse_full`] accepts only the complete,
/// unseparated 64-hex-character representation used for pairing input.
#[derive(Clone, Copy, Eq, PartialEq)]
pub struct CertificateFingerprint([u8; 32]);

impl View for CertificateFingerprint {
    type V = Seq<u8>;

    closed spec fn view(&self) -> Seq<u8> {
        self.0@
    }
}

/// The text of a fingerprint as humans compare it: uppercase bytes with a colon between two.
pub open spec fn colon_text(bytes: Seq<u8>) -> Seq<char>
    decreases bytes.len(),
{
    if bytes.len() == 0 {
        Seq::empty()
    } else {
        let head = colon_text(bytes.drop_last());
        let separated = if bytes.len() > 1 {
            head.push(':')
        } else {
            head
        };
        separated.push(digit(bytes.last() as int / 16)).push(digit(bytes.last() as int % 16))
    }
}

impl CertificateFingerprint {
    pub fn as_bytes(&self) -> (bytes: &[u8; 32])
        ensures
            bytes@ == self@,
    {
        &self.0
    }

    pub fn same(&self, other: &CertificateFingerprint) -> (same: bool)
        ensures
            same == (self@ == other@),
    {
        same_bytes(self.0.as_slice(), other.0.as_slice())
    }

    /// Hash complete certificate DER with SHA-256.
    pub fn from_certificate_der(certificate_der: &[u8]) -> (fingerprint: CertificateFingerprint)
        ensures
            fingerprint@ == sha256(certificate_der@),
    {
        CertificateFingerprint(sha256_digest(certificate_der))
    }

    /// Parse exactly 32 bytes represented as 64 ASCII hexadecimal characters.
    pub fn parse_full(value: &str) -> (fingerprint: Result<CertificateFingerprint, CryptoError>)
        ensures
            match fingerprint {
                Ok(parsed) => value.spec_bytes().len() == 64 && all_digits(value.spec_bytes())
                    && parsed@ == hex_bytes(value.spec_bytes()),
                Err(error) => error == CryptoError::InvalidFingerprint && !(
                value.spec_bytes().len() == 64 && all_digits(value.spec_bytes())),
            },
    {
        let bytes = value.as_bytes();
        if bytes.len() != 64 {
            return Err(CryptoError::InvalidFingerprint);
        }
        match decode_pairs(bytes) {
            Some(decoded) => {
                let fingerprint = CertificateFingerprint(array_32(decoded.as_slice(), 0));
                assert(fingerprint@ =~= hex_bytes(value.spec_bytes()));
                Ok(fingerprint)
            },
            None => Err(CryptoError::InvalidFingerprint),
        }
    }

    /// Return the complete, unseparated uppercase hexadecimal fingerprint.
    pub fn full_hex(self) -> (text: String)
        ensures
            text@ == hex_text(self@),
    {
        hex(self.0.as_slice())
    }

    /// The fingerprint as humans compare it.
    pub fn display(&self) -> (text: String)
        ensures
            text@ == colon_text(self@),
    {
        let mut text = String::new();
        let mut index: usize = 0;
        proof {
            reveal_strlit(":");
            assert(self@.take(0) =~= Seq::<u8>::empty());
            assert(text@ =~= colon_text(self@.take(0)));
        }
        while index < 32
            invariant
                index <= 32,
                text@ == colon_text(self@.take(index as int)),
            decreases 32 - index,
        {
            proof {
                reveal_strlit(":");
                assert(self@.take(index + 1).drop_last() =~= self@.take(index as int));
            }
            let ghost head = text@;
            if index != 0 {
                text.append(":");
                assert(text@ =~= head.push(':'));
            }
            push_byte(&mut text, self.0[index]);
            index = index + 1;
        }
        assert(self@.take(32) =~= self@);
        text
    }
}

/// Writing a fingerprint in full and parsing it gives the same fingerprint.
pub proof fn law_full_hex_parses_back(fingerprint: CertificateFingerprint, text: &str)
    requires
        text@ == hex_text(fingerprint@),
    ensures
        text.spec_bytes().len() == 64,
        all_digits(text.spec_bytes()),
        hex_bytes(text.spec_bytes()) == fingerprint@,
{
    lemma_full_hex_bytes(fingerprint@, text);
}

proof fn lemma_full_hex_bytes(bytes: Seq<u8>, text: &str)
    requires
        text@ == hex_text(bytes),
    ensures
        text.spec_bytes().len() == bytes.len() * 2,
        all_digits(text.spec_bytes()),
        hex_bytes(text.spec_bytes()) == bytes,
{
    crate::hex::lemma_hex_round_trip(bytes);
    vstd::utf8::is_ascii_chars_encode_utf8(text@);
    assert(text.spec_bytes() =~= crate::hex::hex_ascii(bytes));
}

/// Bytes that are overwritten when they are dropped.
#[verifier::external_body]
pub struct SecretBytes {
    bytes: Zeroizing<Vec<u8>>,
}

/// What a wiped-on-drop buffer of the `zeroize` crate holds.
pub uninterp spec fn secret_bytes(secret: SecretBytes) -> Seq<u8>;

/// Calls `Zeroizing::new` of the `zeroize` crate, which moves the bytes into the buffer unchanged.
#[verifier::external_body]
fn seal(bytes: Vec<u8>) -> (secret: SecretBytes)
    ensures
        secret_bytes(secret) == bytes@,
{
    SecretBytes { bytes: Zeroizing::new(bytes) }
}

/// Calls `Zeroizing::deref` of the `zeroize` crate, which lends the bytes of the buffer.
#[verifier::external_body]
fn unseal(secret: &SecretBytes) -> (bytes: &[u8])
    ensures
        bytes@ == secret_bytes(*secret),
{
    secret.bytes.as_slice()
}

/// Calls `Vec::zeroize` of the `zeroize` crate, which overwrites the bytes and leaves none.
#[verifier::external_body]
fn erase(secret: &mut SecretBytes)
    ensures
        secret_bytes(*final(secret)) == Seq::<u8>::empty(),
{
    secret.bytes.zeroize();
}

impl View for SecretBytes {
    type V = Seq<u8>;

    open spec fn view(&self) -> Seq<u8> {
        secret_bytes(*self)
    }
}

impl SecretBytes {
    pub fn new(bytes: Vec<u8>) -> (secret: SecretBytes)
        ensures
            secret@ == bytes@,
    {
        seal(bytes)
    }

    pub fn as_slice(&self) -> (bytes: &[u8])
        ensures
            bytes@ == self@,
    {
        unseal(self)
    }

    /// Overwrite the bytes now and hold none.
    pub fn wipe(&mut self)
        ensures
            final(self)@ == Seq::<u8>::empty(),
    {
        erase(self)
    }
}

/// The bytes are a private key of a kind that TLS can sign with.
pub uninterp spec fn is_private_key(private_key: Seq<u8>) -> bool;

/// Calls `any_supported_type` of the `rustls` crate's ring provider. A key that loads is one by
/// its bytes alone. That such a key loads is left unsaid: loading draws on the system's random
/// source, which can fail.
#[verifier::external_body]
fn loads_private_key(private_key: &[u8]) -> (loaded: bool)
    ensures
        loaded ==> is_private_key(private_key@),
{
    let der = PrivateKeyDer::Pkcs8(PrivatePkcs8KeyDer::from(private_key));
    rustls::crypto::ring::sign::any_supported_type(&der).is_ok()
}

/// The private key signs with ECDSA on P-256 and SHA-256.
pub uninterp spec fn signs_with_p256(private_key: Seq<u8>) -> bool;

/// Calls `SigningKey::choose_scheme` of the `rustls` crate on the loaded key, offering ECDSA on
/// P-256 with SHA-256 alone. A key that takes it does so by its bytes alone; the reverse is left
/// unsaid, as loading can fail.
#[verifier::external_body]
fn chooses_p256(private_key: &[u8]) -> (chosen: bool)
    ensures
        chosen ==> signs_with_p256(private_key@),
{
    let der = PrivateKeyDer::Pkcs8(PrivatePkcs8KeyDer::from(private_key));
    rustls::crypto::ring::sign::any_supported_type(&der)
        .is_ok_and(|key| key.choose_scheme(&[SignatureScheme::ECDSA_NISTP256_SHA256]).is_some())
}

/// How a private key and a certificate go together.
#[derive(Clone, Copy, Debug, Eq, PartialEq, Structural)]
pub enum KeyMatch {
    Matches,
    /// The keys differ, or the private key's public half is unknown.
    Inconsistent,
    NoCertificate,
    InvalidCertificate,
    NotLoaded,
    Other,
}

/// How a loaded private key and a certificate go together.
pub uninterp spec fn key_match(private_key: Seq<u8>, certificate: Seq<u8>) -> KeyMatch;

/// Calls `CertifiedKey::keys_match` of the `rustls` crate, telling its errors apart. Its answer on
/// a loaded key depends on the two byte sequences alone. When the key loads is left unsaid: loading
/// draws on the system's random source, which can fail.
#[verifier::external_body]
fn compare_keys(private_key: &[u8], certificate: &[u8]) -> (outcome: KeyMatch)
    ensures
        outcome == KeyMatch::NotLoaded || outcome == key_match(private_key@, certificate@),
{
    let der = PrivateKeyDer::Pkcs8(PrivatePkcs8KeyDer::from(private_key));
    let Ok(key) = rustls::crypto::ring::sign::any_supported_type(&der) else {
        return KeyMatch::NotLoaded;
    };
    let chain = vec![CertificateDer::from(certificate.to_vec())];
    match CertifiedKey::new(chain, key).keys_match() {
        Ok(()) => KeyMatch::Matches,
        Err(rustls::Error::InconsistentKeys(_)) => KeyMatch::Inconsistent,
        Err(rustls::Error::NoCertificatesPresented) => KeyMatch::NoCertificate,
        Err(rustls::Error::InvalidCertificate(_)) => KeyMatch::InvalidCertificate,
        Err(_) => KeyMatch::Other,
    }
}

/// Why keys that do not match are refused.
pub open spec fn match_error(outcome: KeyMatch) -> Option<CryptoError> {
    match outcome {
        KeyMatch::Matches => None,
        KeyMatch::Inconsistent => Some(CryptoError::KeyCertificateMismatch),
        KeyMatch::NoCertificate | KeyMatch::InvalidCertificate => Some(
            CryptoError::InvalidCertificate,
        ),
        KeyMatch::NotLoaded => Some(CryptoError::InvalidPrivateKey),
        KeyMatch::Other => Some(CryptoError::TlsConfiguration),
    }
}

fn map_rustls_error(outcome: KeyMatch) -> (result: Result<(), CryptoError>)
    ensures
        match match_error(outcome) {
            None => result == Ok::<(), CryptoError>(()),
            Some(error) => result == Err::<(), _>(error),
        },
{
    match outcome {
        KeyMatch::Matches => Ok(()),
        KeyMatch::Inconsistent => Err(CryptoError::KeyCertificateMismatch),
        KeyMatch::NoCertificate | KeyMatch::InvalidCertificate => Err(
            CryptoError::InvalidCertificate,
        ),
        KeyMatch::NotLoaded => Err(CryptoError::InvalidPrivateKey),
        KeyMatch::Other => Err(CryptoError::TlsConfiguration),
    }
}

/// The error a certificate's length alone gives.
pub open spec fn certificate_length_error(certificate: Seq<u8>) -> Option<CryptoError> {
    if certificate.len() == 0 {
        Some(CryptoError::EmptyCertificate)
    } else if certificate.len() > MAX_CERTIFICATE_DER_LENGTH {
        Some(CryptoError::CertificateTooLarge)
    } else {
        None
    }
}

/// The error a private key's length alone gives.
pub open spec fn private_key_length_error(private_key: Seq<u8>) -> Option<CryptoError> {
    if private_key.len() == 0 {
        Some(CryptoError::EmptyPrivateKey)
    } else if private_key.len() > MAX_PRIVATE_KEY_DER_LENGTH {
        Some(CryptoError::PrivateKeyTooLarge)
    } else {
        None
    }
}

pub fn validate_certificate_length(certificate_der: &[u8]) -> (result: Result<(), CryptoError>)
    ensures
        match certificate_length_error(certificate_der@) {
            None => result == Ok::<(), CryptoError>(()),
            Some(error) => result == Err::<(), _>(error),
        },
{
    if certificate_der.is_empty() {
        Err(CryptoError::EmptyCertificate)
    } else if certificate_der.len() > MAX_CERTIFICATE_DER_LENGTH {
        Err(CryptoError::CertificateTooLarge)
    } else {
        Ok(())
    }
}

pub fn validate_private_key_length(private_key_der: &[u8]) -> (result: Result<(), CryptoError>)
    ensures
        match private_key_length_error(private_key_der@) {
            None => result == Ok::<(), CryptoError>(()),
            Some(error) => result == Err::<(), _>(error),
        },
{
    if private_key_der.is_empty() {
        Err(CryptoError::EmptyPrivateKey)
    } else if private_key_der.len() > MAX_PRIVATE_KEY_DER_LENGTH {
        Err(CryptoError::PrivateKeyTooLarge)
    } else {
        Ok(())
    }
}

/// What was found out about a private key and a certificate, in the order it is asked.
#[derive(Clone, Copy, Debug, Eq, PartialEq, Structural)]
pub struct KeyFindings {
    pub loaded: bool,
    pub signs_with_p256: bool,
    pub keys: KeyMatch,
}

impl KeyFindings {
    /// Such findings can come of this key and this certificate.
    pub open spec fn of(self, private_key: Seq<u8>, certificate: Seq<u8>) -> bool {
        &&& self.loaded ==> is_private_key(private_key)
        &&& self.signs_with_p256 ==> signs_with_p256(private_key)
        &&& self.keys == KeyMatch::NotLoaded || self.keys == key_match(private_key, certificate)
    }
}

/// Whether a key and a certificate with these findings make an identity.
pub fn judge_identity(
    private_key_der: &[u8],
    certificate_der: &[u8],
    findings: KeyFindings,
) -> (result: Result<(), CryptoError>)
    ensures
        result == identity_verdict(private_key_der@, certificate_der@, findings),
{
    if let Err(error) = validate_private_key_length(private_key_der) {
        return Err(error);
    }
    if let Err(error) = validate_certificate_length(certificate_der) {
        return Err(error);
    }
    if !findings.loaded || !findings.signs_with_p256 {
        return Err(CryptoError::InvalidPrivateKey);
    }
    map_rustls_error(findings.keys)
}

pub open spec fn identity_verdict(
    private_key: Seq<u8>,
    certificate: Seq<u8>,
    findings: KeyFindings,
) -> Result<(), CryptoError> {
    match private_key_length_error(private_key) {
        Some(error) => Err(error),
        None => match certificate_length_error(certificate) {
            Some(error) => Err(error),
            None => if !findings.loaded || !findings.signs_with_p256 {
                Err(CryptoError::InvalidPrivateKey)
            } else {
                match match_error(findings.keys) {
                    Some(error) => Err(error),
                    None => Ok(()),
                }
            },
        },
    }
}

#[verifier::external_type_specification]
#[verifier::external_body]
pub struct ExKeyPair(KeyPair);

/// Calls `KeyPair::generate_for` of the `rcgen` crate for ECDSA on P-256, and `serialize_der` on
/// the pair for its PKCS#8 document. The pair is random, so nothing is claimed of it.
#[verifier::external_body]
fn generate_key_pair() -> (pair: Option<(KeyPair, Vec<u8>)>) {
    let pair = KeyPair::generate_for(&PKCS_ECDSA_P256_SHA256).ok()?;
    let document = pair.serialize_der();
    Some((pair, document))
}

/// Calls `KeyPair::zeroize` of the `rcgen` crate, which overwrites the pair's PKCS#8 document. The
/// pair's contents are not spoken of, so nothing is claimed of them.
#[verifier::external_body]
fn wipe_key_pair(pair: &mut KeyPair) {
    pair.zeroize();
}

/// What a certificate says of signing further certificates.
#[derive(Clone, Copy, Debug, Eq, PartialEq, Structural)]
pub enum Authority {
    Denied,
    Unconstrained,
}

/// What a certificate's key may be used for.
#[derive(Clone, Copy, Debug, Eq, PartialEq, Structural)]
pub enum KeyUse {
    DigitalSignature,
    CertificateSigning,
}

/// Which end of a connection a certificate may stand for.
#[derive(Clone, Copy, Debug, Eq, PartialEq, Structural)]
pub enum PeerUse {
    ServerAuth,
    ClientAuth,
}

/// The certificate is issued for the host `name` to a subject with the common name `subject` under
/// these terms.
pub uninterp spec fn issued_for(
    certificate: Seq<u8>,
    name: Seq<char>,
    subject: Seq<char>,
    authority: Authority,
    key_use: KeyUse,
    peer_uses: Seq<PeerUse>,
) -> bool;

/// Calls `CertificateParams::self_signed` of the `rcgen` crate on parameters made by
/// `CertificateParams::new` for the one host `name`, which the certificate then carries as its
/// subject alternative name, beside the common name `subject`, its authority and its uses. The
/// signature is random, so nothing more is claimed of the bytes; whose key they carry is compared
/// when the identity is imported.
#[verifier::external_body]
fn self_signed(
    pair: &KeyPair,
    name: &str,
    subject: &str,
    authority: Authority,
    key_use: KeyUse,
    peer_uses: [PeerUse; 2],
) -> (certificate: Option<Vec<u8>>)
    ensures
        certificate matches Some(der) ==> issued_for(
            der@,
            name@,
            subject@,
            authority,
            key_use,
            peer_uses@,
        ),
{
    let mut params = CertificateParams::new(vec![name.to_owned()]).ok()?;
    params.is_ca = match authority {
        Authority::Denied => IsCa::ExplicitNoCa,
        Authority::Unconstrained => IsCa::Ca(BasicConstraints::Unconstrained),
    };
    params.distinguished_name.push(DnType::CommonName, subject);
    params.key_usages = vec![match key_use {
        KeyUse::DigitalSignature => KeyUsagePurpose::DigitalSignature,
        KeyUse::CertificateSigning => KeyUsagePurpose::KeyCertSign,
    }];
    params.extended_key_usages = peer_uses.map(|peer_use| match peer_use {
        PeerUse::ServerAuth => ExtendedKeyUsagePurpose::ServerAuth,
        PeerUse::ClientAuth => ExtendedKeyUsagePurpose::ClientAuth,
    }).to_vec();
    params.self_signed(pair).ok().map(|certificate| certificate.der().to_vec())
}

/// A certificate that either end of a MonHop connection can present, and that issues no others.
pub open spec fn is_device_certificate(certificate: Seq<u8>) -> bool {
    issued_for(
        certificate,
        LOCAL_TLS_SERVER_NAME@,
        LOCAL_TLS_SERVER_NAME@,
        Authority::Denied,
        KeyUse::DigitalSignature,
        seq![PeerUse::ServerAuth, PeerUse::ClientAuth],
    )
}

/// A local P-256 identity held only in memory.
///
/// The private key does not implement `Debug`. Its methods give out only the public certificate and
/// its fingerprint. The key itself leaves through [`private_key_der_for_protected_storage`] alone,
/// and persisting it requires an explicit platform-protected storage layer outside this module.
pub struct DeviceIdentity {
    certificate_der: Vec<u8>,
    private_key_der: SecretBytes,
}

impl DeviceIdentity {
    pub closed spec fn certificate(&self) -> Seq<u8> {
        self.certificate_der@
    }

    pub closed spec fn private_key(&self) -> Seq<u8> {
        self.private_key_der@
    }

    /// Bounded, with a P-256 key whose public half the certificate carries.
    pub open spec fn wf(&self) -> bool {
        &&& private_key_length_error(self.private_key()) is None
        &&& certificate_length_error(self.certificate()) is None
        &&& is_private_key(self.private_key())
        &&& signs_with_p256(self.private_key())
        &&& key_match(self.private_key(), self.certificate()) == KeyMatch::Matches
    }

    /// Generate a fresh P-256 self-signed identity for MonHop.
    pub fn generate() -> (identity: Result<DeviceIdentity, CryptoError>)
        ensures
            generation_outcome(identity),
    {
        let (mut pair, document) = match generate_key_pair() {
            Some(generated) => generated,
            None => {
                assert(import_outcome(None, None, Err(CryptoError::InvalidPrivateKey)));
                return import_generated(None, None);
            },
        };
        let private_key_der = SecretBytes::new(document);
        let issued = self_signed(
            &pair,
            LOCAL_TLS_SERVER_NAME,
            LOCAL_TLS_SERVER_NAME,
            Authority::Denied,
            KeyUse::DigitalSignature,
            [PeerUse::ServerAuth, PeerUse::ClientAuth],
        );
        wipe_key_pair(&mut pair);
        let certificate_der = match &issued {
            Some(der) => Some(der.as_slice()),
            None => None,
        };
        let identity = import_generated(Some(private_key_der.as_slice()), certificate_der);
        assert(import_outcome(
            Some(private_key_der@),
            match certificate_der {
                Some(der) => Some(der@),
                None => None,
            },
            identity,
        ));
        identity
    }

    /// Import a bounded P-256 PKCS#8 key and its matching self-signed certificate.
    ///
    /// This operation keeps temporary private-key copies zeroized and rejects a
    /// mismatched public key before the identity can be used in a TLS config.
    pub fn from_pkcs8_and_certificate(private_key_der: &[u8], certificate_der: &[u8]) -> (identity:
        Result<DeviceIdentity, CryptoError>)
        ensures
            identity_outcome(private_key_der@, certificate_der@, identity),
    {
        let ghost unasked = KeyFindings {
            loaded: false,
            signs_with_p256: false,
            keys: KeyMatch::NotLoaded,
        };
        if let Err(error) = validate_private_key_length(private_key_der) {
            assert(unasked.of(private_key_der@, certificate_der@));
            return Err(error);
        }
        if let Err(error) = validate_certificate_length(certificate_der) {
            assert(unasked.of(private_key_der@, certificate_der@));
            return Err(error);
        }
        let loaded = loads_private_key(private_key_der);
        let signs_with_p256 = loaded && chooses_p256(private_key_der);
        let keys = if signs_with_p256 {
            compare_keys(private_key_der, certificate_der)
        } else {
            KeyMatch::NotLoaded
        };
        let findings = KeyFindings { loaded, signs_with_p256, keys };
        assert(findings.of(private_key_der@, certificate_der@));
        match judge_identity(private_key_der, certificate_der, findings) {
            Ok(()) => Ok(
                DeviceIdentity {
                    certificate_der: slice_to_vec(certificate_der),
                    private_key_der: SecretBytes::new(slice_to_vec(private_key_der)),
                },
            ),
            Err(error) => Err(error),
        }
    }

    /// Return the public, DER-encoded identity certificate.
    pub fn certificate_der(&self) -> (certificate: &[u8])
        ensures
            certificate@ == self.certificate(),
    {
        self.certificate_der.as_slice()
    }

    /// Return the full fingerprint that must be compared out of band at both machines.
    pub fn fingerprint(&self) -> (fingerprint: CertificateFingerprint)
        ensures
            fingerprint@ == sha256(self.certificate()),
    {
        CertificateFingerprint::from_certificate_der(self.certificate_der.as_slice())
    }
}

/// What importing a key and a certificate can give: the identity they make, or an error that
/// follows from findings that can come of them.
pub open spec fn identity_outcome(
    private_key: Seq<u8>,
    certificate: Seq<u8>,
    identity: Result<DeviceIdentity, CryptoError>,
) -> bool {
    match identity {
        Ok(made) => made.wf() && made.private_key() == private_key && made.certificate()
            == certificate,
        Err(error) => exists|findings: KeyFindings| #[trigger]
            findings.of(private_key, certificate) && identity_verdict(
                private_key,
                certificate,
                findings,
            ) == Err::<(), _>(error),
    }
}

/// What importing a generated private key with the certificate issued for it can give, where either
/// may be absent.
pub open spec fn import_outcome(
    private_key: Option<Seq<u8>>,
    certificate: Option<Seq<u8>>,
    identity: Result<DeviceIdentity, CryptoError>,
) -> bool {
    match (private_key, certificate) {
        (None, _) => identity == Err::<DeviceIdentity, _>(CryptoError::InvalidPrivateKey),
        (Some(_), None) => identity == Err::<DeviceIdentity, _>(CryptoError::InvalidCertificate),
        (Some(private_key), Some(certificate)) => identity_outcome(
            private_key,
            certificate,
            identity,
        ),
    }
}

/// Import a generated private key, where there is one, with the certificate issued for it, where
/// there is one.
pub fn import_generated(private_key_der: Option<&[u8]>, certificate_der: Option<&[u8]>) -> (
identity: Result<DeviceIdentity, CryptoError>)
    ensures
        import_outcome(
            match private_key_der {
                Some(der) => Some(der@),
                None => None,
            },
            match certificate_der {
                Some(der) => Some(der@),
                None => None,
            },
            identity,
        ),
{
    match (private_key_der, certificate_der) {
        (None, _) => Err(CryptoError::InvalidPrivateKey),
        (Some(_), None) => Err(CryptoError::InvalidCertificate),
        (Some(private_key), Some(certificate)) => DeviceIdentity::from_pkcs8_and_certificate(
            private_key,
            certificate,
        ),
    }
}

/// What generating an identity can give: what comes of importing some generated key with a
/// certificate for this product, where both could be made.
pub open spec fn generation_outcome(identity: Result<DeviceIdentity, CryptoError>) -> bool {
    exists|private_key: Option<Seq<u8>>, certificate: Option<Seq<u8>>| #[trigger]
        import_outcome(private_key, certificate, identity) && (certificate matches Some(der)
            ==> is_device_certificate(der))
}

/// The private key for a store that the platform protects, or for the TLS signer.
pub fn private_key_der_for_protected_storage(identity: &DeviceIdentity) -> (private_key: &[u8])
    ensures
        private_key@ == identity.private_key(),
{
    identity.private_key_der.as_slice()
}

/// A peer certificate explicitly paired by full out-of-band fingerprint.
///
/// No constructor accepts a fingerprint alone, a certificate alone, or a
/// connection result. Pairing must supply both values and they must agree.
#[derive(Clone)]
pub struct VerifiedPeer {
    certificate_der: Vec<u8>,
    fingerprint: CertificateFingerprint,
}

/// The error with which a certificate is not pinned under the fingerprint text `expected`.
pub open spec fn pin_error(certificate: Seq<u8>, expected: Seq<u8>) -> Option<CryptoError> {
    if certificate_length_error(certificate) is Some {
        certificate_length_error(certificate)
    } else if !(expected.len() == 64 && all_digits(expected)) {
        Some(CryptoError::InvalidFingerprint)
    } else if sha256(certificate) != hex_bytes(expected) {
        Some(CryptoError::FingerprintMismatch)
    } else if !is_trust_anchor(certificate) {
        Some(CryptoError::InvalidCertificate)
    } else {
        None
    }
}

impl VerifiedPeer {
    pub closed spec fn certificate(&self) -> Seq<u8> {
        self.certificate_der@
    }

    pub closed spec fn pinned(&self) -> Seq<u8> {
        self.fingerprint@
    }

    /// The pin is the fingerprint of the certificate, which is bounded and can be trusted.
    pub open spec fn wf(&self) -> bool {
        &&& self.pinned() == sha256(self.certificate())
        &&& certificate_length_error(self.certificate()) is None
        &&& is_trust_anchor(self.certificate())
    }

    /// Pin peer DER only when it matches the expected complete fingerprint.
    pub fn from_certificate_der(peer_certificate_der: &[u8], expected_full_fingerprint: &str) -> (
    peer: Result<VerifiedPeer, CryptoError>)
        ensures
            match pin_error(peer_certificate_der@, expected_full_fingerprint.spec_bytes()) {
                None => peer matches Ok(pinned) && pinned.wf() && pinned.certificate()
                    == peer_certificate_der@,
                Some(error) => peer == Err::<VerifiedPeer, _>(error),
            },
    {
        if let Err(error) = validate_certificate_length(peer_certificate_der) {
            return Err(error);
        }
        let expected = match CertificateFingerprint::parse_full(expected_full_fingerprint) {
            Ok(expected) => expected,
            Err(error) => return Err(error),
        };
        let actual = CertificateFingerprint::from_certificate_der(peer_certificate_der);
        if !actual.same(&expected) {
            return Err(CryptoError::FingerprintMismatch);
        }
        if !accepts_trust_anchor(peer_certificate_der) {
            return Err(CryptoError::InvalidCertificate);
        }
        Ok(
            VerifiedPeer {
                certificate_der: slice_to_vec(peer_certificate_der),
                fingerprint: actual,
            },
        )
    }

    /// Return the explicitly verified full peer fingerprint.
    pub fn fingerprint(&self) -> (fingerprint: CertificateFingerprint)
        ensures
            fingerprint@ == self.pinned(),
    {
        self.fingerprint
    }

    /// The pinned certificate, which alone the peer may present.
    pub fn certificate_der(&self) -> (certificate: &[u8])
        ensures
            certificate@ == self.certificate(),
    {
        self.certificate_der.as_slice()
    }

    /// Whether a peer that presents `end_entity`, with `intermediates` further certificates, is
    /// exactly the pinned one.
    pub fn verify_exact_leaf(&self, end_entity: &[u8], intermediates: usize) -> (exact: bool)
        ensures
            exact == (intermediates == 0 && end_entity@ == self.certificate()),
    {
        intermediates == 0 && same_bytes(end_entity, self.certificate_der.as_slice())
    }
}

/// An identity is accepted exactly where both its parts have an accepted length, the key loads and
/// signs as it must, and it is the certificate's. A wrong length is named first, the key's before
/// the certificate's.
pub proof fn law_which_identities_are_accepted(
    private_key: Seq<u8>,
    certificate: Seq<u8>,
    findings: KeyFindings,
)
    ensures
        ({
            let verdict = identity_verdict(private_key, certificate, findings);
            let key_fits = 0 < private_key.len() <= MAX_PRIVATE_KEY_DER_LENGTH;
            let certificate_fits = 0 < certificate.len() <= MAX_CERTIFICATE_DER_LENGTH;
            &&& verdict is Ok <==> key_fits && certificate_fits && findings.loaded
                && findings.signs_with_p256 && findings.keys == KeyMatch::Matches
            &&& private_key.len() == 0 ==> verdict == Err::<(), _>(CryptoError::EmptyPrivateKey)
            &&& private_key.len() > MAX_PRIVATE_KEY_DER_LENGTH ==> verdict == Err::<(), _>(
                CryptoError::PrivateKeyTooLarge,
            )
            &&& key_fits && certificate.len() == 0 ==> verdict == Err::<(), _>(
                CryptoError::EmptyCertificate,
            )
            &&& key_fits && certificate.len() > MAX_CERTIFICATE_DER_LENGTH ==> verdict == Err::<
                (),
                _,
            >(CryptoError::CertificateTooLarge)
            &&& key_fits && certificate_fits && !(findings.loaded && findings.signs_with_p256)
                ==> verdict == Err::<(), _>(CryptoError::InvalidPrivateKey)
            &&& key_fits && certificate_fits && findings.loaded && findings.signs_with_p256
                && findings.keys == KeyMatch::Inconsistent ==> verdict == Err::<(), _>(
                CryptoError::KeyCertificateMismatch,
            )
        }),
{
}

/// A certificate is pinned exactly where its length is accepted, the fingerprint that was asked for
/// is whole and is its own, and it can be an anchor of trust.
pub proof fn law_which_certificates_are_pinned(certificate: Seq<u8>, expected: Seq<u8>)
    ensures
        ({
            let fits = 0 < certificate.len() <= MAX_CERTIFICATE_DER_LENGTH;
            let whole = expected.len() == 64 && all_digits(expected);
            let own = sha256(certificate) == hex_bytes(expected);
            &&& pin_error(certificate, expected) is None <==> fits && whole && own
                && is_trust_anchor(certificate)
            &&& fits && !whole ==> pin_error(certificate, expected) == Some(
                CryptoError::InvalidFingerprint,
            )
            &&& fits && whole && !own ==> pin_error(certificate, expected) == Some(
                CryptoError::FingerprintMismatch,
            )
            &&& fits && whole && own && !is_trust_anchor(certificate) ==> pin_error(
                certificate,
                expected,
            ) == Some(CryptoError::InvalidCertificate)
            &&& !fits ==> pin_error(certificate, expected) == Some(
                if certificate.len() == 0 {
                    CryptoError::EmptyCertificate
                } else {
                    CryptoError::CertificateTooLarge
                },
            )
        }),
{
}

/// Text with colons has two digits for each byte, the upper half first, and a colon between any two
/// bytes and nowhere else.
pub proof fn law_colons_stand_between_bytes(bytes: Seq<u8>, place: int)
    requires
        0 <= place < bytes.len(),
    ensures
        colon_text(bytes).len() == 3 * bytes.len() - 1,
        colon_text(bytes)[3 * place] == digit(bytes[place] as int / 16),
        colon_text(bytes)[3 * place + 1] == digit(bytes[place] as int % 16),
        place < bytes.len() - 1 ==> colon_text(bytes)[3 * place + 2] == ':',
    decreases bytes.len(),
{
    reveal_with_fuel(colon_text, 2);
    if bytes.len() > 1 {
        let head = bytes.drop_last();
        law_colons_stand_between_bytes(
            head,
            if place < head.len() {
                place
            } else {
                head.len() - 1
            },
        );
    }
}

} // verus!
