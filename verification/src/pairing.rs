//! Bounded public certificate exchange. Human confirmation and TLS remain caller obligations.

use crate::addr::{
    lemma_address_text, lemma_port_text, parsed_address, port_value, read_port, Ipv4Addr,
    SocketAddrV4,
};
use crate::bytes::{
    append, bytes_precede, copy_range, from_be, lemma_be_limits, lemma_from_to_be,
    lemma_precedes_total, lemma_to_be_len, precedes, push_be, read_be, same_bytes, to_be,
};
use crate::crypto::{
    certificate_length_error, is_trust_anchor, law_full_hex_parses_back, sha256,
    CertificateFingerprint, VerifiedPeer,
};
use crate::hex::{
    all_digits, decode_pairs, hex, hex_ascii, hex_bytes, hex_text, lemma_hex_round_trip,
};
use crate::policy::{is_private_or_link_local, private_or_link_local};
use crate::protocol::Platform;
use crate::text::{
    all_ascii, ascii, contents, decimal, fields, is_space, lemma_ascii_bytes, lemma_split_last,
    lemma_split_whole, push_decimal, split, trim, trimmed,
};
use vstd::prelude::*;
use vstd::slice::{slice_subrange, slice_to_vec};
use vstd::string::StringSliceAdditionalSpecFns;

verus! {

pub const PAIRING_PORT: u16 = 24872;

pub const MAX_PAIRING_CERT_BYTES: usize = 3072;

pub const MAX_PAIRING_CODE_BYTES: usize = 6200;

pub const MAX_PEER_RECORD_BYTES: usize = 4096;

pub const PAIR_FRAME_BYTES: usize = 70;

/// `LKM1`, before a code without a platform.
pub const CODE_TAG: [u8; 4] = [0x4c, 0x4b, 0x4d, 0x31];

/// `LKM2`, before a code with a platform.
pub const PLATFORM_CODE_TAG: [u8; 4] = [0x4c, 0x4b, 0x4d, 0x32];

/// `win`.
pub const WINDOWS_CODE: [u8; 3] = [0x77, 0x69, 0x6e];

/// `mac`.
pub const MACOS_CODE: [u8; 3] = [0x6d, 0x61, 0x63];

/// `LKMP`, before a peer record.
pub const PEER_RECORD_MAGIC: [u8; 4] = [0x4c, 0x4b, 0x4d, 0x50];

/// `LKP1` and the version, before a pairing message.
pub const PAIR_FRAME_HEADER: [u8; 5] = [0x4c, 0x4b, 0x50, 0x31, 1];

#[derive(Clone, Copy, Debug, PartialEq, Eq, Structural)]
pub enum PairingError {
    InvalidCode,
    InvalidAddress,
    InvalidCertificate,
    InvalidRecord,
    WrongLocalIdentity,
    SameIdentity,
    InvalidMessage,
}

impl PairingError {
    pub open spec fn text(self) -> Seq<char> {
        match self {
            PairingError::InvalidCode =>
                "The connection code is incomplete or unsupported. Copy it again."@,
            PairingError::InvalidAddress =>
                "Use a connection code from another computer on your local network."@,
            PairingError::InvalidCertificate =>
                "The connection code contains an invalid public identity."@,
            PairingError::InvalidRecord =>
                "The saved pairing is invalid. It was not replaced. Forget it explicitly to pair again."@,
            PairingError::WrongLocalIdentity =>
                "The saved pairing belongs to a different local identity. It was not replaced."@,
            PairingError::SameIdentity =>
                "This is your own computer's identity. Use the other computer's code."@,
            PairingError::InvalidMessage =>
                "The other computer sent an invalid pairing message. Nothing was enabled."@,
        }
    }

    /// The text shown to a user.
    pub fn message(&self) -> (message: &'static str)
        ensures
            message@ == self.text(),
    {
        match self {
            PairingError::InvalidCode =>
                "The connection code is incomplete or unsupported. Copy it again.",
            PairingError::InvalidAddress =>
                "Use a connection code from another computer on your local network.",
            PairingError::InvalidCertificate =>
                "The connection code contains an invalid public identity.",
            PairingError::InvalidRecord =>
                "The saved pairing is invalid. It was not replaced. Forget it explicitly to pair again.",
            PairingError::WrongLocalIdentity =>
                "The saved pairing belongs to a different local identity. It was not replaced.",
            PairingError::SameIdentity =>
                "This is your own computer's identity. Use the other computer's code.",
            PairingError::InvalidMessage =>
                "The other computer sent an invalid pairing message. Nothing was enabled.",
        }
    }
}

/// What one computer shows of itself for pairing.
#[verifier::ext_equal]
pub struct OfferView {
    pub endpoint: SocketAddrV4,
    pub certificate: Seq<u8>,
    pub platform: Option<Platform>,
}

/// Why an endpoint and a certificate are not offered.
pub open spec fn offer_error(endpoint: SocketAddrV4, certificate: Seq<u8>) -> Option<PairingError> {
    if endpoint.port != PAIRING_PORT || !private_or_link_local(endpoint.ip) {
        Some(PairingError::InvalidAddress)
    } else if certificate.len() == 0 || certificate.len() > MAX_PAIRING_CERT_BYTES
        || !is_trust_anchor(certificate) {
        Some(PairingError::InvalidCertificate)
    } else {
        None
    }
}

impl OfferView {
    pub open spec fn wf(self) -> bool {
        offer_error(self.endpoint, self.certificate) is None
    }
}

#[derive(Clone, PartialEq, Eq)]
pub struct PairingOffer {
    endpoint: SocketAddrV4,
    certificate: Vec<u8>,
    // None only for codes and records written before platforms were exchanged.
    platform: Option<Platform>,
}

impl View for PairingOffer {
    type V = OfferView;

    closed spec fn view(&self) -> OfferView {
        OfferView {
            endpoint: self.endpoint,
            certificate: self.certificate@,
            platform: self.platform,
        }
    }
}

pub open spec fn platform_code(platform: Platform) -> Seq<u8> {
    match platform {
        Platform::Windows => WINDOWS_CODE@,
        Platform::MacOs => MACOS_CODE@,
    }
}

pub open spec fn platform_of_code(code: Seq<u8>) -> Option<Platform> {
    if code == WINDOWS_CODE@ {
        Some(Platform::Windows)
    } else if code == MACOS_CODE@ {
        Some(Platform::MacOs)
    } else {
        None
    }
}

/// What stands in a code before the address.
pub open spec fn code_start(platform: Option<Platform>) -> Seq<u8> {
    match platform {
        Some(platform) => PLATFORM_CODE_TAG@.push(0x3a) + platform_code(platform),
        None => CODE_TAG@,
    }
}

/// The code of an offer.
pub open spec fn code_bytes(offer: OfferView) -> Seq<u8> {
    ((code_start(offer.platform).push(0x3a) + offer.endpoint.ip.text()).push(0x3a) + decimal(
        offer.endpoint.port as nat,
    )).push(0x3a) + hex_ascii(offer.certificate)
}

/// The platform that the fields of a code name, and how many fields come before the address.
pub open spec fn code_header(parts: Seq<Seq<u8>>) -> Option<(Option<Platform>, int)> {
    if parts[0] == CODE_TAG@ {
        Some((None, 1))
    } else if parts[0] == PLATFORM_CODE_TAG@ && parts.len() >= 2 && platform_of_code(
        parts[1],
    ) is Some {
        Some((platform_of_code(parts[1]), 2))
    } else {
        None
    }
}

/// The certificate that hexadecimal digits stand for.
pub open spec fn decoded_hex(text: Seq<u8>) -> Result<Seq<u8>, PairingError> {
    if text.len() == 0 || text.len() % 2 != 0 || !all_digits(text) {
        Err(PairingError::InvalidCode)
    } else {
        Ok(hex_bytes(text))
    }
}

/// The offer that a code stands for.
pub open spec fn parsed_code(code: Seq<u8>) -> Result<OfferView, PairingError> {
    let parts = split(trim(code), 0x3a);
    if code.len() > MAX_PAIRING_CODE_BYTES || !all_ascii(code) {
        Err(PairingError::InvalidCode)
    } else {
        match code_header(parts) {
            None => Err(PairingError::InvalidCode),
            Some((platform, start)) => if parts.len() != start + 3 || parts[start + 2].len()
                > MAX_PAIRING_CERT_BYTES * 2 {
                Err(PairingError::InvalidCode)
            } else {
                parsed_fields(platform, parts[start], parts[start + 1], parts[start + 2])
            },
        }
    }
}

/// The offer that the fields of a code stand for.
pub open spec fn parsed_fields(
    platform: Option<Platform>,
    ip: Seq<u8>,
    port: Seq<u8>,
    certificate: Seq<u8>,
) -> Result<OfferView, PairingError> {
    match (parsed_address(ip), port_value(port)) {
        (Some(ip), Some(port)) => {
            let endpoint = SocketAddrV4 { ip, port: port as u16 };
            match decoded_hex(certificate) {
                Err(error) => Err(error),
                Ok(certificate) => match offer_error(endpoint, certificate) {
                    Some(error) => Err(error),
                    None => Ok(OfferView { endpoint, certificate, platform }),
                },
            }
        },
        _ => Err(PairingError::InvalidAddress),
    }
}

/// The code of an offer reads back as that offer.
pub proof fn law_codes_read_back(offer: OfferView)
    requires
        offer.wf(),
    ensures
        parsed_code(code_bytes(offer)) == Ok::<_, PairingError>(offer),
{
    let code = code_bytes(offer);
    let head = split(code_start(offer.platform), 0x3a);
    lemma_code_is_plain(offer);
    lemma_code_splits(offer);
    lemma_split_start(offer.platform);
    lemma_fields_read_back(offer);
    assert(code_header(split(code, 0x3a)) == Some((offer.platform, head.len() as int)));
}

proof fn lemma_fields_read_back(offer: OfferView)
    requires
        offer.wf(),
    ensures
        parsed_fields(
            offer.platform,
            offer.endpoint.ip.text(),
            decimal(offer.endpoint.port as nat),
            hex_ascii(offer.certificate),
        ) == Ok::<_, PairingError>(offer),
{
    lemma_address_text(offer.endpoint.ip);
    lemma_port_text(offer.endpoint.port);
    lemma_hex_round_trip(offer.certificate);
}

/// No field of a code holds the byte that parts two fields.
proof fn lemma_code_splits(offer: OfferView)
    requires
        offer.wf(),
    ensures
        split(code_bytes(offer), 0x3a) == split(code_start(offer.platform), 0x3a) + seq![
            offer.endpoint.ip.text(),
            decimal(offer.endpoint.port as nat),
            hex_ascii(offer.certificate),
        ],
{
    let start = code_start(offer.platform);
    let ip = offer.endpoint.ip.text();
    let port = decimal(offer.endpoint.port as nat);
    let certificate = hex_ascii(offer.certificate);
    lemma_address_text(offer.endpoint.ip);
    lemma_port_text(offer.endpoint.port);
    lemma_hex_ascii_is_digits(offer.certificate);
    assert(!ip.contains(0x3a));
    assert(!port.contains(0x3a)) by {
        assert forall|i: int| 0 <= i < port.len() implies port[i] != 0x3a by {
            assert(0x30 <= port[i] <= 0x39);
        }
    }
    assert(!certificate.contains(0x3a));
    let with_ip = start.push(0x3a) + ip;
    let with_port = with_ip.push(0x3a) + port;
    lemma_split_last(start, ip, 0x3a);
    lemma_split_last(with_ip, port, 0x3a);
    lemma_split_last(with_port, certificate, 0x3a);
    assert(split(code_bytes(offer), 0x3a) =~= split(start, 0x3a) + seq![ip, port, certificate]);
}

/// A code is ASCII throughout, with no space at either end, and within its limits.
proof fn lemma_code_is_plain(offer: OfferView)
    requires
        offer.wf(),
    ensures
        code_bytes(offer).len() <= MAX_PAIRING_CODE_BYTES,
        hex_ascii(offer.certificate).len() <= MAX_PAIRING_CERT_BYTES * 2,
        trim(code_bytes(offer)) == code_bytes(offer),
        all_ascii(code_bytes(offer)),
{
    let start = code_start(offer.platform);
    let ip = offer.endpoint.ip.text();
    let port = decimal(offer.endpoint.port as nat);
    let certificate = hex_ascii(offer.certificate);
    let code = code_bytes(offer);
    lemma_address_text(offer.endpoint.ip);
    lemma_port_text(offer.endpoint.port);
    lemma_hex_round_trip(offer.certificate);
    lemma_hex_ascii_is_digits(offer.certificate);
    lemma_split_start(offer.platform);
    let with_ip = start.push(0x3a) + ip;
    let with_port = with_ip.push(0x3a) + port;
    assert(code[0] == 0x4c);
    assert(code.last() == certificate.last());
    assert(!is_space(code.last()));
    assert(trim(code) == code);
    assert forall|i: int| 0 <= i < code.len() implies #[trigger] code[i] < 128 by {
        if i < start.len() {
            assert(code[i] == start[i]);
        } else if start.len() < i < with_ip.len() {
            assert(code[i] == ip[i - start.len() - 1]);
        } else if with_ip.len() < i < with_port.len() {
            assert(code[i] == port[i - with_ip.len() - 1]);
        } else if with_port.len() < i {
            assert(code[i] == certificate[i - with_port.len() - 1]);
        }
    }
}

proof fn lemma_hex_ascii_is_digits(bytes: Seq<u8>)
    ensures
        forall|i: int|
            0 <= i < hex_ascii(bytes).len() ==> 0x30 <= #[trigger] hex_ascii(bytes)[i] <= 0x46
                && hex_ascii(bytes)[i] != 0x3a,
{
    lemma_hex_round_trip(bytes);
    assert forall|i: int| 0 <= i < hex_ascii(bytes).len() implies 0x30 <= #[trigger] hex_ascii(
        bytes,
    )[i] <= 0x46 && hex_ascii(bytes)[i] != 0x3a by {
        assert(hex_ascii(bytes)[i] == hex_text(bytes)[i] as u8);
    }
}

proof fn lemma_split_start(platform: Option<Platform>)
    ensures
        match platform {
            Some(platform) => split(code_start(Some(platform)), 0x3a) == seq![
                PLATFORM_CODE_TAG@,
                platform_code(platform),
            ],
            None => split(code_start(None), 0x3a) == seq![CODE_TAG@],
        },
        all_ascii(code_start(platform)),
        code_start(platform).len() <= 8,
        code_start(platform)[0] == 0x4c,
        platform matches Some(named) ==> platform_of_code(platform_code(named)) == platform,
        PLATFORM_CODE_TAG@ != CODE_TAG@,
{
    assert(PLATFORM_CODE_TAG@[3] != CODE_TAG@[3]);
    assert(WINDOWS_CODE@[0] != MACOS_CODE@[0]);
    match platform {
        Some(named) => {
            lemma_split_whole(PLATFORM_CODE_TAG@, 0x3a);
            lemma_split_last(PLATFORM_CODE_TAG@, platform_code(named), 0x3a);
            assert(split(code_start(platform), 0x3a) =~= seq![
                PLATFORM_CODE_TAG@,
                platform_code(named),
            ]);
        },
        None => {
            lemma_split_whole(CODE_TAG@, 0x3a);
        },
    }
}

impl PairingOffer {
    pub fn new(endpoint: SocketAddrV4, certificate: &[u8]) -> (offer: Result<
        PairingOffer,
        PairingError,
    >)
        ensures
            match offer_error(endpoint, certificate@) {
                Some(error) => offer == Err::<PairingOffer, _>(error),
                None => offer matches Ok(made) && made@ == (OfferView {
                    endpoint,
                    certificate: certificate@,
                    platform: None,
                }),
            },
    {
        if endpoint.port != PAIRING_PORT || !is_private_or_link_local(endpoint.ip) {
            return Err(PairingError::InvalidAddress);
        }
        if certificate.is_empty() || certificate.len() > MAX_PAIRING_CERT_BYTES {
            return Err(PairingError::InvalidCertificate);
        }
        let fingerprint = CertificateFingerprint::from_certificate_der(certificate);
        let full_hex = fingerprint.full_hex();
        let expected = full_hex.as_str();
        proof {
            law_full_hex_parses_back(fingerprint, expected);
        }
        match VerifiedPeer::from_certificate_der(certificate, expected) {
            Ok(_) => Ok(
                PairingOffer { endpoint, certificate: slice_to_vec(certificate), platform: None },
            ),
            Err(_) => Err(PairingError::InvalidCertificate),
        }
    }

    pub fn with_platform(self, platform: Platform) -> (offer: PairingOffer)
        ensures
            offer@ == (OfferView { platform: Some(platform), ..self@ }),
    {
        PairingOffer {
            endpoint: self.endpoint,
            certificate: self.certificate,
            platform: Some(platform),
        }
    }

    pub fn platform(&self) -> (platform: Option<Platform>)
        ensures
            platform == self@.platform,
    {
        self.platform
    }

    pub fn same(&self, other: &PairingOffer) -> (same: bool)
        ensures
            same == (self@ == other@),
    {
        self.endpoint == other.endpoint && same_bytes(
            self.certificate.as_slice(),
            other.certificate.as_slice(),
        ) && self.platform == other.platform
    }

    /// A copy of the offer.
    pub fn duplicate(&self) -> (offer: PairingOffer)
        ensures
            offer@ == self@,
    {
        PairingOffer {
            endpoint: self.endpoint,
            certificate: slice_to_vec(self.certificate.as_slice()),
            platform: self.platform,
        }
    }

    pub fn parse(code: &str) -> (offer: Result<PairingOffer, PairingError>)
        ensures
            match parsed_code(code.spec_bytes()) {
                Ok(view) => offer matches Ok(parsed) && parsed@ == view,
                Err(error) => offer == Err::<PairingOffer, _>(error),
            },
    {
        let bytes = code.as_bytes();
        if bytes.len() > MAX_PAIRING_CODE_BYTES || !is_all_ascii(bytes) {
            return Err(PairingError::InvalidCode);
        }
        let parts = fields(trimmed(bytes), 0x3a);
        let ghost all = split(trim(bytes@), 0x3a);
        assert(contents(parts@) == all);
        assert(parts@.len() == all.len());
        proof {
            lemma_split_nonempty(trim(bytes@), 0x3a);
            assert forall|i: int| 0 <= i < all.len() implies #[trigger] parts@[i]@ == all[i] by {
                assert(contents(parts@)[i] == parts@[i]@);
            }
        }
        let (platform, start): (Option<Platform>, usize) = if same_bytes(
            parts[0].as_slice(),
            &CODE_TAG,
        ) {
            (None, 1)
        } else if same_bytes(parts[0].as_slice(), &PLATFORM_CODE_TAG) && parts.len() >= 2 {
            assert(CODE_TAG@[3] != PLATFORM_CODE_TAG@[3]);
            match platform_from_code(parts[1].as_slice()) {
                Ok(platform) => (Some(platform), 2),
                Err(error) => return Err(error),
            }
        } else {
            return Err(PairingError::InvalidCode);
        };
        assert(code_header(all) == Some((platform, start as int)));
        if parts.len() != start + 3 || parts[start + 2].len() > MAX_PAIRING_CERT_BYTES * 2 {
            return Err(PairingError::InvalidCode);
        }
        let ip = match Ipv4Addr::parse(parts[start].as_slice()) {
            Some(ip) => ip,
            None => return Err(PairingError::InvalidAddress),
        };
        let port: u16 = match read_port(parts[start + 1].as_slice()) {
            Some(port) => port,
            None => return Err(PairingError::InvalidAddress),
        };
        let certificate = match decode_hex(parts[start + 2].as_slice()) {
            Ok(certificate) => certificate,
            Err(error) => return Err(error),
        };
        match PairingOffer::new(SocketAddrV4::new(ip, port), certificate.as_slice()) {
            Ok(offer) => match platform {
                Some(platform) => Ok(offer.with_platform(platform)),
                None => Ok(offer),
            },
            Err(error) => Err(error),
        }
    }

    pub fn to_code(&self) -> (code: String)
        ensures
            code@ == ascii(code_bytes(self@)),
    {
        proof {
            reveal_strlit("LKM1:");
            reveal_strlit("LKM2:");
            reveal_strlit(":");
        }
        let mut code = String::new();
        match self.platform {
            Some(platform) => {
                code.append("LKM2:");
                code.append(platform_to_code(platform));
                code.append(":");
            },
            None => code.append("LKM1:"),
        }
        assert(code@ =~= ascii(code_start(self@.platform).push(0x3a)));
        self.endpoint.ip.push_text(&mut code);
        code.append(":");
        push_decimal(&mut code, self.endpoint.port as u64);
        code.append(":");
        let certificate = hex(self.certificate.as_slice());
        proof {
            lemma_hex_round_trip(self.certificate@);
            assert(certificate@ =~= ascii(hex_ascii(self.certificate@))) by {
                assert forall|i: int| 0 <= i < certificate@.len() implies certificate@[i] == ascii(
                    hex_ascii(self.certificate@),
                )[i] by {
                    assert(hex_ascii(self.certificate@)[i] == certificate@[i] as u8);
                }
            }
        }
        code.append(certificate.as_str());
        assert(code@ =~= ascii(code_bytes(self@)));
        code
    }

    pub fn endpoint(&self) -> (endpoint: SocketAddrV4)
        ensures
            endpoint == self@.endpoint,
    {
        self.endpoint
    }

    pub fn fingerprint(&self) -> (fingerprint: CertificateFingerprint)
        ensures
            fingerprint@ == sha256(self@.certificate),
    {
        CertificateFingerprint::from_certificate_der(self.certificate.as_slice())
    }

    pub fn verified_peer(&self) -> (peer: Result<VerifiedPeer, PairingError>)
        ensures
            if certificate_length_error(self@.certificate) is None && is_trust_anchor(
                self@.certificate,
            ) {
                peer matches Ok(pinned) && pinned.wf() && pinned.certificate() == self@.certificate
            } else {
                peer == Err::<VerifiedPeer, _>(PairingError::InvalidCertificate)
            },
    {
        let fingerprint = self.fingerprint();
        let full_hex = fingerprint.full_hex();
        let expected = full_hex.as_str();
        proof {
            law_full_hex_parses_back(fingerprint, expected);
        }
        match VerifiedPeer::from_certificate_der(self.certificate.as_slice(), expected) {
            Ok(peer) => Ok(peer),
            Err(_) => Err(PairingError::InvalidCertificate),
        }
    }
}

/// Text that an offer wrote as its code is parsed as that offer.
pub proof fn law_written_codes_parse_back(offer: OfferView, code: &str)
    requires
        offer.wf(),
        code@ == ascii(code_bytes(offer)),
    ensures
        parsed_code(code.spec_bytes()) == Ok::<_, PairingError>(offer),
{
    law_codes_read_back(offer);
    assert(all_ascii(code_bytes(offer)));
    lemma_ascii_bytes(code_bytes(offer), code);
}

/// There is always a first field.
proof fn lemma_split_nonempty(text: Seq<u8>, separator: u8)
    ensures
        split(text, separator).len() > 0,
    decreases text.len(),
{
    if text.len() > 0 {
        lemma_split_nonempty(text.drop_last(), separator);
    }
}

fn is_all_ascii(bytes: &[u8]) -> (ascii: bool)
    ensures
        ascii == all_ascii(bytes@),
{
    let mut index: usize = 0;
    while index < bytes.len()
        invariant
            index <= bytes@.len(),
            forall|i: int| 0 <= i < index ==> #[trigger] bytes@[i] < 128,
        decreases bytes@.len() - index,
    {
        if bytes[index] >= 128 {
            return false;
        }
        index = index + 1;
    }
    true
}

/// A peer that a person confirmed, as it is stored.
#[verifier::ext_equal]
pub struct RecordView {
    pub local: Seq<u8>,
    pub peer: OfferView,
}

impl RecordView {
    pub open spec fn wf(self) -> bool {
        &&& self.local.len() == 32
        &&& self.peer.wf()
        &&& self.local != sha256(self.peer.certificate)
    }
}

#[derive(Clone, PartialEq, Eq)]
pub struct ConfirmedPeerRecord {
    local: CertificateFingerprint,
    peer: PairingOffer,
}

impl View for ConfirmedPeerRecord {
    type V = RecordView;

    closed spec fn view(&self) -> RecordView {
        RecordView { local: self.local@, peer: self.peer@ }
    }
}

pub open spec fn platform_wire(platform: Option<Platform>) -> u8 {
    match platform {
        None => 0,
        Some(Platform::Windows) => 1,
        Some(Platform::MacOs) => 2,
    }
}

pub open spec fn platform_of_wire(value: u8) -> Option<Option<Platform>> {
    match value {
        0 => Some(None),
        1 => Some(Some(Platform::Windows)),
        2 => Some(Some(Platform::MacOs)),
        _ => None,
    }
}

pub open spec fn address_bytes(address: Ipv4Addr) -> Seq<u8> {
    seq![address.octet(0), address.octet(1), address.octet(2), address.octet(3)]
}

/// The stored bytes of a record.
pub open spec fn peer_record_bytes(record: RecordView) -> Seq<u8> {
    PEER_RECORD_MAGIC@ + seq![2u8] + record.local + seq![platform_wire(record.peer.platform)]
        + address_bytes(record.peer.endpoint.ip) + to_be(record.peer.endpoint.port as nat, 2)
        + to_be(record.peer.certificate.len(), 2) + record.peer.certificate
}

/// The platform of a stored record and where its endpoint starts.
pub open spec fn record_header(bytes: Seq<u8>) -> Option<(Option<Platform>, int)> {
    if bytes[4] == 1 {
        Some((None, 37))
    } else if bytes[4] == 2 && platform_of_wire(bytes[37]) is Some {
        Some((platform_of_wire(bytes[37])->0, 38))
    } else {
        None
    }
}

/// The record that stored bytes stand for, to the computer with the identity `local`.
pub open spec fn decoded_record(bytes: Seq<u8>, local: Seq<u8>) -> Result<
    RecordView,
    PairingError,
> {
    if bytes.len() < 46 || bytes.len() > MAX_PEER_RECORD_BYTES || bytes.subrange(0, 4)
        != PEER_RECORD_MAGIC@ {
        Err(PairingError::InvalidRecord)
    } else {
        match record_header(bytes) {
            None => Err(PairingError::InvalidRecord),
            Some((platform, start)) => if bytes.subrange(5, 37) != local {
                Err(PairingError::WrongLocalIdentity)
            } else {
                decoded_peer(bytes, local, platform, start)
            },
        }
    }
}

/// The record whose endpoint and certificate stand at `start`.
pub open spec fn decoded_peer(
    bytes: Seq<u8>,
    local: Seq<u8>,
    platform: Option<Platform>,
    start: int,
) -> Result<RecordView, PairingError> {
    let endpoint = SocketAddrV4 {
        ip: Ipv4Addr(from_be(bytes.subrange(start, start + 4)) as u32),
        port: from_be(bytes.subrange(start + 4, start + 6)) as u16,
    };
    let certificate = bytes.skip(start + 8);
    if bytes.len() < start + 9 || from_be(bytes.subrange(start + 6, start + 8))
        != certificate.len() || offer_error(endpoint, certificate) is Some {
        Err(PairingError::InvalidRecord)
    } else if local == sha256(certificate) {
        Err(PairingError::SameIdentity)
    } else {
        Ok(RecordView { local, peer: OfferView { endpoint, certificate, platform } })
    }
}

proof fn lemma_address_bytes(address: Ipv4Addr)
    ensures
        address_bytes(address) == to_be(address.0 as nat, 4),
{
    reveal_with_fuel(to_be, 5);
    assert(address.0 / 256 / 256 / 256 % 256 == address.0 / 0x100_0000);
    assert(address_bytes(address) =~= to_be(address.0 as nat, 4));
}

/// A stored record reads back as that record to the same local identity.
#[verifier::rlimit(30)]
pub proof fn law_peer_records_read_back(record: RecordView)
    requires
        record.wf(),
    ensures
        peer_record_bytes(record).len() <= MAX_PEER_RECORD_BYTES,
        decoded_record(peer_record_bytes(record), record.local) == Ok::<_, PairingError>(record),
{
    let bytes = peer_record_bytes(record);
    let peer = record.peer;
    lemma_be_limits();
    lemma_to_be_len(peer.endpoint.port as nat, 2);
    lemma_to_be_len(peer.certificate.len(), 2);
    lemma_from_to_be(peer.endpoint.port as nat, 2);
    lemma_from_to_be(peer.certificate.len(), 2);
    lemma_from_to_be(peer.endpoint.ip.0 as nat, 4);
    lemma_address_bytes(peer.endpoint.ip);
    assert(bytes.subrange(0, 4) =~= PEER_RECORD_MAGIC@);
    assert(bytes[4] == 2);
    assert(bytes.subrange(5, 37) =~= record.local);
    assert(bytes[37] == platform_wire(peer.platform));
    assert(bytes.subrange(38, 42) =~= address_bytes(peer.endpoint.ip));
    assert(bytes.subrange(42, 44) =~= to_be(peer.endpoint.port as nat, 2));
    assert(bytes.subrange(44, 46) =~= to_be(peer.certificate.len(), 2));
    assert(bytes.skip(46) =~= peer.certificate);
}

/// A record that reads back keeps the local identity it was asked for, and never names that
/// identity as its own peer.
pub proof fn law_read_records_are_valid(bytes: Seq<u8>, local: Seq<u8>)
    requires
        local.len() == 32,
        decoded_record(bytes, local) is Ok,
    ensures
        decoded_record(bytes, local)->Ok_0.wf(),
        decoded_record(bytes, local)->Ok_0.local == local,
{
}

impl ConfirmedPeerRecord {
    pub fn new(local: CertificateFingerprint, peer: PairingOffer) -> (record: Result<
        ConfirmedPeerRecord,
        PairingError,
    >)
        ensures
            match record {
                Ok(made) => local@ != sha256(peer@.certificate) && made@ == (RecordView {
                    local: local@,
                    peer: peer@,
                }),
                Err(error) => local@ == sha256(peer@.certificate) && error
                    == PairingError::SameIdentity,
            },
    {
        if local.same(&peer.fingerprint()) {
            return Err(PairingError::SameIdentity);
        }
        Ok(ConfirmedPeerRecord { local, peer })
    }

    pub fn peer(&self) -> (peer: &PairingOffer)
        ensures
            peer@ == self@.peer,
    {
        &self.peer
    }

    pub fn local(&self) -> (local: CertificateFingerprint)
        ensures
            local@ == self@.local,
    {
        self.local
    }

    pub fn same(&self, other: &ConfirmedPeerRecord) -> (same: bool)
        ensures
            same == (self@ == other@),
    {
        self.local.same(&other.local) && self.peer.same(&other.peer)
    }

    // Records without a platform byte stay readable so an existing pairing is never replaced.
    pub fn encode(&self) -> (bytes: Vec<u8>)
        requires
            self@.peer.certificate.len() <= MAX_PAIRING_CERT_BYTES,
        ensures
            bytes@ == peer_record_bytes(self@),
    {
        let mut bytes: Vec<u8> = Vec::with_capacity(46 + self.peer.certificate.len());
        append(&mut bytes, &PEER_RECORD_MAGIC);
        bytes.push(2);
        append(&mut bytes, self.local.as_bytes());
        bytes.push(
            match self.peer.platform {
                Some(platform) => platform_to_wire(platform),
                None => 0,
            },
        );
        append(&mut bytes, &self.peer.endpoint.ip.octets());
        push_be(&mut bytes, self.peer.endpoint.port as u64, 2);
        push_be(&mut bytes, self.peer.certificate.len() as u64, 2);
        append(&mut bytes, self.peer.certificate.as_slice());
        assert(bytes@ =~= peer_record_bytes(self@));
        bytes
    }

    pub fn decode(bytes: &[u8], local: CertificateFingerprint) -> (record: Result<
        ConfirmedPeerRecord,
        PairingError,
    >)
        ensures
            match decoded_record(bytes@, local@) {
                Ok(view) => record matches Ok(decoded) && decoded@ == view,
                Err(error) => record == Err::<ConfirmedPeerRecord, _>(error),
            },
    {
        if bytes.len() < 46 || bytes.len() > MAX_PEER_RECORD_BYTES || !same_bytes(
            slice_subrange(bytes, 0, 4),
            &PEER_RECORD_MAGIC,
        ) {
            return Err(PairingError::InvalidRecord);
        }
        let (platform, start): (Option<Platform>, usize) = match bytes[4] {
            1 => (None, 37),
            2 => match platform_from_wire(bytes[37]) {
                Ok(platform) => (platform, 38),
                Err(error) => return Err(error),
            },
            _ => return Err(PairingError::InvalidRecord),
        };
        assert(record_header(bytes@) == Some((platform, start as int)));
        if !same_bytes(slice_subrange(bytes, 5, 37), local.as_bytes()) {
            return Err(PairingError::WrongLocalIdentity);
        }
        if bytes.len() < start + 9 {
            return Err(PairingError::InvalidRecord);
        }
        proof {
            lemma_be_limits();
        }
        let ip = Ipv4Addr(read_be(bytes, start, 4) as u32);
        let port: u16 = read_be(bytes, start + 4, 2) as u16;
        let length: usize = read_be(bytes, start + 6, 2) as usize;
        if length != bytes.len() - start - 8 {
            return Err(PairingError::InvalidRecord);
        }
        let certificate = copy_range(bytes, start + 8, bytes.len());
        assert(certificate@ =~= bytes@.skip(start + 8));
        let peer = match PairingOffer::new(SocketAddrV4::new(ip, port), certificate.as_slice()) {
            Ok(peer) => peer,
            Err(_) => return Err(PairingError::InvalidRecord),
        };
        let named = match platform {
            Some(platform) => peer.with_platform(platform),
            None => peer,
        };
        ConfirmedPeerRecord::new(local, named)
    }
}

/// Whether the local computer opens the connection.
pub open spec fn initiates(
    local_platform: Platform,
    local: Seq<u8>,
    peer_platform: Option<Platform>,
    peer: Seq<u8>,
) -> bool {
    let other = match peer_platform {
        Some(platform) => platform,
        None => opposite(local_platform),
    };
    if local_platform == other {
        precedes(local, peer)
    } else {
        local_platform == Platform::Windows
    }
}

pub open spec fn opposite(platform: Platform) -> Platform {
    match platform {
        Platform::Windows => Platform::MacOs,
        Platform::MacOs => Platform::Windows,
    }
}

/// Of two computers with different identities exactly one opens the connection, whatever their
/// platforms, when each knows the other's.
pub proof fn law_exactly_one_side_initiates(
    first_platform: Platform,
    first: Seq<u8>,
    second_platform: Platform,
    second: Seq<u8>,
)
    requires
        first != second,
    ensures
        initiates(first_platform, first, Some(second_platform), second) != initiates(
            second_platform,
            second,
            Some(first_platform),
            first,
        ),
{
    lemma_precedes_total(first, second);
}

/// Of two computers on different platforms exactly one opens the connection, though neither knows
/// the other's platform.
pub proof fn law_old_pairings_agree_on_the_side(first: Seq<u8>, second: Seq<u8>)
    ensures
        initiates(Platform::Windows, first, None, second),
        !initiates(Platform::MacOs, second, None, first),
{
}

/// Which computer opens the connection. Windows dials macOS; identical platforms fall back to
/// fingerprint order so exactly one side dials. A peer without a known platform is assumed to be
/// the other platform (a pairing without one is always cross-platform).
pub fn initiates_connection(
    local_platform: Platform,
    local: CertificateFingerprint,
    peer_platform: Option<Platform>,
    peer: CertificateFingerprint,
) -> (dials: bool)
    ensures
        dials == initiates(local_platform, local@, peer_platform, peer@),
{
    let other = match peer_platform {
        Some(platform) => platform,
        None => opposite_platform(local_platform),
    };
    match (local_platform, other) {
        (Platform::Windows, Platform::MacOs) => true,
        (Platform::MacOs, Platform::Windows) => false,
        _ => bytes_precede(local.as_bytes(), peer.as_bytes()),
    }
}

pub fn opposite_platform(platform: Platform) -> (other: Platform)
    ensures
        other == opposite(platform),
{
    match platform {
        Platform::Windows => Platform::MacOs,
        Platform::MacOs => Platform::Windows,
    }
}

fn platform_to_wire(platform: Platform) -> (value: u8)
    ensures
        value == platform_wire(Some(platform)),
{
    match platform {
        Platform::Windows => 1,
        Platform::MacOs => 2,
    }
}

fn platform_from_wire(value: u8) -> (platform: Result<Option<Platform>, PairingError>)
    ensures
        match platform_of_wire(value) {
            Some(named) => platform == Ok::<_, PairingError>(named),
            None => platform == Err::<Option<Platform>, _>(PairingError::InvalidRecord),
        },
{
    match value {
        0 => Ok(None),
        1 => Ok(Some(Platform::Windows)),
        2 => Ok(Some(Platform::MacOs)),
        _ => Err(PairingError::InvalidRecord),
    }
}

fn platform_to_code(platform: Platform) -> (code: &'static str)
    ensures
        code@ == ascii(platform_code(platform)),
{
    proof {
        reveal_strlit("win");
        reveal_strlit("mac");
    }
    let code = match platform {
        Platform::Windows => "win",
        Platform::MacOs => "mac",
    };
    assert(code@ =~= ascii(platform_code(platform)));
    code
}

fn platform_from_code(value: &[u8]) -> (platform: Result<Platform, PairingError>)
    ensures
        match platform_of_code(value@) {
            Some(named) => platform == Ok::<_, PairingError>(named),
            None => platform == Err::<Platform, _>(PairingError::InvalidCode),
        },
{
    if same_bytes(value, &WINDOWS_CODE) {
        Ok(Platform::Windows)
    } else if same_bytes(value, &MACOS_CODE) {
        Ok(Platform::MacOs)
    } else {
        Err(PairingError::InvalidCode)
    }
}

#[derive(Clone, Copy, Debug, PartialEq, Eq, Structural)]
pub enum PairFrameKind {
    Hello,
    Saved,
}

impl PairFrameKind {
    pub open spec fn code(self) -> u8 {
        match self {
            PairFrameKind::Hello => 1,
            PairFrameKind::Saved => 2,
        }
    }
}

/// The message of one phase from the computer `local` to the computer `peer`.
pub open spec fn pair_frame(kind: PairFrameKind, local: Seq<u8>, peer: Seq<u8>) -> Seq<u8> {
    PAIR_FRAME_HEADER@ + seq![kind.code()] + local + peer
}

/// A message names one phase, one sender and one receiver.
pub proof fn law_pair_frames_bind_both_identities_and_the_phase(
    first: (PairFrameKind, Seq<u8>, Seq<u8>),
    second: (PairFrameKind, Seq<u8>, Seq<u8>),
)
    requires
        first.1.len() == 32,
        first.2.len() == 32,
        second.1.len() == 32,
        second.2.len() == 32,
        pair_frame(first.0, first.1, first.2) == pair_frame(second.0, second.1, second.2),
    ensures
        first == second,
        pair_frame(first.0, first.1, first.2).len() == PAIR_FRAME_BYTES,
{
    let frame = pair_frame(first.0, first.1, first.2);
    let other = pair_frame(second.0, second.1, second.2);
    assert(frame[5] == first.0.code());
    assert(other[5] == second.0.code());
    assert(frame.subrange(6, 38) =~= first.1);
    assert(other.subrange(6, 38) =~= second.1);
    assert(frame.subrange(38, 70) =~= first.2);
    assert(other.subrange(38, 70) =~= second.2);
}

pub fn encode_pair_frame(
    kind: PairFrameKind,
    local: CertificateFingerprint,
    peer: CertificateFingerprint,
) -> (frame: [u8; 70])
    ensures
        frame@ == pair_frame(kind, local@, peer@),
{
    let mut frame = [0u8; 70];
    frame[0] = 0x4c;
    frame[1] = 0x4b;
    frame[2] = 0x50;
    frame[3] = 0x31;
    frame[4] = 1;
    frame[5] = match kind {
        PairFrameKind::Hello => 1,
        PairFrameKind::Saved => 2,
    };
    let sender = local.as_bytes();
    let receiver = peer.as_bytes();
    let mut index: usize = 0;
    while index < 32
        invariant
            index <= 32,
            sender@ == local@,
            receiver@ == peer@,
            frame@.subrange(0, 6) == PAIR_FRAME_HEADER@ + seq![kind.code()],
            forall|i: int| 0 <= i < index ==> frame@[6 + i] == local@[i],
            forall|i: int| 0 <= i < index ==> frame@[38 + i] == peer@[i],
        decreases 32 - index,
    {
        let ghost before = frame@;
        frame[6 + index] = sender[index];
        frame[38 + index] = receiver[index];
        assert(frame@.subrange(0, 6) =~= before.subrange(0, 6));
        index = index + 1;
    }
    assert(frame@ =~= pair_frame(kind, local@, peer@)) by {
        let expected = pair_frame(kind, local@, peer@);
        assert forall|i: int| 0 <= i < 70 implies frame@[i] == expected[i] by {
            if i < 6 {
                assert(frame@.subrange(0, 6)[i] == frame@[i]);
            } else if i < 38 {
                assert(frame@[6 + (i - 6)] == local@[i - 6]);
            } else {
                assert(frame@[38 + (i - 38)] == peer@[i - 38]);
            }
        }
    }
    frame
}

pub fn validate_pair_frame(
    bytes: &[u8],
    kind: PairFrameKind,
    sender: CertificateFingerprint,
    intended: CertificateFingerprint,
) -> (result: Result<(), PairingError>)
    ensures
        result == (if bytes@ == pair_frame(kind, sender@, intended@) {
            Ok::<(), PairingError>(())
        } else {
            Err::<(), PairingError>(PairingError::InvalidMessage)
        }),
{
    if !same_bytes(bytes, &encode_pair_frame(kind, sender, intended)) {
        return Err(PairingError::InvalidMessage);
    }
    Ok(())
}

/// The bytes that hexadecimal digits stand for.
pub fn decode_hex(text: &[u8]) -> (bytes: Result<Vec<u8>, PairingError>)
    ensures
        match decoded_hex(text@) {
            Ok(expected) => bytes matches Ok(decoded) && decoded@ == expected,
            Err(error) => bytes == Err::<Vec<u8>, _>(error),
        },
{
    if text.is_empty() {
        return Err(PairingError::InvalidCode);
    }
    match decode_pairs(text) {
        Some(bytes) => Ok(bytes),
        None => Err(PairingError::InvalidCode),
    }
}

/// An offer is accepted exactly where it is of this protocol's port at an address of a local network,
/// with a certificate of an accepted length that can be trusted; a wrong address is named before a
/// wrong certificate.
pub proof fn law_which_offers_are_accepted(endpoint: SocketAddrV4, certificate: Seq<u8>)
    ensures
        ({
            let reachable = endpoint.port == PAIRING_PORT && private_or_link_local(endpoint.ip);
            let trusted = 0 < certificate.len() <= MAX_PAIRING_CERT_BYTES && is_trust_anchor(
                certificate,
            );
            &&& offer_error(endpoint, certificate) is None <==> reachable && trusted
            &&& !reachable ==> offer_error(endpoint, certificate) == Some(
                PairingError::InvalidAddress,
            )
            &&& reachable && !trusted ==> offer_error(endpoint, certificate) == Some(
                PairingError::InvalidCertificate,
            )
        }),
{
}

/// A code that reads at all is short, plain, and gives an offer that is accepted.
pub proof fn law_read_codes_are_valid(code: Seq<u8>)
    requires
        parsed_code(code) is Ok,
    ensures
        (parsed_code(code)->Ok_0).wf(),
        code.len() <= MAX_PAIRING_CODE_BYTES,
        all_ascii(code),
{
}

/// A record of the first version, which names no platform, still reads: its peer is the same, of an
/// unknown platform.
pub proof fn law_old_records_still_read(record: RecordView)
    requires
        record.wf(),
        record.peer.platform is None,
    ensures
        decoded_record(
            PEER_RECORD_MAGIC@ + seq![1u8] + record.local + address_bytes(record.peer.endpoint.ip)
                + to_be(record.peer.endpoint.port as nat, 2) + to_be(
                record.peer.certificate.len(),
                2,
            ) + record.peer.certificate,
            record.local,
        ) == Ok::<_, PairingError>(record),
{
    let bytes = PEER_RECORD_MAGIC@ + seq![1u8] + record.local + address_bytes(
        record.peer.endpoint.ip,
    ) + to_be(record.peer.endpoint.port as nat, 2) + to_be(record.peer.certificate.len(), 2)
        + record.peer.certificate;
    lemma_be_limits();
    lemma_to_be_len(record.peer.endpoint.port as nat, 2);
    lemma_to_be_len(record.peer.certificate.len(), 2);
    lemma_from_to_be(record.peer.endpoint.port as nat, 2);
    lemma_from_to_be(record.peer.certificate.len(), 2);
    lemma_from_to_be(record.peer.endpoint.ip.0 as nat, 4);
    lemma_address_bytes(record.peer.endpoint.ip);
    assert(bytes.subrange(0, 4) =~= PEER_RECORD_MAGIC@);
    assert(bytes[4] == 1);
    assert(bytes.subrange(5, 37) =~= record.local);
    assert(bytes.subrange(37, 41) =~= address_bytes(record.peer.endpoint.ip));
    assert(bytes.subrange(41, 43) =~= to_be(record.peer.endpoint.port as nat, 2));
    assert(bytes.subrange(43, 45) =~= to_be(record.peer.certificate.len(), 2));
    assert(bytes.skip(45) =~= record.peer.certificate);
}

/// A saved pairing of another identity is never read, and one with itself is none.
pub proof fn law_a_record_is_of_one_pair(bytes: Seq<u8>, one: Seq<u8>, other: Seq<u8>)
    requires
        decoded_record(bytes, one) is Ok,
    ensures
        one != other ==> decoded_record(bytes, other) == Err::<RecordView, _>(
            PairingError::WrongLocalIdentity,
        ),
        sha256((decoded_record(bytes, one)->Ok_0).peer.certificate) != one,
{
}

/// Of a Windows computer and a Mac the first one initiates, of two of a kind the one whose identity
/// is lower.
pub proof fn law_which_side_initiates(
    local_platform: Platform,
    local: Seq<u8>,
    peer_platform: Platform,
    peer: Seq<u8>,
)
    ensures
        local_platform != peer_platform ==> (initiates(
            local_platform,
            local,
            Some(peer_platform),
            peer,
        ) <==> local_platform == Platform::Windows),
        local_platform == peer_platform ==> (initiates(
            local_platform,
            local,
            Some(peer_platform),
            peer,
        ) <==> precedes(local, peer)),
{
}

/// A pairing frame begins with its header, names its phase by its number, and then its sender before
/// its receiver.
pub proof fn law_a_pair_frame_names_its_sender_first(
    kind: PairFrameKind,
    local: Seq<u8>,
    peer: Seq<u8>,
)
    requires
        local.len() == 32,
        peer.len() == 32,
    ensures
        ({
            let frame = pair_frame(kind, local, peer);
            &&& frame.subrange(0, 5) == PAIR_FRAME_HEADER@
            &&& frame[5] == (if kind == PairFrameKind::Hello {
                1u8
            } else {
                2u8
            })
            &&& frame.subrange(6, 38) == local
            &&& frame.subrange(38, 70) == peer
        }),
{
    let frame = pair_frame(kind, local, peer);
    assert(frame.subrange(0, 5) =~= PAIR_FRAME_HEADER@);
    assert(frame.subrange(6, 38) =~= local);
    assert(frame.subrange(38, 70) =~= peer);
}

/// A record has every field at its place: the magic, the version, the own fingerprint, the peer's
/// platform by its number, its address and port, and its certificate after its length.
pub proof fn law_a_record_has_its_fields_in_place(record: RecordView)
    requires
        record.wf(),
    ensures
        ({
            let bytes = peer_record_bytes(record);
            &&& bytes.subrange(0, 4) == PEER_RECORD_MAGIC@
            &&& bytes[4] == 2
            &&& bytes.subrange(5, 37) == record.local
            &&& bytes[37] == (match record.peer.platform {
                None => 0u8,
                Some(Platform::Windows) => 1,
                Some(Platform::MacOs) => 2,
            })
            &&& from_be(bytes.subrange(38, 42)) == record.peer.endpoint.ip.0
            &&& from_be(bytes.subrange(42, 44)) == record.peer.endpoint.port
            &&& from_be(bytes.subrange(44, 46)) == record.peer.certificate.len()
            &&& bytes.skip(46) == record.peer.certificate
        }),
{
    let bytes = peer_record_bytes(record);
    let peer = record.peer;
    lemma_be_limits();
    lemma_to_be_len(peer.endpoint.port as nat, 2);
    lemma_to_be_len(peer.certificate.len(), 2);
    lemma_from_to_be(peer.endpoint.port as nat, 2);
    lemma_from_to_be(peer.certificate.len(), 2);
    lemma_from_to_be(peer.endpoint.ip.0 as nat, 4);
    lemma_address_bytes(peer.endpoint.ip);
    assert(bytes.subrange(0, 4) =~= PEER_RECORD_MAGIC@);
    assert(bytes.subrange(5, 37) =~= record.local);
    assert(bytes.subrange(38, 42) =~= address_bytes(peer.endpoint.ip));
    assert(bytes.subrange(42, 44) =~= to_be(peer.endpoint.port as nat, 2));
    assert(bytes.subrange(44, 46) =~= to_be(peer.certificate.len(), 2));
    assert(bytes.skip(46) =~= peer.certificate);
}

} // verus!
