//! The fixed header before every layout and link frame.

use crate::bytes::{
    append, array_32, from_be, lemma_be_limits, lemma_from_be_bound, lemma_from_to_be,
    lemma_to_be_len, lemma_to_from_be, push_be, read_be, same_bytes, to_be,
};
use vstd::prelude::*;
use vstd::slice::slice_subrange;

verus! {

/// `LKLC`.
pub const ENVELOPE_MAGIC: [u8; 4] = [0x4c, 0x4b, 0x4c, 0x43];

pub const ENVELOPE_FORMAT_VERSION: u8 = 1;

pub const ENVELOPE_LENGTH: usize = 64;

/// What a header says, beside the protocol version, the purpose and the length of the payload.
pub struct Envelope {
    pub kind: u8,
    pub detail: u8,
    pub epoch: u64,
    pub sequence: u64,
    pub digest: [u8; 32],
}

#[verifier::ext_equal]
pub struct EnvelopeView {
    pub kind: u8,
    pub detail: u8,
    pub epoch: u64,
    pub sequence: u64,
    pub digest: Seq<u8>,
}

impl View for Envelope {
    type V = EnvelopeView;

    open spec fn view(&self) -> EnvelopeView {
        EnvelopeView {
            kind: self.kind,
            detail: self.detail,
            epoch: self.epoch,
            sequence: self.sequence,
            digest: self.digest@,
        }
    }
}

/// The header of a payload of `length` bytes.
pub open spec fn header_bytes(
    version: u16,
    purpose: u8,
    envelope: EnvelopeView,
    length: nat,
) -> Seq<u8> {
    ENVELOPE_MAGIC@ + to_be(version as nat, 2) + seq![
        ENVELOPE_FORMAT_VERSION,
        purpose,
        envelope.kind,
        envelope.detail,
        0u8,
        0u8,
    ] + to_be(envelope.epoch as nat, 8) + to_be(envelope.sequence as nat, 8) + to_be(length, 4)
        + envelope.digest
}

/// The length of the payload that a header announces.
pub open spec fn announced_length(header: Seq<u8>) -> nat {
    from_be(header.subrange(28, 32))
}

/// What a header of this protocol version and purpose says.
pub open spec fn header_fields(version: u16, purpose: u8, header: Seq<u8>) -> Option<EnvelopeView> {
    if header.len() == ENVELOPE_LENGTH && header.subrange(0, 4) == ENVELOPE_MAGIC@ && from_be(
        header.subrange(4, 6),
    ) == version && header[6] == ENVELOPE_FORMAT_VERSION && header[7] == purpose && header[10] == 0
        && header[11] == 0 {
        Some(
            EnvelopeView {
                kind: header[8],
                detail: header[9],
                epoch: from_be(header.subrange(12, 20)) as u64,
                sequence: from_be(header.subrange(20, 28)) as u64,
                digest: header.subrange(32, 64),
            },
        )
    } else {
        None
    }
}

/// A header reads back as what was written.
pub proof fn lemma_headers_read_back(
    version: u16,
    purpose: u8,
    envelope: EnvelopeView,
    length: nat,
)
    requires
        envelope.digest.len() == 32,
        length < 0x1_0000_0000,
    ensures
        header_bytes(version, purpose, envelope, length).len() == ENVELOPE_LENGTH,
        header_fields(version, purpose, header_bytes(version, purpose, envelope, length)) == Some(
            envelope,
        ),
        announced_length(header_bytes(version, purpose, envelope, length)) == length,
        header_bytes(version, purpose, envelope, length)[7] == purpose,
{
    let header = header_bytes(version, purpose, envelope, length);
    lemma_be_limits();
    lemma_to_be_len(version as nat, 2);
    lemma_to_be_len(envelope.epoch as nat, 8);
    lemma_to_be_len(envelope.sequence as nat, 8);
    lemma_to_be_len(length, 4);
    lemma_from_to_be(version as nat, 2);
    lemma_from_to_be(envelope.epoch as nat, 8);
    lemma_from_to_be(envelope.sequence as nat, 8);
    lemma_from_to_be(length, 4);
    assert(header.subrange(0, 4) =~= ENVELOPE_MAGIC@);
    assert(header.subrange(4, 6) =~= to_be(version as nat, 2));
    assert(header.subrange(12, 20) =~= to_be(envelope.epoch as nat, 8));
    assert(header.subrange(20, 28) =~= to_be(envelope.sequence as nat, 8));
    assert(header.subrange(28, 32) =~= to_be(length, 4));
    assert(header.subrange(32, 64) =~= envelope.digest);
}

/// The header and the payload as one message.
pub fn encode_envelope(version: u16, purpose: u8, envelope: &Envelope, payload: &[u8]) -> (bytes: Vec<
    u8,
>)
    requires
        payload@.len() < 0x1_0000_0000,
    ensures
        bytes@ == header_bytes(version, purpose, envelope@, payload@.len()) + payload@,
{
    let mut bytes: Vec<u8> = Vec::new();
    append(&mut bytes, &ENVELOPE_MAGIC);
    push_be(&mut bytes, version as u64, 2);
    bytes.push(ENVELOPE_FORMAT_VERSION);
    bytes.push(purpose);
    bytes.push(envelope.kind);
    bytes.push(envelope.detail);
    bytes.push(0);
    bytes.push(0);
    push_be(&mut bytes, envelope.epoch, 8);
    push_be(&mut bytes, envelope.sequence, 8);
    push_be(&mut bytes, payload.len() as u64, 4);
    append(&mut bytes, &envelope.digest);
    append(&mut bytes, payload);
    assert(bytes@ =~= header_bytes(version, purpose, envelope@, payload@.len()) + payload@);
    bytes
}

/// What a header of this protocol version and purpose says.
pub fn decode_envelope(version: u16, purpose: u8, header: &[u8]) -> (envelope: Option<Envelope>)
    ensures
        match envelope {
            Some(read) => header_fields(version, purpose, header@) == Some(read@),
            None => header_fields(version, purpose, header@) is None,
        },
{
    if header.len() != ENVELOPE_LENGTH {
        return None;
    }
    proof {
        lemma_be_limits();
    }
    if !same_bytes(slice_subrange(header, 0, 4), &ENVELOPE_MAGIC) || read_be(header, 4, 2)
        != version as u64 || header[6] != ENVELOPE_FORMAT_VERSION || header[7] != purpose
        || header[10] != 0 || header[11] != 0 {
        return None;
    }
    Some(
        Envelope {
            kind: header[8],
            detail: header[9],
            epoch: read_be(header, 12, 8),
            sequence: read_be(header, 20, 8),
            digest: array_32(header, 32),
        },
    )
}

/// The length of the payload that a header announces.
pub fn payload_length(header: &[u8]) -> (length: u64)
    requires
        header@.len() >= 32,
    ensures
        length == announced_length(header@),
        length < 0x1_0000_0000,
{
    proof {
        lemma_be_limits();
    }
    read_be(header, 28, 4)
}

/// A header has every field at its place: the magic, the protocol's version, the format, the purpose,
/// the kind and its detail, two zeros, the epoch, the sequence, the payload's length and the digest.
pub proof fn law_a_header_has_its_fields_in_place(
    version: u16,
    purpose: u8,
    envelope: EnvelopeView,
    length: nat,
)
    requires
        envelope.digest.len() == 32,
    ensures
        ({
            let header = header_bytes(version, purpose, envelope, length);
            &&& header.len() == 64
            &&& header.subrange(0, 4) == ENVELOPE_MAGIC@
            &&& header.subrange(4, 6) == to_be(version as nat, 2)
            &&& header[6] == ENVELOPE_FORMAT_VERSION
            &&& header[7] == purpose
            &&& header[8] == envelope.kind
            &&& header[9] == envelope.detail
            &&& header[10] == 0 && header[11] == 0
            &&& header.subrange(12, 20) == to_be(envelope.epoch as nat, 8)
            &&& header.subrange(20, 28) == to_be(envelope.sequence as nat, 8)
            &&& header.subrange(28, 32) == to_be(length, 4)
            &&& header.subrange(32, 64) == envelope.digest
        }),
{
    let header = header_bytes(version, purpose, envelope, length);
    lemma_to_be_len(version as nat, 2);
    lemma_to_be_len(envelope.epoch as nat, 8);
    lemma_to_be_len(envelope.sequence as nat, 8);
    lemma_to_be_len(length, 4);
    assert(header.subrange(0, 4) =~= ENVELOPE_MAGIC@);
    assert(header.subrange(4, 6) =~= to_be(version as nat, 2));
    assert(header.subrange(12, 20) =~= to_be(envelope.epoch as nat, 8));
    assert(header.subrange(20, 28) =~= to_be(envelope.sequence as nat, 8));
    assert(header.subrange(28, 32) =~= to_be(length, 4));
    assert(header.subrange(32, 64) =~= envelope.digest);
}

/// A header that reads is the one that would be written for what was read: no other bytes say the
/// same.
pub proof fn law_read_headers_are_written_ones(version: u16, purpose: u8, header: Seq<u8>)
    requires
        header_fields(version, purpose, header) is Some,
    ensures
        header_bytes(
            version,
            purpose,
            header_fields(version, purpose, header)->0,
            announced_length(header),
        ) == header,
{
    let fields = header_fields(version, purpose, header)->0;
    lemma_be_limits();
    lemma_from_be_bound(header.subrange(12, 20));
    lemma_from_be_bound(header.subrange(20, 28));
    lemma_to_from_be(header.subrange(4, 6));
    lemma_to_from_be(header.subrange(12, 20));
    lemma_to_from_be(header.subrange(20, 28));
    lemma_to_from_be(header.subrange(28, 32));
    let written = header_bytes(version, purpose, fields, announced_length(header));
    law_a_header_has_its_fields_in_place(version, purpose, fields, announced_length(header));
    assert forall|i: int| 0 <= i < 64 implies written[i] == header[i] by {
        if i < 4 {
            assert(written.subrange(0, 4)[i] == header.subrange(0, 4)[i]);
        } else if i < 6 {
            assert(written.subrange(4, 6)[i - 4] == header.subrange(4, 6)[i - 4]);
        } else if 12 <= i < 20 {
            assert(written.subrange(12, 20)[i - 12] == header.subrange(12, 20)[i - 12]);
        } else if 20 <= i < 28 {
            assert(written.subrange(20, 28)[i - 20] == header.subrange(20, 28)[i - 20]);
        } else if 28 <= i < 32 {
            assert(written.subrange(28, 32)[i - 28] == header.subrange(28, 32)[i - 28]);
        } else if 32 <= i {
            assert(written.subrange(32, 64)[i - 32] == header.subrange(32, 64)[i - 32]);
        }
    }
    assert(written =~= header);
}

} // verus!
