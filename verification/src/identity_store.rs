//! Versioned local identity records for platform-protected stores.
//!
//! Platform adapters own Keychain or DPAPI access. This module only defines a
//! bounded record format and never touches files, native APIs, or the network.

use crate::bytes::{
    append, from_be, lemma_be_limits, lemma_from_be_bound, lemma_from_to_be, lemma_to_be_len,
    lemma_to_from_be, push_be, read_be, same_bytes, to_be,
};
use crate::crypto::{
    generation_outcome, identity_outcome, is_device_certificate,
    private_key_der_for_protected_storage, sha256, CryptoError, DeviceIdentity, SecretBytes,
};
use vstd::prelude::*;
use vstd::slice::slice_subrange;

verus! {

pub const RECORD_MAGIC: [u8; 4] = [0x4c, 0x4b, 0x4d, 0x49];

pub const RECORD_VERSION: u8 = 1;

pub const HEADER_LENGTH: usize = 13;

/// Maximum protected-store plaintext accepted for one complete identity record.
pub const MAX_IDENTITY_RECORD_LENGTH: usize = 4 * 1024;

/// A provider failure or fail-closed identity-record validation error.
#[derive(Clone, Copy, Debug, Eq, PartialEq, Structural)]
pub enum StorageError {
    ReadFailed,
    WriteFailed,
    AccessDenied,
    Locked,
    Unavailable,
    AlreadyExists,
    InvalidRecord,
    UnsupportedRecordVersion,
    ReadbackMissing,
    ReadbackMismatch,
    Identity(CryptoError),
}

impl StorageError {
    pub open spec fn text(self) -> Seq<char> {
        match self {
            StorageError::ReadFailed => "protected identity storage could not be read"@,
            StorageError::WriteFailed => "protected identity storage could not be written"@,
            StorageError::AccessDenied => "OS-protected identity access was denied or canceled"@,
            StorageError::Locked => "OS-protected identity storage is locked"@,
            StorageError::Unavailable => "OS-protected identity storage is unavailable"@,
            StorageError::AlreadyExists => "a protected identity record already exists"@,
            StorageError::InvalidRecord => "protected identity record is invalid"@,
            StorageError::UnsupportedRecordVersion =>
                "protected identity record version is unsupported"@,
            StorageError::ReadbackMissing =>
                "protected identity record was missing after creation"@,
            StorageError::ReadbackMismatch =>
                "protected identity readback did not match the created identity"@,
            StorageError::Identity(_) => "protected identity record could not be validated"@,
        }
    }

    /// The text shown to a user.
    pub fn message(&self) -> (message: &'static str)
        ensures
            message@ == self.text(),
    {
        match self {
            StorageError::ReadFailed => "protected identity storage could not be read",
            StorageError::WriteFailed => "protected identity storage could not be written",
            StorageError::AccessDenied => "OS-protected identity access was denied or canceled",
            StorageError::Locked => "OS-protected identity storage is locked",
            StorageError::Unavailable => "OS-protected identity storage is unavailable",
            StorageError::AlreadyExists => "a protected identity record already exists",
            StorageError::InvalidRecord => "protected identity record is invalid",
            StorageError::UnsupportedRecordVersion =>
                "protected identity record version is unsupported",
            StorageError::ReadbackMissing =>
                "protected identity record was missing after creation",
            StorageError::ReadbackMismatch =>
                "protected identity readback did not match the created identity",
            StorageError::Identity(_) => "protected identity record could not be validated",
        }
    }
}

/// A record that may have been loaded, as the bytes it holds.
pub open spec fn loaded_bytes(loaded: Result<Option<SecretBytes>, StorageError>) -> Result<
    Option<Seq<u8>>,
    StorageError,
> {
    match loaded {
        Ok(Some(record)) => Ok(Some(record@)),
        Ok(None) => Ok(None),
        Err(error) => Err(error),
    }
}

/// One call of an identity store with its answer.
pub enum StoreCall {
    Load(Result<Option<Seq<u8>>, StorageError>),
    Create(Seq<u8>, Result<(), StorageError>),
}

/// The calls of an identity store, oldest first.
pub type StoreHistory = Seq<StoreCall>;

/// OS-protected local storage for the complete identity record plaintext.
///
/// Providers must protect every supplied byte with the platform facility and
/// atomically reject `create_new` when any record already exists.
pub trait ProtectedIdentityStore {
    /// The calls made so far.
    spec fn history(&self) -> StoreHistory;

    fn load(&mut self) -> (loaded: Result<Option<SecretBytes>, StorageError>)
        ensures
            final(self).history() == old(self).history().push(
                StoreCall::Load(loaded_bytes(loaded)),
            ),
    ;

    fn create_new(&mut self, record: &[u8]) -> (created: Result<(), StorageError>)
        ensures
            final(self).history() == old(self).history().push(
                StoreCall::Create(record@, created),
            ),
    ;
}

/// One confirmed-peer record with the store's own name for it. The handle is only ever handed
/// back to `delete`; which computer a record belongs to is read from its content.
pub struct StoredPeer {
    pub handle: String,
    pub record: SecretBytes,
}

impl View for StoredPeer {
    type V = (Seq<char>, Seq<u8>);

    open spec fn view(&self) -> (Seq<char>, Seq<u8>) {
        (self.handle@, self.record@)
    }
}

/// The stored peers as pairs of handle and record.
pub open spec fn stored_pairs(stored: Seq<StoredPeer>) -> Seq<(Seq<char>, Seq<u8>)> {
    stored.map_values(|peer: StoredPeer| peer@)
}

pub open spec fn listed_pairs(listed: Result<Vec<StoredPeer>, StorageError>) -> Result<
    Seq<(Seq<char>, Seq<u8>)>,
    StorageError,
> {
    match listed {
        Ok(stored) => Ok(stored_pairs(stored@)),
        Err(error) => Err(error),
    }
}

/// One call of a peer store with its answer.
pub enum PeerStoreCall {
    List(Result<Seq<(Seq<char>, Seq<u8>)>, StorageError>),
    Create(Seq<char>, Seq<u8>, Result<(), StorageError>),
    Delete(Seq<char>, Result<(), StorageError>),
}

/// The calls of a peer store, oldest first.
pub type PeerStoreHistory = Seq<PeerStoreCall>;

/// OS-protected storage holding one record per paired computer.
///
/// Providers protect every byte with the platform facility, never replace a record, and reject
/// `create_new` for a key that already has one. `key` is the peer's lowercase 64-hex fingerprint.
pub trait ProtectedPeerStore {
    /// The calls made so far.
    spec fn history(&self) -> PeerStoreHistory;

    fn list(&mut self) -> (listed: Result<Vec<StoredPeer>, StorageError>)
        ensures
            final(self).history() == old(self).history().push(
                PeerStoreCall::List(listed_pairs(listed)),
            ),
    ;

    fn create_new(&mut self, key: &str, record: &[u8]) -> (created: Result<(), StorageError>)
        ensures
            final(self).history() == old(self).history().push(
                PeerStoreCall::Create(key@, record@, created),
            ),
    ;

    fn delete(&mut self, handle: &str) -> (deleted: Result<(), StorageError>)
        ensures
            final(self).history() == old(self).history().push(
                PeerStoreCall::Delete(handle@, deleted),
            ),
    ;
}

/// The parts can be written as one record.
pub open spec fn fits_record(certificate: Seq<u8>, private_key: Seq<u8>) -> bool {
    &&& certificate.len() > 0
    &&& private_key.len() > 0
    &&& HEADER_LENGTH + certificate.len() + private_key.len() <= MAX_IDENTITY_RECORD_LENGTH
}

/// The record of a certificate and its private key.
pub open spec fn record_bytes(certificate: Seq<u8>, private_key: Seq<u8>) -> Seq<u8> {
    RECORD_MAGIC@ + seq![RECORD_VERSION] + to_be(certificate.len(), 4) + to_be(private_key.len(), 4)
        + certificate + private_key
}

/// The certificate and the private key that a record holds.
pub open spec fn record_parts(record: Seq<u8>) -> Result<(Seq<u8>, Seq<u8>), StorageError> {
    let certificate = from_be(record.subrange(5, 9));
    let private_key = from_be(record.subrange(9, 13));
    if record.len() < HEADER_LENGTH || record.len() > MAX_IDENTITY_RECORD_LENGTH {
        Err(StorageError::InvalidRecord)
    } else if record.subrange(0, 4) != RECORD_MAGIC@ {
        Err(StorageError::InvalidRecord)
    } else if record[4] != RECORD_VERSION {
        Err(StorageError::UnsupportedRecordVersion)
    } else if certificate == 0 || private_key == 0 || HEADER_LENGTH + certificate + private_key
        != record.len() {
        Err(StorageError::InvalidRecord)
    } else {
        Ok(
            (
                record.subrange(13, 13int + certificate),
                record.subrange(13int + certificate, record.len() as int),
            ),
        )
    }
}

/// A written record reads back as the certificate and the private key it was made of.
pub proof fn law_records_read_back(certificate: Seq<u8>, private_key: Seq<u8>)
    requires
        fits_record(certificate, private_key),
    ensures
        record_parts(record_bytes(certificate, private_key)) == Ok::<_, StorageError>(
            (certificate, private_key),
        ),
{
    let record = record_bytes(certificate, private_key);
    lemma_be_limits();
    lemma_to_be_len(certificate.len(), 4);
    lemma_to_be_len(private_key.len(), 4);
    lemma_from_to_be(certificate.len(), 4);
    lemma_from_to_be(private_key.len(), 4);
    assert(record.subrange(0, 4) =~= RECORD_MAGIC@);
    assert(record.subrange(5, 9) =~= to_be(certificate.len(), 4));
    assert(record.subrange(9, 13) =~= to_be(private_key.len(), 4));
    assert(record.subrange(13, 13int + certificate.len()) =~= certificate);
    assert(record.subrange(13int + certificate.len(), record.len() as int) =~= private_key);
}

/// What decoding a record can give.
pub open spec fn decode_outcome(
    record: Seq<u8>,
    decoded: Result<DeviceIdentity, StorageError>,
) -> bool {
    match record_parts(record) {
        Err(error) => decoded == Err::<DeviceIdentity, _>(error),
        Ok((certificate, private_key)) => match decoded {
            Ok(identity) => identity_outcome(private_key, certificate, Ok(identity)),
            Err(StorageError::Identity(error)) => identity_outcome(
                private_key,
                certificate,
                Err(error),
            ),
            Err(_) => false,
        },
    }
}

/// An identity decoded from the record of another one has the same certificate, and so the same
/// fingerprint, and the same private key.
pub proof fn law_a_reloaded_identity_is_the_stored_one(
    stored: DeviceIdentity,
    reloaded: DeviceIdentity,
)
    requires
        fits_record(stored.certificate(), stored.private_key()),
        decode_outcome(
            record_bytes(stored.certificate(), stored.private_key()),
            Ok::<_, StorageError>(reloaded),
        ),
    ensures
        reloaded.certificate() == stored.certificate(),
        reloaded.private_key() == stored.private_key(),
        sha256(reloaded.certificate()) == sha256(stored.certificate()),
{
    law_records_read_back(stored.certificate(), stored.private_key());
}

/// What was loaded from a store, decoded: nothing where there is no record.
pub open spec fn load_outcome(
    loaded: Result<Option<Seq<u8>>, StorageError>,
    identity: Result<Option<DeviceIdentity>, StorageError>,
) -> bool {
    match loaded {
        Err(error) => identity == Err::<Option<DeviceIdentity>, _>(error),
        Ok(None) => identity == Ok::<Option<DeviceIdentity>, StorageError>(None),
        Ok(Some(record)) => match identity {
            Ok(Some(found)) => decode_outcome(record, Ok(found)),
            Ok(None) => false,
            Err(error) => decode_outcome(record, Err(error)),
        },
    }
}

/// Decode what a store's `load` gave.
pub fn decode_loaded(loaded: Result<Option<SecretBytes>, StorageError>) -> (identity: Result<
    Option<DeviceIdentity>,
    StorageError,
>)
    ensures
        load_outcome(loaded_bytes(loaded), identity),
{
    match loaded {
        Err(error) => Err(error),
        Ok(None) => Ok(None),
        Ok(Some(record)) => match decode_identity_record(record.as_slice()) {
            Ok(identity) => Ok(Some(identity)),
            Err(error) => Err(error),
        },
    }
}

/// Explicitly load and validate an existing identity without generating one.
pub fn load_identity<S: ProtectedIdentityStore>(store: &mut S) -> (identity: Result<
    Option<DeviceIdentity>,
    StorageError,
>)
    ensures
        final(store).history().len() == old(store).history().len() + 1,
        final(store).history().drop_last() == old(store).history(),
        final(store).history().last() matches StoreCall::Load(loaded) && load_outcome(
            loaded,
            identity,
        ),
{
    let loaded = store.load();
    assert(store.history().drop_last() =~= old(store).history());
    decode_loaded(loaded)
}

/// Whether an identity may be created where `existing` was loaded: only where there is none.
pub open spec fn vacancy(existing: Result<Option<DeviceIdentity>, StorageError>) -> Result<
    (),
    StorageError,
> {
    match existing {
        Err(error) => Err(error),
        Ok(Some(_)) => Err(StorageError::AlreadyExists),
        Ok(None) => Ok(()),
    }
}

/// An identity may be created only where none was loaded.
pub fn require_vacancy(existing: &Result<Option<DeviceIdentity>, StorageError>) -> (result: Result<
    (),
    StorageError,
>)
    ensures
        result == vacancy(*existing),
{
    match existing {
        Err(error) => Err(*error),
        Ok(Some(_)) => Err(StorageError::AlreadyExists),
        Ok(None) => Ok(()),
    }
}

/// What is returned for a stored `identity` after `persisted` was read back.
pub open spec fn settled(
    identity: DeviceIdentity,
    persisted: Result<Option<DeviceIdentity>, StorageError>,
) -> Result<DeviceIdentity, StorageError> {
    match persisted {
        Err(error) => Err(error),
        Ok(None) => Err(StorageError::ReadbackMissing),
        Ok(Some(found)) => if sha256(found.certificate()) == sha256(identity.certificate()) {
            Ok(identity)
        } else {
            Err(StorageError::ReadbackMismatch)
        },
    }
}

/// Settle the creation of `identity` by what was read back after it was stored.
pub fn settle_readback(
    identity: DeviceIdentity,
    persisted: Result<Option<DeviceIdentity>, StorageError>,
) -> (created: Result<DeviceIdentity, StorageError>)
    ensures
        created == settled(identity, persisted),
{
    match persisted {
        Err(error) => Err(error),
        Ok(None) => Err(StorageError::ReadbackMissing),
        Ok(Some(found)) => if found.fingerprint().same(&identity.fingerprint()) {
            Ok(identity)
        } else {
            Err(StorageError::ReadbackMismatch)
        },
    }
}

/// What is returned for a stored `identity` follows from decoding what the store gives back.
pub open spec fn read_back(
    identity: DeviceIdentity,
    readback: Result<Option<Seq<u8>>, StorageError>,
    created: Result<DeviceIdentity, StorageError>,
) -> bool {
    exists|persisted: Result<Option<DeviceIdentity>, StorageError>| #[trigger]
        load_outcome(readback, persisted) && created == settled(identity, persisted)
}

/// What the store is asked while `identity` is persisted, and what is returned for its answers.
pub open spec fn persistence(
    identity: DeviceIdentity,
    calls: Seq<StoreCall>,
    created: Result<DeviceIdentity, StorageError>,
) -> bool {
    if !fits_record(identity.certificate(), identity.private_key()) {
        calls.len() == 0 && created == Err::<DeviceIdentity, _>(StorageError::InvalidRecord)
    } else {
        calls.len() > 0 && match calls[0] {
            StoreCall::Load(_) => false,
            StoreCall::Create(written, answer) => written == record_bytes(
                identity.certificate(),
                identity.private_key(),
            ) && match answer {
                Err(error) => calls.len() == 1 && created == Err::<DeviceIdentity, _>(error),
                Ok(()) => calls.len() == 2 && match calls[1] {
                    StoreCall::Create(_, _) => false,
                    StoreCall::Load(readback) => read_back(identity, readback, created),
                },
            },
        }
    }
}

/// Store the record of `identity` and read it back.
pub fn persist_identity<S: ProtectedIdentityStore>(store: &mut S, identity: DeviceIdentity) -> (
created: Result<DeviceIdentity, StorageError>)
    ensures
        final(store).history().len() >= old(store).history().len(),
        final(store).history().take(old(store).history().len() as int) == old(store).history(),
        persistence(
            identity,
            final(store).history().skip(old(store).history().len() as int),
            created,
        ),
{
    let ghost before = store.history();
    let ghost count = before.len() as int;
    assert(before.take(count) =~= before);
    let mut record = match encode_identity_record(&identity) {
        Ok(record) => record,
        Err(error) => return Err(error),
    };
    let ghost written = record@;
    let creation = store.create_new(record.as_slice());
    record.wipe();
    assert(store.history().take(count) =~= before);
    assert(store.history().skip(count) =~= seq![StoreCall::Create(written, creation)]);
    if let Err(error) = creation {
        return Err(error);
    }
    let persisted = load_identity(store);
    let ghost readback = store.history().last()->Load_0;
    assert(store.history().take(count) =~= store.history().drop_last().take(count));
    assert(store.history().skip(count) =~= store.history().drop_last().skip(count).push(
        StoreCall::Load(readback),
    ));
    assert(load_outcome(readback, persisted));
    settle_readback(identity, persisted)
}

/// What is asked of the store, and what is returned, once `generated` came of generating.
pub open spec fn generated_creation(
    generated: Result<DeviceIdentity, CryptoError>,
    calls: Seq<StoreCall>,
    created: Result<DeviceIdentity, StorageError>,
) -> bool {
    match generated {
        Err(error) => calls.len() == 0 && created == Err::<DeviceIdentity, _>(
            StorageError::Identity(error),
        ),
        Ok(identity) => persistence(identity, calls, created),
    }
}

/// Persist what came of generating an identity.
pub fn persist_generated<S: ProtectedIdentityStore>(
    store: &mut S,
    generated: Result<DeviceIdentity, CryptoError>,
) -> (created: Result<DeviceIdentity, StorageError>)
    ensures
        final(store).history().len() >= old(store).history().len(),
        final(store).history().take(old(store).history().len() as int) == old(store).history(),
        generated_creation(
            generated,
            final(store).history().skip(old(store).history().len() as int),
            created,
        ),
{
    match generated {
        Err(error) => {
            assert(store.history().take(store.history().len() as int) =~= store.history());
            Err(StorageError::Identity(error))
        },
        Ok(identity) => persist_identity(store, identity),
    }
}

/// A first call that loaded what forbids a creation is the only one.
pub open spec fn refused_creation(
    loaded: Result<Option<Seq<u8>>, StorageError>,
    created: Result<DeviceIdentity, StorageError>,
) -> bool {
    exists|existing: Result<Option<DeviceIdentity>, StorageError>| #[trigger]
        load_outcome(loaded, existing) && match vacancy(existing) {
            Err(error) => created == Err::<DeviceIdentity, _>(error),
            Ok(()) => false,
        }
}

/// What the store is asked while an identity is created, and what is returned for its answers. The
/// identity that is stored is one freshly generated for this product.
pub open spec fn creation(
    calls: Seq<StoreCall>,
    created: Result<DeviceIdentity, StorageError>,
) -> bool {
    calls.len() > 0 && match calls[0] {
        StoreCall::Create(_, _) => false,
        StoreCall::Load(Ok(None)) => exists|generated: Result<DeviceIdentity, CryptoError>|
            #[trigger]
            generation_outcome(generated) && generated_creation(generated, calls.skip(1), created),
        StoreCall::Load(loaded) => calls.len() == 1 && refused_creation(loaded, created),
    }
}

/// Creating an identity writes only where the store said that it holds no record, and at most once.
pub proof fn law_creation_never_replaces_a_record(
    calls: Seq<StoreCall>,
    created: Result<DeviceIdentity, StorageError>,
    index: int,
)
    requires
        creation(calls, created),
        0 <= index < calls.len(),
        calls[index] is Create,
    ensures
        index == 1,
        calls[0] == StoreCall::Load(Ok(None)),
{
    assert(index > 0 ==> calls.skip(1)[index - 1] == calls[index]);
}

/// An identity counts as created only where the store then held a record that decodes to an
/// identity with the same fingerprint.
pub proof fn law_a_created_identity_was_read_back(
    calls: Seq<StoreCall>,
    created: DeviceIdentity,
)
    requires
        creation(calls, Ok::<_, StorageError>(created)),
    ensures
        created.wf(),
        is_device_certificate(created.certificate()),
        calls.len() == 3,
        calls[1] matches StoreCall::Create(written, Ok(_)) && written == record_bytes(
            created.certificate(),
            created.private_key(),
        ),
        calls[2] matches StoreCall::Load(Ok(Some(record))) && exists|found: DeviceIdentity|
            #[trigger]
            decode_outcome(record, Ok(found)) && sha256(found.certificate()) == sha256(
                created.certificate(),
            ),
{
    let generated = choose|generated: Result<DeviceIdentity, CryptoError>| #[trigger]
        generation_outcome(generated) && generated_creation(generated, calls.skip(1), Ok(created));
    let later = calls.skip(1);
    assert(later[0] == calls[1]);
    assert(later[1] == calls[2]);
    let readback = calls[2]->Load_0;
    let persisted = choose|persisted: Result<Option<DeviceIdentity>, StorageError>| #[trigger]
        load_outcome(readback, persisted) && Ok::<DeviceIdentity, StorageError>(created) == settled(
            generated->Ok_0,
            persisted,
        );
    assert(decode_outcome(readback->Ok_0->0, Ok(persisted->Ok_0->0)));
}

/// Explicitly generate, persist, and read back a new identity.
///
/// This never replaces a record, repairs invalid storage, or falls back to a
/// generated identity after any storage error.
pub fn create_identity<S: ProtectedIdentityStore>(store: &mut S) -> (created: Result<
    DeviceIdentity,
    StorageError,
>)
    ensures
        final(store).history().len() >= old(store).history().len(),
        final(store).history().take(old(store).history().len() as int) == old(store).history(),
        creation(final(store).history().skip(old(store).history().len() as int), created),
{
    let ghost before = store.history();
    let ghost count = before.len() as int;
    let existing = load_identity(store);
    let ghost loaded = store.history().last()->Load_0;
    assert(store.history().take(count) =~= before);
    assert(store.history().skip(count) =~= seq![StoreCall::Load(loaded)]);
    assert(load_outcome(loaded, existing));
    if let Err(error) = require_vacancy(&existing) {
        return Err(error);
    }
    let generated = DeviceIdentity::generate();
    assert(generation_outcome(generated));
    let created = persist_generated(store, generated);
    assert(store.history().take(count) =~= store.history().take(count + 1).take(count));
    assert(store.history().skip(count)[0] == store.history().take(count + 1)[count]);
    assert(store.history().skip(count).skip(1) =~= store.history().skip(count + 1));
    created
}

fn encode_identity_record(identity: &DeviceIdentity) -> (record: Result<SecretBytes, StorageError>)
    ensures
        match record {
            Ok(bytes) => fits_record(identity.certificate(), identity.private_key()) && bytes@
                == record_bytes(identity.certificate(), identity.private_key()),
            Err(error) => !fits_record(identity.certificate(), identity.private_key()) && error
                == StorageError::InvalidRecord,
        },
{
    encode_identity_parts(
        identity.certificate_der(),
        private_key_der_for_protected_storage(identity),
    )
}

/// The record of a certificate and its private key, where it is not over the limit.
pub fn encode_identity_parts(certificate_der: &[u8], private_key_der: &[u8]) -> (record: Result<
    SecretBytes,
    StorageError,
>)
    ensures
        match record {
            Ok(bytes) => fits_record(certificate_der@, private_key_der@) && bytes@ == record_bytes(
                certificate_der@,
                private_key_der@,
            ),
            Err(error) => !fits_record(certificate_der@, private_key_der@) && error
                == StorageError::InvalidRecord,
        },
{
    if certificate_der.is_empty() || private_key_der.is_empty() {
        return Err(StorageError::InvalidRecord);
    }
    let room: usize = MAX_IDENTITY_RECORD_LENGTH - HEADER_LENGTH;
    if certificate_der.len() > room || private_key_der.len() > room - certificate_der.len() {
        return Err(StorageError::InvalidRecord);
    }
    let mut record: Vec<u8> = Vec::with_capacity(
        HEADER_LENGTH + certificate_der.len() + private_key_der.len(),
    );
    append(&mut record, &RECORD_MAGIC);
    record.push(RECORD_VERSION);
    push_be(&mut record, certificate_der.len() as u64, 4);
    push_be(&mut record, private_key_der.len() as u64, 4);
    append(&mut record, certificate_der);
    append(&mut record, private_key_der);
    assert(record@ =~= record_bytes(certificate_der@, private_key_der@));
    Ok(SecretBytes::new(record))
}

/// The identity that a record holds.
pub fn decode_identity_record(record: &[u8]) -> (identity: Result<DeviceIdentity, StorageError>)
    ensures
        decode_outcome(record@, identity),
{
    if record.len() < HEADER_LENGTH || record.len() > MAX_IDENTITY_RECORD_LENGTH {
        return Err(StorageError::InvalidRecord);
    }
    if !same_bytes(slice_subrange(record, 0, 4), &RECORD_MAGIC) {
        return Err(StorageError::InvalidRecord);
    }
    if record[4] != RECORD_VERSION {
        return Err(StorageError::UnsupportedRecordVersion);
    }
    let mut cursor: usize = 5;
    let certificate_length: usize = match read_length(record, &mut cursor) {
        Ok(length) => length,
        Err(error) => return Err(error),
    };
    let private_key_length: usize = match read_length(record, &mut cursor) {
        Ok(length) => length,
        Err(error) => return Err(error),
    };
    if certificate_length == 0 || private_key_length == 0 {
        return Err(StorageError::InvalidRecord);
    }
    let certificate_der = match read_record_part(record, &mut cursor, certificate_length) {
        Ok(part) => part,
        Err(error) => return Err(error),
    };
    let private_key_der = match read_record_part(record, &mut cursor, private_key_length) {
        Ok(part) => part,
        Err(error) => return Err(error),
    };
    if cursor != record.len() {
        return Err(StorageError::InvalidRecord);
    }
    match DeviceIdentity::from_pkcs8_and_certificate(private_key_der, certificate_der) {
        Ok(identity) => Ok(identity),
        Err(error) => Err(StorageError::Identity(error)),
    }
}

/// The length written at the cursor, which moves past it.
pub fn read_length(record: &[u8], cursor: &mut usize) -> (length: Result<usize, StorageError>)
    requires
        *old(cursor) <= record@.len() <= MAX_IDENTITY_RECORD_LENGTH,
    ensures
        match length {
            Ok(value) => *final(cursor) == *old(cursor) + 4 && *final(cursor) <= record@.len()
                && value == from_be(record@.subrange(*old(cursor) as int, *old(cursor) + 4)),
            Err(error) => *old(cursor) + 4 > record@.len() && error == StorageError::InvalidRecord
                && *final(cursor) == *old(cursor),
        },
{
    match read_record_part(record, cursor, 4) {
        Ok(bytes) => {
            proof {
                lemma_from_be_bound(bytes@);
                lemma_be_limits();
                assert(bytes@.subrange(0, 4) =~= bytes@);
            }
            Ok(read_be(bytes, 0, 4) as usize)
        },
        Err(error) => Err(error),
    }
}

/// The next `length` bytes at the cursor, which moves past them.
pub fn read_record_part<'a>(record: &'a [u8], cursor: &mut usize, length: usize) -> (part: Result<
    &'a [u8],
    StorageError,
>)
    requires
        *old(cursor) <= record@.len(),
    ensures
        match part {
            Ok(bytes) => *final(cursor) == *old(cursor) + length && *final(cursor) <= record@.len()
                && bytes@ == record@.subrange(*old(cursor) as int, *old(cursor) + length),
            Err(error) => *old(cursor) + length > record@.len() && error
                == StorageError::InvalidRecord && *final(cursor) == *old(cursor),
        },
{
    if length > record.len() - *cursor {
        return Err(StorageError::InvalidRecord);
    }
    let start: usize = *cursor;
    let end: usize = start + length;
    *cursor = end;
    Ok(slice_subrange(record, start, end))
}

/// A record that reads is the one that would be written for what was read.
pub proof fn law_read_records_are_written_ones(record: Seq<u8>)
    requires
        record_parts(record) is Ok,
    ensures
        ({
            let (certificate, private_key) = record_parts(record)->Ok_0;
            &&& fits_record(certificate, private_key)
            &&& record_bytes(certificate, private_key) == record
        }),
{
    let (certificate, private_key) = record_parts(record)->Ok_0;
    lemma_to_from_be(record.subrange(5, 9));
    lemma_to_from_be(record.subrange(9, 13));
    assert(record_bytes(certificate, private_key) =~= record) by {
        let written = record_bytes(certificate, private_key);
        assert(written.len() == record.len());
        assert forall|i: int| 0 <= i < record.len() implies written[i] == record[i] by {
            if i < 4 {
                assert(record.subrange(0, 4)[i] == record[i]);
            } else if 5 <= i < 9 {
                assert(to_be(certificate.len(), 4)[i - 5] == record.subrange(5, 9)[i - 5]);
            } else if 9 <= i < 13 {
                assert(to_be(private_key.len(), 4)[i - 9] == record.subrange(9, 13)[i - 9]);
            }
        }
    }
}

/// A record of another version is told apart from one that is damaged.
pub proof fn law_another_version_is_named(record: Seq<u8>)
    ensures
        record_parts(record) == Err::<(Seq<u8>, Seq<u8>), _>(StorageError::UnsupportedRecordVersion)
            <==> HEADER_LENGTH <= record.len() <= MAX_IDENTITY_RECORD_LENGTH && record.subrange(
            0,
            4,
        ) == RECORD_MAGIC@ && record[4] != RECORD_VERSION,
        record_parts(record) matches Err(error) ==> error == StorageError::InvalidRecord || error
            == StorageError::UnsupportedRecordVersion,
{
}

/// An identity may be made exactly where none is stored; a stored one and a failed read keep it from
/// being made.
pub proof fn law_when_an_identity_may_be_made(
    existing: Result<Option<DeviceIdentity>, StorageError>,
)
    ensures
        vacancy(existing) is Ok <==> existing is Ok && existing->Ok_0 is None,
        existing is Ok && existing->Ok_0 is Some ==> vacancy(existing) == Err::<(), _>(
            StorageError::AlreadyExists,
        ),
        existing matches Err(error) ==> vacancy(existing) == Err::<(), _>(error),
{
}

/// A made identity counts exactly where what was read back has its certificate's fingerprint.
pub proof fn law_when_a_made_identity_counts(
    identity: DeviceIdentity,
    persisted: Result<Option<DeviceIdentity>, StorageError>,
)
    ensures
        settled(identity, persisted) is Ok <==> persisted is Ok && persisted->Ok_0 is Some
            && sha256((persisted->Ok_0->0).certificate()) == sha256(identity.certificate()),
        settled(identity, persisted) matches Ok(made) ==> made == identity,
        persisted is Ok && persisted->Ok_0 is None ==> settled(identity, persisted) == Err::<
            DeviceIdentity,
            _,
        >(StorageError::ReadbackMissing),
        persisted is Ok && persisted->Ok_0 is Some && sha256((persisted->Ok_0->0).certificate())
            != sha256(identity.certificate()) ==> settled(identity, persisted) == Err::<
            DeviceIdentity,
            _,
        >(StorageError::ReadbackMismatch),
        persisted matches Err(error) ==> settled(identity, persisted) == Err::<DeviceIdentity, _>(
            error,
        ),
{
}

} // verus!
