//! Explicit-action native adapters. No storage is accessed by construction.
//!
//! How a platform's own failures are reported stands here. A platform without protected storage
//! answers every request that it is unavailable.

use crate::crypto::SecretBytes;
use crate::identity_store::{
    loaded_bytes, PeerStoreCall, ProtectedIdentityStore, ProtectedPeerStore, StorageError, StoreCall,
    StoredPeer,
};
use crate::io_error::ErrorKind;
use vstd::prelude::*;

verus! {

/// The identity store of a platform without protected storage.
pub struct NativeIdentityStore {
    calls: Ghost<Seq<StoreCall>>,
}

impl NativeIdentityStore {
    pub fn new() -> (store: NativeIdentityStore)
        ensures
            store.history() == Seq::<StoreCall>::empty(),
    {
        NativeIdentityStore { calls: Ghost(Seq::empty()) }
    }
}

impl ProtectedIdentityStore for NativeIdentityStore {
    closed spec fn history(&self) -> Seq<StoreCall> {
        self.calls@
    }

    fn load(&mut self) -> (loaded: Result<Option<SecretBytes>, StorageError>)
        ensures
            loaded == Err::<Option<SecretBytes>, _>(StorageError::Unavailable),
    {
        self.calls = Ghost(self.calls@.push(StoreCall::Load(Err(StorageError::Unavailable))));
        Err(StorageError::Unavailable)
    }

    fn create_new(&mut self, record: &[u8]) -> (created: Result<(), StorageError>)
        ensures
            created == Err::<(), _>(StorageError::Unavailable),
    {
        self.calls = Ghost(
            self.calls@.push(StoreCall::Create(record@, Err(StorageError::Unavailable))),
        );
        Err(StorageError::Unavailable)
    }
}

/// The peer store of a platform without protected storage.
pub struct NativePeerStore {
    calls: Ghost<Seq<PeerStoreCall>>,
}

impl NativePeerStore {
    pub fn new() -> (store: NativePeerStore)
        ensures
            store.history() == Seq::<PeerStoreCall>::empty(),
    {
        NativePeerStore { calls: Ghost(Seq::empty()) }
    }
}

impl ProtectedPeerStore for NativePeerStore {
    closed spec fn history(&self) -> Seq<PeerStoreCall> {
        self.calls@
    }

    fn list(&mut self) -> (listed: Result<Vec<StoredPeer>, StorageError>)
        ensures
            listed == Err::<Vec<StoredPeer>, _>(StorageError::Unavailable),
    {
        self.calls = Ghost(self.calls@.push(PeerStoreCall::List(Err(StorageError::Unavailable))));
        Err(StorageError::Unavailable)
    }

    fn create_new(&mut self, key: &str, record: &[u8]) -> (created: Result<(), StorageError>)
        ensures
            created == Err::<(), _>(StorageError::Unavailable),
    {
        self.calls = Ghost(
            self.calls@.push(
                PeerStoreCall::Create(key@, record@, Err(StorageError::Unavailable)),
            ),
        );
        Err(StorageError::Unavailable)
    }

    fn delete(&mut self, handle: &str) -> (deleted: Result<(), StorageError>)
        ensures
            deleted == Err::<(), _>(StorageError::Unavailable),
    {
        self.calls = Ghost(
            self.calls@.push(PeerStoreCall::Delete(handle@, Err(StorageError::Unavailable))),
        );
        Err(StorageError::Unavailable)
    }
}

/// How a Keychain request fails.
#[derive(Clone, Copy, Debug, Eq, PartialEq, Structural)]
pub enum IdentityStoreError {
    RecordNotFound,
    RecordAlreadyExists,
    KeychainLocked,
    KeychainDenied,
    KeychainUnavailable,
    InvalidPayloadLength,
    InvalidRecordName,
    InvalidKeychainResponse,
    KeychainFailure(i32),
}

/// What a Keychain failure is reported as, where `fallback` names the request.
pub open spec fn keychain_error(error: IdentityStoreError, fallback: StorageError) -> StorageError {
    match error {
        IdentityStoreError::RecordAlreadyExists => StorageError::AlreadyExists,
        IdentityStoreError::KeychainLocked => StorageError::Locked,
        IdentityStoreError::KeychainDenied => StorageError::AccessDenied,
        IdentityStoreError::KeychainUnavailable => StorageError::Unavailable,
        IdentityStoreError::InvalidPayloadLength
        | IdentityStoreError::InvalidRecordName
        | IdentityStoreError::InvalidKeychainResponse => StorageError::InvalidRecord,
        IdentityStoreError::RecordNotFound | IdentityStoreError::KeychainFailure(_) => fallback,
    }
}

pub fn map_keychain_error(error: IdentityStoreError, fallback: StorageError) -> (mapped:
    StorageError)
    ensures
        mapped == keychain_error(error, fallback),
{
    match error {
        IdentityStoreError::RecordAlreadyExists => StorageError::AlreadyExists,
        IdentityStoreError::KeychainLocked => StorageError::Locked,
        IdentityStoreError::KeychainDenied => StorageError::AccessDenied,
        IdentityStoreError::KeychainUnavailable => StorageError::Unavailable,
        IdentityStoreError::InvalidPayloadLength
        | IdentityStoreError::InvalidRecordName
        | IdentityStoreError::InvalidKeychainResponse => StorageError::InvalidRecord,
        IdentityStoreError::RecordNotFound | IdentityStoreError::KeychainFailure(_) => fallback,
    }
}

/// What a Keychain load comes to. Only a record that was not found means that there is none.
pub open spec fn keychain_load(loaded: Result<Seq<u8>, IdentityStoreError>) -> Result<
    Option<Seq<u8>>,
    StorageError,
> {
    match loaded {
        Ok(record) => Ok(Some(record)),
        Err(IdentityStoreError::RecordNotFound) => Ok(None),
        Err(error) => Err(keychain_error(error, StorageError::ReadFailed)),
    }
}

/// What loading the local identity from the Keychain comes to.
pub fn loaded_from_keychain(loaded: Result<SecretBytes, IdentityStoreError>) -> (record: Result<
    Option<SecretBytes>,
    StorageError,
>)
    ensures
        loaded_bytes(record) == keychain_load(
            match loaded {
                Ok(found) => Ok(found@),
                Err(error) => Err(error),
            },
        ),
{
    match loaded {
        Ok(record) => Ok(Some(record)),
        Err(IdentityStoreError::RecordNotFound) => Ok(None),
        Err(error) => Err(map_keychain_error(error, StorageError::ReadFailed)),
    }
}

/// What a file failure is reported as, where `fallback` names the request.
pub open spec fn file_error(kind: ErrorKind, fallback: StorageError) -> StorageError {
    match kind {
        ErrorKind::AlreadyExists => StorageError::AlreadyExists,
        ErrorKind::PermissionDenied => StorageError::AccessDenied,
        ErrorKind::InvalidData | ErrorKind::InvalidInput => StorageError::InvalidRecord,
        _ => fallback,
    }
}

pub fn map_file_error(kind: ErrorKind, fallback: StorageError) -> (mapped: StorageError)
    ensures
        mapped == file_error(kind, fallback),
{
    match kind {
        ErrorKind::AlreadyExists => StorageError::AlreadyExists,
        ErrorKind::PermissionDenied => StorageError::AccessDenied,
        ErrorKind::InvalidData | ErrorKind::InvalidInput => StorageError::InvalidRecord,
        _ => fallback,
    }
}

/// A record that is missing is none, and no failure; one that is there is given as it is; and every
/// other answer of the keychain is a failure.
pub proof fn law_a_missing_record_is_no_failure(loaded: Result<Seq<u8>, IdentityStoreError>)
    ensures
        keychain_load(loaded) == Ok::<Option<Seq<u8>>, StorageError>(None) <==> loaded == Err::<
            Seq<u8>,
            _,
        >(IdentityStoreError::RecordNotFound),
        loaded matches Ok(record) ==> keychain_load(loaded) == Ok::<Option<Seq<u8>>, StorageError>(
            Some(record),
        ),
        loaded is Err && loaded->Err_0 != IdentityStoreError::RecordNotFound ==> keychain_load(
            loaded,
        ) is Err,
{
}

/// A locked, a denied and a missing keychain, and a record that exists already, are told apart; what
/// has no name of its own is the failure of what was tried.
pub proof fn law_keychain_faults_keep_their_names(
    error: IdentityStoreError,
    kind: ErrorKind,
    fallback: StorageError,
)
    requires
        fallback == StorageError::ReadFailed || fallback == StorageError::WriteFailed,
    ensures
        keychain_error(error, fallback) == StorageError::AlreadyExists <==> error
            == IdentityStoreError::RecordAlreadyExists,
        keychain_error(error, fallback) == StorageError::Locked <==> error
            == IdentityStoreError::KeychainLocked,
        keychain_error(error, fallback) == StorageError::AccessDenied <==> error
            == IdentityStoreError::KeychainDenied,
        keychain_error(error, fallback) == StorageError::Unavailable <==> error
            == IdentityStoreError::KeychainUnavailable,
        keychain_error(error, fallback) == fallback <==> error == IdentityStoreError::RecordNotFound
            || error is KeychainFailure,
        keychain_error(error, fallback) == fallback || keychain_error(error, fallback)
            == StorageError::AlreadyExists || keychain_error(error, fallback)
            == StorageError::Locked || keychain_error(error, fallback) == StorageError::AccessDenied
            || keychain_error(error, fallback) == StorageError::Unavailable || keychain_error(
            error,
            fallback,
        ) == StorageError::InvalidRecord,
        file_error(kind, fallback) == StorageError::AlreadyExists <==> kind
            == ErrorKind::AlreadyExists,
        file_error(kind, fallback) == StorageError::AccessDenied <==> kind
            == ErrorKind::PermissionDenied,
        file_error(kind, fallback) == StorageError::InvalidRecord <==> kind
            == ErrorKind::InvalidData || kind == ErrorKind::InvalidInput,
        file_error(kind, fallback) == fallback || file_error(kind, fallback)
            == StorageError::AlreadyExists || file_error(kind, fallback)
            == StorageError::AccessDenied || file_error(kind, fallback)
            == StorageError::InvalidRecord,
{
}

} // verus!
