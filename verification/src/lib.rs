//! Fail-closed, interface-pinned transport. Networking is opt-in.
pub mod addr;
pub mod bytes;
pub mod crypto;
pub mod display_arrangement;
pub mod envelope;
pub mod guarded_endpoint;
pub mod hex;
pub mod identity_store;
pub mod io_error;
pub mod native_storage;
pub mod pairing;
pub mod policy;
pub mod protocol;
pub mod session;
pub mod session_actor;
pub mod session_clock;
pub mod session_handshake;
pub mod session_health;
pub mod session_layout;
pub mod session_link;
pub mod session_native;
pub mod session_receiver;
pub mod session_runtime;
pub mod session_setup;
pub mod text;
pub mod time;
