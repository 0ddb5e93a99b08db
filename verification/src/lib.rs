//! TapAuth core library: wire format of the authentication and pairing
//! protocol, cryptographic envelopes, configuration rules and the daemon's
//! decision logic, each function stated and proved with Verus.
pub mod wire;
pub mod fields;
pub mod pb;
pub mod crypto;
pub mod text;
pub mod string_map;
pub mod protocol;
pub mod config;
pub mod dbus_interface;
pub mod error;
pub mod network;
pub mod daemon;
pub mod models;
pub mod address_text;
pub mod firewall;
pub mod jni;
pub mod tpm;
pub mod l10n;
pub mod ble;
