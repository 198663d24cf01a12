//! Remotix: the verified core of a remote-access client (RDP, VNC, SSH).
//!
//! The library holds the connection profile model, the credential vault
//! (Argon2id key derivation and AES-256-GCM sealing of stored secrets), the
//! decisions taken while connecting, and the byte-level processing that the
//! terminal and the RDP transport perform.

pub mod config;
pub mod crypto;
pub mod models;
pub mod protocols;
pub mod quick;
pub mod sftp;
pub mod terminal;
pub mod text;
pub mod vault;
