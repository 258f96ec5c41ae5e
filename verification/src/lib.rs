//! Ed25519 signing demo library: keypair generation, signing, signature
//! verification, and lowercase hexadecimal rendering of key material.

pub mod ed25519;
pub mod hexcodec;
