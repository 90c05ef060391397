//! Verified cryptographic core of the Add messenger: the double ratchet,
//! the post-quantum KEM ratchet and its wire formats, Shamir 2-of-3 key
//! custody over GF(2^8), blind PIR bins, delivery tokens, the hardware-bound
//! key hierarchy, the master-app-key vault and identity helpers.
use vstd::prelude::*;

pub mod bot_config;
pub mod codec;
pub mod crypto_utils;
pub mod db_key;
pub mod delivery_tokens;
pub mod error;
pub mod handshake;
pub mod hardware_keys;
pub mod hybrid_kem;
pub mod identity;
pub mod incoming;
pub mod kem;
pub mod kem_ratchet;
pub mod keys;
pub mod kyber;
pub mod messaging;
pub mod pir;
pub mod pqxdh;
pub mod presence;
pub mod primitives;
pub mod ratchet;
pub mod ratchet_laws;
pub mod ratchet_pq;
pub mod reflector;
pub mod registration;
pub mod relay;
pub mod secure_mem;
pub mod sending;
pub mod skipped;
pub mod snapshot_defense;
pub mod text;
pub mod tpm_vault;

verus! {

} // verus!
