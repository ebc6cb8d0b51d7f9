//! Threshold-signature certificates over the MNT4-753 scalar field.

pub mod buffer;
pub mod calls;
pub mod decoder;
pub mod element;
pub mod field;
pub mod hashes;
pub mod key_laws;
pub mod laws;
pub mod message;
pub mod message_laws;
pub mod proof_laws;
pub mod public_inputs;
pub mod schnorr;
pub mod threshold_proof;
pub mod transfer;
