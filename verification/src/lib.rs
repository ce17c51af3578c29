//! Padding-oracle attack engine for CBC ciphertexts with PKCS#7 padding.
//!
//! The library holds the block arithmetic, the ciphertext codec, the per-byte
//! search protocol, response calibration, the result cache and the decisions
//! of the attack loop. Talking to an oracle is left to the caller: every step
//! that needs an answer hands out what to send and takes the answer back.

pub mod base64_codec;
pub mod block;
pub mod block_size;
pub mod byte_locking;
pub mod cache;
pub mod cache_file;
pub mod calibration_response;
pub mod calibrator;
pub mod codec;
pub mod config;
pub mod cypher_text;
pub mod dashboard;
pub mod decryptor;
pub mod divination;
pub mod encoding;
pub mod encryptor;
pub mod forged_cypher_text;
pub mod hex_codec;
pub mod oracle;
pub mod oracle_location;
pub mod plain_text;
pub mod retry;
pub mod text;
pub mod ui_event;
pub mod url_codec;
