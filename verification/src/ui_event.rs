//! What the attack tells whoever watches it.

use vstd::prelude::*;

use crate::block::Block;

verus! {

/// An event for the dashboard.
#[derive(Debug)]
pub enum UiEvent {
    Decryption(UiDecryptionEvent),
    Encryption(UiEncryptionEvent),
    Control(UiControlEvent),
}

/// What happened while decrypting.
#[derive(Debug)]
pub enum UiDecryptionEvent {
    /// Decryption starts on these blocks of the ciphertext.
    InitDecryption(Vec<Block>),
    /// The forged block that solves the block with this index.
    BlockSolved(Block, usize),
    /// A forged block that is being tried for the block with this index; may
    /// be dropped.
    BlockWip(Block, usize),
}

/// What happened while encrypting.
#[derive(Debug)]
pub enum UiEncryptionEvent {
    /// Encryption starts on these blocks of plain text, from this last block
    /// of ciphertext.
    InitEncryption(Vec<Block>, Block),
    /// The forged block that solves the block with this index.
    BlockSolved(Block, usize),
    /// A forged block that is being tried for the block with this index; may
    /// be dropped.
    BlockWip(Block, usize),
}

/// What the dashboard itself is to do.
#[derive(Debug)]
pub enum UiControlEvent {
    /// So many bytes are to be solved in all.
    IndicateWork(usize),
    /// So many more bytes are solved.
    ProgressUpdate(usize),
    /// Print this once the dashboard is closed.
    PrintAfterExit(String),
    /// End the process with this code.
    ExitCode(i32),
    /// The work is done: keep the dashboard open, drawing rarely.
    SlowRedraw,
}

} // verus!
