//! Coordinates the recovery of a master seed from independently submitted
//! threshold secret-sharing key shares.
//!
//! - `share_store`: the accepted shares, unique by material and by index,
//!   bounded by a capacity, in order of acceptance.
//! - `coordinator`: validation of submitted shares, and recovery of the seed
//!   whenever at least the threshold of shares is held.
//! - `hex_text`: hex text and the bytes it stands for.
//! - `recovery`: the Shamir recovery primitive and the mnemonic decoder.
//! - `persist`: the seed file's location and content.

pub mod coordinator;
pub mod hex_text;
pub mod persist;
pub mod recovery;
pub mod share_store;
