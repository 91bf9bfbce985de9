//! A deterministic, non-cryptographic fingerprint of byte sequences. A message
//! is padded to whole blocks of 64 words, every block is mixed into a state of
//! four 16-bit words, and the final state is rendered in eight positional bases
//! and four numeric views.
pub mod tables;
pub mod tools;
pub mod ops;
pub mod pad;
pub mod alphabet;
pub mod round;
pub mod block;
pub mod convert;
pub mod digest;
pub mod lemmas;
pub mod options;

pub use digest::{pox_hash, PoxDigest};
