//! Reference [`crate::Hasher`] implementations.

mod sha256;

pub use sha256::{sha256_of, Sha256Hasher};
