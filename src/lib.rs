//! A small seeded pseudo-random generator and a signed integer pairing hash.
pub mod generator;
pub mod pairing;

pub use generator::Jrand;
pub use pairing::cantor_hash;
