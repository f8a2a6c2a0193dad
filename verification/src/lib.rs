//! CubeHash, a sponge-style hash on a permutation of 1024 bits, and CubeMac,
//! the prefix-MAC on top of it.
//!
//! * `permutation` and `sponge` say what is computed, as mathematical
//!   functions, and hold the laws of the construction.
//! * `soft`, `sse2`, `avx2`, `avx512` and `neon` are five ways of holding
//!   the state and of running the permutation, each proved to compute the
//!   same function; `lanes` and `layout` are what the four vector backends
//!   are written in.
//! * `buffer` and `stream` cut a message into blocks and pad its end.
//! * `cubehash` and `cubemac` are the hash and the MAC that callers use.

pub mod arith;
pub mod avx2;
pub mod avx512;
pub mod backend;
pub mod buffer;
pub mod cubehash;
pub mod cubemac;
pub mod lanes;
pub mod layout;
pub mod neon;
pub mod params;
pub mod permutation;
pub mod secure;
pub mod soft;
pub mod sponge;
pub mod sse2;
pub mod stream;
