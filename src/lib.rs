//! Verifiable homomorphic computation: the plain-value logic of a host that
//! evaluates an encrypted doubling two ways, a strictly ordered artifact
//! channel across a trust boundary, and the guest that re-checks the result.

pub mod encoding;
pub mod lwe;
pub mod codec;
pub mod channel;
pub mod guest;
pub mod host;
pub mod protocol;
pub mod server_key;
