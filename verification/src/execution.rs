pub mod error;
pub mod launch;
pub mod nonce;
pub mod provider;
pub mod remote;
pub mod ssh;
pub mod target;
