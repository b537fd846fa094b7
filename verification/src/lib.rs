//! The verified core of a game launcher's asset acquisition: engine-build
//! resolution with redirect following and platform selection, content
//! acquisition with a monolithic-zip/incremental-manifest fallback policy, a
//! content-addressed blob cache with atomic first-writer-wins commits, the
//! length-prefixed binary batch download protocol, and cryptographic
//! integrity checks (BLAKE2b-256 content hashes, SHA-256 archive hashes and
//! ed25519 engine signatures). Everything here is decision logic over plain
//! values; the surrounding program performs the network and file I/O these
//! decisions call for.

use vstd::prelude::*;

pub mod cache;
pub mod cancel;
pub mod coordinator;
pub mod errors;
pub mod favorites;
pub mod hashing;
pub mod hexstr;
pub mod http_profile;
pub mod hub_urls;
pub mod installer;
pub mod manifest;
pub mod marsey;
pub mod mask;
pub mod news;
pub mod patches_view;
pub mod progress;
pub mod resolver;
pub mod scheduler;
pub mod server_info;
pub mod settings;
pub mod signature;
pub mod ss14_uri;
pub mod sync_plan;
pub mod text;
pub mod token;
pub mod wire;

verus! {

/// The fixed protocol version this client speaks on the blob download endpoint.
pub const DOWNLOAD_PROTOCOL_VERSION: i32 = 1;

/// True when the server's advertised protocol range admits our fixed version.
pub fn protocol_supported(min: i32, max: i32) -> (r: bool)
    ensures
        r == (min <= DOWNLOAD_PROTOCOL_VERSION && DOWNLOAD_PROTOCOL_VERSION <= max),
{
    min <= DOWNLOAD_PROTOCOL_VERSION && DOWNLOAD_PROTOCOL_VERSION <= max
}

} // verus!
