//! A DNS record-management core: RFC 1035 wire-format value types, a tagged
//! record-data model, and the shared error taxonomy that vendor backends
//! classify their failures into.

use vstd::prelude::*;

pub mod addr;
pub mod cloudflare;
pub mod dnspod;
pub mod errors;
pub mod hetzner;
pub mod namecheap;
pub mod namecrane;
pub mod record;
pub mod technitium;
pub mod tencent;
pub mod text;
pub mod types;

verus! {

/// Maximum length in bytes of a single DNS label (RFC 1035).
pub const MAX_LABEL_LEN: usize = 63;

/// Maximum wire-format length in bytes of a full domain name (RFC 1035).
pub const MAX_DOMAIN_LEN: usize = 255;

/// Maximum TTL value in seconds (RFC 2181): the top bit must be zero.
pub const MAX_TTL: u32 = 2147483647;

} // verus!
