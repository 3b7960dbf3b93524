//! A verified client core for a session-authenticated music-library API:
//! request signing with a rolling per-second credential hash, an endpoint
//! model, continuation-token pagination, a generic recursive extractor
//! over loosely-structured JSON response trees, and a compact binary
//! cache format for the extracted track records.

pub mod codec;
pub mod cookies;
pub mod endpoint;
pub mod extract;
pub mod headers;
pub mod instance;
pub mod json;
pub mod library;
pub mod perf;
pub mod sign;
pub mod types;
pub mod utils;
