//! Host-facing data model for parsed game plugins, and content fingerprints
//! of raw byte buffers.

pub mod fingerprint;
pub mod model;
pub mod native;
pub mod parse;
pub mod projection;
pub mod radix;
pub mod radix_laws;
