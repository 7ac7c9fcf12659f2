//! Inspection of TLS certificate chains: classify each certificate of a chain
//! as leaf or issuing CA, extract its identity and validity fields, and
//! compute whether it is currently valid and how many whole days remain
//! before it expires.

pub mod decode;
pub mod extract;
pub mod laws;
pub mod records;
pub mod validity;
pub mod model;
pub mod text;
