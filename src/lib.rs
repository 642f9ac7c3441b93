//! The enclave-side engine of a confidential-compute service.
//!
//! - `seal`: attestation-bound key derivation and authenticated sealing of pools.
//! - `json`: the pool document model, schema compatibility and columnar append.
//! - `fetch`: address rewriting and hash pinning of downloaded artefacts.
//! - `wasm_host` and `wasm_status`: the linear-memory ABI of WebAssembly aggregations.
//! - `drt`: token kinds and redemption receipts.
//! - `router`: the operations, tied to token redemption.
pub mod drt;
pub mod fetch;
pub mod json;
pub mod router;
pub mod seal;
pub mod wasm_host;
pub mod wasm_status;
