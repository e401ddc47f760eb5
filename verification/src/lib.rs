//! Core of a local-first mail client: a verified in-memory mail store with
//! settings, a prompt sanitizer, an inference-gateway retry machine, a
//! categorization worker and the cross-thread result bridge, with the
//! HTTP/storage edges kept outside the library.

pub mod text;
pub mod sanitize;
pub mod store;
pub mod gateway;
pub mod worker;
pub mod orchestrate;
pub mod bridge;
pub mod accounts;
