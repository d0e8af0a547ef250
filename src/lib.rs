//! A status dashboard library: a document model with deterministic HTML
//! serialization, adapters that resolve service links and normalise a remote
//! proxy's status, a strict decoder for script-built documents, and the page
//! assembly that turns gathered status into tiles.

pub mod proxy;
pub mod decimal;
pub mod service;
pub mod document;
pub mod sandbox;
pub mod dashboard;
pub mod styles;
