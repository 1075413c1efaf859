//! A minimal CoAP client core: URI decomposition into an endpoint and an
//! ordered option list, and the decision logic of one request/response
//! exchange over a datagram transport.

pub mod address;
pub mod client;
pub mod decompose;
pub mod endpoint;
pub mod error;
pub mod exchange;
pub mod message;
pub mod options;
pub mod percent;
pub mod text;
pub mod uri_parts;
