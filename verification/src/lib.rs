//! A blocking HTTP client for REST endpoints, written without I/O of its own:
//! request builders with path templates, and the state machine that carries
//! one exchange from the first transport callback to the delivered result.

pub mod address;
pub mod error;
pub mod fields;
pub mod headers;
pub mod http;
pub mod rest;
pub mod serializer;
pub mod template;
pub mod text;

pub use error::Error;
pub use rest::{Client, Endpoint, Request};
