//! A small, composable HTTP request/response pipeline: message envelopes,
//! a pull-based byte-stream body, synchronous service composition, a
//! path-matching router with parameter capture, response conversion, and a
//! server-push (SSE) encoder.
pub mod text;
pub mod method;
pub mod status;
pub mod version;
pub mod chunk;
pub mod uri;
pub mod headers;
pub mod params;
pub mod extensions;
pub mod error;
pub mod request;
pub mod response;
pub mod body;
pub mod router;
pub mod service;
pub mod middleware;
pub mod respond;
pub mod sse;
pub mod media;
pub mod extract;
pub mod html;
