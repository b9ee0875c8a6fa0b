//! A minimal HTTP/1.1 file server core: a lenient request parser, a
//! response builder with gzip content negotiation, a route dispatcher,
//! and the per-connection keep-alive decision, all with verified
//! contracts. Socket and filesystem access stay outside the library.

pub mod bytes;
pub mod headers;
pub mod request;
pub mod response;
pub mod router;
pub mod conn;
