//! A small HTTP/1.1 client engine: request messages, the head scan of a
//! response, and the status line.
pub mod headers;
pub mod method;
pub mod request;
pub mod response;
pub mod scan;
pub mod uri;
