//! Verified core of an HTTP client bridge that moves R values to and from
//! remote services: content-type dispatch, buffered binary reading and
//! writing of little-endian scalars, multipart body framing, request
//! header and URL construction.

pub mod codec;
pub mod headers;
pub mod multipart;
pub mod reader;
pub mod request;
pub mod response;
pub mod text;
pub mod writer;
