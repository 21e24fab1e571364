//! Plain-value core of an HTTP server and TLS binding for an embedded SDK:
//! certificate spans, pre-shared keys, server configuration, request text and
//! the marshalling of response heads into null-terminated byte buffers.
pub mod bytes_order;
pub mod cstr;
pub mod request;
pub mod server;
pub mod tls;
