//! An HTTP/1.1 server core: wire-grammar primitives, a request parser, a
//! path-template router, a middleware-wrapped dispatcher, a response
//! serializer and the error taxonomy, each with a proved contract. I/O and
//! threading live outside this crate; it works on plain buffers and
//! values.

pub mod abnf;
pub mod application;
pub mod context;
pub mod decimal;
pub mod error;
pub mod handlers;
pub mod http11;
pub mod parse;
pub mod routing;
pub mod server_error;
pub mod strmap;
pub mod traits;
pub mod types;
pub mod uri;
