//! A minimal HTTP/1.1 server core: request-line and header parsing,
//! a method/path routing table, and response serialization.
//!
//! The connection plumbing (sockets, file reads, task spawning) lives in the
//! surrounding application; this crate holds the protocol logic, each
//! function with a contract describing its exact result.

pub mod headers;
pub mod request;
pub mod response;
pub mod router;
pub mod text;

pub use headers::HeaderMap;
pub use request::Method;
pub use request::ParseError;
pub use request::Request;
pub use response::HttpCode;
pub use response::MimeType;
pub use response::RenderOutcome;
pub use response::Response;
pub use router::RouteError;
pub use router::Router;

pub use text::dec_string;
pub use text::str_eq;
