//! A minimal HTTP/1.1 server core: request-line parsing, exact-path routing
//! and response framing, with every step specified and verified.

mod text;

pub mod decimal;
pub mod method;
pub mod page;
pub mod query_string;
pub mod request;
pub mod response;
pub mod router;
pub mod server;
pub mod status_code;

pub use method::{Method, MethodError};
pub use page::GetPage;
pub use query_string::QueryString;
pub use request::{ParseError, Request};
pub use response::{Response, ResponseHeader};
pub use router::{Handler, Router};
pub use server::Server;
pub use status_code::StatusCode;
