//! The decisions of a small development HTTP server: where a request's
//! header block ends, which path the request names, which file answers it,
//! and what the response head says. Sockets and files stay with the caller,
//! who performs each action the library asks for and hands back what came of it.

pub mod content_type;
pub mod framing;
pub mod handler;
pub mod paths;
pub mod request;
pub mod response;
pub mod server;
