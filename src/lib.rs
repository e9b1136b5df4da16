pub mod logging;
pub mod method;
pub mod text;
pub mod status;
pub mod headers;
pub mod request;
pub mod response;
pub mod parser;
pub mod router;
pub mod handler;
pub mod server;
pub mod prelude;
