pub use crate::logging::Logging;
pub use crate::parser::Parser;
pub use crate::response::HttpResponse;
pub use crate::router::HttpRouter;
pub use crate::server::HttpServer;
pub use crate::status::StatusCode;
