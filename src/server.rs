use vstd::prelude::*;

use std::sync::Arc;

use crate::logging::Logging;
use crate::router::HttpRouter;

verus! {

/// A server over a router that no longer changes: every connection shares it.
pub struct HttpServer<H> {
    logging_enabled: bool,
    router: Arc<HttpRouter<H>>,
}

impl<H> HttpServer<H> {
    pub closed spec fn spec_router(&self) -> HttpRouter<H> {
        *self.router
    }

    pub fn new(router: HttpRouter<H>) -> (r: Self)
        ensures
            r.spec_router() == router,
            !r.spec_logging(),
    {
        HttpServer { logging_enabled: false, router: Arc::new(router) }
    }

    /// The shared router.
    pub fn router(&self) -> (r: &Arc<HttpRouter<H>>)
        ensures
            **r == self.spec_router(),
    {
        &self.router
    }
}

impl<H> Logging for HttpServer<H> {
    closed spec fn spec_logging(&self) -> bool {
        self.logging_enabled
    }

    fn enable_logging(&mut self) {
        self.logging_enabled = true;
    }

    fn disable_logging(&mut self) {
        self.logging_enabled = false;
    }

    fn logging_enabled(&self) -> bool {
        self.logging_enabled
    }
}

} // verus!
