//! The server: registration of routes and middleware, and per-request
//! dispatch over the registered pipeline.
//!
//! The pipeline is built once at setup time; registration order is dispatch
//! order. Listening on a socket is glue around this type: a caller reads a
//! request, hands it to [`Server::handle_request`], and writes the response.

use vstd::prelude::*;

use crate::dispatch::{dispatch, spec_dispatch};
use crate::http::{Method, Request, Response};
use crate::path::{spec_parse, Error as PathError, Path};
use crate::pipeline::{Middleware, MiddlewareHandler, Pipeline, Route, RouteHandler};

verus! {

/// Registration error: the pattern string was rejected.
#[derive(Clone, Copy, Debug, PartialEq, Eq, Structural)]
pub enum Error {
    Path(PathError),
}

/// An ordered pipeline of routes and middleware, built once at setup time
/// and dispatched for every request.
#[derive(Clone, Debug)]
pub struct Server<H, M> {
    /// The pipeline entries, in registration order.
    pub pipeline: Vec<Pipeline<H, M>>,
}

impl<H: RouteHandler, M: MiddlewareHandler> Server<H, M> {
    /// A server with an empty pipeline.
    pub fn new() -> (s: Self)
        ensures
            s.pipeline@ == Seq::<Pipeline<H, M>>::empty(),
    {
        Server { pipeline: Vec::new() }
    }

    /// Registers a route. On success the pipeline grows by exactly one
    /// route entry at the end, compiled from `path_str`; a rejected pattern
    /// leaves the pipeline untouched and is the only error.
    pub fn use_route(&mut self, path_str: &str, method: Method, handler: H) -> (r: Result<
        (),
        Error,
    >)
        ensures
            (match r {
                Ok(_) => {
                    &&& spec_parse(path_str@) is Some
                    &&& final(self).pipeline@.len() == old(self).pipeline@.len() + 1
                    &&& forall|j: int|
                        0 <= j < old(self).pipeline@.len() ==> final(self).pipeline@[j] == old(
                            self,
                        ).pipeline@[j]
                    &&& (match final(self).pipeline@.last() {
                        Pipeline::Route(rt) => rt.path@ == spec_parse(path_str@).unwrap()
                            && rt.path.pattern@ == path_str@ && rt.method == method && rt.handler
                            == handler,
                        Pipeline::Middleware(_) => false,
                    })
                },
                Err(e) => {
                    &&& spec_parse(path_str@) is None
                    &&& e == Error::Path(PathError::InvalidPath)
                    &&& final(self).pipeline@ == old(self).pipeline@
                },
            }),
    {
        match Path::parse(path_str) {
            Ok(path) => {
                let route = Route::new(path, method, handler);
                self.pipeline.push(Pipeline::Route(route));
                Ok(())
            },
            Err(e) => Err(Error::Path(e)),
        }
    }

    /// Registers a middleware entry carrying an explicit static flag. On
    /// success the pipeline grows by exactly one middleware entry at the
    /// end; a rejected pattern leaves the pipeline untouched.
    pub fn append_middleware(&mut self, path_str: &str, handler: M, is_static: bool) -> (r:
        Result<(), Error>)
        ensures
            (match r {
                Ok(_) => {
                    &&& spec_parse(path_str@) is Some
                    &&& final(self).pipeline@.len() == old(self).pipeline@.len() + 1
                    &&& forall|j: int|
                        0 <= j < old(self).pipeline@.len() ==> final(self).pipeline@[j] == old(
                            self,
                        ).pipeline@[j]
                    &&& (match final(self).pipeline@.last() {
                        Pipeline::Middleware(mw) => mw.path@ == spec_parse(path_str@).unwrap()
                            && mw.path.pattern@ == path_str@ && mw.handler == handler
                            && mw.is_static == is_static,
                        Pipeline::Route(_) => false,
                    })
                },
                Err(e) => {
                    &&& spec_parse(path_str@) is None
                    &&& e == Error::Path(PathError::InvalidPath)
                    &&& final(self).pipeline@ == old(self).pipeline@
                },
            }),
    {
        match Path::parse(path_str) {
            Ok(path) => {
                let middleware = Middleware::new(path, handler, is_static);
                self.pipeline.push(Pipeline::Middleware(middleware));
                Ok(())
            },
            Err(e) => Err(Error::Path(e)),
        }
    }

    /// Registers ordinary middleware: `append_middleware` without the
    /// static flag.
    pub fn use_middleware(&mut self, path_str: &str, handler: M) -> (r: Result<(), Error>)
        ensures
            (match r {
                Ok(_) => {
                    &&& spec_parse(path_str@) is Some
                    &&& final(self).pipeline@.len() == old(self).pipeline@.len() + 1
                    &&& forall|j: int|
                        0 <= j < old(self).pipeline@.len() ==> final(self).pipeline@[j] == old(
                            self,
                        ).pipeline@[j]
                    &&& (match final(self).pipeline@.last() {
                        Pipeline::Middleware(mw) => mw.path@ == spec_parse(path_str@).unwrap()
                            && mw.path.pattern@ == path_str@ && mw.handler == handler
                            && !mw.is_static,
                        Pipeline::Route(_) => false,
                    })
                },
                Err(e) => {
                    &&& spec_parse(path_str@) is None
                    &&& e == Error::Path(PathError::InvalidPath)
                    &&& final(self).pipeline@ == old(self).pipeline@
                },
            }),
    {
        self.append_middleware(path_str, handler, false)
    }

    /// Registers static-asset middleware: `append_middleware` with the
    /// static flag set.
    pub fn use_static_middleware(&mut self, path_str: &str, handler: M) -> (r: Result<(), Error>)
        ensures
            (match r {
                Ok(_) => {
                    &&& spec_parse(path_str@) is Some
                    &&& final(self).pipeline@.len() == old(self).pipeline@.len() + 1
                    &&& forall|j: int|
                        0 <= j < old(self).pipeline@.len() ==> final(self).pipeline@[j] == old(
                            self,
                        ).pipeline@[j]
                    &&& (match final(self).pipeline@.last() {
                        Pipeline::Middleware(mw) => mw.path@ == spec_parse(path_str@).unwrap()
                            && mw.path.pattern@ == path_str@ && mw.handler == handler
                            && mw.is_static,
                        Pipeline::Route(_) => false,
                    })
                },
                Err(e) => {
                    &&& spec_parse(path_str@) is None
                    &&& e == Error::Path(PathError::InvalidPath)
                    &&& final(self).pipeline@ == old(self).pipeline@
                },
            }),
    {
        self.append_middleware(path_str, handler, true)
    }

    /// Dispatches one request over the registered pipeline and returns the
    /// single response, as `spec_dispatch` describes.
    pub fn handle_request(&self, request: Request) -> (resp: Response)
        ensures
            resp@ == spec_dispatch(self.pipeline@, request@),
    {
        dispatch(&self.pipeline, request)
    }
}

impl<H: RouteHandler, M: MiddlewareHandler> Default for Server<H, M> {
    /// A server with an empty pipeline.
    fn default() -> (s: Self)
        ensures
            s.pipeline@ == Seq::<Pipeline<H, M>>::empty(),
    {
        Self::new()
    }
}

} // verus!
