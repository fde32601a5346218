//! Pipeline entries: routes, middleware, and the handler contracts.
//!
//! A route pairs a compiled path and a verb with a terminal handler; a
//! middleware pairs a compiled path with a handler that either rewrites the
//! in-flight request or short-circuits with a response. Handlers are given
//! as implementations of the two traits below, whose contracts tie the
//! executable call to a specification-level account of its outcome.

use vstd::prelude::*;

use crate::http::{Method, ReqView, Request, RespView, Response};
use crate::path::{path_matches, Path};

verus! {

/// A terminal handler: produces the final response for a matched route.
pub trait RouteHandler: Sized {
    /// The response this handler gives for a request.
    spec fn response_of(&self, req: ReqView) -> RespView;

    /// Produces the response `response_of` describes.
    fn handle(&self, req: Request) -> (resp: Response)
        ensures
            resp@ == self.response_of(req@),
    ;
}

/// A transforming handler: either hands back a rewritten request for the
/// rest of the pipeline, or short-circuits with a response.
pub trait MiddlewareHandler: Sized {
    /// The outcome this handler gives for a request.
    spec fn outcome_of(&self, req: ReqView) -> Result<ReqView, RespView>;

    /// Produces the outcome `outcome_of` describes.
    fn handle(&self, req: Request) -> (out: Result<Request, Response>)
        ensures
            (match out {
                Ok(rewritten) => self.outcome_of(req@) == Ok::<ReqView, RespView>(rewritten@),
                Err(resp) => self.outcome_of(req@) == Err::<ReqView, RespView>(resp@),
            }),
    ;
}

/// A route: if the verb and the path match, its handler ends the pipeline.
#[derive(Clone, Debug)]
pub struct Route<H> {
    /// The compiled path pattern.
    pub path: Path,
    /// The verb this route answers.
    pub method: Method,
    /// The terminal handler.
    pub handler: H,
}

impl<H: RouteHandler> Route<H> {
    /// Builds a route from its parts.
    pub fn new(path: Path, method: Method, handler: H) -> (r: Self)
        ensures
            r.path == path,
            r.method == method,
            r.handler == handler,
    {
        Route { path, method, handler }
    }

    /// The verb this route answers.
    pub fn method(&self) -> (m: Method)
        ensures
            m == self.method,
    {
        self.method
    }

    /// Tests a request path against this route's pattern.
    pub fn compare(&self, input: &str) -> (b: bool)
        ensures
            b == path_matches(self.path@, input@),
    {
        self.path.is_match(input)
    }

    /// The pattern text this route was registered under.
    pub fn path(&self) -> (r: &str)
        ensures
            r@ == self.path.pattern@,
    {
        self.path.as_str()
    }

    /// Invokes the terminal handler.
    pub fn handle(&self, request: Request) -> (resp: Response)
        ensures
            resp@ == self.handler.response_of(request@),
    {
        self.handler.handle(request)
    }
}

/// A middleware: if the path matches, its handler rewrites the in-flight
/// request or short-circuits the pipeline.
#[derive(Clone, Debug)]
pub struct Middleware<M> {
    /// The compiled path pattern.
    pub path: Path,
    /// The transforming handler.
    pub handler: M,
    /// Distinguishes static-asset middleware from ordinary middleware. The
    /// dispatch algorithm treats both alike; the flag is carried for the
    /// consuming handler to interpret.
    pub is_static: bool,
}

impl<M: MiddlewareHandler> Middleware<M> {
    /// Builds a middleware entry from its parts.
    pub fn new(path: Path, handler: M, is_static: bool) -> (r: Self)
        ensures
            r.path == path,
            r.handler == handler,
            r.is_static == is_static,
    {
        Middleware { path, handler, is_static }
    }

    /// Invokes the transforming handler.
    pub fn handle(&self, request: Request) -> (out: Result<Request, Response>)
        ensures
            (match out {
                Ok(rewritten) => self.handler.outcome_of(request@) == Ok::<
                    ReqView,
                    RespView,
                >(rewritten@),
                Err(resp) => self.handler.outcome_of(request@) == Err::<
                    ReqView,
                    RespView,
                >(resp@),
            }),
    {
        self.handler.handle(request)
    }

    /// Tests a request path against this middleware's pattern.
    pub fn compare(&self, input: &str) -> (b: bool)
        ensures
            b == path_matches(self.path@, input@),
    {
        self.path.is_match(input)
    }

    /// The pattern text this middleware was registered under.
    pub fn path(&self) -> (r: &str)
        ensures
            r@ == self.path.pattern@,
    {
        self.path.as_str()
    }

    /// Whether this entry was registered as static-asset middleware.
    pub fn is_static(&self) -> (b: bool)
        ensures
            b == self.is_static,
    {
        self.is_static
    }
}

/// One entry of the dispatch pipeline.
#[derive(Clone, Debug)]
pub enum Pipeline<H, M> {
    Route(Route<H>),
    Middleware(Middleware<M>),
}

} // verus!
