//! Ready-made handlers.
//!
//! The handler traits are open for callers to implement; these two enums
//! cover the common cases — fixed responses, echoing the (possibly
//! rewritten) request path, rejecting, rewriting, and passing through —
//! and let one server mix them freely.

use vstd::prelude::*;

use crate::http::{ReqView, Request, RespView, Response};
use crate::pipeline::{MiddlewareHandler, RouteHandler};

verus! {

/// A terminal handler chosen from the ready-made behaviours.
#[derive(Clone, Debug)]
pub enum Responder {
    /// Answers every request with this status and body.
    Fixed { status: u16, body: String },
    /// Answers with status 200 and the request's path as the body; under a
    /// rewriting middleware this shows the rewritten path.
    EchoPath,
}

impl RouteHandler for Responder {
    open spec fn response_of(&self, req: ReqView) -> RespView {
        match self {
            Responder::Fixed { status, body } => RespView { status: *status, body: body@ },
            Responder::EchoPath => RespView { status: 200u16, body: req.path },
        }
    }

    fn handle(&self, req: Request) -> (resp: Response) {
        match self {
            Responder::Fixed { status, body } => Response {
                status: *status,
                body: body.clone(),
            },
            Responder::EchoPath => Response { status: 200, body: req.path },
        }
    }
}

/// A transforming handler chosen from the ready-made behaviours.
#[derive(Clone, Debug)]
pub enum Filter {
    /// Short-circuits every matching request with this response.
    Reject { status: u16, body: String },
    /// Rewrites the in-flight request's path and continues.
    SetPath { path: String },
    /// Hands the request on unchanged.
    Pass,
}

impl MiddlewareHandler for Filter {
    open spec fn outcome_of(&self, req: ReqView) -> Result<ReqView, RespView> {
        match self {
            Filter::Reject { status, body } => Err(RespView { status: *status, body: body@ }),
            Filter::SetPath { path } => Ok(ReqView { method: req.method, path: path@ }),
            Filter::Pass => Ok(req),
        }
    }

    fn handle(&self, req: Request) -> (out: Result<Request, Response>) {
        match self {
            Filter::Reject { status, body } => Err(
                Response { status: *status, body: body.clone() },
            ),
            Filter::SetPath { path } => Ok(
                Request { method: req.method, path: path.clone() },
            ),
            Filter::Pass => Ok(req),
        }
    }
}

} // verus!
