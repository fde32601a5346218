//! The per-request dispatch algorithm.
//!
//! Dispatch walks the pipeline in registration order. A middleware whose
//! pattern matches either rewrites the in-flight request (and the pipeline
//! continues with the rewritten one) or short-circuits with a response. A
//! route whose verb and pattern match ends the pipeline with its handler's
//! response. When no entry produces a response, dispatch falls back to the
//! defined not-found default.

use vstd::prelude::*;

use crate::http::{not_found_view, ReqView, Request, RespView, Response};
use crate::path::path_matches;
use crate::pipeline::{Middleware, MiddlewareHandler, Pipeline, Route, RouteHandler};

verus! {

/// Whether an entry reacts to a request at all: a middleware whose pattern
/// matches the request path, or a route whose verb and pattern both match.
pub open spec fn entry_applies<H: RouteHandler, M: MiddlewareHandler>(
    e: Pipeline<H, M>,
    req: ReqView,
) -> bool {
    match e {
        Pipeline::Route(r) => r.method == req.method && path_matches(r.path@, req.path),
        Pipeline::Middleware(m) => path_matches(m.path@, req.path),
    }
}

/// The response the pipeline gives for a request: entries are taken in
/// order; a non-applying entry is skipped; an applying middleware either
/// rewrites the request for the remainder or ends dispatch with its
/// response; an applying route ends dispatch with its handler's response;
/// an exhausted pipeline yields the not-found default.
pub open spec fn spec_dispatch<H: RouteHandler, M: MiddlewareHandler>(
    entries: Seq<Pipeline<H, M>>,
    req: ReqView,
) -> RespView
    decreases entries.len(),
{
    if entries.len() == 0 {
        not_found_view()
    } else {
        match entries[0] {
            Pipeline::Middleware(m) => {
                if path_matches(m.path@, req.path) {
                    match m.handler.outcome_of(req) {
                        Ok(rewritten) => spec_dispatch(entries.skip(1), rewritten),
                        Err(resp) => resp,
                    }
                } else {
                    spec_dispatch(entries.skip(1), req)
                }
            },
            Pipeline::Route(r) => {
                if r.method == req.method && path_matches(r.path@, req.path) {
                    r.handler.response_of(req)
                } else {
                    spec_dispatch(entries.skip(1), req)
                }
            },
        }
    }
}

/// Entries that do not apply to a request leave dispatch unchanged: the
/// pipeline from the first applying entry on decides the response.
pub proof fn lemma_skip_inert<H: RouteHandler, M: MiddlewareHandler>(
    entries: Seq<Pipeline<H, M>>,
    req: ReqView,
    i: int,
)
    requires
        0 <= i <= entries.len(),
        forall|j: int| 0 <= j < i ==> !entry_applies(entries[j], req),
    ensures
        spec_dispatch(entries, req) == spec_dispatch(entries.skip(i), req),
    decreases i,
{
    if i == 0 {
        assert(entries.skip(0) =~= entries);
    } else {
        assert(!entry_applies(entries[0], req));
        assert(forall|j: int| 0 <= j < i - 1 ==> !entry_applies(entries.skip(1)[j], req));
        lemma_skip_inert(entries.skip(1), req, i - 1);
        assert(entries.skip(1).skip(i - 1) =~= entries.skip(i));
    }
}

/// Dispatch selects the first applying entry. When that entry is a route,
/// its handler's response is the pipeline's response, whatever entries
/// stand after it — registration order, not specificity, decides.
pub proof fn lemma_first_matching_route_responds<H: RouteHandler, M: MiddlewareHandler>(
    entries: Seq<Pipeline<H, M>>,
    req: ReqView,
    i: int,
)
    requires
        0 <= i < entries.len(),
        forall|j: int| 0 <= j < i ==> !entry_applies(entries[j], req),
        entries[i] is Route,
        entry_applies(entries[i], req),
    ensures
        spec_dispatch(entries, req) == entries[i]->Route_0.handler.response_of(req),
{
    lemma_skip_inert(entries, req, i);
    assert(entries.skip(i)[0] == entries[i]);
}

/// A matched route is terminal: the entries after it never change the
/// response, even when they would also match.
pub proof fn lemma_route_match_is_terminal<H: RouteHandler, M: MiddlewareHandler>(
    entries: Seq<Pipeline<H, M>>,
    req: ReqView,
    i: int,
)
    requires
        0 <= i < entries.len(),
        forall|j: int| 0 <= j < i ==> !entry_applies(entries[j], req),
        entries[i] is Route,
        entry_applies(entries[i], req),
    ensures
        spec_dispatch(entries, req) == spec_dispatch(entries.take(i + 1), req),
{
    lemma_first_matching_route_responds(entries, req, i);
    assert(forall|j: int| 0 <= j < i ==> entries.take(i + 1)[j] == entries[j]);
    assert(entries.take(i + 1)[i] == entries[i]);
    lemma_first_matching_route_responds(entries.take(i + 1), req, i);
}

/// A short-circuiting middleware that is the first applying entry decides
/// the response alone: no later entry, route or middleware, runs.
pub proof fn lemma_short_circuit_responds<H: RouteHandler, M: MiddlewareHandler>(
    entries: Seq<Pipeline<H, M>>,
    req: ReqView,
    i: int,
    resp: RespView,
)
    requires
        0 <= i < entries.len(),
        forall|j: int| 0 <= j < i ==> !entry_applies(entries[j], req),
        entries[i] is Middleware,
        entry_applies(entries[i], req),
        entries[i]->Middleware_0.handler.outcome_of(req) == Err::<ReqView, RespView>(resp),
    ensures
        spec_dispatch(entries, req) == resp,
{
    lemma_skip_inert(entries, req, i);
    assert(entries.skip(i)[0] == entries[i]);
}

/// A rewriting middleware that is the first applying entry hands its
/// rewritten request — not the original — to the whole rest of the
/// pipeline.
pub proof fn lemma_rewrite_feeds_rest<H: RouteHandler, M: MiddlewareHandler>(
    entries: Seq<Pipeline<H, M>>,
    req: ReqView,
    i: int,
    rewritten: ReqView,
)
    requires
        0 <= i < entries.len(),
        forall|j: int| 0 <= j < i ==> !entry_applies(entries[j], req),
        entries[i] is Middleware,
        entry_applies(entries[i], req),
        entries[i]->Middleware_0.handler.outcome_of(req) == Ok::<ReqView, RespView>(rewritten),
    ensures
        spec_dispatch(entries, req) == spec_dispatch(entries.skip(i + 1), rewritten),
{
    lemma_skip_inert(entries, req, i);
    assert(entries.skip(i)[0] == entries[i]);
    assert(entries.skip(i).skip(1) =~= entries.skip(i + 1));
}

/// Walks the pipeline for one request and returns the single response, as
/// `spec_dispatch` describes.
#[verifier::loop_isolation(false)]
pub fn dispatch<H: RouteHandler, M: MiddlewareHandler>(
    pipeline: &Vec<Pipeline<H, M>>,
    request: Request,
) -> (resp: Response)
    ensures
        resp@ == spec_dispatch(pipeline@, request@),
{
    let ghost all = pipeline@;
    let ghost req0 = request@;
    let mut req = request;
    proof {
        assert(all.skip(0) =~= all);
    }
    let mut i: usize = 0;
    while i < pipeline.len()
        invariant
            i <= pipeline.len(),
            all == pipeline@,
            spec_dispatch(all, req0) == spec_dispatch(all.skip(i as int), req@),
        decreases pipeline.len() - i,
    {
        let ghost cur = req@;
        proof {
            assert(all.skip(i as int)[0] == all[i as int]);
            assert(all.skip(i as int).skip(1) =~= all.skip(i + 1));
        }
        match &pipeline[i] {
            Pipeline::Middleware(m) => {
                let matched = m.compare(req.path.as_str());
                if matched {
                    match m.handle(req) {
                        Ok(rewritten) => {
                            proof {
                                assert(m.handler.outcome_of(cur) == Ok::<
                                    ReqView,
                                    RespView,
                                >(rewritten@));
                                assert(spec_dispatch(all.skip(i as int), cur) == spec_dispatch(
                                    all.skip(i + 1),
                                    rewritten@,
                                ));
                            }
                            req = rewritten;
                        },
                        Err(resp) => {
                            proof {
                                assert(spec_dispatch(all.skip(i as int), cur) == resp@);
                            }
                            return resp;
                        },
                    }
                }
            },
            Pipeline::Route(r) => {
                if r.method() == req.method {
                    if r.compare(req.path.as_str()) {
                        let resp = r.handle(req);
                        proof {
                            assert(spec_dispatch(all.skip(i as int), cur) == resp@);
                        }
                        return resp;
                    }
                }
            },
        }
        i += 1;
    }
    proof {
        assert(all.skip(pipeline.len() as int).len() == 0);
    }
    Response::not_found()
}

} // verus!
