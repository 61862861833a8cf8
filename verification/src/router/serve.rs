//! Dispatch with handlers and middleware that are plain functions: the
//! router drives its own state machine and makes the calls itself.

use super::dispatch::{MiddlewareSite, RouteSite, Stage, Step, StepModel};
use super::Router;
use crate::http::{default_headers, Request, RequestModel, Response};
use vstd::prelude::*;

verus! {

impl<H, M> Router<H, M> {
    /// The middleware steps that a stage still has before it.
    pub open spec fn stage_budget(&self, stage: Stage) -> nat {
        match stage {
            Stage::Global(i) => if i < self.middlewares().len() {
                (self.middlewares().len() - i) as nat
            } else {
                0
            },
            Stage::Scan(_) => 0,
            Stage::Group(g, j) => if g < self.groups().len() && j
                < self.groups()[g as int].middlewares().len() {
                (self.groups()[g as int].middlewares().len() - j) as nat
            } else {
                0
            },
        }
    }

    /// Whether `later` comes after `earlier` in every dispatch.
    pub open spec fn stage_follows(&self, later: Stage, earlier: Stage) -> bool {
        self.stage_rank(later) < self.stage_rank(earlier) || (self.stage_rank(later)
            == self.stage_rank(earlier) && self.stage_budget(later) < self.stage_budget(earlier))
    }

    /// A step names only middleware and routes that the router has, and the
    /// stage after a middleware step that it names comes after the stage
    /// that the step was planned at.
    pub proof fn lemma_plan_sites(&self, stage: Stage, request: RequestModel)
        ensures
            match self.plan(stage, request) {
                StepModel::Middleware { site, request: passed } => {
                    &&& self.has_middleware(site)
                    &&& passed == request
                    &&& self.stage_follows(site.next_stage(), stage)
                },
                StepModel::Handler { route, .. } => self.has_route(route),
                StepModel::Done(_) => true,
            },
        decreases self.stage_rank(stage),
    {
        self.lemma_sizes();
        first_match_top(self, request);
        match stage {
            Stage::Global(i) => {
                if i >= self.middlewares().len() {
                    self.lemma_plan_sites(Stage::Scan(0), request);
                }
            },
            Stage::Scan(g) => {
                if g < self.groups().len() {
                    if self.groups()[g as int].applies_to(request.path) {
                        self.lemma_plan_sites(Stage::Group(g, 0), request);
                    } else {
                        self.lemma_plan_sites(Stage::Scan(g + 1), request);
                    }
                }
            },
            Stage::Group(g, j) => {
                if g < self.groups().len() {
                    let group = self.groups()[g as int];
                    if j >= group.middlewares().len() {
                        super::route::lemma_first_match(
                            group.routes(),
                            request.method,
                            request.path,
                            0,
                        );
                        if super::route::first_match(
                            group.routes(),
                            request.method,
                            request.path,
                            0,
                        ) is None {
                            self.lemma_plan_sites(Stage::Scan(g + 1), request);
                        }
                    }
                }
            },
        }
    }
}

/// Brings in what `first_match` promises of the top-level routes.
proof fn first_match_top<H, M>(router: &Router<H, M>, request: RequestModel)
    ensures
        router.top_level_step(request) matches StepModel::Handler { route, .. }
            ==> router.has_route(route),
{
    super::route::lemma_first_match(router.routes(), request.method, request.path, 0);
}

impl<H: Fn(Request) -> Response, M: Fn(Request) -> Result<Request, Response>> Router<H, M> {
    /// Every handler and every middleware step can be called on every
    /// request.
    pub open spec fn accepts_every_request(&self) -> bool {
        &&& forall|route: RouteSite, request: Request|
            self.has_route(route) ==> #[trigger] call_requires(self.handler(route), (request,))
        &&& forall|site: MiddlewareSite, request: Request|
            self.has_middleware(site) ==> #[trigger] call_requires(
                self.middleware(site),
                (request,),
            )
    }

    /// Whether `response` can be the response to `request` from `stage` on:
    /// whether the router's steps, with the results that the middleware and
    /// the handler they name can return, end in it.
    pub open spec fn responds_from(
        &self,
        stage: Stage,
        request: RequestModel,
        response: Response,
    ) -> bool
        decreases self.stage_rank(stage), self.stage_budget(stage),
    {
        match self.plan(stage, request) {
            StepModel::Done(answer) => response@ == answer && response.header_entries()
                == default_headers(),
            StepModel::Handler { route, request: handed } => exists|given: Request|
                given@ == handed && #[trigger] call_ensures(
                    self.handler(route),
                    (given,),
                    response,
                ),
            StepModel::Middleware { site, request: handed } => exists|
                given: Request,
                outcome: Result<Request, Response>,
            |
                given@ == handed && #[trigger] call_ensures(
                    self.middleware(site),
                    (given,),
                    outcome,
                ) && match outcome {
                    Ok(passed) => {
                        proof {
                            self.lemma_plan_sites(stage, request);
                        }
                        self.responds_from(site.next_stage(), passed@, response)
                    },
                    Err(answer) => answer == response,
                },
        }
    }

    /// Whether `response` can be the response to `request`.
    pub open spec fn responds(&self, request: RequestModel, response: Response) -> bool {
        self.responds_from(Stage::Global(0), request, response)
    }

    /// Finds the response to `request`: runs the global middleware, then
    /// the middleware and routes of the groups that apply, then the
    /// top-level routes, and answers 404 where no route takes the request.
    /// The first middleware step that returns a response ends dispatch with
    /// it.
    pub fn handle_request(&self, request: Request) -> (response: Response)
        requires
            self.accepts_every_request(),
        ensures
            self.responds(request@, response),
    {
        let ghost asked = request@;
        let ghost mut stage = Stage::Global(0);
        let ghost mut current = request@;
        let mut step = self.begin(request);
        loop
            invariant
                asked == request@,
                self.accepts_every_request(),
                step@ == self.plan(stage, current),
                step matches Step::Done(answer) ==> answer.header_entries() == default_headers(),
                forall|r: Response| #[trigger]
                    self.responds_from(stage, current, r) ==> self.responds_from(
                        Stage::Global(0),
                        asked,
                        r,
                    ),
            decreases self.stage_rank(stage), self.stage_budget(stage),
        {
            proof {
                self.lemma_plan_sites(stage, current);
            }
            match step {
                Step::Done(response) => {
                    assert(self.responds_from(stage, current, response));
                    return response;
                },
                Step::Handler { route, request: given } => {
                    let handler = self.handler_at(route).unwrap();
                    let response = handler(given);
                    assert(call_ensures(self.handler(route), (given,), response));
                    assert(self.responds_from(stage, current, response));
                    return response;
                },
                Step::Middleware { site, request: given } => {
                    let function = self.middleware_at(site).unwrap();
                    let outcome = function(given);
                    assert(call_ensures(self.middleware(site), (given,), outcome));
                    match outcome {
                        Ok(passed) => {
                            proof {
                                assert forall|r: Response| #[trigger]
                                    self.responds_from(
                                        site.next_stage(),
                                        passed@,
                                        r,
                                    ) implies self.responds_from(stage, current, r) by {
                                    assert(call_ensures(
                                        self.middleware(site),
                                        (given,),
                                        outcome,
                                    ));
                                }
                                assert forall|r: Response| #[trigger]
                                    self.responds_from(
                                        site.next_stage(),
                                        passed@,
                                        r,
                                    ) implies self.responds_from(Stage::Global(0), asked, r) by {
                                    assert(self.responds_from(stage, current, r));
                                }
                                stage = site.next_stage();
                                current = passed@;
                            }
                            step = self.resume(site, Ok(passed));
                        },
                        Err(answer) => {
                            assert(self.responds_from(stage, current, answer));
                            return answer;
                        },
                    }
                },
            }
        }
    }
}

} // verus!
